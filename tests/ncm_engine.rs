use concurrent_queue::ConcurrentQueue;
use ipoverusb::ncm_api::{
    NCMDatagram16, NCMDatagramPointerTable, NCMError, NCMTransferHeader, NcmApiManager, ToBytes,
};
use ipoverusb::queue::{EthFrame, UsbPacket};

struct Link {
    eth_rx: ConcurrentQueue<EthFrame>,
    eth_tx: ConcurrentQueue<EthFrame>,
    usb_rx: ConcurrentQueue<UsbPacket>,
    usb_tx: ConcurrentQueue<UsbPacket>,
}

fn link() -> Link {
    Link {
        eth_rx: ConcurrentQueue::bounded(2),
        eth_tx: ConcurrentQueue::bounded(2),
        usb_rx: ConcurrentQueue::bounded(4),
        usb_tx: ConcurrentQueue::bounded(8),
    }
}

fn tick(m: &mut NcmApiManager, l: &mut Link) {
    m.process_messages(&mut l.eth_rx, &mut l.eth_tx, &mut l.usb_rx, &mut l.usb_tx);
}

fn frame(bytes: &[u8]) -> EthFrame {
    let mut buf = [0u8; 576];
    buf[..bytes.len()].copy_from_slice(bytes);
    (bytes.len(), buf)
}

fn packet(bytes: &[u8]) -> UsbPacket {
    let mut buf = [0u8; 64];
    buf[..bytes.len()].copy_from_slice(bytes);
    (bytes.len(), buf)
}

fn drain_usb(q: &ConcurrentQueue<UsbPacket>) -> Vec<Vec<u8>> {
    let mut out = Vec::new();
    while let Ok((len, buf)) = q.pop() {
        out.push(buf[..len].to_vec());
    }
    out
}

fn drain_eth(q: &ConcurrentQueue<EthFrame>) -> Vec<Vec<u8>> {
    let mut out = Vec::new();
    while let Ok((len, buf)) = q.pop() {
        out.push(buf[..len].to_vec());
    }
    out
}

/// Runs TX ticks until the manager has emitted the whole NTB for the queued frame.
fn send_all(m: &mut NcmApiManager, l: &mut Link, ticks: usize) -> Vec<Vec<u8>> {
    for _ in 0..ticks {
        tick(m, l);
    }
    drain_usb(&l.usb_tx)
}

/// An NTB of `block_len` bytes with the given NDP entries and payloads.
fn build_ntb(seq: u16, block_len: usize, entries: &[(u16, u16)], payloads: &[(usize, &[u8])]) -> Vec<u8> {
    let mut ntb = vec![0u8; block_len];
    ntb[0..4].copy_from_slice(b"NCMH");
    ntb[4..6].copy_from_slice(&12u16.to_le_bytes());
    ntb[6..8].copy_from_slice(&seq.to_le_bytes());
    ntb[8..10].copy_from_slice(&(block_len as u16).to_le_bytes());
    ntb[10..12].copy_from_slice(&12u16.to_le_bytes());
    let ndp_len = 8 + 4 * (entries.len() + 1);
    ntb[12..16].copy_from_slice(b"NCM0");
    ntb[16..18].copy_from_slice(&(ndp_len as u16).to_le_bytes());
    for (k, (idx, len)) in entries.iter().enumerate() {
        let at = 20 + 4 * k;
        ntb[at..at + 2].copy_from_slice(&idx.to_le_bytes());
        ntb[at + 2..at + 4].copy_from_slice(&len.to_le_bytes());
    }
    for (at, bytes) in payloads {
        ntb[*at..*at + bytes.len()].copy_from_slice(bytes);
    }
    ntb
}

fn feed(m: &mut NcmApiManager, l: &mut Link, bytes: &[u8]) {
    for chunk in bytes.chunks(64) {
        l.usb_rx.push(packet(chunk)).unwrap();
        tick(m, l);
    }
}

fn pattern(n: usize, seed: u8) -> Vec<u8> {
    (0..n).map(|i| (i as u8).wrapping_mul(7).wrapping_add(seed)).collect()
}

#[test]
fn single_datagram_tx_of_arp_reply() {
    let mut m = NcmApiManager::new();
    let mut l = link();
    let f = pattern(42, 3);
    l.eth_tx.push(frame(&f)).unwrap();
    let pkts = send_all(&mut m, &mut l, 6);
    assert_eq!(pkts.len(), 2);
    let mut first = vec![
        0x4E, 0x43, 0x4D, 0x48, 0x0C, 0x00, 0x00, 0x00, 0x46, 0x00, 0x0C, 0x00, 0x4E, 0x43, 0x4D,
        0x30, 0x10, 0x00, 0x00, 0x00, 0x1C, 0x00, 0x2A, 0x00, 0x00, 0x00, 0x00, 0x00,
    ];
    first.extend_from_slice(&f[0..36]);
    assert_eq!(pkts[0], first);
    assert_eq!(pkts[1], f[36..42].to_vec());
}

#[test]
fn tx_ntb_decodes_back() {
    let mut m = NcmApiManager::new();
    let mut l = link();
    let f = pattern(200, 9);
    l.eth_tx.push(frame(&f)).unwrap();
    let pkts = send_all(&mut m, &mut l, 8);
    let ntb: Vec<u8> = pkts.concat();
    let h = NCMTransferHeader::try_from_bytes(&ntb).ok().unwrap();
    assert_eq!(h.signature, 0x484D434E);
    assert_eq!(h.blocklen as usize, 0x1C + 200);
    assert_eq!(h.ndpindex, 0x0C);
    let t = NCMDatagramPointerTable::try_from_bytes(&ntb[0x0C..]).ok().unwrap();
    assert_eq!(t.signature, 0x304D434E);
    assert_eq!(t.length, 0x10);
    assert_eq!(t.datagrams, vec![NCMDatagram16 { index: 0x1C, length: 200 }]);
    assert_eq!(ntb[0x18..0x1C].to_vec(), vec![0, 0, 0, 0]);
    assert_eq!(ntb[0x1C..].to_vec(), f);
}

#[test]
fn tx_sequence_numbers_are_consecutive() {
    let mut m = NcmApiManager::new();
    let mut l = link();
    let mut seqs = Vec::new();
    for k in 0..3u8 {
        l.eth_tx.push(frame(&pattern(50, k))).unwrap();
        let pkts = send_all(&mut m, &mut l, 6);
        let ntb: Vec<u8> = pkts.concat();
        seqs.push(u16::from_le_bytes([ntb[6], ntb[7]]));
    }
    assert_eq!(seqs, vec![0, 1, 2]);
}

#[test]
fn tx_chunks_and_zlp_when_block_is_multiple_of_64() {
    let mut m = NcmApiManager::new();
    let mut l = link();
    // 28 + 100 = 128 bytes: two full packets, then a zero-length packet.
    l.eth_tx.push(frame(&pattern(100, 1))).unwrap();
    let pkts = send_all(&mut m, &mut l, 6);
    let lens: Vec<usize> = pkts.iter().map(|p| p.len()).collect();
    assert_eq!(lens, vec![64, 64, 0]);
    assert_eq!(pkts.concat().len(), 128);
}

#[test]
fn tx_no_zlp_otherwise() {
    let mut m = NcmApiManager::new();
    let mut l = link();
    l.eth_tx.push(frame(&pattern(300, 2))).unwrap();
    let pkts = send_all(&mut m, &mut l, 10);
    let lens: Vec<usize> = pkts.iter().map(|p| p.len()).collect();
    assert_eq!(lens, vec![64, 64, 64, 64, 64, 8]);
    assert!(pkts.iter().all(|p| p.len() <= 64));
}

#[test]
fn tx_small_ntb_goes_as_one_packet() {
    let mut m = NcmApiManager::new();
    let mut l = link();
    // 28 + 36 = 64 bytes: one full packet, then a zero-length packet.
    let f = pattern(36, 5);
    l.eth_tx.push(frame(&f)).unwrap();
    let pkts = send_all(&mut m, &mut l, 6);
    let lens: Vec<usize> = pkts.iter().map(|p| p.len()).collect();
    assert_eq!(lens, vec![64, 0]);
    assert_eq!(pkts[0][28..].to_vec(), f);
    // 28 + 10 = 38 bytes: one short packet.
    l.eth_tx.push(frame(&pattern(10, 6))).unwrap();
    let pkts = send_all(&mut m, &mut l, 6);
    let lens: Vec<usize> = pkts.iter().map(|p| p.len()).collect();
    assert_eq!(lens, vec![38]);
}

#[test]
fn tx_waits_while_usb_queue_is_full() {
    let mut m = NcmApiManager::new();
    let mut l = link();
    l.usb_tx = ConcurrentQueue::bounded(1);
    l.usb_tx.push(packet(&[9])).unwrap();
    l.eth_tx.push(frame(&pattern(42, 0))).unwrap();
    for _ in 0..4 {
        tick(&mut m, &mut l);
    }
    assert_eq!(l.usb_tx.len(), 1);
    assert_eq!(l.usb_tx.pop().unwrap().0, 1);
    tick(&mut m, &mut l);
    assert_eq!(l.usb_tx.pop().unwrap().0, 64);
}

#[test]
fn rx_tcp_syn_split_across_two_packets() {
    let mut m = NcmApiManager::new();
    let mut l = link();
    let f = pattern(100, 11);
    let ntb = build_ntb(7, 128, &[(0x1C, 100)], &[(0x1C, &f)]);
    l.usb_rx.push(packet(&ntb[0..64])).unwrap();
    tick(&mut m, &mut l);
    assert!(l.eth_rx.is_empty());
    l.usb_rx.push(packet(&ntb[64..128])).unwrap();
    tick(&mut m, &mut l);
    assert_eq!(drain_eth(&l.eth_rx), vec![f]);
}

#[test]
fn rx_multi_datagram_ntb() {
    let mut m = NcmApiManager::new();
    let mut l = link();
    let a = pattern(60, 1);
    let b = pattern(80, 2);
    let ntb = build_ntb(0, 0xE0, &[(0x20, 60), (0x60, 80)], &[(0x20, &a), (0x60, &b)]);
    feed(&mut m, &mut l, &ntb);
    assert_eq!(drain_eth(&l.eth_rx), vec![a, b]);
}

#[test]
fn rx_drops_on_full_eth_queue_and_recovers() {
    let mut m = NcmApiManager::new();
    let mut l = link();
    l.eth_rx.push(frame(&[1])).unwrap();
    l.eth_rx.push(frame(&[2])).unwrap();
    let a = pattern(60, 1);
    let b = pattern(80, 2);
    let ntb = build_ntb(0, 0xE0, &[(0x20, 60), (0x60, 80)], &[(0x20, &a), (0x60, &b)]);
    feed(&mut m, &mut l, &ntb);
    assert_eq!(m.rx_dropped(), 2);
    assert_eq!(drain_eth(&l.eth_rx), vec![vec![1], vec![2]]);
    let c = pattern(30, 4);
    let next = build_ntb(1, 0x1C + 30, &[(0x1C, 30)], &[(0x1C, &c)]);
    feed(&mut m, &mut l, &next);
    assert_eq!(drain_eth(&l.eth_rx), vec![c]);
    assert_eq!(m.rx_dropped(), 2);
}

#[test]
fn rx_ignores_stray_and_bad_packets() {
    let mut m = NcmApiManager::new();
    let mut l = link();
    l.usb_rx.push(packet(&[])).unwrap();
    l.usb_rx.push(packet(&[0x4E, 0x43, 0x4D])).unwrap();
    let mut bad = build_ntb(0, 64, &[(0x1C, 10)], &[]);
    bad[3] = b'X';
    l.usb_rx.push(packet(&bad)).unwrap();
    let mut huge = build_ntb(0, 64, &[(0x1C, 10)], &[]);
    huge[8..10].copy_from_slice(&4096u16.to_le_bytes());
    l.usb_rx.push(packet(&huge)).unwrap();
    tick(&mut m, &mut l);
    assert!(l.eth_rx.is_empty());
    let c = pattern(20, 8);
    feed(&mut m, &mut l, &build_ntb(0, 48, &[(0x1C, 20)], &[(0x1C, &c)]));
    assert_eq!(drain_eth(&l.eth_rx), vec![c]);
}

#[test]
fn rx_skips_out_of_range_and_oversized_datagrams() {
    let mut m = NcmApiManager::new();
    let mut l = link();
    let c = pattern(16, 6);
    let ntb = build_ntb(0, 0x60, &[(0x50, 0x40), (0x30, 16), (0x20, 600)], &[(0x30, &c)]);
    feed(&mut m, &mut l, &ntb);
    assert_eq!(drain_eth(&l.eth_rx), vec![c]);
    assert_eq!(m.rx_dropped(), 2);
}

#[test]
fn round_trip_through_loopback() {
    for len in [1usize, 36, 37, 100, 500, 576] {
        let mut tx = NcmApiManager::new();
        let mut rx = NcmApiManager::new();
        let mut a = link();
        let mut b = link();
        let f = pattern(len, len as u8);
        a.eth_tx.push(frame(&f)).unwrap();
        for _ in 0..16 {
            tick(&mut tx, &mut a);
            while let Ok(p) = a.usb_tx.pop() {
                b.usb_rx.push(p).unwrap();
                tick(&mut rx, &mut b);
            }
        }
        assert_eq!(drain_eth(&b.eth_rx), vec![f]);
    }
}

#[test]
fn header_codec() {
    let h = NCMTransferHeader { signature: 0x484D434E, headerlen: 12, sequence: 0x1234, blocklen: 0x46, ndpindex: 12 };
    let bytes = h.conv_to_bytes();
    assert_eq!(bytes, vec![0x4E, 0x43, 0x4D, 0x48, 0x0C, 0x00, 0x34, 0x12, 0x46, 0x00, 0x0C, 0x00]);
    assert_eq!(NCMTransferHeader::try_from_bytes(&bytes), Ok(h));
    assert_eq!(NCMTransferHeader::try_from_bytes(&bytes[0..11]), Err(NCMError::SizeError));
    let mut bad = bytes.clone();
    bad[0] = 0;
    assert_eq!(NCMTransferHeader::try_from_bytes(&bad), Err(NCMError::InvalidSignature));
    let d = NCMTransferHeader::default();
    assert_eq!((d.headerlen, d.sequence, d.blocklen, d.ndpindex), (12, 0, 0, 12));
}

#[test]
fn table_codec() {
    let mut t = NCMDatagramPointerTable::default();
    t.datagrams.push(NCMDatagram16 { index: 0x1C, length: 0x2A });
    t.datagrams.push(NCMDatagram16 { index: 0, length: 0 });
    let bytes = t.conv_to_bytes();
    assert_eq!(
        bytes,
        vec![0x4E, 0x43, 0x4D, 0x30, 0x10, 0x00, 0x00, 0x00, 0x1C, 0x00, 0x2A, 0x00, 0x00, 0x00, 0x00, 0x00]
    );
    let back = NCMDatagramPointerTable::try_from_bytes(&bytes).ok().unwrap();
    assert_eq!(back.datagrams, vec![NCMDatagram16 { index: 0x1C, length: 0x2A }]);
    assert_eq!(NCMDatagramPointerTable::try_from_bytes(&bytes[0..7]).err(), Some(NCMError::SizeError));
    assert_eq!(NCMDatagramPointerTable::try_from_bytes(&bytes[0..12]).err(), Some(NCMError::SizeError));
    let mut bad = bytes.clone();
    bad[3] = b'H';
    assert_eq!(NCMDatagramPointerTable::try_from_bytes(&bad).err(), Some(NCMError::InvalidSignature));
    let mut odd = bytes.clone();
    odd[4] = 0x0E;
    assert_eq!(NCMDatagramPointerTable::try_from_bytes(&odd).err(), Some(NCMError::SizeError));
}

#[test]
fn process_ndp_reports_bad_table() {
    let mut m = NcmApiManager::new();
    assert_eq!(m.process_ndp(), Err(NCMError::SizeError));
}

#[test]
fn restart_rx_abandons_partial_ntb() {
    let mut m = NcmApiManager::new();
    let mut l = link();
    let f = pattern(100, 3);
    let ntb = build_ntb(0, 128, &[(0x1C, 100)], &[(0x1C, &f)]);
    l.usb_rx.push(packet(&ntb[0..64])).unwrap();
    tick(&mut m, &mut l);
    m.restart_rx();
    let g = pattern(40, 4);
    feed(&mut m, &mut l, &build_ntb(1, 0x1C + 40, &[(0x1C, 40)], &[(0x1C, &g)]));
    assert_eq!(drain_eth(&l.eth_rx), vec![g]);
}

#[test]
fn table_signature_checked_before_length() {
    assert_eq!(NCMDatagramPointerTable::try_from_bytes(&[0u8; 5]).err(), Some(NCMError::InvalidSignature));
    assert_eq!(NCMDatagramPointerTable::try_from_bytes(&[0u8; 3]).err(), Some(NCMError::SizeError));
    assert_eq!(NCMDatagramPointerTable::try_from_bytes(b"NCM0\x10\x00").err(), Some(NCMError::SizeError));
}

#[test]
fn tx_drops_empty_frame() {
    let mut m = NcmApiManager::new();
    let mut l = link();
    l.eth_tx.push(frame(&[])).unwrap();
    let pkts = send_all(&mut m, &mut l, 4);
    assert!(pkts.is_empty());
    assert!(l.eth_tx.is_empty());
    l.eth_tx.push(frame(&pattern(10, 1))).unwrap();
    let pkts = send_all(&mut m, &mut l, 4);
    assert_eq!(u16::from_le_bytes([pkts[0][6], pkts[0][7]]), 0);
}

#[test]
fn tx_respects_host_ntb_size() {
    let mut m = NcmApiManager::new();
    let mut l = link();
    m.set_max_ntb_size(0x1C + 40);
    l.eth_tx.push(frame(&pattern(41, 1))).unwrap();
    assert!(send_all(&mut m, &mut l, 4).is_empty());
    l.eth_tx.push(frame(&pattern(40, 2))).unwrap();
    let pkts = send_all(&mut m, &mut l, 4);
    assert_eq!(pkts.concat().len(), 0x1C + 40);
    m.set_max_ntb_size(100_000);
    l.eth_tx.push(frame(&pattern(576, 3))).unwrap();
    let mut pkts = Vec::new();
    for _ in 0..14 {
        pkts.extend(send_all(&mut m, &mut l, 1));
    }
    assert_eq!(pkts.concat().len(), 0x1C + 576);
}
