//! NCM transfer blocks: the NTH16 / NDP16 codec, and the engine that reassembles
//! blocks arriving as USB packets (RX) and segments outgoing Ethernet frames
//! into USB packets (TX).

use vstd::prelude::*;
use concurrent_queue::ConcurrentQueue;
use crate::queue::{
    UsbPacket, EthFrame, EP_DATA_BUF_SIZE, MTU, usb_items, usb_cap, usb_closed, usb_queue_push,
    usb_queue_pop, eth_items, eth_cap, eth_closed, eth_queue_push, eth_queue_pop,
};

verus! {

/// Largest NTB the device accepts from the host.
pub const NCM_MAX_IN_SIZE: usize = 2048;

/// Largest NTB the device sends to the host.
pub const NCM_MAX_OUT_SIZE: usize = 2048;

/// `"NCMH"` read as a little-endian `u32`.
pub const NTH16_SIGNATURE: u32 = 0x484D434E;

/// `"NCM0"` read as a little-endian `u32`.
pub const NDP16_SIGNATURE: u32 = 0x304D434E;

/// Size of an encoded NTH16.
pub const NTH16_SIZE: usize = 12;

/// Offset of the payload in a single-datagram NTB: NTH16 plus a one-entry NDP16.
pub const TOTAL_HEADER_SIZE: usize = 0x1C;

/// Little-endian encoding of a `u16`.
pub open spec fn le16(v: u16) -> Seq<u8> {
    seq![(v % 256) as u8, (v / 256) as u8]
}

/// Little-endian encoding of a `u32`.
pub open spec fn le32(v: u32) -> Seq<u8> {
    seq![(v % 256) as u8, ((v / 256) % 256) as u8, ((v / 65536) % 256) as u8, (v / 16777216) as u8]
}

/// The `u16` stored little-endian at `b[i..i + 2]`.
pub open spec fn read16(b: Seq<u8>, i: int) -> u16 {
    (b[i] as int + 256 * (b[i + 1] as int)) as u16
}

/// The `u32` stored little-endian at `b[i..i + 4]`.
pub open spec fn read32(b: Seq<u8>, i: int) -> u32 {
    (b[i] as int + 256 * (b[i + 1] as int) + 65536 * (b[i + 2] as int) + 16777216 * (b[i + 3] as int)) as u32
}

/// Errors of the NCM codec.
#[derive(Debug, Clone, Copy, PartialEq, Eq, Structural)]
pub enum NCMError {
    TryFromSliceError,
    /// A signature field does not hold the expected value.
    InvalidSignature,
    ArrayError,
    /// A buffer is too short for what it must hold, or a length field is inconsistent.
    SizeError,
    RXError,
    TXError,
}

/// Serialisation of a wire structure to its little-endian bytes.
pub trait ToBytes {
    spec fn spec_to_bytes(&self) -> Seq<u8>;

    fn conv_to_bytes(&self) -> (r: Vec<u8>)
        ensures
            r@ == self.spec_to_bytes(),
    ;
}

/// NTB header, 16-bit format (NTH16).
#[derive(Debug, Clone, Copy, PartialEq, Eq, Structural)]
pub struct NCMTransferHeader {
    pub signature: u32,
    pub headerlen: u16,
    pub sequence: u16,
    pub blocklen: u16,
    pub ndpindex: u16,
}

impl Default for NCMTransferHeader {
    fn default() -> (r: Self)
        ensures
            r == (NCMTransferHeader {
                signature: NTH16_SIGNATURE,
                headerlen: 0x0c,
                sequence: 0,
                blocklen: 0,
                ndpindex: 0x0c,
            }),
    {
        NCMTransferHeader {
            signature: NTH16_SIGNATURE,
            headerlen: 0x000c,
            sequence: 0,
            blocklen: 0,
            ndpindex: 0x0c,
        }
    }
}

/// Appends the little-endian bytes of `x`.
fn push_le16(v: &mut Vec<u8>, x: u16)
    ensures
        final(v)@ == old(v)@ + le16(x),
{
    v.push((x % 256) as u8);
    v.push((x / 256) as u8);
    assert(final(v)@ =~= old(v)@ + le16(x));
}

/// Appends the little-endian bytes of `x`.
fn push_le32(v: &mut Vec<u8>, x: u32)
    ensures
        final(v)@ == old(v)@ + le32(x),
{
    v.push((x % 256) as u8);
    v.push(((x / 256) % 256) as u8);
    v.push(((x / 65536) % 256) as u8);
    v.push((x / 16777216) as u8);
    assert(final(v)@ =~= old(v)@ + le32(x));
}

/// The `u16` stored little-endian at `b[i..i + 2]`.
fn get16(b: &[u8], i: usize) -> (r: u16)
    requires
        i + 2 <= b@.len(),
    ensures
        r == read16(b@, i as int),
{
    b[i] as u16 + (b[i + 1] as u16) * 256
}

/// The `u32` stored little-endian at `b[i..i + 4]`.
fn get32(b: &[u8], i: usize) -> (r: u32)
    requires
        i + 4 <= b@.len(),
    ensures
        r == read32(b@, i as int),
{
    b[i] as u32 + (b[i + 1] as u32) * 256 + (b[i + 2] as u32) * 65536 + (b[i + 3] as u32) * 16777216
}

impl ToBytes for NCMTransferHeader {
    open spec fn spec_to_bytes(&self) -> Seq<u8> {
        le32(self.signature) + le16(self.headerlen) + le16(self.sequence) + le16(self.blocklen)
            + le16(self.ndpindex)
    }

    fn conv_to_bytes(&self) -> (r: Vec<u8>) {
        let mut bytes: Vec<u8> = Vec::new();
        push_le32(&mut bytes, self.signature);
        push_le16(&mut bytes, self.headerlen);
        push_le16(&mut bytes, self.sequence);
        push_le16(&mut bytes, self.blocklen);
        push_le16(&mut bytes, self.ndpindex);
        bytes
    }
}

/// What decoding `b` as an NTH16 gives.
pub open spec fn parse_nth16(b: Seq<u8>) -> Result<NCMTransferHeader, NCMError> {
    if b.len() < NTH16_SIZE {
        Err(NCMError::SizeError)
    } else if read32(b, 0) != NTH16_SIGNATURE {
        Err(NCMError::InvalidSignature)
    } else {
        Ok(NCMTransferHeader {
            signature: read32(b, 0),
            headerlen: read16(b, 4),
            sequence: read16(b, 6),
            blocklen: read16(b, 8),
            ndpindex: read16(b, 10),
        })
    }
}

impl NCMTransferHeader {
    /// Decodes the NTH16 at the start of `b`.
    pub fn try_from_bytes(b: &[u8]) -> (r: Result<NCMTransferHeader, NCMError>)
        ensures
            r == parse_nth16(b@),
    {
        if b.len() < NTH16_SIZE {
            return Err(NCMError::SizeError);
        }
        let signature = get32(b, 0);
        if signature != NTH16_SIGNATURE {
            return Err(NCMError::InvalidSignature);
        }
        Ok(NCMTransferHeader {
            signature,
            headerlen: get16(b, 4),
            sequence: get16(b, 6),
            blocklen: get16(b, 8),
            ndpindex: get16(b, 10),
        })
    }
}

/// One datagram entry of an NDP16: where the frame starts in the NTB, and its length.
#[derive(Debug, Clone, Copy, Default, PartialEq, Eq, Structural)]
pub struct NCMDatagram16 {
    pub index: u16,
    pub length: u16,
}

/// Datagram pointer table, 16-bit format (NDP16).
#[derive(Debug, Clone)]
pub struct NCMDatagramPointerTable {
    pub signature: u32,
    pub length: u16,
    pub nextndpindex: u16,
    pub datagrams: Vec<NCMDatagram16>,
}

impl Default for NCMDatagramPointerTable {
    fn default() -> (r: Self)
        ensures
            r.signature == NDP16_SIGNATURE,
            r.length == 0x10,
            r.nextndpindex == 0,
            r.datagrams@ == Seq::<NCMDatagram16>::empty(),
    {
        NCMDatagramPointerTable {
            signature: NDP16_SIGNATURE,
            length: 0x10,
            nextndpindex: 0,
            datagrams: Vec::new(),
        }
    }
}

/// The encoded entries, each as `index` then `length`.
pub open spec fn entries_bytes(s: Seq<NCMDatagram16>) -> Seq<u8>
    decreases s.len(),
{
    if s.len() == 0 {
        Seq::empty()
    } else {
        entries_bytes(s.drop_last()) + le16(s.last().index) + le16(s.last().length)
    }
}

impl ToBytes for NCMDatagramPointerTable {
    open spec fn spec_to_bytes(&self) -> Seq<u8> {
        le32(self.signature) + le16(self.length) + le16(self.nextndpindex) + entries_bytes(
            self.datagrams@,
        )
    }

    fn conv_to_bytes(&self) -> (r: Vec<u8>) {
        let mut bytes: Vec<u8> = Vec::new();
        push_le32(&mut bytes, self.signature);
        push_le16(&mut bytes, self.length);
        push_le16(&mut bytes, self.nextndpindex);
        let ghost head = bytes@;
        let n = self.datagrams.len();
        let mut i: usize = 0;
        while i < n
            invariant
                n == self.datagrams@.len(),
                i <= n,
                bytes@ == head + entries_bytes(self.datagrams@.take(i as int)),
            decreases n - i,
        {
            let d = self.datagrams[i];
            push_le16(&mut bytes, d.index);
            push_le16(&mut bytes, d.length);
            assert(self.datagrams@.take(i + 1).drop_last() =~= self.datagrams@.take(i as int));
            i = i + 1;
        }
        assert(self.datagrams@.take(n as int) =~= self.datagrams@);
        bytes
    }
}

/// The `k`-th entry of the NDP16 encoded in `b`.
pub open spec fn entry_at(b: Seq<u8>, k: int) -> NCMDatagram16 {
    NCMDatagram16 { index: read16(b, 8 + 4 * k), length: read16(b, 10 + 4 * k) }
}

/// All entries of the NDP16 encoded in `b` whose table is `length` bytes long,
/// the zero-length sentinel included.
pub open spec fn ndp16_raw_entries(b: Seq<u8>, length: int) -> Seq<NCMDatagram16> {
    Seq::new(((length - 8) / 4) as nat, |k: int| entry_at(b, k))
}

/// The entries of `s` that describe a datagram (length not zero), in order.
pub open spec fn nonzero_entries(s: Seq<NCMDatagram16>) -> Seq<NCMDatagram16>
    decreases s.len(),
{
    if s.len() == 0 {
        Seq::empty()
    } else if s.last().length != 0 {
        nonzero_entries(s.drop_last()).push(s.last())
    } else {
        nonzero_entries(s.drop_last())
    }
}

/// Why `b` does not decode as an NDP16, or `None` when it does.
pub open spec fn ndp16_error(b: Seq<u8>) -> Option<NCMError> {
    if b.len() < 4 {
        Some(NCMError::SizeError)
    } else if read32(b, 0) != NDP16_SIGNATURE {
        Some(NCMError::InvalidSignature)
    } else if b.len() < 8 {
        Some(NCMError::SizeError)
    } else if read16(b, 4) < 8 || read16(b, 4) > b.len() || (read16(b, 4) - 8) % 4 != 0 {
        Some(NCMError::SizeError)
    } else {
        None
    }
}

/// The datagram entries that decoding `b` as an NDP16 yields.
pub open spec fn ndp16_datagrams(b: Seq<u8>) -> Seq<NCMDatagram16> {
    nonzero_entries(ndp16_raw_entries(b, read16(b, 4) as int))
}

impl NCMDatagramPointerTable {
    /// Decodes the NDP16 at the start of `b`. The table must lie within `b`; its
    /// zero-length entries are left out of `datagrams`.
    pub fn try_from_bytes(b: &[u8]) -> (r: Result<NCMDatagramPointerTable, NCMError>)
        ensures
            r is Ok <==> ndp16_error(b@) is None,
            r matches Err(e) ==> ndp16_error(b@) == Some(e),
            r matches Ok(t) ==> t.signature == NDP16_SIGNATURE && t.length == read16(b@, 4)
                && t.nextndpindex == read16(b@, 6) && t.datagrams@ == ndp16_datagrams(b@),
    {
        if b.len() < 4 {
            return Err(NCMError::SizeError);
        }
        let signature = get32(b, 0);
        if signature != NDP16_SIGNATURE {
            return Err(NCMError::InvalidSignature);
        }
        if b.len() < 8 {
            return Err(NCMError::SizeError);
        }
        let length = get16(b, 4);
        let nextndpindex = get16(b, 6);
        if length < 8 || length as usize > b.len() || (length - 8) % 4 != 0 {
            return Err(NCMError::SizeError);
        }
        let ghost raw = ndp16_raw_entries(b@, length as int);
        let n: usize = ((length - 8) / 4) as usize;
        assert(8 + 4 * n <= length);
        let blen = b.len();
        let mut datagrams: Vec<NCMDatagram16> = Vec::new();
        let mut k: usize = 0;
        while k < n
            invariant
                n == raw.len(),
                raw == ndp16_raw_entries(b@, length as int),
                8 + 4 * n <= blen,
                blen == b@.len(),
                k <= n,
                datagrams@ == nonzero_entries(raw.take(k as int)),
            decreases n - k,
        {
            assert(8 + 4 * k + 4 <= 8 + 4 * n) by (nonlinear_arith)
                requires
                    k < n,
            ;
            let d = NCMDatagram16 { index: get16(b, 8 + 4 * k), length: get16(b, 10 + 4 * k) };
            assert(d == raw[k as int]);
            assert(raw.take(k + 1).drop_last() =~= raw.take(k as int));
            if d.length != 0 {
                datagrams.push(d);
            }
            k = k + 1;
        }
        assert(raw.take(n as int) =~= raw);
        Ok(NCMDatagramPointerTable { signature, length, nextndpindex, datagrams })
    }
}

/// The NTH16 of the single-datagram NTB that carries `len` payload bytes.
pub open spec fn tx_header(seq: u16, len: nat) -> NCMTransferHeader {
    NCMTransferHeader {
        signature: NTH16_SIGNATURE,
        headerlen: 0x0c,
        sequence: seq,
        blocklen: (TOTAL_HEADER_SIZE + len) as u16,
        ndpindex: 0x0c,
    }
}

/// The entries of the NDP16 of a single-datagram NTB: the datagram, then the sentinel.
pub open spec fn tx_entries(len: nat) -> Seq<NCMDatagram16> {
    seq![
        NCMDatagram16 { index: TOTAL_HEADER_SIZE as u16, length: len as u16 },
        NCMDatagram16 { index: 0, length: 0 },
    ]
}

/// The encoded NDP16 of a single-datagram NTB.
pub open spec fn tx_table_bytes(len: nat) -> Seq<u8> {
    le32(NDP16_SIGNATURE) + le16(0x10) + le16(0) + entries_bytes(tx_entries(len))
}

/// The NTB that the TX path builds for `frame` under sequence number `seq`.
pub open spec fn tx_ntb(seq: u16, frame: Seq<u8>) -> Seq<u8> {
    tx_header(seq, frame.len()).spec_to_bytes() + tx_table_bytes(frame.len()) + frame
}

/// `s` cut into USB packets of at most 64 bytes, in order.
pub open spec fn chunks(s: Seq<u8>) -> Seq<Seq<u8>>
    decreases s.len(),
{
    if s.len() == 0 {
        Seq::empty()
    } else if s.len() <= EP_DATA_BUF_SIZE {
        seq![s]
    } else {
        seq![s.take(EP_DATA_BUF_SIZE as int)] + chunks(s.skip(EP_DATA_BUF_SIZE as int))
    }
}

/// The zero-length packet that ends a transfer of `ntb`, when its length is a
/// multiple of the packet size.
pub open spec fn zlp(ntb: Seq<u8>) -> Seq<Seq<u8>> {
    if ntb.len() % (EP_DATA_BUF_SIZE as nat) == 0 {
        seq![Seq::<u8>::empty()]
    } else {
        Seq::empty()
    }
}

/// The USB packets, in order, in which the TX path sends `ntb`: chunks of at
/// most 64 bytes, and a zero-length packet when the last chunk is full.
pub open spec fn tx_packets(ntb: Seq<u8>) -> Seq<Seq<u8>> {
    chunks(ntb) + zlp(ntb)
}

/// Whether `p` starts an NTB that the RX path accepts: a complete NTH16 with the
/// right signature and a block length between the header size and the buffer size.
pub open spec fn starts_ntb(p: Seq<u8>) -> bool {
    &&& parse_nth16(p) is Ok
    &&& NTH16_SIZE <= parse_nth16(p)->Ok_0.blocklen <= NCM_MAX_IN_SIZE
}

/// Why the NDP16 at `ndp` in `ntb` does not decode, or `None` when it does.
pub open spec fn ntb_table_error(ntb: Seq<u8>, ndp: nat) -> Option<NCMError> {
    if ndp > ntb.len() {
        Some(NCMError::SizeError)
    } else {
        ndp16_error(ntb.skip(ndp as int))
    }
}

/// The datagram entries of the NDP16 at `ndp` in `ntb`.
pub open spec fn ntb_datagrams(ntb: Seq<u8>, ndp: nat) -> Seq<NCMDatagram16> {
    ndp16_datagrams(ntb.skip(ndp as int))
}

/// Whether the datagram `d` can be delivered from `ntb`: it lies within the NTB
/// and fits an Ethernet frame buffer.
pub open spec fn frame_fits(ntb: Seq<u8>, d: NCMDatagram16) -> bool {
    d.length <= MTU && d.index + d.length <= ntb.len()
}

/// A datagram of a received NTB: its frame, or `None` when its entry does not
/// fit (it is dropped and counted).
pub type Datagram = Option<Seq<u8>>;

/// The datagrams that the entries `ds` designate in `ntb`, in order.
pub open spec fn datagram_frames(ntb: Seq<u8>, ds: Seq<NCMDatagram16>) -> Seq<Datagram>
    decreases ds.len(),
{
    if ds.len() == 0 {
        Seq::empty()
    } else if frame_fits(ntb, ds.last()) {
        datagram_frames(ntb, ds.drop_last()).push(
            Some(ntb.subrange(ds.last().index as int, ds.last().index + ds.last().length)),
        )
    } else {
        datagram_frames(ntb, ds.drop_last()).push(None)
    }
}

/// The datagrams that a complete NTB carries, in NDP order.
pub open spec fn ntb_frames(ntb: Seq<u8>, ndp: nat) -> Seq<Datagram> {
    if ntb_table_error(ntb, ndp) is Some {
        Seq::empty()
    } else {
        datagram_frames(ntb, ntb_datagrams(ntb, ndp))
    }
}

/// One step of the RX machine on the packet `p`: the next state, and the frames
/// of the NTB that `p` completes.
pub open spec fn rx_step(v: RxView, p: Seq<u8>) -> (RxView, Seq<Datagram>) {
    if v.phase == IpRxState::AwaitHeader {
        if !starts_ntb(p) {
            (rx_idle(), Seq::empty())
        } else {
            let h = parse_nth16(p)->Ok_0;
            let bl = h.blocklen as nat;
            let b = if p.len() <= bl { p } else { p.take(bl as int) };
            if b.len() == bl {
                (rx_idle(), ntb_frames(b, h.ndpindex as nat))
            } else {
                (
                    RxView {
                        phase: IpRxState::CopyEntireMsg,
                        block_len: bl,
                        ndp_index: h.ndpindex as nat,
                        bytes: b,
                    },
                    Seq::empty(),
                )
            }
        }
    } else {
        let need = v.block_len - v.bytes.len();
        let b = if p.len() <= need { v.bytes + p } else { v.bytes + p.take(need) };
        if b.len() == v.block_len {
            (rx_idle(), ntb_frames(b, v.ndp_index))
        } else {
            (RxView { bytes: b, ..v }, Seq::empty())
        }
    }
}

/// The RX machine run from `v` over the packets `ps`: the final state and all
/// frames delivered on the way, in order.
pub open spec fn rx_run(v: RxView, ps: Seq<Seq<u8>>) -> (RxView, Seq<Datagram>)
    decreases ps.len(),
{
    if ps.len() == 0 {
        (v, Seq::empty())
    } else {
        let (v1, f1) = rx_run(v, ps.drop_last());
        let (v2, f2) = rx_step(v1, ps.last());
        (v2, f1 + f2)
    }
}

/// The frames of a frame queue.
pub open spec fn frames_of(items: Seq<EthFrame>) -> Seq<Seq<u8>> {
    items.map_values(|f: EthFrame| frame_bytes(f))
}

/// The bytes of the packets of a packet queue.
pub open spec fn packets_of(items: Seq<UsbPacket>) -> Seq<Seq<u8>> {
    items.map_values(|p: UsbPacket| packet_bytes(p))
}

/// The queue `q` (of capacity `cap`, closed or not) after offering it the
/// datagrams `frames` one by one; a frame that finds it full or closed is
/// dropped, and so is a datagram that does not fit.
pub open spec fn deliver(q: Seq<Seq<u8>>, cap: nat, closed: bool, frames: Seq<Datagram>) -> Seq<
    Seq<u8>,
>
    decreases frames.len(),
{
    if frames.len() == 0 {
        q
    } else {
        let q1 = deliver(q, cap, closed, frames.drop_last());
        if frames.last() is Some && !closed && q1.len() < cap {
            q1.push(frames.last()->Some_0)
        } else {
            q1
        }
    }
}

/// How many of `frames` are dropped when offered to `q` one by one.
pub open spec fn undelivered(q: Seq<Seq<u8>>, cap: nat, closed: bool, frames: Seq<Datagram>) -> nat
    decreases frames.len(),
{
    if frames.len() == 0 {
        0
    } else {
        let q1 = deliver(q, cap, closed, frames.drop_last());
        undelivered(q, cap, closed, frames.drop_last()) + if frames.last() is Some && !closed
            && q1.len() < cap {
            0nat
        } else {
            1nat
        }
    }
}

/// `a + b`, saturating at `usize::MAX`.
pub open spec fn sat_add(a: nat, b: nat) -> nat {
    if a + b > usize::MAX {
        usize::MAX as nat
    } else {
        a + b
    }
}

/// Decoding an NTH16 reads its first twelve bytes only.
pub proof fn lemma_nth16_prefix(b: Seq<u8>, n: int)
    requires
        NTH16_SIZE <= n <= b.len(),
    ensures
        parse_nth16(b.take(n)) == parse_nth16(b),
{
    assert(b.take(n).subrange(0, 12) =~= b.subrange(0, 12));
    assert(forall|i: int| 0 <= i < 12 ==> b.take(n)[i] == b[i]);
}

/// Offering `a` and then `b` is offering `a + b`.
proof fn lemma_deliver_concat(q: Seq<Seq<u8>>, cap: nat, closed: bool, a: Seq<Datagram>, b: Seq<Datagram>)
    ensures
        deliver(q, cap, closed, a + b) == deliver(deliver(q, cap, closed, a), cap, closed, b),
        undelivered(q, cap, closed, a + b) == undelivered(q, cap, closed, a) + undelivered(
            deliver(q, cap, closed, a),
            cap,
            closed,
            b,
        ),
    decreases b.len(),
{
    if b.len() == 0 {
        assert(a + b =~= a);
    } else {
        lemma_deliver_concat(q, cap, closed, a, b.drop_last());
        assert((a + b).drop_last() =~= a + b.drop_last());
    }
}

/// State of the TX segmentation machine.
#[derive(Debug, Clone, Copy, PartialEq, Eq, Structural)]
pub enum IpTxState {
    Ready,
    Header,
    Sending,
    Zlp,
}

/// State of the RX reassembly machine.
#[derive(Debug, Clone, Copy, PartialEq, Eq, Structural)]
pub enum IpRxState {
    AwaitHeader,
    CopyEntireMsg,
}

/// What the TX machine holds: its state, the NTB in flight, how much of it has
/// been sent, the sequence number the next NTB will carry, and the largest NTB
/// the host accepts.
pub struct TxView {
    pub phase: IpTxState,
    pub ntb: Seq<u8>,
    pub sent: nat,
    pub next_seq: u16,
    /// The largest NTB the host accepts.
    pub max_ntb: nat,
}

/// The packets that the TX machine still owes for the NTB in flight.
pub open spec fn tx_pending(v: TxView) -> Seq<Seq<u8>> {
    match v.phase {
        IpTxState::Ready => Seq::empty(),
        IpTxState::Header => seq![v.ntb] + zlp(v.ntb),
        IpTxState::Sending => chunks(v.ntb.skip(v.sent as int)) + zlp(v.ntb),
        IpTxState::Zlp => zlp(v.ntb),
    }
}

/// Whether the TX machine in `v` sends a frame of `len` bytes: it is not
/// empty, fits a frame buffer, and its NTB fits what the host accepts.
pub open spec fn tx_accepts(v: TxView, len: nat) -> bool {
    1 <= len <= MTU && TOTAL_HEADER_SIZE + len <= v.max_ntb
}

/// One step of the TX machine from `v` to `w`, with the frame queue going from
/// `fq` to `fq2` and the packet queue (of capacity `ucap`) from `uq` to `uq2`.
pub open spec fn tx_tick(
    v: TxView,
    w: TxView,
    fq: Seq<EthFrame>,
    fq2: Seq<EthFrame>,
    uq: Seq<UsbPacket>,
    uq2: Seq<UsbPacket>,
    ucap: nat,
    uclosed: bool,
) -> bool {
    if v.phase == IpTxState::Ready {
        &&& uq2 == uq
        &&& (fq.len() == 0 ==> w == v && fq2 == fq)
        &&& (fq.len() > 0 ==> fq2 == fq.drop_first())
        &&& (fq.len() > 0 && !tx_accepts(v, fq[0].0 as nat) ==> w == v)
        &&& (fq.len() > 0 && tx_accepts(v, fq[0].0 as nat) ==> w == TxView {
            phase: if TOTAL_HEADER_SIZE + fq[0].0 <= EP_DATA_BUF_SIZE {
                IpTxState::Header
            } else {
                IpTxState::Sending
            },
            ntb: tx_ntb(v.next_seq, frame_bytes(fq[0])),
            sent: 0,
            next_seq: seq_after(v.next_seq),
            max_ntb: v.max_ntb,
        })
    } else {
        &&& fq2 == fq
        &&& w.next_seq == v.next_seq
        &&& w.max_ntb == v.max_ntb
        &&& w.ntb == v.ntb
        &&& (tx_pending(v).len() == 0 ==> w.phase == IpTxState::Ready && uq2 == uq)
        &&& (tx_pending(v).len() > 0 && (uclosed || uq.len() >= ucap) ==> w == v && uq2 == uq)
        &&& (tx_pending(v).len() > 0 && !uclosed && uq.len() < ucap ==> {
            &&& uq2.len() == uq.len() + 1
            &&& uq2.drop_last() == uq
            &&& uq2.last().0 <= EP_DATA_BUF_SIZE
            &&& packet_bytes(uq2.last()) == tx_pending(v)[0]
            &&& tx_pending(w) == tx_pending(v).drop_first()
        })
    }
}

/// The bytes of a USB packet (a length past the buffer stands for the whole buffer).
pub open spec fn packet_bytes(p: UsbPacket) -> Seq<u8> {
    if p.0 <= EP_DATA_BUF_SIZE {
        p.1@.take(p.0 as int)
    } else {
        p.1@
    }
}

/// The bytes of an Ethernet frame.
pub open spec fn frame_bytes(f: EthFrame) -> Seq<u8> {
    f.1@.take(f.0 as int)
}

/// Copies `src[0..n]` to `dst[at..at + n]`.
fn copy_range(dst: &mut Vec<u8>, at: usize, src: &[u8], n: usize)
    requires
        n <= src@.len(),
        at + n <= old(dst)@.len(),
    ensures
        final(dst)@ == old(dst)@.take(at as int) + src@.take(n as int) + old(dst)@.skip(
            (at + n) as int,
        ),
{
    let dlen = dst.len();
    let mut j: usize = 0;
    while j < n
        invariant
            n <= src@.len(),
            at + n <= dlen,
            dlen == old(dst)@.len(),
            dst@.len() == old(dst)@.len(),
            j <= n,
            forall|k: int| 0 <= k < at ==> dst@[k] == old(dst)@[k],
            forall|k: int| at + n <= k < dst@.len() ==> dst@[k] == old(dst)@[k],
            forall|k: int| 0 <= k < j ==> dst@[at + k] == src@[k],
        decreases n - j,
    {
        dst.set(at + j, src[j]);
        j = j + 1;
    }
    assert(dst@ =~= old(dst)@.take(at as int) + src@.take(n as int) + old(dst)@.skip((at + n) as int));
}

/// A frame that holds `buf[from..from + n]`.
fn make_frame(buf: &Vec<u8>, from: usize, n: usize) -> (r: EthFrame)
    requires
        n <= MTU,
        from + n <= buf@.len(),
    ensures
        r.0 == n,
        frame_bytes(r) == buf@.subrange(from as int, (from + n) as int),
{
    let mut frame: [u8; 576] = [0u8; 576];
    let blen = buf.len();
    let mut j: usize = 0;
    while j < n
        invariant
            n <= 576,
            from + n <= blen,
            blen == buf@.len(),
            j <= n,
            frame@.len() == 576,
            forall|k: int| 0 <= k < j ==> frame@[k] == buf@[from + k],
        decreases n - j,
    {
        frame[j] = buf[from + j];
        j = j + 1;
    }
    assert(frame@.take(n as int) =~= buf@.subrange(from as int, (from + n) as int));
    (n, frame)
}

/// A packet that holds `buf[from..from + n]`.
fn make_packet(buf: &Vec<u8>, from: usize, n: usize) -> (r: UsbPacket)
    requires
        n <= EP_DATA_BUF_SIZE,
        from + n <= buf@.len(),
    ensures
        r.0 == n,
        packet_bytes(r) == buf@.subrange(from as int, (from + n) as int),
{
    let mut msg: [u8; 64] = [0u8; 64];
    let blen = buf.len();
    let mut j: usize = 0;
    while j < n
        invariant
            n <= 64,
            from + n <= blen,
            blen == buf@.len(),
            j <= n,
            msg@.len() == 64,
            forall|k: int| 0 <= k < j ==> msg@[k] == buf@[from + k],
        decreases n - j,
    {
        msg[j] = buf[from + j];
        j = j + 1;
    }
    assert(msg@.take(n as int) =~= buf@.subrange(from as int, (from + n) as int));
    (n, msg)
}

/// What the RX machine holds: its state, the header of the NTB being
/// reassembled and the bytes of it received so far.
pub struct RxView {
    pub phase: IpRxState,
    pub block_len: nat,
    pub ndp_index: nat,
    pub bytes: Seq<u8>,
}

/// The RX machine waiting for the first packet of an NTB.
pub open spec fn rx_idle() -> RxView {
    RxView { phase: IpRxState::AwaitHeader, block_len: 0, ndp_index: 0, bytes: Seq::empty() }
}

/// `s + 1`, wrapping at 2^16.
pub open spec fn seq_after(s: u16) -> u16 {
    ((s as int + 1) % 0x10000) as u16
}

/// The NCM engine: reassembles NTBs from USB packets into Ethernet frames and
/// wraps Ethernet frames into NTBs sent as USB packets.
pub struct NcmApiManager {
    rxstate: IpRxState,
    txstate: IpTxState,
    currheader: NCMTransferHeader,
    currndp: NCMDatagramPointerTable,
    currcnt: usize,
    txtransactioncnt: usize,
    txheader: NCMTransferHeader,
    ncmmsgtxbuf: Vec<u8>,
    ncmmsgrxbuf: Vec<u8>,
    usbmsgtotlen: usize,
    rxdropped: usize,
    txmaxntb: usize,
}

impl NcmApiManager {
    /// The invariant of the engine.
    pub closed spec fn wf(&self) -> bool {
        &&& self.ncmmsgtxbuf@.len() == NCM_MAX_OUT_SIZE
        &&& self.ncmmsgrxbuf@.len() == NCM_MAX_IN_SIZE
        &&& self.txheader.signature == NTH16_SIGNATURE
        &&& self.txheader.headerlen == 0x0c
        &&& self.txheader.ndpindex == 0x0c
        &&& self.usbmsgtotlen <= NCM_MAX_OUT_SIZE
        &&& (self.txstate == IpTxState::Header ==> TOTAL_HEADER_SIZE <= self.usbmsgtotlen
            <= EP_DATA_BUF_SIZE)
        &&& (self.txstate == IpTxState::Sending ==> self.txtransactioncnt < self.usbmsgtotlen)
        &&& (self.txstate == IpTxState::Zlp ==> self.txtransactioncnt == self.usbmsgtotlen)
        &&& self.currheader.blocklen <= NCM_MAX_IN_SIZE
        &&& (self.rxstate == IpRxState::AwaitHeader ==> self.currcnt == 0)
        &&& (self.rxstate == IpRxState::CopyEntireMsg ==> NTH16_SIZE <= self.currcnt
            < self.currheader.blocklen <= NCM_MAX_IN_SIZE)
    }

    /// The state of the TX machine.
    pub closed spec fn tx_view(&self) -> TxView {
        TxView {
            phase: self.txstate,
            ntb: self.ncmmsgtxbuf@.take(self.usbmsgtotlen as int),
            sent: self.txtransactioncnt as nat,
            next_seq: self.txheader.sequence,
            max_ntb: self.txmaxntb as nat,
        }
    }

    /// The state of the RX machine.
    pub closed spec fn rx_view(&self) -> RxView {
        if self.rxstate == IpRxState::AwaitHeader {
            rx_idle()
        } else {
            RxView {
                phase: self.rxstate,
                block_len: self.currheader.blocklen as nat,
                ndp_index: self.currheader.ndpindex as nat,
                bytes: self.ncmmsgrxbuf@.take(self.currcnt as int),
            }
        }
    }

    /// How many received datagrams were dropped, because the frame queue was full
    /// or their entry did not fit (saturating).
    pub closed spec fn dropped(&self) -> nat {
        self.rxdropped as nat
    }

    /// A fresh engine: RX awaits a header, TX is ready, the first NTB sent will
    /// carry sequence number 0.
    pub fn new() -> (r: Self)
        ensures
            r.wf(),
            r.rx_view() == rx_idle(),
            r.tx_view().phase == IpTxState::Ready,
            r.tx_view().next_seq == 0,
            r.tx_view().max_ntb == NCM_MAX_OUT_SIZE,
            r.dropped() == 0,
    {
        NcmApiManager {
            rxstate: IpRxState::AwaitHeader,
            txstate: IpTxState::Ready,
            currheader: NCMTransferHeader::default(),
            currndp: NCMDatagramPointerTable::default(),
            currcnt: 0,
            txtransactioncnt: 0,
            txheader: NCMTransferHeader::default(),
            ncmmsgtxbuf: vec![0u8; NCM_MAX_OUT_SIZE],
            ncmmsgrxbuf: vec![0u8; NCM_MAX_IN_SIZE],
            usbmsgtotlen: 0,
            rxdropped: 0,
            txmaxntb: NCM_MAX_OUT_SIZE,
        }
    }

    /// Caps the NTBs sent from now on at `size` bytes (the input size the host
    /// set), itself capped at the largest NTB this device builds.
    pub fn set_max_ntb_size(&mut self, size: u32)
        requires
            old(self).wf(),
        ensures
            final(self).wf(),
            final(self).tx_view() == (TxView {
                max_ntb: if size > NCM_MAX_OUT_SIZE { NCM_MAX_OUT_SIZE as nat } else { size as nat },
                ..old(self).tx_view()
            }),
            final(self).rx_view() == old(self).rx_view(),
            final(self).dropped() == old(self).dropped(),
    {
        self.txmaxntb = if size as usize > NCM_MAX_OUT_SIZE {
            NCM_MAX_OUT_SIZE
        } else {
            size as usize
        };
    }

    /// Number of received datagrams dropped, because the frame queue was full or
    /// their entry did not fit.
    pub fn rx_dropped(&self) -> (r: usize)
        ensures
            r == self.dropped(),
    {
        self.rxdropped
    }

    /// The NTB held in the reassembly buffer (the last one completed, or the one
    /// being reassembled).
    pub closed spec fn last_ntb(&self) -> Seq<u8> {
        self.ncmmsgrxbuf@.take(self.currheader.blocklen as int)
    }

    /// Where the NDP16 of `last_ntb` starts.
    pub closed spec fn last_ndp_index(&self) -> nat {
        self.currheader.ndpindex as nat
    }

    /// The datagram entries last decoded by `process_ndp`.
    pub closed spec fn table(&self) -> Seq<NCMDatagram16> {
        self.currndp.datagrams@
    }

    /// Puts the RX machine back to awaiting a header; the NTB in the buffer
    /// stays readable by `process_ndp`.
    pub fn restart_rx(&mut self)
        requires
            old(self).wf(),
        ensures
            final(self).wf(),
            final(self).rx_view() == rx_idle(),
            final(self).tx_view() == old(self).tx_view(),
            final(self).dropped() == old(self).dropped(),
            final(self).last_ntb() == old(self).last_ntb(),
            final(self).last_ndp_index() == old(self).last_ndp_index(),
    {
        self.rxstate = IpRxState::AwaitHeader;
        self.currcnt = 0;
    }

    /// Decodes the NDP16 of the NTB in the reassembly buffer.
    pub fn process_ndp(&mut self) -> (r: Result<(), NCMError>)
        requires
            old(self).wf(),
        ensures
            final(self).wf(),
            final(self).rx_view() == old(self).rx_view(),
            final(self).tx_view() == old(self).tx_view(),
            final(self).dropped() == old(self).dropped(),
            final(self).last_ntb() == old(self).last_ntb(),
            final(self).last_ndp_index() == old(self).last_ndp_index(),
            r is Ok <==> ntb_table_error(old(self).last_ntb(), old(self).last_ndp_index()) is None,
            r matches Err(e) ==> ntb_table_error(old(self).last_ntb(), old(self).last_ndp_index())
                == Some(e),
            r is Ok ==> final(self).table() == ntb_datagrams(
                old(self).last_ntb(),
                old(self).last_ndp_index(),
            ),
    {
        let bl = self.currheader.blocklen as usize;
        let ndp = self.currheader.ndpindex as usize;
        if ndp > bl {
            return Err(NCMError::SizeError);
        }
        let table = &self.ncmmsgrxbuf.as_slice()[ndp..bl];
        assert(table@ =~= self.last_ntb().skip(ndp as int));
        match NCMDatagramPointerTable::try_from_bytes(table) {
            Ok(t) => {
                self.currndp = t;
                Ok(())
            },
            Err(e) => Err(e),
        }
    }

    /// Offers the frames of the NTB in the reassembly buffer to `eth_rx`,
    /// counting those it refuses and the entries that do not fit.
    fn deliver_ntb(&mut self, eth_rx: &mut ConcurrentQueue<EthFrame>)
        requires
            old(self).wf(),
        ensures
            final(self).wf(),
            final(self).rx_view() == old(self).rx_view(),
            final(self).tx_view() == old(self).tx_view(),
            final(self).last_ntb() == old(self).last_ntb(),
            eth_cap(*final(eth_rx)) == eth_cap(*old(eth_rx)),
            eth_closed(*final(eth_rx)) == eth_closed(*old(eth_rx)),
            frames_of(eth_items(*final(eth_rx))) == deliver(
                frames_of(eth_items(*old(eth_rx))),
                eth_cap(*old(eth_rx)),
                eth_closed(*old(eth_rx)),
                ntb_frames(old(self).last_ntb(), old(self).last_ndp_index()),
            ),
            final(self).dropped() == sat_add(
                old(self).dropped(),
                undelivered(
                    frames_of(eth_items(*old(eth_rx))),
                    eth_cap(*old(eth_rx)),
                    eth_closed(*old(eth_rx)),
                    ntb_frames(old(self).last_ntb(), old(self).last_ndp_index()),
                ),
            ),
    {
        let ghost ntb = self.last_ntb();
        let ghost q0 = frames_of(eth_items(*eth_rx));
        let ghost cap = eth_cap(*eth_rx);
        let ghost closed = eth_closed(*eth_rx);
        let ghost d0 = self.dropped();
        if self.process_ndp().is_err() {
            assert(deliver(q0, cap, closed, Seq::empty()) == q0);
            return;
        }
        let ghost ds = self.table();
        let bl = self.currheader.blocklen as usize;
        let n = self.currndp.datagrams.len();
        let mut k: usize = 0;
        while k < n
            invariant
                self.wf(),
                self.rx_view() == old(self).rx_view(),
                self.tx_view() == old(self).tx_view(),
                self.last_ntb() == ntb,
                self.table() == ds,
                bl == self.currheader.blocklen,
                ntb.len() == bl,
                n == ds.len(),
                k <= n,
                eth_cap(*eth_rx) == cap,
                eth_closed(*eth_rx) == closed,
                frames_of(eth_items(*eth_rx)) == deliver(q0, cap, closed, datagram_frames(ntb, ds.take(k as int))),
                self.dropped() == sat_add(d0, undelivered(q0, cap, closed, datagram_frames(ntb, ds.take(k as int)))),
            decreases n - k,
        {
            let d = self.currndp.datagrams[k];
            let ghost before = datagram_frames(ntb, ds.take(k as int));
            assert(ds.take(k + 1).drop_last() =~= ds.take(k as int));
            assert(ds.take(k + 1).last() == d);
            if (d.length as usize) <= MTU && (d.index as usize) + (d.length as usize) <= bl {
                let item = make_frame(&self.ncmmsgrxbuf, d.index as usize, d.length as usize);
                assert(frame_bytes(item) == ntb.subrange(d.index as int, d.index + d.length));
                let ghost items = eth_items(*eth_rx);
                let ok = eth_queue_push(eth_rx, item);
                let ghost after = before.push(Some(frame_bytes(item)));
                assert(after.drop_last() =~= before);
                if ok {
                    assert(frames_of(items.push(item)) =~= frames_of(items).push(frame_bytes(item)));
                } else {
                    self.rxdropped = self.rxdropped.saturating_add(1);
                }
            } else {
                let ghost after = before.push(None::<Seq<u8>>);
                assert(after.drop_last() =~= before);
                self.rxdropped = self.rxdropped.saturating_add(1);
            }
            k = k + 1;
        }
        assert(ds.take(n as int) =~= ds);
    }

    /// Feeds one USB packet to the RX machine; an NTB that it completes is
    /// delivered to `eth_rx`.
    fn rx_packet(&mut self, p: UsbPacket, eth_rx: &mut ConcurrentQueue<EthFrame>)
        requires
            old(self).wf(),
        ensures
            final(self).wf(),
            final(self).tx_view() == old(self).tx_view(),
            final(self).rx_view() == rx_step(old(self).rx_view(), packet_bytes(p)).0,
            eth_cap(*final(eth_rx)) == eth_cap(*old(eth_rx)),
            eth_closed(*final(eth_rx)) == eth_closed(*old(eth_rx)),
            frames_of(eth_items(*final(eth_rx))) == deliver(
                frames_of(eth_items(*old(eth_rx))),
                eth_cap(*old(eth_rx)),
                eth_closed(*old(eth_rx)),
                rx_step(old(self).rx_view(), packet_bytes(p)).1,
            ),
            final(self).dropped() == sat_add(
                old(self).dropped(),
                undelivered(
                    frames_of(eth_items(*old(eth_rx))),
                    eth_cap(*old(eth_rx)),
                    eth_closed(*old(eth_rx)),
                    rx_step(old(self).rx_view(), packet_bytes(p)).1,
                ),
            ),
    {
        match self.rxstate {
            IpRxState::AwaitHeader => self.rx_first_packet(p, eth_rx),
            IpRxState::CopyEntireMsg => self.rx_next_packet(p, eth_rx),
        }
    }

    /// `rx_packet` while awaiting a header.
    #[verifier::rlimit(60)]
    fn rx_first_packet(&mut self, p: UsbPacket, eth_rx: &mut ConcurrentQueue<EthFrame>)
        requires
            old(self).wf(),
            old(self).rxstate == IpRxState::AwaitHeader,
        ensures
            final(self).wf(),
            final(self).tx_view() == old(self).tx_view(),
            final(self).rx_view() == rx_step(old(self).rx_view(), packet_bytes(p)).0,
            eth_cap(*final(eth_rx)) == eth_cap(*old(eth_rx)),
            eth_closed(*final(eth_rx)) == eth_closed(*old(eth_rx)),
            frames_of(eth_items(*final(eth_rx))) == deliver(
                frames_of(eth_items(*old(eth_rx))),
                eth_cap(*old(eth_rx)),
                eth_closed(*old(eth_rx)),
                rx_step(old(self).rx_view(), packet_bytes(p)).1,
            ),
            final(self).dropped() == sat_add(
                old(self).dropped(),
                undelivered(
                    frames_of(eth_items(*old(eth_rx))),
                    eth_cap(*old(eth_rx)),
                    eth_closed(*old(eth_rx)),
                    rx_step(old(self).rx_view(), packet_bytes(p)).1,
                ),
            ),
    {
        let size = if p.0 <= EP_DATA_BUF_SIZE {
            p.0
        } else {
            EP_DATA_BUF_SIZE
        };
        let ghost pb = packet_bytes(p);
        assert(pb =~= p.1@.take(size as int));
        if size < NTH16_SIZE {
            assert(!starts_ntb(pb));
            return;
        }
        let hr = NCMTransferHeader::try_from_bytes(p.1.as_slice());
        proof {
            lemma_nth16_prefix(p.1@, size as int);
        }
        if let Ok(h) = hr {
            let bl = h.blocklen as usize;
            if bl >= NTH16_SIZE && bl <= NCM_MAX_IN_SIZE {
                let n = if size <= bl {
                    size
                } else {
                    bl
                };
                copy_range(&mut self.ncmmsgrxbuf, 0, p.1.as_slice(), n);
                self.currheader = h;
                if n == bl {
                    assert(self.last_ntb() =~= if pb.len() <= bl {
                        pb
                    } else {
                        pb.take(bl as int)
                    });
                    self.deliver_ntb(eth_rx);
                } else {
                    self.currcnt = n;
                    self.rxstate = IpRxState::CopyEntireMsg;
                    assert(self.rx_view().bytes =~= pb);
                }
            } else {
                assert(!starts_ntb(pb));
            }
        } else {
            assert(!starts_ntb(pb));
        }
    }

    /// `rx_packet` while reassembling an NTB.
    #[verifier::rlimit(60)]
    fn rx_next_packet(&mut self, p: UsbPacket, eth_rx: &mut ConcurrentQueue<EthFrame>)
        requires
            old(self).wf(),
            old(self).rxstate == IpRxState::CopyEntireMsg,
        ensures
            final(self).wf(),
            final(self).tx_view() == old(self).tx_view(),
            final(self).rx_view() == rx_step(old(self).rx_view(), packet_bytes(p)).0,
            eth_cap(*final(eth_rx)) == eth_cap(*old(eth_rx)),
            eth_closed(*final(eth_rx)) == eth_closed(*old(eth_rx)),
            frames_of(eth_items(*final(eth_rx))) == deliver(
                frames_of(eth_items(*old(eth_rx))),
                eth_cap(*old(eth_rx)),
                eth_closed(*old(eth_rx)),
                rx_step(old(self).rx_view(), packet_bytes(p)).1,
            ),
            final(self).dropped() == sat_add(
                old(self).dropped(),
                undelivered(
                    frames_of(eth_items(*old(eth_rx))),
                    eth_cap(*old(eth_rx)),
                    eth_closed(*old(eth_rx)),
                    rx_step(old(self).rx_view(), packet_bytes(p)).1,
                ),
            ),
    {
        let size = if p.0 <= EP_DATA_BUF_SIZE {
            p.0
        } else {
            EP_DATA_BUF_SIZE
        };
        let ghost pb = packet_bytes(p);
        let ghost v = self.rx_view();
        let ghost q0 = frames_of(eth_items(*eth_rx));
        assert(pb =~= p.1@.take(size as int));
        let bl = self.currheader.blocklen as usize;
        let cc = self.currcnt;
        let need = bl - cc;
        let n = if size <= need {
            size
        } else {
            need
        };
        copy_range(&mut self.ncmmsgrxbuf, cc, p.1.as_slice(), n);
        let ghost b = if pb.len() <= need {
            v.bytes + pb
        } else {
            v.bytes + pb.take(need as int)
        };
        assert(self.ncmmsgrxbuf@.take((cc + n) as int) =~= b);
        if cc + n == bl {
            assert(self.last_ntb() =~= b);
            self.restart_rx();
            self.deliver_ntb(eth_rx);
        } else {
            self.currcnt = cc + n;
            assert(self.rx_view().bytes =~= b);
            assert(deliver(q0, eth_cap(*eth_rx), eth_closed(*eth_rx), Seq::empty()) == q0);
        }
    }

    /// One pass of the engine: a TX step (see `process_tx`), then every packet
    /// waiting on `usb_rx` is fed to the RX machine, in order, and the frames of
    /// the NTBs they complete are offered to `eth_rx`.
    #[verifier::rlimit(60)]
    pub fn process_messages(
        &mut self,
        eth_rx: &mut ConcurrentQueue<EthFrame>,
        eth_tx: &mut ConcurrentQueue<EthFrame>,
        usb_rx: &mut ConcurrentQueue<UsbPacket>,
        usb_tx: &mut ConcurrentQueue<UsbPacket>,
    )
        requires
            old(self).wf(),
        ensures
            final(self).wf(),
            eth_cap(*final(eth_tx)) == eth_cap(*old(eth_tx)),
            eth_closed(*final(eth_tx)) == eth_closed(*old(eth_tx)),
            usb_cap(*final(usb_tx)) == usb_cap(*old(usb_tx)),
            usb_closed(*final(usb_tx)) == usb_closed(*old(usb_tx)),
            eth_cap(*final(eth_rx)) == eth_cap(*old(eth_rx)),
            eth_closed(*final(eth_rx)) == eth_closed(*old(eth_rx)),
            usb_cap(*final(usb_rx)) == usb_cap(*old(usb_rx)),
            usb_closed(*final(usb_rx)) == usb_closed(*old(usb_rx)),
            tx_tick(
                old(self).tx_view(),
                final(self).tx_view(),
                eth_items(*old(eth_tx)),
                eth_items(*final(eth_tx)),
                usb_items(*old(usb_tx)),
                usb_items(*final(usb_tx)),
                usb_cap(*old(usb_tx)),
                usb_closed(*old(usb_tx)),
            ),
            usb_items(*final(usb_rx)).len() == 0,
            ({
                let (v2, fs) = rx_run(old(self).rx_view(), packets_of(usb_items(*old(usb_rx))));
                let q0 = frames_of(eth_items(*old(eth_rx)));
                let cap = eth_cap(*old(eth_rx));
                let closed = eth_closed(*old(eth_rx));
                &&& final(self).rx_view() == v2
                &&& frames_of(eth_items(*final(eth_rx))) == deliver(q0, cap, closed, fs)
                &&& final(self).dropped() == sat_add(
                    old(self).dropped(),
                    undelivered(q0, cap, closed, fs),
                )
            }),
    {
        self.process_tx(eth_tx, usb_tx);
        let ghost items0 = usb_items(*usb_rx);
        let ghost ps = packets_of(items0);
        let ghost v0 = self.rx_view();
        let ghost t1 = self.tx_view();
        let ghost q0 = frames_of(eth_items(*eth_rx));
        let ghost cap = eth_cap(*eth_rx);
        let ghost closed = eth_closed(*eth_rx);
        let ghost d0 = self.dropped();
        let ghost mut i: int = 0;
        let mut more = true;
        while more
            invariant
                self.wf(),
                self.tx_view() == t1,
                0 <= i <= items0.len(),
                ps == packets_of(items0),
                usb_items(*usb_rx) == items0.skip(i),
                usb_cap(*usb_rx) == usb_cap(*old(usb_rx)),
                usb_closed(*usb_rx) == usb_closed(*old(usb_rx)),
                !more ==> i == items0.len(),
                eth_cap(*eth_rx) == cap,
                eth_closed(*eth_rx) == closed,
                self.rx_view() == rx_run(v0, ps.take(i)).0,
                frames_of(eth_items(*eth_rx)) == deliver(q0, cap, closed, rx_run(v0, ps.take(i)).1),
                self.dropped() == sat_add(d0, undelivered(q0, cap, closed, rx_run(v0, ps.take(i)).1)),
            decreases items0.len() - i + if more { 1int } else { 0int },
        {
            match usb_queue_pop(usb_rx) {
                None => {
                    more = false;
                },
                Some(p) => {
                    let ghost acc = rx_run(v0, ps.take(i)).1;
                    let ghost step = rx_step(rx_run(v0, ps.take(i)).0, packet_bytes(p));
                    assert(p == items0[i]);
                    self.rx_packet(p, eth_rx);
                    proof {
                        lemma_deliver_concat(q0, cap, closed, acc, step.1);
                        assert(ps.take(i + 1).drop_last() =~= ps.take(i));
                        assert(ps.take(i + 1).last() == packet_bytes(p));
                        assert(items0.skip(i).drop_first() =~= items0.skip(i + 1));
                        i = i + 1;
                    }
                },
            }
        }
        assert(ps.take(items0.len() as int) =~= ps);
    }

    /// Builds in the TX buffer the NTB that carries `frame[0..len]`.
    fn load_tx(&mut self, len: usize, frame: &[u8; 576])
        requires
            old(self).wf(),
            old(self).txstate == IpTxState::Ready,
            len <= MTU,
        ensures
            final(self).wf(),
            final(self).rx_view() == old(self).rx_view(),
            final(self).dropped() == old(self).dropped(),
            final(self).tx_view() == (TxView {
                phase: if TOTAL_HEADER_SIZE + len <= EP_DATA_BUF_SIZE {
                    IpTxState::Header
                } else {
                    IpTxState::Sending
                },
                ntb: tx_ntb(old(self).tx_view().next_seq, frame@.take(len as int)),
                sent: 0,
                next_seq: seq_after(old(self).tx_view().next_seq),
                max_ntb: old(self).tx_view().max_ntb,
            }),
    {
        let total = TOTAL_HEADER_SIZE + len;
        self.txheader.blocklen = total as u16;
        let headervec = self.txheader.conv_to_bytes();
        assert(self.txheader == tx_header(old(self).txheader.sequence, len as nat));
        self.txheader.sequence = self.txheader.sequence.wrapping_add(1);
        let mut table = NCMDatagramPointerTable::default();
        table.datagrams.push(NCMDatagram16 { index: TOTAL_HEADER_SIZE as u16, length: len as u16 });
        table.datagrams.push(NCMDatagram16 { index: 0, length: 0 });
        assert(table.datagrams@ =~= tx_entries(len as nat));
        let datagramvec = table.conv_to_bytes();
        assert(entries_bytes(tx_entries(len as nat)).len() == 8) by {
            let e = tx_entries(len as nat);
            assert(e.drop_last().drop_last() =~= Seq::<NCMDatagram16>::empty());
            reveal_with_fuel(entries_bytes, 3);
        }
        copy_range(&mut self.ncmmsgtxbuf, 0, headervec.as_slice(), NTH16_SIZE);
        copy_range(&mut self.ncmmsgtxbuf, NTH16_SIZE, datagramvec.as_slice(), 16);
        copy_range(&mut self.ncmmsgtxbuf, TOTAL_HEADER_SIZE, frame.as_slice(), len);
        assert(headervec@.take(12) =~= headervec@);
        assert(datagramvec@.take(16) =~= datagramvec@);
        assert(self.ncmmsgtxbuf@.take(total as int) =~= headervec@ + datagramvec@ + frame@.take(
            len as int,
        ));
        self.usbmsgtotlen = total;
        self.txtransactioncnt = 0;
        if total <= EP_DATA_BUF_SIZE {
            self.txstate = IpTxState::Header;
        } else {
            self.txstate = IpTxState::Sending;
        }
    }

    /// One step of the TX machine. When ready, it takes the next frame from
    /// `eth_tx` and builds its NTB (an empty frame, or one longer than the MTU,
    /// or one whose NTB exceeds the size the host accepts, is discarded);
    /// otherwise it pushes the next packet it owes onto `usb_tx`, and stays put
    /// when that queue refuses it.
    pub fn process_tx(
        &mut self,
        eth_tx: &mut ConcurrentQueue<EthFrame>,
        usb_tx: &mut ConcurrentQueue<UsbPacket>,
    )
        requires
            old(self).wf(),
        ensures
            final(self).wf(),
            final(self).rx_view() == old(self).rx_view(),
            final(self).dropped() == old(self).dropped(),
            eth_cap(*final(eth_tx)) == eth_cap(*old(eth_tx)),
            eth_closed(*final(eth_tx)) == eth_closed(*old(eth_tx)),
            usb_cap(*final(usb_tx)) == usb_cap(*old(usb_tx)),
            usb_closed(*final(usb_tx)) == usb_closed(*old(usb_tx)),
            tx_tick(
                old(self).tx_view(),
                final(self).tx_view(),
                eth_items(*old(eth_tx)),
                eth_items(*final(eth_tx)),
                usb_items(*old(usb_tx)),
                usb_items(*final(usb_tx)),
                usb_cap(*old(usb_tx)),
                usb_closed(*old(usb_tx)),
            ),
    {
        let ghost v = self.tx_view();
        match self.txstate {
            IpTxState::Ready => {
                if let Some(f) = eth_queue_pop(eth_tx) {
                    if f.0 >= 1 && f.0 <= MTU && TOTAL_HEADER_SIZE + f.0 <= self.txmaxntb {
                        self.load_tx(f.0, &f.1);
                    }
                }
            },
            IpTxState::Header => {
                let total = self.usbmsgtotlen;
                let pkt = make_packet(&self.ncmmsgtxbuf, 0, total);
                assert(packet_bytes(pkt) =~= v.ntb);
                if usb_queue_push(usb_tx, pkt) {
                    assert(usb_items(*usb_tx).drop_last() =~= usb_items(*old(usb_tx)));
                    if total % EP_DATA_BUF_SIZE == 0 {
                        self.txtransactioncnt = total;
                        self.txstate = IpTxState::Zlp;
                    } else {
                        self.txstate = IpTxState::Ready;
                    }
                    assert(tx_pending(self.tx_view()) =~= tx_pending(v).drop_first());
                }
            },
            IpTxState::Sending => {
                let sent = self.txtransactioncnt;
                let rem = self.usbmsgtotlen - sent;
                let n = if rem < EP_DATA_BUF_SIZE {
                    rem
                } else {
                    EP_DATA_BUF_SIZE
                };
                let pkt = make_packet(&self.ncmmsgtxbuf, sent, n);
                let ghost rest = v.ntb.skip(sent as int);
                assert(rest.len() == rem);
                if rem <= EP_DATA_BUF_SIZE {
                    assert(packet_bytes(pkt) =~= rest);
                } else {
                    assert(packet_bytes(pkt) =~= rest.take(EP_DATA_BUF_SIZE as int));
                }
                assert(packet_bytes(pkt) == tx_pending(v)[0]);
                if usb_queue_push(usb_tx, pkt) {
                    assert(usb_items(*usb_tx).drop_last() =~= usb_items(*old(usb_tx)));
                    self.txtransactioncnt = sent + n;
                    if self.txtransactioncnt == self.usbmsgtotlen {
                        self.txstate = IpTxState::Zlp;
                        assert(chunks(rest) =~= seq![rest]);
                    } else {
                        assert(rest.skip(EP_DATA_BUF_SIZE as int) =~= v.ntb.skip(
                            (sent + n) as int,
                        ));
                    }
                    assert(tx_pending(self.tx_view()) =~= tx_pending(v).drop_first());
                }
            },
            IpTxState::Zlp => {
                if self.usbmsgtotlen % EP_DATA_BUF_SIZE == 0 {
                    let pkt: UsbPacket = (0, [0u8; 64]);
                    assert(packet_bytes(pkt) =~= Seq::<u8>::empty());
                    if usb_queue_push(usb_tx, pkt) {
                        assert(usb_items(*usb_tx).drop_last() =~= usb_items(*old(usb_tx)));
                        self.txstate = IpTxState::Ready;
                        self.txtransactioncnt = 0;
                        assert(tx_pending(self.tx_view()) =~= tx_pending(v).drop_first());
                    }
                } else {
                    self.txstate = IpTxState::Ready;
                    self.txtransactioncnt = 0;
                }
            },
        }
    }
}

} // verus!
