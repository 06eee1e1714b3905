//! Facts about the NCM engine that relate its pieces: what the TX path emits,
//! how the RX path reads it back, and what the state machines keep invariant.

use vstd::prelude::*;
use vstd::seq_lib::lemma_flatten_concat;
use crate::queue::{EP_DATA_BUF_SIZE, MTU};
use crate::queue::{EthFrame, UsbPacket};
use crate::ncm_api::{
    NCM_MAX_IN_SIZE, NTH16_SIZE, IpRxState, IpTxState, TxView, RxView, rx_idle, rx_step, rx_run,
    ntb_frames, datagram_frames, frame_fits, frame_bytes, deliver, undelivered, seq_after, tx_tick,
    starts_ntb, lemma_nth16_prefix, Datagram, tx_accepts, packet_bytes,
    NCM_MAX_OUT_SIZE, NDP16_SIGNATURE, TOTAL_HEADER_SIZE, NCMDatagram16, ToBytes, le16, read16, read32,
    parse_nth16, tx_header, tx_entries, tx_table_bytes, tx_ntb, entries_bytes, ntb_table_error,
    ndp16_raw_entries, ntb_datagrams, nonzero_entries, chunks, zlp, tx_packets, tx_pending,
};

verus! {

/// Reading back a little-endian `u16` gives the value written.
proof fn lemma_read16_at(s: Seq<u8>, i: int, v: u16)
    requires
        0 <= i,
        i + 1 < s.len(),
        s[i] == (v % 256) as u8,
        s[i + 1] == (v / 256) as u8,
    ensures
        read16(s, i) == v,
{
}

/// Every NTB that the TX path builds decodes as an NTH16 with signature `NCMH`,
/// block length `0x1C` plus the payload length and NDP index `0x0C`; the NDP16
/// there has signature `NCM0` and two entries, `(0x1C, payload length)` and the
/// `(0, 0)` sentinel; and the payload follows at `0x1C`.
#[verifier::rlimit(80)]
pub proof fn lemma_tx_ntb_decodes(seq: u16, frame: Seq<u8>)
    requires
        TOTAL_HEADER_SIZE + frame.len() <= NCM_MAX_OUT_SIZE,
    ensures
        ({
            let ntb = tx_ntb(seq, frame);
            let table = ntb.skip(0x0C);
            &&& ntb.len() == TOTAL_HEADER_SIZE + frame.len()
            &&& parse_nth16(ntb) == Ok::<_, crate::ncm_api::NCMError>(tx_header(seq, frame.len()))
            &&& tx_header(seq, frame.len()).blocklen == TOTAL_HEADER_SIZE + frame.len()
            &&& ntb_table_error(ntb, 0x0C) is None
            &&& read32(table, 0) == NDP16_SIGNATURE
            &&& read16(table, 4) == 0x10
            &&& ndp16_raw_entries(table, 0x10) == tx_entries(frame.len())
            &&& ntb_datagrams(ntb, 0x0C) == if frame.len() > 0 {
                seq![NCMDatagram16 { index: 0x1C, length: frame.len() as u16 }]
            } else {
                Seq::<NCMDatagram16>::empty()
            }
            &&& ntb.skip(TOTAL_HEADER_SIZE as int) == frame
        }),
{
    let len = frame.len();
    let h = tx_header(seq, len);
    let hb = h.spec_to_bytes();
    let tb = tx_table_bytes(len);
    let ntb = tx_ntb(seq, frame);
    let e = tx_entries(len);
    reveal_with_fuel(entries_bytes, 3);
    assert(e.drop_last().drop_last() =~= Seq::<NCMDatagram16>::empty());
    assert(entries_bytes(e) =~= le16(0x1C) + le16(len as u16) + le16(0) + le16(0));
    assert(hb.len() == 12);
    assert(tb.len() == 16);
    assert(ntb =~= hb + tb + frame);
    assert(ntb.skip(TOTAL_HEADER_SIZE as int) =~= frame);
    lemma_read16_at(ntb, 4, 0x0c);
    lemma_read16_at(ntb, 6, seq);
    lemma_read16_at(ntb, 8, h.blocklen);
    lemma_read16_at(ntb, 10, 0x0c);
    assert(parse_nth16(ntb) == Ok::<_, crate::ncm_api::NCMError>(h));
    let table = ntb.skip(0x0C);
    assert(table =~= tb + frame);
    lemma_read16_at(table, 4, 0x10);
    lemma_read16_at(table, 6, 0);
    lemma_read16_at(table, 8, 0x1C);
    lemma_read16_at(table, 10, len as u16);
    lemma_read16_at(table, 12, 0);
    lemma_read16_at(table, 14, 0);
    assert(ndp16_raw_entries(table, 0x10) =~= e);
    assert(e.drop_last() =~= seq![e[0]]);
    assert(seq![e[0]].drop_last() =~= Seq::<NCMDatagram16>::empty());
    reveal_with_fuel(nonzero_entries, 3);
    if len > 0 {
        assert(nonzero_entries(e) =~= seq![e[0]]);
    } else {
        assert(nonzero_entries(e) =~= Seq::<NCMDatagram16>::empty());
    }
}

/// `chunks(s)` cuts `s` into non-empty packets of at most 64 bytes that put
/// together give `s` back.
pub proof fn lemma_chunks(s: Seq<u8>)
    ensures
        chunks(s).flatten() == s,
        forall|i: int| 0 <= i < chunks(s).len() ==> 0 < #[trigger] chunks(s)[i].len() <= EP_DATA_BUF_SIZE,
    decreases s.len(),
{
    if s.len() == 0 {
    } else if s.len() <= EP_DATA_BUF_SIZE {
        seq![s].lemma_flatten_one_element();
    } else {
        let head = s.take(EP_DATA_BUF_SIZE as int);
        let rest = s.skip(EP_DATA_BUF_SIZE as int);
        lemma_chunks(rest);
        lemma_flatten_concat(seq![head], chunks(rest));
        seq![head].lemma_flatten_one_element();
        assert(head + rest =~= s);
        assert forall|i: int| 0 <= i < chunks(s).len() implies 0 < #[trigger] chunks(s)[i].len()
            <= EP_DATA_BUF_SIZE by {
            if i > 0 {
                assert(chunks(s)[i] == chunks(rest)[i - 1]);
            }
        }
    }
}

/// The packets of a transfer of `ntb`: none exceeds 64 bytes, together they are
/// exactly `ntb`, and one of them is a zero-length packet exactly when the
/// length of `ntb` is a multiple of 64.
pub proof fn lemma_tx_packets(ntb: Seq<u8>)
    requires
        TOTAL_HEADER_SIZE <= ntb.len(),
    ensures
        forall|i: int| 0 <= i < tx_packets(ntb).len() ==> #[trigger] tx_packets(ntb)[i].len()
            <= EP_DATA_BUF_SIZE,
        tx_packets(ntb).flatten() == ntb,
        (exists|i: int| 0 <= i < tx_packets(ntb).len() && #[trigger] tx_packets(ntb)[i].len() == 0)
            <==> ntb.len() % (EP_DATA_BUF_SIZE as nat) == 0,
{
    let z = zlp(ntb);
    z.lemma_flatten_one_element();
    assert(z.flatten() =~= Seq::<u8>::empty());
    lemma_chunks(ntb);
    lemma_flatten_concat(chunks(ntb), z);
    assert(chunks(ntb).flatten() + z.flatten() =~= ntb);
    let p = tx_packets(ntb);
    let body = chunks(ntb);
    assert forall|i: int| 0 <= i < p.len() implies #[trigger] p[i].len() <= EP_DATA_BUF_SIZE
        && (i < body.len() ==> p[i].len() > 0) by {
        if i < body.len() {
            assert(p[i] == body[i]);
        } else {
            assert(p[i] == z[i - body.len()]);
        }
    }
    if ntb.len() % (EP_DATA_BUF_SIZE as nat) == 0 {
        assert(p[p.len() - 1].len() == 0);
    }
}

/// The RX machine is in order: idle with nothing held, or holding at least a
/// header and fewer bytes than a block length that fits the buffer.
pub open spec fn rx_in_order(v: RxView) -> bool {
    &&& (v.phase == IpRxState::AwaitHeader ==> v == rx_idle())
    &&& (v.phase == IpRxState::CopyEntireMsg ==> NTH16_SIZE <= v.bytes.len() < v.block_len
        <= NCM_MAX_IN_SIZE)
}

/// One RX step keeps the machine in order, and a step that delivers frames
/// leaves it idle, holding nothing of the NTB it completed.
pub proof fn lemma_rx_step_in_order(v: RxView, p: Seq<u8>)
    requires
        rx_in_order(v),
    ensures
        rx_in_order(rx_step(v, p).0),
        rx_step(v, p).1.len() > 0 ==> rx_step(v, p).0 == rx_idle(),
{
}

/// After any sequence of packets from an idle start, the bytes held by the RX
/// machine never reach the block length (nor exceed the buffer), and an idle
/// machine holds nothing.
pub proof fn lemma_rx_run_in_order(ps: Seq<Seq<u8>>)
    ensures
        rx_in_order(rx_run(rx_idle(), ps).0),
    decreases ps.len(),
{
    if ps.len() > 0 {
        lemma_rx_run_in_order(ps.drop_last());
        lemma_rx_step_in_order(rx_run(rx_idle(), ps.drop_last()).0, ps.last());
    }
}

/// A full or closed frame queue takes none of the datagrams offered to it, and
/// every one of them is counted as dropped: the RX machine moves on regardless.
pub proof fn lemma_full_queue_drops(q: Seq<Seq<u8>>, cap: nat, closed: bool, fs: Seq<Datagram>)
    requires
        closed || q.len() >= cap,
    ensures
        deliver(q, cap, closed, fs) == q,
        undelivered(q, cap, closed, fs) == fs.len(),
    decreases fs.len(),
{
    if fs.len() > 0 {
        lemma_full_queue_drops(q, cap, closed, fs.drop_last());
    }
}

/// Whether a TX step from `v`, with `fq` waiting, builds a new NTB.
pub open spec fn tx_loads(v: TxView, fq: Seq<EthFrame>) -> bool {
    v.phase == IpTxState::Ready && fq.len() > 0 && tx_accepts(v, fq[0].0 as nat)
}

/// The sequence number in the NTH16 of `ntb`.
pub open spec fn ntb_sequence(ntb: Seq<u8>) -> u16 {
    read16(ntb, 6)
}

/// The NTB built by a loading step carries the sequence number held before it,
/// and the step leaves the next number held; any other step keeps it.
pub proof fn lemma_tx_tick_sequence(
    v: TxView,
    w: TxView,
    fq: Seq<EthFrame>,
    fq2: Seq<EthFrame>,
    uq: Seq<UsbPacket>,
    uq2: Seq<UsbPacket>,
    ucap: nat,
    uclosed: bool,
)
    requires
        tx_tick(v, w, fq, fq2, uq, uq2, ucap, uclosed),
    ensures
        tx_loads(v, fq) ==> ntb_sequence(w.ntb) == v.next_seq && w.next_seq == seq_after(v.next_seq),
        !tx_loads(v, fq) ==> w.next_seq == v.next_seq,
{
    if tx_loads(v, fq) {
        assert(frame_bytes(fq[0]).len() == fq[0].0);
        lemma_tx_ntb_decodes(v.next_seq, frame_bytes(fq[0]));
    }
}

/// Between a loading step `a` and step `k` with no loading step in between, the
/// engine holds the number after the one NTB `a` carries.
proof fn lemma_seq_held(
    vs: Seq<TxView>,
    fq: Seq<Seq<EthFrame>>,
    fq2: Seq<Seq<EthFrame>>,
    uq: Seq<Seq<UsbPacket>>,
    uq2: Seq<Seq<UsbPacket>>,
    caps: Seq<nat>,
    closeds: Seq<bool>,
    a: int,
    k: int,
)
    requires
        0 <= a < k < vs.len(),
        vs.len() == fq.len() + 1,
        fq.len() == fq2.len() && fq.len() == uq.len() && fq.len() == uq2.len(),
        fq.len() == caps.len() && fq.len() == closeds.len(),
        forall|j: int| 0 <= j < fq.len() ==> #[trigger] tx_tick(vs[j], vs[j + 1], fq[j], fq2[j], uq[j], uq2[j], caps[j], closeds[j]),
        tx_loads(vs[a], fq[a]),
        forall|j: int| a < j < k ==> !#[trigger] tx_loads(vs[j], fq[j]),
    ensures
        vs[k].next_seq == seq_after(ntb_sequence(vs[a + 1].ntb)),
    decreases k - a,
{
    let j = k - 1;
    assert(tx_tick(vs[j], vs[j + 1], fq[j], fq2[j], uq[j], uq2[j], caps[j], closeds[j]));
    lemma_tx_tick_sequence(vs[j], vs[j + 1], fq[j], fq2[j], uq[j], uq2[j], caps[j], closeds[j]);
    if j > a {
        lemma_seq_held(vs, fq, fq2, uq, uq2, caps, closeds, a, j);
    }
}

/// Consecutive NTBs carry consecutive sequence numbers. Take any run of TX steps
/// (`vs[j]` to `vs[j + 1]` with the queues as given; between steps the queues
/// may change). If step `a` builds an NTB and step `b` builds the next one, the
/// second carries the number of the first plus one, modulo 2^16.
pub proof fn lemma_tx_sequence(
    vs: Seq<TxView>,
    fq: Seq<Seq<EthFrame>>,
    fq2: Seq<Seq<EthFrame>>,
    uq: Seq<Seq<UsbPacket>>,
    uq2: Seq<Seq<UsbPacket>>,
    caps: Seq<nat>,
    closeds: Seq<bool>,
    a: int,
    b: int,
)
    requires
        vs.len() == fq.len() + 1,
        fq.len() == fq2.len() && fq.len() == uq.len() && fq.len() == uq2.len(),
        fq.len() == caps.len() && fq.len() == closeds.len(),
        forall|j: int| 0 <= j < fq.len() ==> #[trigger] tx_tick(vs[j], vs[j + 1], fq[j], fq2[j], uq[j], uq2[j], caps[j], closeds[j]),
        0 <= a < b < fq.len(),
        tx_loads(vs[a], fq[a]),
        tx_loads(vs[b], fq[b]),
        forall|j: int| a < j < b ==> !#[trigger] tx_loads(vs[j], fq[j]),
    ensures
        ntb_sequence(vs[b + 1].ntb) == seq_after(ntb_sequence(vs[a + 1].ntb)),
{
    lemma_seq_held(vs, fq, fq2, uq, uq2, caps, closeds, a, b);
    assert(tx_tick(vs[b], vs[b + 1], fq[b], fq2[b], uq[b], uq2[b], caps[b], closeds[b]));
    lemma_tx_tick_sequence(vs[b], vs[b + 1], fq[b], fq2[b], uq[b], uq2[b], caps[b], closeds[b]);
}

/// Running over `a + b` is running over `a`, then over `b`: packets fed over
/// several calls of the engine are reassembled as if fed in one.
pub proof fn lemma_rx_run_concat(v: RxView, a: Seq<Seq<u8>>, b: Seq<Seq<u8>>)
    ensures
        rx_run(v, a + b) == (
            rx_run(rx_run(v, a).0, b).0,
            rx_run(v, a).1 + rx_run(rx_run(v, a).0, b).1,
        ),
    decreases b.len(),
{
    if b.len() == 0 {
        assert(a + b =~= a);
        assert(rx_run(v, a).1 + Seq::<Datagram>::empty() =~= rx_run(v, a).1);
    } else {
        lemma_rx_run_concat(v, a, b.drop_last());
        assert((a + b).drop_last() =~= a + b.drop_last());
        let m = rx_run(v, a);
        let r = rx_run(m.0, b.drop_last());
        let st = rx_step(r.0, b.last());
        assert(m.1 + r.1 + st.1 =~= m.1 + (r.1 + st.1));
    }
}

/// Running over one packet is one step.
proof fn lemma_rx_run_one(v: RxView, p: Seq<u8>)
    ensures
        rx_run(v, seq![p]) == rx_step(v, p),
{
    reveal_with_fuel(rx_run, 2);
    assert(seq![p].drop_last() =~= Seq::<Seq<u8>>::empty());
    assert(Seq::<Datagram>::empty() + rx_step(v, p).1 =~= rx_step(v, p).1);
}

/// Feeding the rest of `ntb` in chunks to a machine that holds its first `k`
/// bytes completes it.
#[verifier::rlimit(80)]
proof fn lemma_rx_chunks(ntb: Seq<u8>, k: int)
    requires
        NTH16_SIZE <= k < ntb.len() <= NCM_MAX_IN_SIZE,
    ensures
        rx_run(
            RxView {
                phase: IpRxState::CopyEntireMsg,
                block_len: ntb.len(),
                ndp_index: 0x0C,
                bytes: ntb.take(k),
            },
            chunks(ntb.skip(k)),
        ) == (rx_idle(), ntb_frames(ntb, 0x0C)),
    decreases ntb.len() - k,
{
    let v = RxView {
        phase: IpRxState::CopyEntireMsg,
        block_len: ntb.len(),
        ndp_index: 0x0C,
        bytes: ntb.take(k),
    };
    let rest = ntb.skip(k);
    if rest.len() <= EP_DATA_BUF_SIZE {
        lemma_rx_run_one(v, rest);
        assert(ntb.take(k) + rest =~= ntb);
    } else {
        let c = rest.take(EP_DATA_BUF_SIZE as int);
        let more = rest.skip(EP_DATA_BUF_SIZE as int);
        assert(chunks(rest) == seq![c] + chunks(more));
        lemma_rx_run_concat(v, seq![c], chunks(more));
        lemma_rx_run_one(v, c);
        assert(ntb.take(k) + c =~= ntb.take(k + EP_DATA_BUF_SIZE));
        assert(more =~= ntb.skip(k + EP_DATA_BUF_SIZE));
        lemma_rx_chunks(ntb, k + EP_DATA_BUF_SIZE);
        assert(Seq::<Datagram>::empty() + ntb_frames(ntb, 0x0C) =~= ntb_frames(ntb, 0x0C));
    }
}

/// Reassembling, from an idle start, the packets that the TX path sends for a
/// frame of 1 to MTU bytes ends idle and yields exactly that frame.
pub proof fn lemma_round_trip(seq: u16, frame: Seq<u8>)
    requires
        1 <= frame.len() <= MTU,
    ensures
        rx_run(rx_idle(), tx_packets(tx_ntb(seq, frame))) == (rx_idle(), seq![Some(frame)]),
{
    let ntb = tx_ntb(seq, frame);
    let len = frame.len();
    lemma_tx_ntb_decodes(seq, frame);
    let h = tx_header(seq, len);
    // the NTB carries exactly the frame
    let ds = ntb_datagrams(ntb, 0x0C);
    assert(ds.drop_last() =~= Seq::<NCMDatagram16>::empty());
    assert(frame_fits(ntb, ds.last()));
    assert(ntb.subrange(0x1C, 0x1C + len as int) =~= frame);
    reveal_with_fuel(datagram_frames, 2);
    assert(datagram_frames(ntb, ds) =~= seq![Some(frame)]);
    assert(ntb_frames(ntb, 0x0C) == seq![Some(frame)]);
    // the trailing zero-length packet, if any, is ignored
    let z = zlp(ntb);
    let idle = rx_idle();
    assert(!starts_ntb(Seq::<u8>::empty()));
    if z.len() > 0 {
        assert(z == seq![Seq::<u8>::empty()]);
        lemma_rx_run_one(idle, Seq::<u8>::empty());
    }
    assert(rx_run(idle, z) == (idle, Seq::<Datagram>::empty()));
    // the first packet starts the NTB
    if ntb.len() <= EP_DATA_BUF_SIZE {
        // it is the whole NTB
        assert(chunks(ntb) == seq![ntb]);
        lemma_nth16_prefix(ntb, ntb.len() as int);
        assert(ntb.take(ntb.len() as int) =~= ntb);
        assert(rx_step(idle, ntb) == (idle, seq![Some(frame)]));
        lemma_rx_run_one(idle, ntb);
        lemma_rx_run_concat(idle, seq![ntb], z);
        assert(seq![Some(frame)] + Seq::<Datagram>::empty() =~= seq![Some(frame)]);
    } else {
        let k0: int = EP_DATA_BUF_SIZE as int;
        let first = ntb.take(k0);
        lemma_nth16_prefix(ntb, k0);
        assert(first.len() == k0);
        let v1 = RxView {
            phase: IpRxState::CopyEntireMsg,
            block_len: ntb.len(),
            ndp_index: 0x0C,
            bytes: first,
        };
        assert(rx_step(idle, first) == (v1, Seq::<Datagram>::empty()));
        let body = seq![first] + chunks(ntb.skip(k0));
        assert(chunks(ntb) == body);
        assert(tx_packets(ntb) == body + z);
        lemma_rx_run_one(idle, first);
        lemma_rx_chunks(ntb, k0);
        lemma_rx_run_concat(idle, seq![first], chunks(ntb.skip(k0)));
        lemma_rx_run_concat(idle, body, z);
        assert(Seq::<Datagram>::empty() + seq![Some(frame)] =~= seq![Some(frame)]);
        assert(seq![Some(frame)] + Seq::<Datagram>::empty() =~= seq![Some(frame)]);
    }
}

/// Right after the TX machine builds an NTB, the packets it owes are exactly
/// the packets of a transfer of that NTB.
pub proof fn lemma_loaded_pending(seq: u16, frame: Seq<u8>, next_seq: u16, max_ntb: nat)
    requires
        frame.len() <= MTU,
    ensures
        tx_pending(
            TxView {
                phase: if TOTAL_HEADER_SIZE + frame.len() <= EP_DATA_BUF_SIZE {
                    IpTxState::Header
                } else {
                    IpTxState::Sending
                },
                ntb: tx_ntb(seq, frame),
                sent: 0,
                next_seq,
                max_ntb,
            },
        ) == tx_packets(tx_ntb(seq, frame)),
{
    lemma_tx_ntb_decodes(seq, frame);
    let ntb = tx_ntb(seq, frame);
    assert(ntb.skip(0) =~= ntb);
}

/// The packets pushed by the TX steps `from..to` of a run, in order (a step
/// pushes one packet exactly when it grows the packet queue by one).
pub open spec fn pushed_packets(
    uq: Seq<Seq<UsbPacket>>,
    uq2: Seq<Seq<UsbPacket>>,
    from: int,
    to: int,
) -> Seq<Seq<u8>>
    decreases to - from,
{
    if to <= from {
        Seq::empty()
    } else {
        pushed_packets(uq, uq2, from, to - 1) + if uq2[to - 1].len() == uq[to - 1].len() + 1 {
            seq![packet_bytes(uq2[to - 1].last())]
        } else {
            Seq::<Seq<u8>>::empty()
        }
    }
}

/// Until the TX machine is ready again, the packets pushed since it built an
/// NTB, followed by those it still owes, are the packets of that NTB.
proof fn lemma_pushed_so_far(
    vs: Seq<TxView>,
    fq: Seq<Seq<EthFrame>>,
    fq2: Seq<Seq<EthFrame>>,
    uq: Seq<Seq<UsbPacket>>,
    uq2: Seq<Seq<UsbPacket>>,
    caps: Seq<nat>,
    closeds: Seq<bool>,
    a: int,
    k: int,
)
    requires
        vs.len() == fq.len() + 1,
        fq.len() == fq2.len() && fq.len() == uq.len() && fq.len() == uq2.len(),
        fq.len() == caps.len() && fq.len() == closeds.len(),
        forall|j: int| 0 <= j < fq.len() ==> #[trigger] tx_tick(vs[j], vs[j + 1], fq[j], fq2[j], uq[j], uq2[j], caps[j], closeds[j]),
        0 <= a < k < vs.len(),
        tx_loads(vs[a], fq[a]),
        forall|j: int| a < j < k ==> (#[trigger] vs[j]).phase != IpTxState::Ready,
    ensures
        vs[k].ntb == vs[a + 1].ntb,
        pushed_packets(uq, uq2, a + 1, k) + tx_pending(vs[k]) == tx_packets(vs[a + 1].ntb),
    decreases k - a,
{
    let ntb = vs[a + 1].ntb;
    if k == a + 1 {
        assert(tx_tick(vs[a], vs[a + 1], fq[a], fq2[a], uq[a], uq2[a], caps[a], closeds[a]));
        assert(frame_bytes(fq[a][0]).len() == fq[a][0].0);
        lemma_loaded_pending(vs[a].next_seq, frame_bytes(fq[a][0]), seq_after(vs[a].next_seq), vs[a].max_ntb);
        assert(pushed_packets(uq, uq2, a + 1, k) =~= Seq::<Seq<u8>>::empty());
        assert(Seq::<Seq<u8>>::empty() + tx_pending(vs[k]) =~= tx_pending(vs[k]));
    } else {
        let j = k - 1;
        lemma_pushed_so_far(vs, fq, fq2, uq, uq2, caps, closeds, a, j);
        assert(tx_tick(vs[j], vs[j + 1], fq[j], fq2[j], uq[j], uq2[j], caps[j], closeds[j]));
        assert(vs[j].phase != IpTxState::Ready);
        let before = pushed_packets(uq, uq2, a + 1, j);
        let pv = tx_pending(vs[j]);
        if pv.len() > 0 && !closeds[j] && uq[j].len() < caps[j] {
            assert(pv =~= seq![pv[0]] + pv.drop_first());
            assert(before + seq![pv[0]] + pv.drop_first() =~= before + pv);
        } else {
            assert(uq2[j] == uq[j]);
            assert(pushed_packets(uq, uq2, a + 1, k) =~= before);
            if pv.len() == 0 {
                assert(tx_pending(vs[k]) =~= pv);
            }
        }
    }
}

/// Every NTB is sent whole over any run of calls. Take a run of TX steps
/// (`vs[j]` to `vs[j + 1]`, with the queues as given; between steps they may
/// change, and a refused push leaves the machine as it was). If step `a`
/// builds an NTB and `vs[b]` is the first ready state after it, the packets
/// pushed in between are, in order, exactly the packets of a transfer of that
/// NTB, which is the one built for the frame taken.
pub proof fn lemma_tx_run_sends_ntb(
    vs: Seq<TxView>,
    fq: Seq<Seq<EthFrame>>,
    fq2: Seq<Seq<EthFrame>>,
    uq: Seq<Seq<UsbPacket>>,
    uq2: Seq<Seq<UsbPacket>>,
    caps: Seq<nat>,
    closeds: Seq<bool>,
    a: int,
    b: int,
)
    requires
        vs.len() == fq.len() + 1,
        fq.len() == fq2.len() && fq.len() == uq.len() && fq.len() == uq2.len(),
        fq.len() == caps.len() && fq.len() == closeds.len(),
        forall|j: int| 0 <= j < fq.len() ==> #[trigger] tx_tick(vs[j], vs[j + 1], fq[j], fq2[j], uq[j], uq2[j], caps[j], closeds[j]),
        0 <= a < b < vs.len(),
        tx_loads(vs[a], fq[a]),
        vs[b].phase == IpTxState::Ready,
        forall|j: int| a < j < b ==> (#[trigger] vs[j]).phase != IpTxState::Ready,
    ensures
        vs[a + 1].ntb == tx_ntb(vs[a].next_seq, frame_bytes(fq[a][0])),
        pushed_packets(uq, uq2, a + 1, b) == tx_packets(vs[a + 1].ntb),
{
    assert(tx_tick(vs[a], vs[a + 1], fq[a], fq2[a], uq[a], uq2[a], caps[a], closeds[a]));
    assert(vs[a + 1].phase != IpTxState::Ready);
    assert(b > a + 1);
    lemma_pushed_so_far(vs, fq, fq2, uq, uq2, caps, closeds, a, b);
    assert(pushed_packets(uq, uq2, a + 1, b) + Seq::<Seq<u8>>::empty() =~= pushed_packets(uq, uq2, a + 1, b));
}

} // verus!
