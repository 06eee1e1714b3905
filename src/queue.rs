//! Bounded FIFO queues that couple the USB side, the NCM engine and the IP
//! stack. They are `concurrent_queue::ConcurrentQueue`s; every operation the
//! library performs on them goes through one of the functions below.

use vstd::prelude::*;
use concurrent_queue::ConcurrentQueue;

verus! {

/// Size of a USB bulk packet buffer.
pub const EP_DATA_BUF_SIZE: usize = 64;

/// Largest Ethernet frame carried through the engine (the IPv4 minimum MTU).
pub const MTU: usize = 576;

/// One USB bulk packet: its length and a buffer whose first `len` bytes hold it.
pub type UsbPacket = (usize, [u8; 64]);

/// One Ethernet frame: its length and a buffer whose first `len` bytes hold it.
pub type EthFrame = (usize, [u8; 576]);

#[verifier::external_type_specification]
#[verifier::external_body]
#[verifier::reject_recursive_types(T)]
pub struct ExConcurrentQueue<T>(ConcurrentQueue<T>);

/// The packets held by a USB packet queue, oldest first.
pub uninterp spec fn usb_items(q: ConcurrentQueue<UsbPacket>) -> Seq<UsbPacket>;

/// The capacity a USB packet queue was created with.
pub uninterp spec fn usb_cap(q: ConcurrentQueue<UsbPacket>) -> nat;

/// Whether a USB packet queue has been closed.
pub uninterp spec fn usb_closed(q: ConcurrentQueue<UsbPacket>) -> bool;

/// Relies on `ConcurrentQueue::bounded`: an empty, open queue of capacity `cap`.
#[verifier::external_body]
pub(crate) fn usb_queue_new(cap: usize) -> (r: ConcurrentQueue<UsbPacket>)
    requires
        cap > 0,
    ensures
        usb_items(r) == Seq::<UsbPacket>::empty(),
        usb_cap(r) == cap,
        !usb_closed(r),
{
    ConcurrentQueue::bounded(cap)
}

/// Relies on `ConcurrentQueue::push`: the item is appended unless the queue is
/// closed or full, in which case nothing changes.
#[verifier::external_body]
pub(crate) fn usb_queue_push(q: &mut ConcurrentQueue<UsbPacket>, p: UsbPacket) -> (r: bool)
    ensures
        usb_cap(*final(q)) == usb_cap(*old(q)),
        usb_closed(*final(q)) == usb_closed(*old(q)),
        r == (!usb_closed(*old(q)) && usb_items(*old(q)).len() < usb_cap(*old(q))),
        r ==> usb_items(*final(q)) == usb_items(*old(q)).push(p),
        !r ==> usb_items(*final(q)) == usb_items(*old(q)),
{
    q.push(p).is_ok()
}

/// Relies on `ConcurrentQueue::pop`: the oldest item leaves, or `None` when empty.
#[verifier::external_body]
pub(crate) fn usb_queue_pop(q: &mut ConcurrentQueue<UsbPacket>) -> (r: Option<UsbPacket>)
    ensures
        usb_cap(*final(q)) == usb_cap(*old(q)),
        usb_closed(*final(q)) == usb_closed(*old(q)),
        usb_items(*old(q)).len() == 0 ==> r is None && usb_items(*final(q)) == usb_items(*old(q)),
        usb_items(*old(q)).len() > 0 ==> r == Some(usb_items(*old(q))[0])
            && usb_items(*final(q)) == usb_items(*old(q)).drop_first(),
{
    q.pop().ok()
}

/// Relies on `ConcurrentQueue::is_full`: whether the queue holds `cap` items.
#[verifier::external_body]
pub(crate) fn usb_queue_is_full(q: &ConcurrentQueue<UsbPacket>) -> (r: bool)
    ensures
        r == (usb_items(*q).len() == usb_cap(*q)),
{
    q.is_full()
}

/// The frames held by an Ethernet frame queue, oldest first.
pub uninterp spec fn eth_items(q: ConcurrentQueue<EthFrame>) -> Seq<EthFrame>;

/// The capacity an Ethernet frame queue was created with.
pub uninterp spec fn eth_cap(q: ConcurrentQueue<EthFrame>) -> nat;

/// Whether an Ethernet frame queue has been closed.
pub uninterp spec fn eth_closed(q: ConcurrentQueue<EthFrame>) -> bool;

/// Relies on `ConcurrentQueue::bounded`: an empty, open queue of capacity `cap`.
#[verifier::external_body]
pub(crate) fn eth_queue_new(cap: usize) -> (r: ConcurrentQueue<EthFrame>)
    requires
        cap > 0,
    ensures
        eth_items(r) == Seq::<EthFrame>::empty(),
        eth_cap(r) == cap,
        !eth_closed(r),
{
    ConcurrentQueue::bounded(cap)
}

/// Relies on `ConcurrentQueue::push`: the item is appended unless the queue is
/// closed or full, in which case nothing changes.
#[verifier::external_body]
pub(crate) fn eth_queue_push(q: &mut ConcurrentQueue<EthFrame>, f: EthFrame) -> (r: bool)
    ensures
        eth_cap(*final(q)) == eth_cap(*old(q)),
        eth_closed(*final(q)) == eth_closed(*old(q)),
        r == (!eth_closed(*old(q)) && eth_items(*old(q)).len() < eth_cap(*old(q))),
        r ==> eth_items(*final(q)) == eth_items(*old(q)).push(f),
        !r ==> eth_items(*final(q)) == eth_items(*old(q)),
{
    q.push(f).is_ok()
}

/// Relies on `ConcurrentQueue::pop`: the oldest item leaves, or `None` when empty.
#[verifier::external_body]
pub(crate) fn eth_queue_pop(q: &mut ConcurrentQueue<EthFrame>) -> (r: Option<EthFrame>)
    ensures
        eth_cap(*final(q)) == eth_cap(*old(q)),
        eth_closed(*final(q)) == eth_closed(*old(q)),
        eth_items(*old(q)).len() == 0 ==> r is None && eth_items(*final(q)) == eth_items(*old(q)),
        eth_items(*old(q)).len() > 0 ==> r == Some(eth_items(*old(q))[0])
            && eth_items(*final(q)) == eth_items(*old(q)).drop_first(),
{
    q.pop().ok()
}

/// Relies on `ConcurrentQueue::is_full`: whether the queue holds `cap` items.
#[verifier::external_body]
pub(crate) fn eth_queue_is_full(q: &ConcurrentQueue<EthFrame>) -> (r: bool)
    ensures
        r == (eth_items(*q).len() == eth_cap(*q)),
{
    q.is_full()
}

/// Relies on `ConcurrentQueue::is_empty`: whether the queue holds no item.
#[verifier::external_body]
pub(crate) fn eth_queue_is_empty(q: &ConcurrentQueue<EthFrame>) -> (r: bool)
    ensures
        r == (eth_items(*q).len() == 0),
{
    q.is_empty()
}

} // verus!
