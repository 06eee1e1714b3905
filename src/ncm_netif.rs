//! The Ethernet side of the link as the IP stack sees it: a queue of received
//! frames and a queue of frames to send, each of two frames.

use vstd::prelude::*;
use concurrent_queue::ConcurrentQueue;
use crate::queue::{
    EthFrame, MTU, eth_items, eth_cap, eth_closed, eth_queue_new, eth_queue_push, eth_queue_pop,
    eth_queue_is_full, eth_queue_is_empty,
};

verus! {

/// Capacity of each frame queue.
pub const MAX_QUEUE_SIZE: usize = 2;

/// The two frame queues between the NCM engine and the IP stack.
pub struct StmPhy {
    pub rxq: ConcurrentQueue<EthFrame>,
    pub txq: ConcurrentQueue<EthFrame>,
}

impl StmPhy {
    /// Two empty, open queues of `MAX_QUEUE_SIZE` frames.
    pub fn new() -> (r: StmPhy)
        ensures
            eth_items(r.rxq).len() == 0,
            eth_cap(r.rxq) == MAX_QUEUE_SIZE,
            !eth_closed(r.rxq),
            eth_items(r.txq).len() == 0,
            eth_cap(r.txq) == MAX_QUEUE_SIZE,
            !eth_closed(r.txq),
    {
        StmPhy { rxq: eth_queue_new(MAX_QUEUE_SIZE), txq: eth_queue_new(MAX_QUEUE_SIZE) }
    }

    /// Whether a received frame is waiting (the stack may take a receive token).
    pub fn can_receive(&self) -> (r: bool)
        ensures
            r == (eth_items(self.rxq).len() > 0),
    {
        !eth_queue_is_empty(&self.rxq)
    }

    /// Whether a frame can be queued for sending (the stack may take a transmit
    /// token).
    pub fn can_transmit(&self) -> (r: bool)
        ensures
            r == (eth_items(self.txq).len() != eth_cap(self.txq)),
    {
        !eth_queue_is_full(&self.txq)
    }

    /// Takes the oldest received frame.
    pub fn receive_frame(&mut self) -> (r: Option<EthFrame>)
        ensures
            eth_items(old(self).rxq).len() == 0 ==> r is None && eth_items(final(self).rxq)
                == eth_items(old(self).rxq),
            eth_items(old(self).rxq).len() > 0 ==> r == Some(eth_items(old(self).rxq)[0])
                && eth_items(final(self).rxq) == eth_items(old(self).rxq).drop_first(),
            eth_cap(final(self).rxq) == eth_cap(old(self).rxq),
            eth_closed(final(self).rxq) == eth_closed(old(self).rxq),
            final(self).txq == old(self).txq,
    {
        eth_queue_pop(&mut self.rxq)
    }

    /// Queues the frame of `len` bytes built by the stack in `frame`; a frame
    /// that finds the queue full is dropped (returns false).
    pub fn send_frame(&mut self, len: usize, frame: [u8; 576]) -> (r: bool)
        requires
            len <= MTU,
        ensures
            r == (!eth_closed(old(self).txq) && eth_items(old(self).txq).len() < eth_cap(old(self).txq)),
            r ==> eth_items(final(self).txq) == eth_items(old(self).txq).push((len, frame)),
            !r ==> eth_items(final(self).txq) == eth_items(old(self).txq),
            eth_cap(final(self).txq) == eth_cap(old(self).txq),
            eth_closed(final(self).txq) == eth_closed(old(self).txq),
            final(self).rxq == old(self).rxq,
    {
        eth_queue_push(&mut self.txq, (len, frame))
    }
}

} // verus!
