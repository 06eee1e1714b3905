//! The bridge between the USB device and the NCM engine: the boot handshake
//! (speed, then connection notification) and the two USB packet queues. The
//! USB stack performs the transfers; this module decides what to transfer and
//! what follows from each outcome.

use vstd::prelude::*;
use concurrent_queue::ConcurrentQueue;
use crate::queue::{
    UsbPacket, EP_DATA_BUF_SIZE, usb_items, usb_cap, usb_closed, usb_queue_new, usb_queue_push,
    usb_queue_pop, usb_queue_is_full,
};

verus! {

/// Capacity of the queue of packets from the host.
pub const USB_RX_QUEUE_SIZE: usize = 4;

/// Capacity of the queue of packets to the host.
pub const USB_TX_QUEUE_SIZE: usize = 8;

/// Where the boot handshake stands.
#[derive(Debug, Clone, Copy, PartialEq, Eq, Structural)]
pub enum UsbIpBootState {
    Speed,
    Notify,
    Normal,
}

/// What the USB side is to do in a poll.
#[derive(Debug, Clone, Copy, PartialEq, Eq, Structural)]
pub enum UsbIpAction {
    /// Send the speed notification.
    SendSpeed,
    /// Send the connection notification.
    SendConnection,
    /// Move data packets.
    Transfer,
}

/// What to do in a poll in state `s`.
pub open spec fn boot_action(s: UsbIpBootState) -> UsbIpAction {
    match s {
        UsbIpBootState::Speed => UsbIpAction::SendSpeed,
        UsbIpBootState::Notify => UsbIpAction::SendConnection,
        UsbIpBootState::Normal => UsbIpAction::Transfer,
    }
}

/// The state after a poll in state `s` whose notification was sent (`sent`)
/// or not.
pub open spec fn boot_next(s: UsbIpBootState, sent: bool) -> UsbIpBootState {
    match s {
        UsbIpBootState::Speed => if sent { UsbIpBootState::Notify } else { s },
        UsbIpBootState::Notify => if sent { UsbIpBootState::Normal } else { s },
        UsbIpBootState::Normal => s,
    }
}

/// The USB side of the link: the boot state, the queues of packets from and
/// to the host, and the packet being written to the host.
pub struct UsbBridge {
    pub bootstate: UsbIpBootState,
    pub rxq: ConcurrentQueue<UsbPacket>,
    pub txq: ConcurrentQueue<UsbPacket>,
    pub currtxbuf: UsbPacket,
    pub msghandled: bool,
}

impl UsbBridge {
    /// The queues are open, have their capacities and hold no more than them.
    pub open spec fn wf(&self) -> bool {
        &&& !usb_closed(self.rxq)
        &&& !usb_closed(self.txq)
        &&& usb_cap(self.rxq) == USB_RX_QUEUE_SIZE
        &&& usb_cap(self.txq) == USB_TX_QUEUE_SIZE
        &&& usb_items(self.rxq).len() <= usb_cap(self.rxq)
        &&& usb_items(self.txq).len() <= usb_cap(self.txq)
    }

    /// The packet held for writing, if any.
    pub open spec fn in_flight(&self) -> Option<UsbPacket> {
        if self.msghandled {
            None
        } else {
            Some(self.currtxbuf)
        }
    }

    /// Fresh after a reset: boot starts over, both queues are empty.
    pub fn new() -> (r: Self)
        ensures
            r.wf(),
            r.bootstate == UsbIpBootState::Speed,
            usb_items(r.rxq).len() == 0,
            usb_items(r.txq).len() == 0,
            r.in_flight() is None,
    {
        UsbBridge {
            bootstate: UsbIpBootState::Speed,
            rxq: usb_queue_new(USB_RX_QUEUE_SIZE),
            txq: usb_queue_new(USB_TX_QUEUE_SIZE),
            currtxbuf: (0, [0u8; 64]),
            msghandled: true,
        }
    }

    /// What to do in this poll.
    pub fn action(&self) -> (r: UsbIpAction)
        ensures
            r == boot_action(self.bootstate),
    {
        match self.bootstate {
            UsbIpBootState::Speed => UsbIpAction::SendSpeed,
            UsbIpBootState::Notify => UsbIpAction::SendConnection,
            UsbIpBootState::Normal => UsbIpAction::Transfer,
        }
    }

    /// Records whether the notification of this poll was sent.
    pub fn notification_result(&mut self, sent: bool)
        requires
            old(self).wf(),
        ensures
            final(self).wf(),
            final(self).bootstate == boot_next(old(self).bootstate, sent),
            final(self).rxq == old(self).rxq,
            final(self).txq == old(self).txq,
            final(self).in_flight() == old(self).in_flight(),
    {
        self.bootstate = match self.bootstate {
            UsbIpBootState::Speed => if sent {
                UsbIpBootState::Notify
            } else {
                UsbIpBootState::Speed
            },
            UsbIpBootState::Notify => if sent {
                UsbIpBootState::Normal
            } else {
                UsbIpBootState::Notify
            },
            UsbIpBootState::Normal => UsbIpBootState::Normal,
        };
    }

    /// Whether a packet from the host can be taken in this poll. When the queue
    /// from the host is full it is emptied instead (the flow has diverged) and
    /// no packet is taken.
    pub fn rx_ready(&mut self) -> (r: bool)
        requires
            old(self).wf(),
        ensures
            final(self).wf(),
            r == (usb_items(old(self).rxq).len() < USB_RX_QUEUE_SIZE),
            r ==> final(self).rxq == old(self).rxq,
            !r ==> usb_items(final(self).rxq).len() == 0,
            final(self).txq == old(self).txq,
            final(self).bootstate == old(self).bootstate,
            final(self).in_flight() == old(self).in_flight(),
    {
        if !usb_queue_is_full(&self.rxq) {
            return true;
        }
        loop
            invariant
                usb_items(old(self).rxq).len() == usb_cap(old(self).rxq),
                usb_cap(self.rxq) == usb_cap(old(self).rxq),
                usb_closed(self.rxq) == usb_closed(old(self).rxq),
                usb_items(self.rxq).len() <= usb_cap(self.rxq),
                old(self).wf(),
                self.txq == old(self).txq,
                self.bootstate == old(self).bootstate,
                self.in_flight() == old(self).in_flight(),
            decreases usb_items(self.rxq).len(),
        {
            if usb_queue_pop(&mut self.rxq).is_none() {
                return false;
            }
        }
    }

    /// Queues a packet read from the host; it is taken whenever `rx_ready` said so.
    pub fn packet_received(&mut self, p: UsbPacket) -> (r: bool)
        requires
            old(self).wf(),
        ensures
            final(self).wf(),
            r == (usb_items(old(self).rxq).len() < USB_RX_QUEUE_SIZE),
            r ==> usb_items(final(self).rxq) == usb_items(old(self).rxq).push(p),
            !r ==> usb_items(final(self).rxq) == usb_items(old(self).rxq),
            usb_cap(final(self).rxq) == usb_cap(old(self).rxq),
            usb_closed(final(self).rxq) == usb_closed(old(self).rxq),
            final(self).txq == old(self).txq,
            final(self).bootstate == old(self).bootstate,
            final(self).in_flight() == old(self).in_flight(),
    {
        usb_queue_push(&mut self.rxq, p)
    }

    /// The packet to write to the host in this poll, if any: the one in
    /// flight, or else the oldest queued packet, which is then in flight until
    /// it is written.
    pub fn tx_packet(&mut self) -> (r: Option<UsbPacket>)
        requires
            old(self).wf(),
        ensures
            final(self).wf(),
            ({
                let q = usb_items(old(self).txq);
                let q2 = usb_items(final(self).txq);
                let f = final(self).in_flight();
                &&& old(self).in_flight() is Some ==> r == old(self).in_flight() && q2 == q && f
                    == old(self).in_flight()
                &&& old(self).in_flight() is None && q.len() > 0 ==> r == Some(q[0]) && f == r
                    && q2 == q.drop_first()
                &&& old(self).in_flight() is None && q.len() == 0 ==> r is None && f is None
                    && q2 == q
            }),
            usb_cap(final(self).txq) == usb_cap(old(self).txq),
            usb_closed(final(self).txq) == usb_closed(old(self).txq),
            final(self).rxq == old(self).rxq,
            final(self).bootstate == old(self).bootstate,
    {
        if self.msghandled {
            match usb_queue_pop(&mut self.txq) {
                Some(p) => {
                    self.currtxbuf = p;
                    self.msghandled = false;
                    Some(p)
                },
                None => None,
            }
        } else {
            Some(self.currtxbuf)
        }
    }

    /// Records that the packet in flight was written to the host.
    pub fn tx_written(&mut self)
        requires
            old(self).wf(),
        ensures
            final(self).wf(),
            final(self).in_flight() is None,
            final(self).txq == old(self).txq,
            final(self).rxq == old(self).rxq,
            final(self).bootstate == old(self).bootstate,
    {
        self.msghandled = true;
    }
}

} // verus!
