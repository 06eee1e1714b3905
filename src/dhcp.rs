//! A small DHCP server: it answers DISCOVER with OFFER and REQUEST with ACK,
//! leasing each client (by hardware address) one address of a fixed pool.

use vstd::prelude::*;
use crate::text::push_bytes;

verus! {

pub const DHCP_SERVER_PORT: u16 = 67;

pub const DHCP_CLIENT_PORT: u16 = 68;

/// Where the options of a DHCP message start.
pub const DHCP_OPTIONS_START: usize = 240;

/// Size of the options area of the messages this server sends.
pub const DHCP_OPTIONS_LEN: usize = 68;

/// Lease time handed out, in seconds.
pub const DHCP_LEASE_TIME: u32 = 86400;

/// Option codes a client may put first in its options.
pub open spec fn known_option(c: u8) -> bool {
    c == 0 || c == 1 || c == 3 || c == 6 || c == 12 || c == 23 || c == 26 || c == 28 || c == 37
        || c == 42 || c == 50 || c == 51 || c == 52 || c == 53 || c == 54 || c == 255
}

/// Byte `i` of the options of `b` (zero past its end).
pub open spec fn opt_byte(b: Seq<u8>, i: int) -> u8 {
    if DHCP_OPTIONS_START + i < b.len() {
        b[DHCP_OPTIONS_START + i]
    } else {
        0
    }
}

/// The message type of the answer to the request `b`: OFFER (2) to a DISCOVER
/// (1), ACK (5) to a REQUEST (3). The message type is read from the first
/// option; a message shorter than the fixed part, whose first option has an
/// unknown code or more than four bytes, or of another type gets no answer.
pub open spec fn reply_type(b: Seq<u8>) -> Option<u8> {
    if b.len() < DHCP_OPTIONS_START {
        None
    } else if !known_option(opt_byte(b, 0)) || opt_byte(b, 1) > 4 {
        None
    } else {
        let t = if opt_byte(b, 1) >= 1 { opt_byte(b, 2) } else { 0 };
        if t == 1 {
            Some(2u8)
        } else if t == 3 {
            Some(5u8)
        } else {
            None
        }
    }
}

/// The first index from `i` on at which `alloc` holds `mac` (or its length).
pub open spec fn find_mac(alloc: Seq<[u8; 6]>, mac: Seq<u8>, i: int) -> int
    decreases alloc.len() - i,
{
    if i >= alloc.len() || alloc[i]@ == mac {
        i
    } else {
        find_mac(alloc, mac, i + 1)
    }
}

/// A DHCP server handing out `addrstart + k` for `k` below `maxaddr`, in the
/// subnet of `serverip`.
pub struct DhcpServer {
    pub addrstart: u8,
    pub maxaddr: u8,
    pub addrcnt: u8,
    pub serverip: [u8; 4],
    pub subnet: [u8; 4],
    /// The hardware addresses leased to, in the order of their leases.
    pub allocated: Vec<[u8; 6]>,
}

/// The last octet of the address leased to `mac`: the one it already holds, or
/// the next free one; `None` when the pool is exhausted.
pub open spec fn lease_octet(s: DhcpServer, mac: Seq<u8>) -> Option<u8> {
    let k = find_mac(s.allocated@, mac, 0);
    if k < s.allocated@.len() {
        if s.addrstart + k <= 255 {
            Some((s.addrstart + k) as u8)
        } else {
            None
        }
    } else if s.addrcnt < s.maxaddr && s.addrstart + s.addrcnt <= 255 {
        Some((s.addrstart + s.addrcnt) as u8)
    } else {
        None
    }
}

/// The options of an answer of type `t`: message type, subnet mask, router,
/// server identifier, lease time, DNS server, end.
pub open spec fn reply_options(t: u8, subnet: Seq<u8>, server: Seq<u8>) -> Seq<u8> {
    seq![53u8, 1, t] + seq![1u8, 4] + subnet + seq![3u8, 4] + server + seq![54u8, 4] + server + seq![
        51u8,
        4,
        0x00,
        0x01,
        0x51,
        0x80,
    ] + seq![6u8, 4] + server + seq![255u8]
}

/// The answer of type `t` to the request `b`, leasing the address of the
/// server's subnet whose last octet is `octet`: the request with its opcode set
/// to reply, `secs` and `flags` cleared, `yiaddr` set, and new options.
pub open spec fn dhcp_reply(b: Seq<u8>, t: u8, subnet: Seq<u8>, server: Seq<u8>, octet: u8) -> Seq<u8> {
    seq![2u8] + b.subrange(1, 8) + seq![0u8, 0, 0, 0] + b.subrange(12, 16) + server.take(3).push(
        octet,
    ) + b.subrange(20, 240) + reply_options(t, subnet, server) + Seq::new(34, |i: int| 0u8)
}

/// Whether two hardware addresses are equal.
fn same_mac(a: &[u8; 6], b: &[u8; 6]) -> (r: bool)
    ensures
        r == (a@ == b@),
{
    let mut i: usize = 0;
    while i < 6
        invariant
            i <= 6,
            a@.len() == 6,
            b@.len() == 6,
            forall|k: int| 0 <= k < i ==> a@[k] == b@[k],
        decreases 6 - i,
    {
        if a[i] != b[i] {
            return false;
        }
        i = i + 1;
    }
    assert(a@ =~= b@);
    true
}

impl DhcpServer {
    /// The server of the link: it is `serverip`, hands out `.5` to `.132` of its
    /// /24 subnet, and has leased nothing yet.
    pub fn new(serverip: [u8; 4]) -> (r: DhcpServer)
        ensures
            r.addrstart == 5,
            r.maxaddr == 128,
            r.addrcnt == 0,
            r.serverip == serverip,
            r.subnet@ == seq![255u8, 255, 255, 0],
            r.allocated@.len() == 0,
    {
        let subnet = [255u8, 255, 255, 0];
        assert(subnet@ =~= seq![255u8, 255, 255, 0]);
        DhcpServer { addrstart: 5, maxaddr: 128, addrcnt: 0, serverip, subnet, allocated: Vec::new() }
    }

    /// Where `mac` stands among the leases (or their count).
    fn find_lease(&self, mac: &[u8; 6]) -> (r: usize)
        ensures
            r == find_mac(self.allocated@, mac@, 0),
    {
        let n = self.allocated.len();
        let mut k: usize = 0;
        while k < n
            invariant
                n == self.allocated@.len(),
                k <= n,
                find_mac(self.allocated@, mac@, k as int) == find_mac(self.allocated@, mac@, 0),
            decreases n - k,
        {
            if same_mac(&self.allocated[k], mac) {
                return k;
            }
            k = k + 1;
        }
        k
    }

    /// Answers the DHCP message in `buf`, if it is a DISCOVER or a REQUEST that
    /// the pool can serve; a client seen for the first time is given the next
    /// free address.
    pub fn recv(&mut self, buf: &[u8]) -> (r: Option<Vec<u8>>)
        ensures
            final(self).addrstart == old(self).addrstart,
            final(self).maxaddr == old(self).maxaddr,
            final(self).serverip == old(self).serverip,
            final(self).subnet == old(self).subnet,
            reply_type(buf@) is None ==> r is None && final(self).addrcnt == old(self).addrcnt
                && final(self).allocated@ == old(self).allocated@,
            reply_type(buf@) is Some ==> ({
                let mac = buf@.subrange(28, 34);
                let lease = lease_octet(*old(self), mac);
                let k = find_mac(old(self).allocated@, mac, 0);
                &&& lease is None ==> r is None && final(self).addrcnt == old(self).addrcnt
                    && final(self).allocated@ == old(self).allocated@
                &&& lease is Some ==> r is Some && r->Some_0@ == dhcp_reply(
                    buf@,
                    reply_type(buf@)->Some_0,
                    old(self).subnet@,
                    old(self).serverip@,
                    lease->Some_0,
                )
                &&& lease is Some && k < old(self).allocated@.len() ==> final(self).addrcnt
                    == old(self).addrcnt && final(self).allocated@ == old(self).allocated@
                &&& lease is Some && k >= old(self).allocated@.len() ==> final(self).addrcnt
                    == old(self).addrcnt + 1 && final(self).allocated@.len() == old(
                    self,
                ).allocated@.len() + 1 && final(self).allocated@.drop_last() == old(self).allocated@
                    && final(self).allocated@.last()@ == mac
            }),
    {
        let n = buf.len();
        if n < DHCP_OPTIONS_START {
            return None;
        }
        let o0 = if DHCP_OPTIONS_START < n { buf[DHCP_OPTIONS_START] } else { 0 };
        let o1 = if DHCP_OPTIONS_START + 1 < n { buf[DHCP_OPTIONS_START + 1] } else { 0 };
        let o2 = if DHCP_OPTIONS_START + 2 < n { buf[DHCP_OPTIONS_START + 2] } else { 0 };
        let known = o0 == 0 || o0 == 1 || o0 == 3 || o0 == 6 || o0 == 12 || o0 == 23 || o0 == 26
            || o0 == 28 || o0 == 37 || o0 == 42 || o0 == 50 || o0 == 51 || o0 == 52 || o0 == 53
            || o0 == 54 || o0 == 255;
        if !known || o1 > 4 {
            return None;
        }
        let t = if o1 >= 1 { o2 } else { 0 };
        let reply: u8 = if t == 1 {
            2
        } else if t == 3 {
            5
        } else {
            return None;
        };
        let mut mac = [0u8; 6];
        let mut i: usize = 0;
        while i < 6
            invariant
                i <= 6,
                n == buf@.len(),
                n >= DHCP_OPTIONS_START,
                mac@.len() == 6,
                forall|k: int| 0 <= k < i ==> mac@[k] == buf@[28 + k],
            decreases 6 - i,
        {
            mac[i] = buf[28 + i];
            i = i + 1;
        }
        assert(mac@ =~= buf@.subrange(28, 34));
        let k = self.find_lease(&mac);
        let octet: u8;
        if k < self.allocated.len() {
            if k > (255 - self.addrstart) as usize {
                return None;
            }
            octet = (self.addrstart as usize + k) as u8;
        } else {
            if self.addrcnt >= self.maxaddr || self.addrstart as u16 + self.addrcnt as u16 > 255 {
                return None;
            }
            octet = self.addrstart + self.addrcnt;
            self.addrcnt = self.addrcnt + 1;
            self.allocated.push(mac);
        }
        let mut out: Vec<u8> = Vec::new();
        out.push(2);
        push_bytes(&mut out, &buf[1..8]);
        push_bytes(&mut out, &[0u8, 0, 0, 0]);
        push_bytes(&mut out, &buf[12..16]);
        out.push(self.serverip[0]);
        out.push(self.serverip[1]);
        out.push(self.serverip[2]);
        out.push(octet);
        push_bytes(&mut out, &buf[20..240]);
        let mut opts: Vec<u8> = vec![53u8, 1, reply, 1, 4];
        push_bytes(&mut opts, &self.subnet);
        push_bytes(&mut opts, &[3u8, 4]);
        push_bytes(&mut opts, &self.serverip);
        push_bytes(&mut opts, &[54u8, 4]);
        push_bytes(&mut opts, &self.serverip);
        push_bytes(&mut opts, &[51u8, 4, 0x00, 0x01, 0x51, 0x80]);
        push_bytes(&mut opts, &[6u8, 4]);
        push_bytes(&mut opts, &self.serverip);
        opts.push(255);
        assert(opts@ =~= reply_options(reply, self.subnet@, self.serverip@));
        push_bytes(&mut out, opts.as_slice());
        let mut j: usize = 0;
        while j < 34
            invariant
                j <= 34,
                n == buf@.len(),
                n >= DHCP_OPTIONS_START,
                out@.len() == 274 + j,
                forall|x: int| 274 <= x < 274 + j ==> out@[x] == 0u8,
                out@.take(274) == seq![2u8] + buf@.subrange(1, 8) + seq![0u8, 0, 0, 0] + buf@.subrange(12, 16)
                    + self.serverip@.take(3).push(octet) + buf@.subrange(20, 240) + reply_options(
                    reply,
                    self.subnet@,
                    self.serverip@,
                ),
            decreases 34 - j,
        {
            out.push(0);
            j = j + 1;
        }
        assert(out@ =~= dhcp_reply(buf@, reply, self.subnet@, self.serverip@, octet));
        Some(out)
    }
}

} // verus!
