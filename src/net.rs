//! The network task's bookkeeping: socket ids and the C socket-address
//! layout exchanged with sandboxed programs.

use vstd::prelude::*;

verus! {

/// Address family of IPv4 socket addresses.
pub const AF_INET: u16 = 2;

/// Readiness of a socket.
#[derive(Debug, Clone, Copy, PartialEq, Eq, Structural)]
pub struct PollState {
    /// Data can be read now.
    pub readable: bool,
    /// Data can be written now.
    pub writable: bool,
}

/// The id `alloc_socket_id` hands out: the first free slot, or a new slot
/// at the end.
pub open spec fn first_free(slots: Seq<bool>) -> int {
    if exists|i: int| 0 <= i < slots.len() && !slots[i] {
        choose|i: int|
            0 <= i < slots.len() && !slots[i] && forall|j: int| 0 <= j < i ==> slots[j]
    } else {
        slots.len() as int
    }
}

/// Picks an id for a new socket: the lowest free slot of the table (`true`
/// marks a slot in use), or a new free slot appended at the end. The
/// caller fills the slot.
pub fn alloc_socket_id(slots: &mut Vec<bool>) -> (r: u64)
    requires
        old(slots)@.len() < u64::MAX,
    ensures
        r < final(slots)@.len(),
        !final(slots)@[r as int],
        forall|j: int| 0 <= j < r ==> final(slots)@[j],
        (exists|i: int| 0 <= i < old(slots)@.len() && !old(slots)@[i]) ==> final(slots)@
            == old(slots)@,
        !(exists|i: int| 0 <= i < old(slots)@.len() && !old(slots)@[i]) ==> final(slots)@
            == old(slots)@.push(false) && r == old(slots)@.len(),
{
    let mut i: usize = 0;
    while i < slots.len()
        invariant
            i <= slots@.len(),
            slots@ == old(slots)@,
            slots@.len() < u64::MAX,
            forall|j: int| 0 <= j < i ==> slots@[j],
        decreases slots@.len() - i,
    {
        if !slots[i] {
            return i as u64;
        }
        i = i + 1;
    }
    slots.push(false);
    i as u64
}

/// A socket address in the C layout: the family, then the port (big
/// endian) and the address octets.
#[derive(Debug, Default, Clone, Copy)]
pub struct LibcSocketAddr {
    pub sa_family: u16,
    pub sa_data: [u8; 14],
}

impl LibcSocketAddr {
    /// The C layout of the IPv4 address `ip` with `port`.
    pub fn from_ipv4(ip: [u8; 4], port: u16) -> (r: LibcSocketAddr)
        ensures
            r.sa_family == AF_INET,
            r.sa_data@ == seq![
                (port / 256) as u8,
                (port % 256) as u8,
                ip@[0],
                ip@[1],
                ip@[2],
                ip@[3],
                0u8,
                0u8,
                0u8,
                0u8,
                0u8,
                0u8,
                0u8,
                0u8,
            ],
    {
        let hi = (port / 256) as u8;
        let lo = (port % 256) as u8;
        let r = LibcSocketAddr {
            sa_family: AF_INET,
            sa_data: [hi, lo, ip[0], ip[1], ip[2], ip[3], 0, 0, 0, 0, 0, 0, 0, 0],
        };
        assert(r.sa_data@ =~= seq![hi, lo, ip@[0], ip@[1], ip@[2], ip@[3], 0u8, 0u8, 0u8, 0u8, 0u8, 0u8, 0u8, 0u8]);
        r
    }

    /// The IPv4 address and port the C layout holds.
    pub fn to_ipv4(&self) -> (r: ([u8; 4], u16))
        ensures
            r.0@ == self.sa_data@.subrange(2, 6),
            r.1 == self.sa_data@[0] as int * 256 + self.sa_data@[1] as int,
    {
        let d = self.sa_data;
        let ip: [u8; 4] = [d[2], d[3], d[4], d[5]];
        assert(ip@ =~= self.sa_data@.subrange(2, 6));
        let port: u16 = d[0] as u16 * 256 + d[1] as u16;
        (ip, port)
    }
}

/// Reading back the C layout gives the address and port it was made from.
pub proof fn lemma_socket_addr_round_trip(ip: Seq<u8>, port: u16)
    requires
        ip.len() == 4,
    ensures
        ({
            let data = seq![
                (port / 256) as u8,
                (port % 256) as u8,
                ip[0],
                ip[1],
                ip[2],
                ip[3],
            ];
            &&& data.subrange(2, 6) == ip
            &&& data[0] as int * 256 + data[1] as int == port
        }),
{
    let data = seq![(port / 256) as u8, (port % 256) as u8, ip[0], ip[1], ip[2], ip[3]];
    assert(data.subrange(2, 6) =~= ip);
}

} // verus!
