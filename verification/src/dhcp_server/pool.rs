//! In-memory address pool: one address per client hardware address,
//! handed out in order from a configured range.

use vstd::prelude::*;
use crate::ipv4::{octets_to_u32, u32_to_octets};
use crate::text::bytes_eq;

verus! {

/// The state of a pool: the lease of each client key, the next address to
/// hand out, and the range.
pub struct PoolView {
    pub leases: Map<Seq<u8>, u32>,
    pub next: nat,
    pub start: u32,
    pub end: u32,
}

/// A client's key: the first six bytes of its hardware address (all of it
/// when shorter).
pub open spec fn lease_key(mac: Seq<u8>) -> Seq<u8> {
    if mac.len() < 6 {
        mac
    } else {
        mac.take(6)
    }
}

/// What `get_or_allocate` gives and leaves: the recorded lease of a known
/// key; else the next address while the range lasts, after which the first
/// address of the range is handed out again.
pub open spec fn allocate(p: PoolView, mac: Seq<u8>) -> (PoolView, u32) {
    let key = lease_key(mac);
    if p.leases.contains_key(key) {
        (p, p.leases[key])
    } else if p.next <= p.end {
        let ip = p.next as u32;
        (PoolView { leases: p.leases.insert(key, ip), next: p.next + 1, ..p }, ip)
    } else {
        (PoolView { leases: p.leases.insert(key, p.start), ..p }, p.start)
    }
}

/// Every lease came from the counter: leases lie in `[start, next)` and
/// no two keys share an address.
pub open spec fn leases_distinct(p: PoolView) -> bool {
    &&& p.start <= p.next
    &&& forall|k: Seq<u8>| #[trigger] p.leases.contains_key(k) ==> p.start <= p.leases[k] < p.next
    &&& forall|k1: Seq<u8>, k2: Seq<u8>|
        #[trigger] p.leases.contains_key(k1) && #[trigger] p.leases.contains_key(k2) && k1 != k2
            ==> p.leases[k1] != p.leases[k2]
}

/// The address pool. The leases are a list of (hardware address, address)
/// pairs in which no hardware address occurs twice (see `wf`): std's hash
/// map, keyed by byte strings, has no specification that Verus can reason
/// with, so the map is kept as such a list and viewed as a `Map`.
pub struct LeasePool {
    leases: Vec<(Vec<u8>, u32)>,
    next: u64,
    start: u32,
    end: u32,
    subnet_mask: [u8; 4],
    gateway: [u8; 4],
}

/// The map that a list of entries with distinct keys stands for.
pub open spec fn entries_map(e: Seq<(Vec<u8>, u32)>) -> Map<Seq<u8>, u32>
    decreases e.len(),
{
    if e.len() == 0 {
        Map::empty()
    } else {
        entries_map(e.drop_last()).insert(e.last().0@, e.last().1)
    }
}

impl LeasePool {
    pub closed spec fn view(&self) -> PoolView {
        PoolView {
            leases: entries_map(self.leases@),
            next: self.next as nat,
            start: self.start,
            end: self.end,
        }
    }

    pub closed spec fn mask_spec(&self) -> [u8; 4] {
        self.subnet_mask
    }

    pub closed spec fn gateway_spec(&self) -> [u8; 4] {
        self.gateway
    }

    /// Subnet mask handed to clients, network byte order.
    pub fn subnet_mask(&self) -> (r: [u8; 4])
        ensures
            r == self.mask_spec(),
    {
        self.subnet_mask
    }

    /// Default gateway handed to clients, network byte order.
    pub fn gateway(&self) -> (r: [u8; 4])
        ensures
            r == self.gateway_spec(),
    {
        self.gateway
    }

    /// No key occurs twice among the entries, and the counter lies within
    /// one past the range (or at its start).
    pub closed spec fn wf(&self) -> bool {
        &&& forall|i: int, j: int|
            0 <= i < j < self.leases@.len() ==> #[trigger] self.leases@[i].0@ != #[trigger] self.leases@[j].0@
        &&& self.next <= u32::MAX as u64 + 1
    }

    /// A pool handing out `pool_start` to `pool_end`, with no leases yet.
    pub fn new(pool_start: [u8; 4], pool_end: [u8; 4], subnet_mask: [u8; 4], gateway: [u8; 4]) -> (r: Self)
        ensures
            r.wf(),
            r.view().leases == Map::<Seq<u8>, u32>::empty(),
            r.view().start == crate::ipv4::ipv4_value(pool_start@),
            r.view().end == crate::ipv4::ipv4_value(pool_end@),
            r.view().next == r.view().start,
            r.mask_spec() == subnet_mask,
            r.gateway_spec() == gateway,
    {
        let start = octets_to_u32(pool_start);
        let end = octets_to_u32(pool_end);
        LeasePool { leases: Vec::new(), next: start as u64, start, end, subnet_mask, gateway }
    }

    /// The address leased to a hardware address, allocating one when it
    /// has none.
    pub fn get_or_allocate(&mut self, mac: &[u8]) -> (r: [u8; 4])
        requires
            old(self).wf(),
        ensures
            final(self).wf(),
            (final(self).view(), crate::ipv4::ipv4_value(r@) as u32) == allocate(old(self).view(), mac@),
            final(self).mask_spec() == old(self).mask_spec(),
            final(self).gateway_spec() == old(self).gateway_spec(),
    {
        let n = if mac.len() < 6 {
            mac.len()
        } else {
            6
        };
        let key = crate::netproto::slice_bytes(mac, 0, n);
        assert(key@ =~= lease_key(mac@));
        match self.find(&key) {
            Some(ip) => {
                let o = u32_to_octets(ip);
                o
            },
            None => {
                let ip: u32 = if self.next <= self.end as u64 {
                    let v = self.next as u32;
                    self.next = self.next + 1;
                    v
                } else {
                    self.start
                };
                let ghost before = self.leases@;
                proof {
                    Self::lemma_entries_contain(before, key@);
                }
                self.leases.push((key, ip));
                assert forall|i: int, j: int|
                    0 <= i < j < self.leases@.len() implies #[trigger] self.leases@[i].0@
                    != #[trigger] self.leases@[j].0@ by {
                    if j == before.len() {
                        assert(before[i].0@ != key@);
                    } else {
                        assert(before[i] == self.leases@[i] && before[j] == self.leases@[j]);
                    }
                }
                assert(self.leases@.drop_last() =~= before);
                u32_to_octets(ip)
            },
        }
    }

    proof fn lemma_entries_contain(e: Seq<(Vec<u8>, u32)>, k: Seq<u8>)
        ensures
            entries_map(e).contains_key(k) <==> exists|i: int| 0 <= i < e.len() && #[trigger] e[i].0@ == k,
        decreases e.len(),
    {
        if e.len() > 0 {
            Self::lemma_entries_contain(e.drop_last(), k);
            if entries_map(e.drop_last()).contains_key(k) {
                let i = choose|i: int| 0 <= i < e.drop_last().len() && #[trigger] e.drop_last()[i].0@ == k;
                assert(e[i].0@ == k);
            }
            if exists|i: int| 0 <= i < e.len() && #[trigger] e[i].0@ == k {
                let i = choose|i: int| 0 <= i < e.len() && #[trigger] e[i].0@ == k;
                if i < e.len() - 1 {
                    assert(e.drop_last()[i].0@ == k);
                }
            }
        }
    }

    proof fn lemma_entries_value(e: Seq<(Vec<u8>, u32)>, i: int)
        requires
            0 <= i < e.len(),
            forall|a: int, b: int| 0 <= a < b < e.len() ==> #[trigger] e[a].0@ != #[trigger] e[b].0@,
        ensures
            entries_map(e).contains_key(e[i].0@),
            entries_map(e)[e[i].0@] == e[i].1,
        decreases e.len(),
    {
        if i < e.len() - 1 {
            assert(e.drop_last()[i] == e[i]);
            Self::lemma_entries_value(e.drop_last(), i);
            assert(e[i].0@ != e.last().0@);
        }
    }

    /// The recorded lease of a key.
    fn find(&self, key: &Vec<u8>) -> (r: Option<u32>)
        requires
            self.wf(),
        ensures
            r matches Some(ip) ==> self.view().leases.contains_key(key@) && self.view().leases[key@] == ip,
            r is None ==> !self.view().leases.contains_key(key@),
    {
        let mut i: usize = 0;
        while i < self.leases.len()
            invariant
                self.wf(),
                i <= self.leases@.len(),
                forall|j: int| 0 <= j < i ==> #[trigger] self.leases@[j].0@ != key@,
            decreases self.leases@.len() - i,
        {
            if bytes_eq(self.leases[i].0.as_slice(), key.as_slice()) {
                proof {
                    Self::lemma_entries_value(self.leases@, i as int);
                }
                return Some(self.leases[i].1);
            }
            i = i + 1;
        }
        proof {
            Self::lemma_entries_contain(self.leases@, key@);
        }
        None
    }
}

/// Asking again for the same hardware address gives the same address and
/// changes nothing.
pub proof fn law_lease_is_stable(p: PoolView, mac: Seq<u8>)
    ensures
        allocate(allocate(p, mac).0, mac) == allocate(p, mac),
{
}

/// While the range lasts, a new client gets an address that no other
/// client holds, and the leases stay distinct.
pub proof fn law_distinct_until_exhausted(p: PoolView, mac: Seq<u8>)
    requires
        leases_distinct(p),
        !p.leases.contains_key(lease_key(mac)),
        p.next <= p.end,
    ensures
        forall|k: Seq<u8>| #[trigger] p.leases.contains_key(k) ==> p.leases[k] != allocate(p, mac).1,
        leases_distinct(allocate(p, mac).0),
{
}

} // verus!
