//! ICMPv6 neighbor discovery (RFC 4861): message types and the options
//! carrying link-layer addresses.

use vstd::prelude::*;
use crate::netproto::{is_parse_error, NetProtoError};
use crate::text::owned;

verus! {

/// ICMPv6 message types that neighbor discovery cares about.
#[derive(Debug, Clone, Copy, PartialEq, Eq, Structural)]
pub enum Icmpv6Type {
    RouterSolicitation,
    RouterAdvertisement,
    NeighborSolicitation,
    NeighborAdvertisement,
    Other(u8),
}

/// The message type that a type byte denotes.
pub open spec fn icmpv6_type_of(v: u8) -> Icmpv6Type {
    if v == 133 {
        Icmpv6Type::RouterSolicitation
    } else if v == 134 {
        Icmpv6Type::RouterAdvertisement
    } else if v == 135 {
        Icmpv6Type::NeighborSolicitation
    } else if v == 136 {
        Icmpv6Type::NeighborAdvertisement
    } else {
        Icmpv6Type::Other(v)
    }
}

impl From<u8> for Icmpv6Type {
    fn from(v: u8) -> (t: Self) {
        if v == 133 {
            Icmpv6Type::RouterSolicitation
        } else if v == 134 {
            Icmpv6Type::RouterAdvertisement
        } else if v == 135 {
            Icmpv6Type::NeighborSolicitation
        } else if v == 136 {
            Icmpv6Type::NeighborAdvertisement
        } else {
            Icmpv6Type::Other(v)
        }
    }
}

impl vstd::std_specs::convert::FromSpecImpl<u8> for Icmpv6Type {
    open spec fn obeys_from_spec() -> bool {
        true
    }

    open spec fn from_spec(v: u8) -> Icmpv6Type {
        icmpv6_type_of(v)
    }
}

/// What a neighbor solicitation or advertisement says.
#[derive(Debug, Clone)]
pub struct NdpEntry {
    pub icmpv6_type: Icmpv6Type,
    /// Target address, network byte order.
    pub target_addr: [u8; 16],
    /// Address from a source (1) or target (2) link-layer address option.
    pub link_layer_addr: Option<[u8; 6]>,
}

/// The six address bytes of a link-layer address option at `i`.
pub open spec fn lla_at(p: Seq<u8>, i: int) -> Seq<u8> {
    p.subrange(i + 2, i + 8)
}

/// Link-layer address that the options from `i` on give to `parse_ndp`:
/// each option is a type byte and a length in units of eight bytes; a zero
/// length or an option running past the payload ends the scan; the last
/// source or target link-layer address option wins.
pub open spec fn ndp_lla_from(p: Seq<u8>, i: int, found: Option<Seq<u8>>) -> Option<Seq<u8>>
    decreases p.len() - i,
{
    if 24 <= i && i + 2 <= p.len() {
        let opt_type = p[i];
        let opt_len = p[i + 1] as int * 8;
        if opt_len == 0 || i + opt_len > p.len() {
            found
        } else {
            let next = if opt_type == 1 || opt_type == 2 {
                Some(lla_at(p, i))
            } else {
                found
            };
            ndp_lla_from(p, i + opt_len, next)
        }
    } else {
        found
    }
}

pub open spec fn opt_mac(o: Option<[u8; 6]>) -> Option<Seq<u8>> {
    match o {
        Some(m) => Some(m@),
        None => None,
    }
}

/// Six bytes of `p` from `at` as an address.
fn mac_at(p: &[u8], at: usize) -> (m: [u8; 6])
    requires
        at + 6 <= p.len(),
    ensures
        m@ == p@.subrange(at as int, at + 6),
{
    let m: [u8; 6] = [p[at], p[at + 1], p[at + 2], p[at + 3], p[at + 4], p[at + 5]];
    assert(m@ =~= p@.subrange(at as int, at + 6));
    m
}

/// The target address field (bytes 8..24).
fn target_of(p: &[u8]) -> (t: [u8; 16])
    requires
        p.len() >= 24,
    ensures
        t@ == p@.subrange(8, 24),
{
    let t: [u8; 16] = [
        p[8],
        p[9],
        p[10],
        p[11],
        p[12],
        p[13],
        p[14],
        p[15],
        p[16],
        p[17],
        p[18],
        p[19],
        p[20],
        p[21],
        p[22],
        p[23],
    ];
    assert(t@ =~= p@.subrange(8, 24));
    t
}

/// The link-layer address that the options of a neighbor discovery
/// message carry, as `ndp_lla_from` reads them.
fn ndp_link_layer(payload: &[u8]) -> (r: Option<[u8; 6]>)
    requires
        payload@.len() >= 24,
    ensures
        opt_mac(r) == ndp_lla_from(payload@, 24, None),
{
    let mut link_layer_addr: Option<[u8; 6]> = None;
    let mut i: usize = 24;
    let mut done = false;
    while !done && payload.len() - i >= 2
        invariant
            24 <= i <= payload.len(),
            ndp_lla_from(payload@, 24, None) == (if done {
                opt_mac(link_layer_addr)
            } else {
                ndp_lla_from(payload@, i as int, opt_mac(link_layer_addr))
            }),
        decreases payload.len() - i + (if done { 0int } else { 1int }),
    {
        let opt_type = payload[i];
        let opt_len = payload[i + 1] as usize * 8;
        if opt_len == 0 || opt_len > payload.len() - i {
            done = true;
        } else {
            if (opt_type == 1 || opt_type == 2) && opt_len >= 8 {
                link_layer_addr = Some(mac_at(payload, i + 2));
            }
            i = i + opt_len;
        }
    }
    link_layer_addr
}

/// Reads the type, target and link-layer address of a neighbor discovery
/// message.
pub fn parse_ndp(payload: &[u8]) -> (r: Result<NdpEntry, NetProtoError>)
    ensures
        payload@.len() < 24 ==> (r matches Err(e) && is_parse_error(e, "ICMPv6 payload too short"@)),
        payload@.len() >= 24 ==> (r matches Ok(n) && n.icmpv6_type == icmpv6_type_of(payload@[0])
            && n.target_addr@ == payload@.subrange(8, 24) && opt_mac(n.link_layer_addr)
            == ndp_lla_from(payload@, 24, None)),
{
    if payload.len() < 24 {
        return Err(NetProtoError::Parse(owned("ICMPv6 payload too short")));
    }
    let msg_type = Icmpv6Type::from(payload[0]);
    let target_addr = target_of(payload);
    let link_layer_addr = ndp_link_layer(payload);
    Ok(NdpEntry { icmpv6_type: msg_type, target_addr, link_layer_addr })
}

/// A neighbor advertisement seen on the wire.
#[derive(Debug, Clone)]
pub struct NeighborAdvertisement {
    /// Target address, network byte order.
    pub target_addr: [u8; 16],
    /// Address from a target link-layer address option (type 2).
    pub link_layer_addr: Option<[u8; 6]>,
}

/// Link-layer address that the options from `i` on give to
/// `parse_neighbor_advertisement`: a zero length ends the scan; a target
/// link-layer address option whose first eight bytes lie in the payload
/// sets it, the last one winning.
pub open spec fn na_lla_from(p: Seq<u8>, i: int, found: Option<Seq<u8>>) -> Option<Seq<u8>>
    decreases p.len() + 2048 - i,
{
    if 24 <= i && i + 2 <= p.len() {
        let opt_type = p[i];
        let opt_len = p[i + 1] as int * 8;
        if opt_len == 0 {
            found
        } else {
            let next = if opt_type == 2 && i + 8 <= p.len() {
                Some(lla_at(p, i))
            } else {
                found
            };
            na_lla_from(p, i + opt_len, next)
        }
    } else {
        found
    }
}

/// Reads the target and target link-layer address of a neighbor
/// advertisement (type 136).
pub fn parse_neighbor_advertisement(payload: &[u8]) -> (r: Result<
    NeighborAdvertisement,
    NetProtoError,
>)
    ensures
        payload@.len() < 24 ==> (r matches Err(e) && is_parse_error(
            e,
            "ICMPv6 NA payload too short"@,
        )),
        payload@.len() >= 24 && payload@[0] != 136 ==> (r matches Err(e) && is_parse_error(
            e,
            "not an ICMPv6 Neighbor Advertisement"@,
        )),
        payload@.len() >= 24 && payload@[0] == 136 ==> (r matches Ok(n) && n.target_addr@
            == payload@.subrange(8, 24) && opt_mac(n.link_layer_addr) == na_lla_from(
            payload@,
            24,
            None,
        )),
{
    if payload.len() < 24 {
        return Err(NetProtoError::Parse(owned("ICMPv6 NA payload too short")));
    }
    if payload[0] != 136 {
        return Err(NetProtoError::Parse(owned("not an ICMPv6 Neighbor Advertisement")));
    }
    let target_addr = target_of(payload);
    let mut link_layer_addr: Option<[u8; 6]> = None;
    let mut i: usize = 24;
    let mut done = false;
    while !done && payload.len() - i >= 2
        invariant
            24 <= i <= payload.len(),
            na_lla_from(payload@, 24, None) == (if done {
                opt_mac(link_layer_addr)
            } else {
                na_lla_from(payload@, i as int, opt_mac(link_layer_addr))
            }),
        decreases payload.len() - i + (if done { 0int } else { 1int }),
    {
        let opt_type = payload[i];
        let opt_len = payload[i + 1] as usize * 8;
        if opt_len == 0 {
            done = true;
        } else {
            if opt_type == 2 && payload.len() - i >= 8 {
                link_layer_addr = Some(mac_at(payload, i + 2));
            }
            if opt_len > payload.len() - i {
                // the next option would start past the payload
                assert(na_lla_from(payload@, i + opt_len, opt_mac(link_layer_addr)) == opt_mac(
                    link_layer_addr,
                ));
                done = true;
            } else {
                i = i + opt_len;
            }
        }
    }
    Ok(NeighborAdvertisement { target_addr, link_layer_addr })
}

} // verus!
