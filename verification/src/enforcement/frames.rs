//! Frames sent to enforce decisions at layer 2: ARP poisoning that routes
//! an endpoint's traffic through this node, its undoing, the gateway
//! announcement, and IPv6 neighbor advertisement spoofing.

use vstd::prelude::*;
use crate::netproto::arp::{arp_reply_frame, craft_arp_reply, craft_gratuitous_arp};
use crate::netproto::extend_bytes;

verus! {

pub open spec fn broadcast_mac() -> Seq<u8> {
    seq![0xffu8, 0xffu8, 0xffu8, 0xffu8, 0xffu8, 0xffu8]
}

pub open spec fn zero_mac() -> Seq<u8> {
    seq![0u8, 0u8, 0u8, 0u8, 0u8, 0u8]
}

/// The gateway's hardware address when known, broadcast otherwise.
pub open spec fn gateway_mac_or_broadcast(gw_mac: Option<[u8; 6]>) -> Seq<u8> {
    match gw_mac {
        Some(m) => m@,
        None => broadcast_mac(),
    }
}

/// The two poisoning frames, in the order they are sent: to the victim,
/// claiming the gateway's address is at `my_mac`; to the gateway (unicast
/// when its hardware address is known), claiming the victim's address is.
pub open spec fn poison_frames_spec(
    my_mac: Seq<u8>,
    victim_ip: Seq<u8>,
    victim_mac: Seq<u8>,
    gateway_ip: Seq<u8>,
    gw_mac: Seq<u8>,
) -> Seq<Seq<u8>> {
    seq![
        arp_reply_frame(victim_mac, my_mac, my_mac, gateway_ip, victim_mac, victim_ip),
        arp_reply_frame(gw_mac, my_mac, my_mac, victim_ip, gw_mac, gateway_ip),
    ]
}

pub open spec fn frames_view(v: Seq<Vec<u8>>) -> Seq<Seq<u8>> {
    v.map_values(|f: Vec<u8>| f@)
}

fn unwrap_frame(r: Result<Vec<u8>, crate::netproto::NetProtoError>) -> (f: Vec<u8>)
    requires
        r is Ok,
    ensures
        r matches Ok(g) && f@ == g@,
{
    match r {
        Ok(f) => f,
        Err(_) => Vec::new(),
    }
}

/// The frames that quarantine or block an endpoint (both poison the same
/// way; the firewall tells the two apart).
pub fn poison_frames(
    my_mac: [u8; 6],
    victim_ip: [u8; 4],
    victim_mac: [u8; 6],
    gateway_ip: [u8; 4],
    gateway_mac: Option<[u8; 6]>,
) -> (r: Vec<Vec<u8>>)
    ensures
        frames_view(r@) == poison_frames_spec(
            my_mac@,
            victim_ip@,
            victim_mac@,
            gateway_ip@,
            gateway_mac_or_broadcast(gateway_mac),
        ),
{
    let gw_mac: [u8; 6] = match gateway_mac {
        Some(m) => m,
        None => [0xffu8; 6],
    };
    assert(gw_mac@ =~= gateway_mac_or_broadcast(gateway_mac));
    let to_victim = unwrap_frame(craft_arp_reply(victim_mac, my_mac, gateway_ip, victim_mac, victim_ip));
    let to_gateway = unwrap_frame(craft_arp_reply(gw_mac, my_mac, victim_ip, gw_mac, gateway_ip));
    let mut out: Vec<Vec<u8>> = Vec::new();
    out.push(to_victim);
    out.push(to_gateway);
    assert(frames_view(out@) =~= poison_frames_spec(
        my_mac@,
        victim_ip@,
        victim_mac@,
        gateway_ip@,
        gw_mac@,
    ));
    out
}

/// The three restoring frames, in order: to the victim, the gateway's
/// true address; to the gateway, the victim's true address; and a
/// broadcast gratuitous ARP for the victim.
pub open spec fn restore_frames_spec(
    victim_ip: Seq<u8>,
    victim_mac: Seq<u8>,
    gateway_ip: Seq<u8>,
    gateway_mac: Seq<u8>,
) -> Seq<Seq<u8>> {
    seq![
        arp_reply_frame(victim_mac, gateway_mac, gateway_mac, gateway_ip, victim_mac, victim_ip),
        arp_reply_frame(gateway_mac, victim_mac, victim_mac, victim_ip, gateway_mac, gateway_ip),
        arp_reply_frame(broadcast_mac(), victim_mac, victim_mac, victim_ip, zero_mac(), victim_ip),
    ]
}

/// The frames that undo poisoning for an allowed endpoint.
pub fn restore_frames(victim_ip: [u8; 4], victim_mac: [u8; 6], gateway_ip: [u8; 4], gateway_mac: [u8; 6]) -> (r: Vec<
    Vec<u8>,
>)
    ensures
        frames_view(r@) == restore_frames_spec(victim_ip@, victim_mac@, gateway_ip@, gateway_mac@),
{
    let a = unwrap_frame(craft_arp_reply(victim_mac, gateway_mac, gateway_ip, victim_mac, victim_ip));
    let b = unwrap_frame(craft_arp_reply(gateway_mac, victim_mac, victim_ip, gateway_mac, gateway_ip));
    let c = unwrap_frame(craft_gratuitous_arp(victim_mac, victim_ip, victim_ip));
    let mut out: Vec<Vec<u8>> = Vec::new();
    out.push(a);
    out.push(b);
    out.push(c);
    assert(frames_view(out@) =~= restore_frames_spec(victim_ip@, victim_mac@, gateway_ip@, gateway_mac@));
    out
}

/// Periodic announcement of the gateway's true hardware address.
#[derive(Debug, Clone)]
pub struct GatewayLock {
    pub iface_name: String,
    /// Gateway address, network byte order.
    pub gateway_ip: [u8; 4],
    pub gateway_mac: [u8; 6],
}

impl GatewayLock {
    pub fn new(iface_name: String, gateway_ip: [u8; 4], gateway_mac: [u8; 6]) -> (r: Self)
        ensures
            r.iface_name@ == iface_name@,
            r.gateway_ip == gateway_ip,
            r.gateway_mac == gateway_mac,
    {
        GatewayLock { iface_name, gateway_ip, gateway_mac }
    }

    /// The broadcast gratuitous ARP that announces the gateway.
    pub fn announce_frame(&self) -> (r: Vec<u8>)
        ensures
            r@ == arp_reply_frame(
                broadcast_mac(),
                self.gateway_mac@,
                self.gateway_mac@,
                self.gateway_ip@,
                zero_mac(),
                self.gateway_ip@,
            ),
    {
        unwrap_frame(craft_gratuitous_arp(self.gateway_mac, self.gateway_ip, self.gateway_ip))
    }
}

/// An unsolicited neighbor advertisement claiming `target` is at `sender`:
/// Ethernet to the all-nodes multicast address, an IPv6 header from the
/// target to ff02::1 (payload 32, next header ICMPv6, hop limit 255), the
/// advertisement with only the override flag set and a zero checksum, and
/// a target link-layer address option.
pub open spec fn na_spoof_frame(sender: Seq<u8>, target: Seq<u8>) -> Seq<u8> {
    seq![0x33u8, 0x33u8, 0u8, 0u8, 0u8, 1u8] + sender + seq![0x86u8, 0xddu8]
        + seq![0x60u8, 0u8, 0u8, 0u8, 0u8, 0x20u8, 58u8, 255u8] + target
        + seq![0xffu8, 0x02u8, 0u8, 0u8, 0u8, 0u8, 0u8, 0u8, 0u8, 0u8, 0u8, 0u8, 0u8, 0u8, 0u8, 1u8]
        + seq![136u8, 0u8, 0u8, 0u8, 0x20u8, 0u8, 0u8, 0u8] + target + seq![2u8, 1u8] + sender
}

/// The spoofed neighbor advertisement (86 bytes).
pub fn craft_na_spoof(sender_mac: [u8; 6], target_ipv6: [u8; 16]) -> (r: Vec<u8>)
    ensures
        r@ == na_spoof_frame(sender_mac@, target_ipv6@),
        r@.len() == 86,
{
    let mut f: Vec<u8> = Vec::new();
    extend_bytes(&mut f, [0x33u8, 0x33, 0, 0, 0, 1].as_slice());
    extend_bytes(&mut f, sender_mac.as_slice());
    extend_bytes(&mut f, [0x86u8, 0xdd].as_slice());
    extend_bytes(&mut f, [0x60u8, 0, 0, 0, 0, 0x20, 58, 255].as_slice());
    extend_bytes(&mut f, target_ipv6.as_slice());
    extend_bytes(&mut f, [0xffu8, 0x02, 0, 0, 0, 0, 0, 0, 0, 0, 0, 0, 0, 0, 0, 1].as_slice());
    extend_bytes(&mut f, [136u8, 0, 0, 0, 0x20, 0, 0, 0].as_slice());
    extend_bytes(&mut f, target_ipv6.as_slice());
    extend_bytes(&mut f, [2u8, 1].as_slice());
    extend_bytes(&mut f, sender_mac.as_slice());
    assert(f@ =~= na_spoof_frame(sender_mac@, target_ipv6@));
    f
}

/// Blocks IPv6 for endpoints by advertising their addresses as this node's.
#[derive(Debug, Clone)]
pub struct Ipv6Blocker {
    pub iface_name: String,
    pub enforcement_mac: [u8; 6],
}

impl Ipv6Blocker {
    pub fn new(iface_name: String, enforcement_mac: [u8; 6]) -> (r: Self)
        ensures
            r.iface_name@ == iface_name@,
            r.enforcement_mac == enforcement_mac,
    {
        Ipv6Blocker { iface_name, enforcement_mac }
    }

    /// The advertisement that blocks `target_ipv6`.
    pub fn block_frame(&self, target_ipv6: [u8; 16]) -> (r: Vec<u8>)
        ensures
            r@ == na_spoof_frame(self.enforcement_mac@, target_ipv6@),
    {
        craft_na_spoof(self.enforcement_mac, target_ipv6)
    }
}

} // verus!
