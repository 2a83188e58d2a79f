//! ARP frames: crafting replies for enforcement and reading observed ones.

use vstd::prelude::*;
use crate::netproto::{extend_bytes, is_parse_error, NetProtoError};
use crate::text::owned;

verus! {

/// An ARP entry observed on the wire.
#[derive(Debug)]
pub struct ArpEntry {
    pub sender_mac: [u8; 6],
    /// IPv4 address, network byte order.
    pub sender_ip: [u8; 4],
    pub target_ip: [u8; 4],
    pub is_reply: bool,
}

/// An Ethernet frame carrying an ARP reply: Ethernet destination and
/// source, ethertype 0x0806, hardware type Ethernet, protocol IPv4, address
/// lengths 6 and 4, operation 2 (reply), then sender and target hardware
/// and protocol addresses.
pub open spec fn arp_reply_frame(
    dst: Seq<u8>,
    src: Seq<u8>,
    sha: Seq<u8>,
    spa: Seq<u8>,
    tha: Seq<u8>,
    tpa: Seq<u8>,
) -> Seq<u8> {
    dst + src + seq![0x08u8, 0x06u8, 0x00u8, 0x01u8, 0x08u8, 0x00u8, 6u8, 4u8, 0x00u8, 0x02u8] + sha + spa
        + tha + tpa
}

fn push_arp_header(frame: &mut Vec<u8>)
    ensures
        final(frame)@ == old(frame)@ + seq![0x08u8, 0x06u8, 0x00u8, 0x01u8, 0x08u8, 0x00u8, 6u8, 4u8, 0x00u8, 0x02u8],
{
    frame.push(0x08);
    frame.push(0x06);
    frame.push(0x00);
    frame.push(0x01);
    frame.push(0x08);
    frame.push(0x00);
    frame.push(6);
    frame.push(4);
    frame.push(0x00);
    frame.push(0x02);
    assert(frame@ =~= old(frame)@ + seq![0x08u8, 0x06u8, 0x00u8, 0x01u8, 0x08u8, 0x00u8, 6u8, 4u8, 0x00u8, 0x02u8]);
}

/// A gratuitous ARP reply announcing `sender_ip` at `sender_mac`, broadcast;
/// the target hardware address is zero.
pub fn craft_gratuitous_arp(sender_mac: [u8; 6], sender_ip: [u8; 4], target_ip: [u8; 4]) -> (r: Result<Vec<u8>, NetProtoError>)
    ensures
        r matches Ok(f) && f@ == arp_reply_frame(
            seq![0xffu8, 0xffu8, 0xffu8, 0xffu8, 0xffu8, 0xffu8],
            sender_mac@,
            sender_mac@,
            sender_ip@,
            seq![0u8, 0u8, 0u8, 0u8, 0u8, 0u8],
            target_ip@,
        ),
{
    let broadcast: [u8; 6] = [0xff; 6];
    let zeros: [u8; 6] = [0; 6];
    assert(broadcast@ =~= seq![0xffu8, 0xffu8, 0xffu8, 0xffu8, 0xffu8, 0xffu8]);
    assert(zeros@ =~= seq![0u8, 0u8, 0u8, 0u8, 0u8, 0u8]);
    let mut frame: Vec<u8> = Vec::new();
    extend_bytes(&mut frame, broadcast.as_slice());
    extend_bytes(&mut frame, sender_mac.as_slice());
    push_arp_header(&mut frame);
    extend_bytes(&mut frame, sender_mac.as_slice());
    extend_bytes(&mut frame, sender_ip.as_slice());
    extend_bytes(&mut frame, zeros.as_slice());
    extend_bytes(&mut frame, target_ip.as_slice());
    Ok(frame)
}

/// A unicast ARP reply to `dst_mac` claiming `sender_ip` is at `sender_mac`.
pub fn craft_arp_reply(
    dst_mac: [u8; 6],
    sender_mac: [u8; 6],
    sender_ip: [u8; 4],
    target_mac: [u8; 6],
    target_ip: [u8; 4],
) -> (r: Result<Vec<u8>, NetProtoError>)
    ensures
        r matches Ok(f) && f@ == arp_reply_frame(
            dst_mac@,
            sender_mac@,
            sender_mac@,
            sender_ip@,
            target_mac@,
            target_ip@,
        ),
{
    let mut frame: Vec<u8> = Vec::new();
    extend_bytes(&mut frame, dst_mac.as_slice());
    extend_bytes(&mut frame, sender_mac.as_slice());
    push_arp_header(&mut frame);
    extend_bytes(&mut frame, sender_mac.as_slice());
    extend_bytes(&mut frame, sender_ip.as_slice());
    extend_bytes(&mut frame, target_mac.as_slice());
    extend_bytes(&mut frame, target_ip.as_slice());
    Ok(frame)
}

/// The fields an ARP frame of at least 42 bytes carries.
pub open spec fn arp_fields(frame: Seq<u8>) -> (Seq<u8>, Seq<u8>, Seq<u8>, bool) {
    (
        frame.subrange(22, 28),
        frame.subrange(28, 32),
        frame.subrange(38, 42),
        (frame[20] as int) * 256 + (frame[21] as int) == 2,
    )
}

/// Reads the sender, target and operation of an ARP frame.
pub fn parse_arp(frame: &[u8]) -> (r: Result<ArpEntry, NetProtoError>)
    ensures
        frame@.len() < 42 ==> (r matches Err(e) && is_parse_error(e, "frame too short for ARP"@)),
        frame@.len() >= 42 ==> (r matches Ok(a) && (a.sender_mac@, a.sender_ip@, a.target_ip@, a.is_reply)
            == arp_fields(frame@)),
{
    if frame.len() < 42 {
        return Err(NetProtoError::Parse(owned("frame too short for ARP")));
    }
    let oper = (frame[20] as u16) * 256 + (frame[21] as u16);
    let sha: [u8; 6] = [frame[22], frame[23], frame[24], frame[25], frame[26], frame[27]];
    let spa: [u8; 4] = [frame[28], frame[29], frame[30], frame[31]];
    let tpa: [u8; 4] = [frame[38], frame[39], frame[40], frame[41]];
    assert(sha@ =~= frame@.subrange(22, 28));
    assert(spa@ =~= frame@.subrange(28, 32));
    assert(tpa@ =~= frame@.subrange(38, 42));
    Ok(ArpEntry { sender_mac: sha, sender_ip: spa, target_ip: tpa, is_reply: oper == 2 })
}

/// Reading back a crafted ARP reply gives its sender hardware and protocol
/// address, its target protocol address and the reply operation.
pub proof fn law_arp_reply_reads_back(
    dst: Seq<u8>,
    src: Seq<u8>,
    sha: Seq<u8>,
    spa: Seq<u8>,
    tha: Seq<u8>,
    tpa: Seq<u8>,
)
    requires
        dst.len() == 6,
        src.len() == 6,
        sha.len() == 6,
        spa.len() == 4,
        tha.len() == 6,
        tpa.len() == 4,
    ensures
        arp_reply_frame(dst, src, sha, spa, tha, tpa).len() == 42,
        arp_fields(arp_reply_frame(dst, src, sha, spa, tha, tpa)) == (sha, spa, tpa, true),
{
    let f = arp_reply_frame(dst, src, sha, spa, tha, tpa);
    assert(f.subrange(22, 28) =~= sha);
    assert(f.subrange(28, 32) =~= spa);
    assert(f.subrange(38, 42) =~= tpa);
    assert(f[20] == 0u8);
    assert(f[21] == 2u8);
}

} // verus!
