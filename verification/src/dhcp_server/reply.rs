//! Replies to client messages: an OFFER for a DISCOVER, an ACK for a
//! REQUEST, and the binding event published for each reply.

use vstd::prelude::*;
use crate::dhcp_server::pool::{allocate, lease_key, LeasePool};
use crate::ipv4::{ipv4_text, ipv4_string};
use crate::text::{byte_hex, push_byte_hex, string_from_chars};

verus! {

/// DHCP message types, as far as the server tells them apart.
#[derive(Debug, Clone, Copy, PartialEq, Eq, Structural)]
pub enum DhcpMessageType {
    Discover,
    Offer,
    Request,
    Decline,
    Ack,
    Nak,
    Release,
    Inform,
    /// Any other message type.
    Other,
}

/// The fields of a client message that the server reads.
#[derive(Debug, Clone)]
pub struct DhcpRequest {
    /// Option 53; `None` when absent.
    pub msg_type: Option<DhcpMessageType>,
    pub htype: u8,
    pub xid: u32,
    pub flags: u16,
    pub giaddr: [u8; 4],
    pub chaddr: Vec<u8>,
    /// Option 50, the address the client asks for.
    pub requested_ip: Option<[u8; 4]>,
}

/// A server reply (BOOTP op 2, hops 0) with its options: message type,
/// server identifier, lease time, subnet mask and router.
#[derive(Debug, Clone)]
pub struct DhcpReply {
    pub msg_type: DhcpMessageType,
    pub htype: u8,
    pub xid: u32,
    pub flags: u16,
    pub yiaddr: [u8; 4],
    pub siaddr: [u8; 4],
    pub giaddr: [u8; 4],
    pub chaddr: Vec<u8>,
    pub server_identifier: [u8; 4],
    pub lease_secs: u32,
    pub subnet_mask: [u8; 4],
    pub router: [u8; 4],
}

/// The lease time every reply offers, in seconds.
pub const LEASE_SECS: u32 = 86400;

/// Why a client message got no reply.
#[derive(Debug, Clone, Copy, PartialEq, Eq, Structural)]
pub enum DhcpError {
    /// The message carries no message type option.
    NoMessageType,
    /// The datagram is not a DHCP message.
    Malformed,
}

/// The reply fields that echo the request or describe the server.
pub open spec fn reply_fits(r: DhcpReply, req: DhcpRequest, kind: DhcpMessageType, server_ip: [u8; 4], mask: [u8; 4], gw: [u8; 4]) -> bool {
    &&& r.msg_type == kind
    &&& r.htype == req.htype
    &&& r.xid == req.xid
    &&& r.flags == req.flags
    &&& r.siaddr == server_ip
    &&& r.giaddr == req.giaddr
    &&& r.chaddr@ == req.chaddr@
    &&& r.server_identifier == server_ip
    &&& r.lease_secs == LEASE_SECS
    &&& r.subnet_mask == mask
    &&& r.router == gw
}

fn build_reply(
    kind: DhcpMessageType,
    req: &DhcpRequest,
    yiaddr: [u8; 4],
    server_ip: [u8; 4],
    mask: [u8; 4],
    gw: [u8; 4],
) -> (r: DhcpReply)
    ensures
        reply_fits(r, *req, kind, server_ip, mask, gw),
        r.yiaddr == yiaddr,
{
    DhcpReply {
        msg_type: kind,
        htype: req.htype,
        xid: req.xid,
        flags: req.flags,
        yiaddr,
        siaddr: server_ip,
        giaddr: req.giaddr,
        chaddr: clone_bytes(&req.chaddr),
        server_identifier: server_ip,
        lease_secs: LEASE_SECS,
        subnet_mask: mask,
        router: gw,
    }
}

fn clone_bytes(v: &Vec<u8>) -> (r: Vec<u8>)
    ensures
        r@ == v@,
{
    crate::netproto::slice_bytes(v.as_slice(), 0, v.len())
}

/// The OFFER for a DISCOVER: the client's address from the pool.
pub fn handle_discover(pool: &mut LeasePool, server_ip: [u8; 4], req: &DhcpRequest) -> (r: DhcpReply)
    requires
        old(pool).wf(),
    ensures
        final(pool).wf(),
        (final(pool).view(), crate::ipv4::ipv4_value(r.yiaddr@) as u32) == allocate(old(pool).view(), req.chaddr@),
        final(pool).mask_spec() == old(pool).mask_spec(),
        final(pool).gateway_spec() == old(pool).gateway_spec(),
        reply_fits(r, *req, DhcpMessageType::Offer, server_ip, old(pool).mask_spec(), old(pool).gateway_spec()),
{
    let offered = pool.get_or_allocate(req.chaddr.as_slice());
    let mask = pool.subnet_mask();
    let gw = pool.gateway();
    build_reply(DhcpMessageType::Offer, req, offered, server_ip, mask, gw)
}

/// The ACK for a REQUEST: the address the client asked for, or else its
/// address from the pool.
pub fn handle_request(pool: &mut LeasePool, server_ip: [u8; 4], req: &DhcpRequest) -> (r: DhcpReply)
    requires
        old(pool).wf(),
    ensures
        final(pool).wf(),
        match req.requested_ip {
            Some(ip) => r.yiaddr == ip && final(pool).view() == old(pool).view(),
            None => (final(pool).view(), crate::ipv4::ipv4_value(r.yiaddr@) as u32) == allocate(
                old(pool).view(),
                req.chaddr@,
            ),
        },
        final(pool).mask_spec() == old(pool).mask_spec(),
        final(pool).gateway_spec() == old(pool).gateway_spec(),
        reply_fits(r, *req, DhcpMessageType::Ack, server_ip, old(pool).mask_spec(), old(pool).gateway_spec()),
{
    let ip = match req.requested_ip {
        Some(ip) => ip,
        None => pool.get_or_allocate(req.chaddr.as_slice()),
    };
    let mask = pool.subnet_mask();
    let gw = pool.gateway();
    build_reply(DhcpMessageType::Ack, req, ip, server_ip, mask, gw)
}

/// What answering a client message does to the pool (from `old` to `new`)
/// and what it returns: an OFFER for a DISCOVER with an address allocated
/// to the client, an ACK for a REQUEST with the address it asks for (or one
/// allocated), nothing for other types, and an error when the type is
/// missing. The mask and gateway are kept.
pub open spec fn responds(
    old: LeasePool,
    new: LeasePool,
    server_ip: [u8; 4],
    req: DhcpRequest,
    r: Result<Option<DhcpReply>, DhcpError>,
) -> bool {
    &&& new.mask_spec() == old.mask_spec()
    &&& new.gateway_spec() == old.gateway_spec()
    &&& req.msg_type is None ==> r == Err::<Option<DhcpReply>, DhcpError>(DhcpError::NoMessageType)
        && new.view() == old.view()
    &&& req.msg_type == Some(DhcpMessageType::Discover) ==> (r matches Ok(Some(rep)) && reply_fits(
        rep,
        req,
        DhcpMessageType::Offer,
        server_ip,
        old.mask_spec(),
        old.gateway_spec(),
    ) && (new.view(), crate::ipv4::ipv4_value(rep.yiaddr@) as u32) == allocate(old.view(), req.chaddr@))
    &&& req.msg_type == Some(DhcpMessageType::Request) ==> (r matches Ok(Some(rep)) && reply_fits(
        rep,
        req,
        DhcpMessageType::Ack,
        server_ip,
        old.mask_spec(),
        old.gateway_spec(),
    ) && match req.requested_ip {
        Some(ip) => rep.yiaddr == ip && new.view() == old.view(),
        None => (new.view(), crate::ipv4::ipv4_value(rep.yiaddr@) as u32) == allocate(old.view(), req.chaddr@),
    })
    &&& (req.msg_type matches Some(t) && t != DhcpMessageType::Discover && t != DhcpMessageType::Request)
        ==> r == Ok::<Option<DhcpReply>, DhcpError>(None) && new.view() == old.view()
}

/// The reply to a client message, as `responds` says.
pub fn respond(pool: &mut LeasePool, server_ip: [u8; 4], req: &DhcpRequest) -> (r: Result<Option<DhcpReply>, DhcpError>)
    requires
        old(pool).wf(),
    ensures
        final(pool).wf(),
        responds(*old(pool), *final(pool), server_ip, *req, r),
{
    match req.msg_type {
        None => Err(DhcpError::NoMessageType),
        Some(DhcpMessageType::Discover) => Ok(Some(handle_discover(pool, server_ip, req))),
        Some(DhcpMessageType::Request) => Ok(Some(handle_request(pool, server_ip, req))),
        Some(_) => Ok(None),
    }
}

/// Colon-separated lower-case hex of the first six bytes (fewer when the
/// address is shorter).
pub open spec fn mac_text(b: Seq<u8>) -> Seq<char>
    decreases b.len(),
{
    if b.len() == 0 {
        seq![]
    } else if b.len() == 1 {
        byte_hex(b[0])
    } else {
        mac_text(b.drop_last()) + seq![':'] + byte_hex(b.last())
    }
}

/// The text of a client hardware address.
pub fn format_mac(chaddr: &[u8]) -> (r: String)
    ensures
        r@ == mac_text(lease_key(chaddr@)),
{
    let n = if chaddr.len() < 6 {
        chaddr.len()
    } else {
        6
    };
    let ghost key = lease_key(chaddr@);
    assert(key =~= chaddr@.subrange(0, n as int));
    let mut out: Vec<char> = Vec::new();
    let mut i: usize = 0;
    while i < n
        invariant
            i <= n <= chaddr@.len(),
            key == chaddr@.subrange(0, n as int),
            out@ == mac_text(key.take(i as int)),
        decreases n - i,
    {
        if i > 0 {
            out.push(':');
        }
        push_byte_hex(&mut out, chaddr[i]);
        proof {
            let t = key.take(i + 1);
            assert(t.drop_last() =~= key.take(i as int));
            assert(t.last() == chaddr@[i as int]);
        }
        i = i + 1;
    }
    assert(key.take(n as int) =~= key);
    string_from_chars(out)
}

/// The binding event published after a reply.
#[derive(Debug, Clone)]
pub struct BindingEvent {
    pub mac: String,
    pub ip: String,
    pub msg_type: String,
}

/// The name of a message type, as `Debug` writes it.
pub open spec fn message_type_name(t: DhcpMessageType) -> Seq<char> {
    match t {
        DhcpMessageType::Discover => "Discover"@,
        DhcpMessageType::Offer => "Offer"@,
        DhcpMessageType::Request => "Request"@,
        DhcpMessageType::Decline => "Decline"@,
        DhcpMessageType::Ack => "Ack"@,
        DhcpMessageType::Nak => "Nak"@,
        DhcpMessageType::Release => "Release"@,
        DhcpMessageType::Inform => "Inform"@,
        DhcpMessageType::Other => "Other"@,
    }
}

fn message_type_text(t: DhcpMessageType) -> (r: String)
    ensures
        r@ == message_type_name(t),
{
    match t {
        DhcpMessageType::Discover => crate::text::owned("Discover"),
        DhcpMessageType::Offer => crate::text::owned("Offer"),
        DhcpMessageType::Request => crate::text::owned("Request"),
        DhcpMessageType::Decline => crate::text::owned("Decline"),
        DhcpMessageType::Ack => crate::text::owned("Ack"),
        DhcpMessageType::Nak => crate::text::owned("Nak"),
        DhcpMessageType::Release => crate::text::owned("Release"),
        DhcpMessageType::Inform => crate::text::owned("Inform"),
        DhcpMessageType::Other => crate::text::owned("Other"),
    }
}

/// The event published for a reply to a request of type `request_type`.
pub open spec fn event_fits(e: Option<BindingEvent>, req_chaddr: Seq<u8>, request_type: DhcpMessageType, reply: DhcpReply) -> bool {
    &&& reply.yiaddr@ == seq![0u8, 0u8, 0u8, 0u8] ==> e is None
    &&& reply.yiaddr@ != seq![0u8, 0u8, 0u8, 0u8] ==> (e matches Some(ev) && ev.mac@ == mac_text(lease_key(req_chaddr))
        && ev.ip@ == ipv4_text(reply.yiaddr@) && ev.msg_type@ == message_type_name(request_type))
}

/// The event for a reply to a request of type `request_type`: none when
/// the reply hands out the unspecified address 0.0.0.0.
pub fn binding_event(req_chaddr: &[u8], request_type: DhcpMessageType, reply: &DhcpReply) -> (r: Option<BindingEvent>)
    ensures
        event_fits(r, req_chaddr@, request_type, *reply),
{
    let y = reply.yiaddr;
    if y[0] == 0 && y[1] == 0 && y[2] == 0 && y[3] == 0 {
        assert(reply.yiaddr@ =~= seq![0u8, 0u8, 0u8, 0u8]);
        None
    } else {
        Some(
            BindingEvent {
                mac: format_mac(req_chaddr),
                ip: string_from_chars(ipv4_string(y)),
                msg_type: message_type_text(request_type),
            },
        )
    }
}

} // verus!
