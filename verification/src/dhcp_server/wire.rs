//! DHCP messages on the wire: the datagram is read and written by
//! dhcproto; what is answered is decided by `reply`.

use vstd::prelude::*;
use dhcproto::v4::{Decodable, DhcpOption, Encodable, Flags, HType, Message, MessageType, Opcode, OptionCode};
use crate::dhcp_server::pool::LeasePool;
use crate::dhcp_server::reply::{binding_event, event_fits, respond, responds, BindingEvent, DhcpError, DhcpMessageType, DhcpReply, DhcpRequest};

verus! {

/// The fields of a client message as the datagram carries them; the
/// message type is the code of option 53.
pub struct WireRequest {
    pub msg_type: Option<u8>,
    pub htype: u8,
    pub xid: u32,
    pub flags: u16,
    pub giaddr: [u8; 4],
    pub chaddr: Vec<u8>,
    pub requested_ip: Option<[u8; 4]>,
}

/// Those fields as values.
pub struct WireRequestV {
    pub msg_type: Option<u8>,
    pub htype: u8,
    pub xid: u32,
    pub flags: u16,
    pub giaddr: [u8; 4],
    pub chaddr: Seq<u8>,
    pub requested_ip: Option<[u8; 4]>,
}

pub open spec fn wire_view(w: WireRequest) -> WireRequestV {
    WireRequestV {
        msg_type: w.msg_type,
        htype: w.htype,
        xid: w.xid,
        flags: w.flags,
        giaddr: w.giaddr,
        chaddr: w.chaddr@,
        requested_ip: w.requested_ip,
    }
}

/// What dhcproto reads from a datagram: the fields of the message, or
/// none when it is not a DHCP message.
pub uninterp spec fn dhcp_fields_of(data: Seq<u8>) -> Option<WireRequestV>;

/// `Message::from_bytes`, then the message's accessors. The fields depend on
/// the bytes alone. A message whose hardware address length exceeds the 16
/// bytes of `chaddr` is treated as unreadable, since `Message::chaddr`
/// would panic on it.
#[verifier::external_body]
fn decode_wire(data: &[u8]) -> (r: Option<WireRequest>)
    ensures
        match dhcp_fields_of(data@) {
            Some(v) => r matches Some(w) && wire_view(w) == v,
            None => r is None,
        },
{
    let m = Message::from_bytes(data).ok().filter(|m| m.hlen() <= 16)?;
    let requested_ip = match m.opts().get(OptionCode::RequestedIpAddress) {
        Some(DhcpOption::RequestedIpAddress(ip)) => Some(ip.octets()),
        _ => None,
    };
    let (msg_type, htype, flags) = (m.opts().msg_type().map(u8::from), m.htype().into(), m.flags().into());
    let (xid, giaddr, chaddr) = (m.xid(), m.giaddr().octets(), m.chaddr().to_vec());
    Some(WireRequest { msg_type, htype, xid, flags, giaddr, chaddr, requested_ip })
}

/// The message type of an option 53 code (RFC 2132 §9.6).
pub open spec fn message_type_of(code: u8) -> DhcpMessageType {
    if code == 1 {
        DhcpMessageType::Discover
    } else if code == 2 {
        DhcpMessageType::Offer
    } else if code == 3 {
        DhcpMessageType::Request
    } else if code == 4 {
        DhcpMessageType::Decline
    } else if code == 5 {
        DhcpMessageType::Ack
    } else if code == 6 {
        DhcpMessageType::Nak
    } else if code == 7 {
        DhcpMessageType::Release
    } else if code == 8 {
        DhcpMessageType::Inform
    } else {
        DhcpMessageType::Other
    }
}

fn message_type_exec(code: u8) -> (r: DhcpMessageType)
    ensures
        r == message_type_of(code),
{
    if code == 1 {
        DhcpMessageType::Discover
    } else if code == 2 {
        DhcpMessageType::Offer
    } else if code == 3 {
        DhcpMessageType::Request
    } else if code == 4 {
        DhcpMessageType::Decline
    } else if code == 5 {
        DhcpMessageType::Ack
    } else if code == 6 {
        DhcpMessageType::Nak
    } else if code == 7 {
        DhcpMessageType::Release
    } else if code == 8 {
        DhcpMessageType::Inform
    } else {
        DhcpMessageType::Other
    }
}

/// The option 53 code of a message type (`Other` is written as 0).
pub open spec fn message_type_code(t: DhcpMessageType) -> u8 {
    match t {
        DhcpMessageType::Discover => 1,
        DhcpMessageType::Offer => 2,
        DhcpMessageType::Request => 3,
        DhcpMessageType::Decline => 4,
        DhcpMessageType::Ack => 5,
        DhcpMessageType::Nak => 6,
        DhcpMessageType::Release => 7,
        DhcpMessageType::Inform => 8,
        DhcpMessageType::Other => 0,
    }
}

fn message_code_exec(t: DhcpMessageType) -> (r: u8)
    ensures
        r == message_type_code(t),
{
    match t {
        DhcpMessageType::Discover => 1,
        DhcpMessageType::Offer => 2,
        DhcpMessageType::Request => 3,
        DhcpMessageType::Decline => 4,
        DhcpMessageType::Ack => 5,
        DhcpMessageType::Nak => 6,
        DhcpMessageType::Release => 7,
        DhcpMessageType::Inform => 8,
        DhcpMessageType::Other => 0,
    }
}

/// The request a server reads from the datagram's fields.
pub open spec fn request_matches(req: DhcpRequest, v: WireRequestV) -> bool {
    &&& req.msg_type == (match v.msg_type {
        Some(c) => Some(message_type_of(c)),
        None => None,
    })
    &&& req.htype == v.htype
    &&& req.xid == v.xid
    &&& req.flags == v.flags
    &&& req.giaddr == v.giaddr
    &&& req.chaddr@ == v.chaddr
    &&& req.requested_ip == v.requested_ip
}

/// Reads a client message from a datagram.
pub fn decode_dhcp(data: &[u8]) -> (r: Option<DhcpRequest>)
    ensures
        match dhcp_fields_of(data@) {
            Some(v) => r matches Some(req) && request_matches(req, v),
            None => r is None,
        },
{
    let w = match decode_wire(data) {
        Some(w) => w,
        None => return None,
    };
    let msg_type = match w.msg_type {
        Some(c) => Some(message_type_exec(c)),
        None => None,
    };
    Some(
        DhcpRequest {
            msg_type,
            htype: w.htype,
            xid: w.xid,
            flags: w.flags,
            giaddr: w.giaddr,
            chaddr: w.chaddr,
            requested_ip: w.requested_ip,
        },
    )
}

pub open spec fn be16(v: u16) -> Seq<u8> {
    seq![(v / 256) as u8, (v % 256) as u8]
}

pub open spec fn be32(v: u32) -> Seq<u8> {
    seq![(v / 16777216) as u8, (v / 65536 % 256) as u8, (v / 256 % 256) as u8, (v % 256) as u8]
}

/// The fixed start of a reply's BOOTP header: op 2 (reply), hardware type,
/// hardware address length, hops 0, transaction id, secs 0, flags, ciaddr
/// 0.0.0.0, yiaddr, siaddr, giaddr.
pub open spec fn reply_header(r: DhcpReply) -> Seq<u8> {
    seq![2u8, r.htype, r.chaddr@.len() as u8, 0u8] + be32(r.xid) + seq![0u8, 0u8] + be16(r.flags) + seq![
        0u8,
        0u8,
        0u8,
        0u8,
    ] + r.yiaddr@ + r.siaddr@ + r.giaddr@
}

/// The options of a reply, each as code, length and value: message type
/// (53, the code given), server identifier (54), lease time (51, seconds,
/// big-endian), subnet mask (1) and router (3).
pub open spec fn reply_options(r: DhcpReply, msg_code: u8) -> Seq<Seq<u8>> {
    seq![
        seq![53u8, 1u8, msg_code],
        seq![54u8, 4u8] + r.server_identifier@,
        seq![51u8, 4u8] + be32(r.lease_secs),
        seq![1u8, 4u8] + r.subnet_mask@,
        seq![3u8, 4u8] + r.router@,
    ]
}

/// The bytes of an encoded reply: the header above; the hardware address
/// (its first 16 bytes, zero-padded); empty server and file names; the
/// magic cookie at 236; then the five options, in some order, and the end
/// option (255).
pub open spec fn reply_bytes_fit(b: Seq<u8>, r: DhcpReply, msg_code: u8) -> bool {
    &&& b.len() == 268
    &&& b.subrange(0, 28) == reply_header(r)
    &&& forall|i: int| 0 <= i < 16 ==> #[trigger] b[28 + i] == (if i < r.chaddr@.len() {
        r.chaddr@[i]
    } else {
        0u8
    })
    &&& forall|i: int| 44 <= i < 236 ==> #[trigger] b[i] == 0u8
    &&& b.subrange(236, 240) == seq![99u8, 130u8, 83u8, 99u8]
    &&& exists|o: Seq<Seq<u8>>| #[trigger] o.to_multiset() == reply_options(r, msg_code).to_multiset()
        && o.flatten() == b.subrange(240, 267)
    &&& b[267] == 255u8
}

/// A default `Message` (`BootRequest`, hops, secs and ciaddr zero, no server
/// or file name) given the reply's fields and its five options (message type
/// from `msg_code`, server identifier, lease time, subnet mask, one router),
/// encoded with `to_vec`. The encoder fails only on server or file names
/// longer than their fields, which are empty here. The options follow the
/// magic cookie in the order in which dhcproto's option map is walked,
/// which varies between processes; only which options there are is stated.
#[verifier::external_body]
fn encode_wire(reply: &DhcpReply, msg_code: u8) -> (r: Option<Vec<u8>>)
    ensures
        r is Some,
        r matches Some(b) ==> reply_bytes_fit(b@, *reply, msg_code),
{
    let mut m = Message::default();
    m.set_opcode(Opcode::BootReply).set_htype(HType::from(reply.htype)).set_xid(reply.xid);
    m.set_flags(Flags::from(reply.flags)).set_yiaddr(reply.yiaddr).set_siaddr(reply.siaddr);
    m.set_giaddr(reply.giaddr).set_chaddr(&reply.chaddr);
    let o = m.opts_mut();
    o.insert(DhcpOption::MessageType(MessageType::from(msg_code)));
    o.insert(DhcpOption::ServerIdentifier(reply.server_identifier.into()));
    o.insert(DhcpOption::AddressLeaseTime(reply.lease_secs));
    o.insert(DhcpOption::SubnetMask(reply.subnet_mask.into()));
    o.insert(DhcpOption::Router(vec![reply.router.into()]));
    m.to_vec().ok()
}

/// Encodes a reply as a datagram, its message type option carrying the
/// reply's type.
pub fn encode_dhcp(reply: &DhcpReply) -> (r: Vec<u8>)
    ensures
        reply_bytes_fit(r@, *reply, message_type_code(reply.msg_type)),
{
    match encode_wire(reply, message_code_exec(reply.msg_type)) {
        Some(b) => b,
        None => Vec::new(),
    }
}

/// A datagram answered: the request read, the reply, its bytes, and the
/// binding event to publish.
pub struct Handled {
    pub request: DhcpRequest,
    pub reply: DhcpReply,
    pub bytes: Vec<u8>,
    pub event: Option<BindingEvent>,
}

/// Answers a datagram: reads the client message, answers it from the pool,
/// encodes the reply and makes its binding event. An unreadable datagram or
/// one without a message type is an error; a message the server does not
/// answer gives nothing.
pub fn handle_packet(pool: &mut LeasePool, server_ip: [u8; 4], data: &[u8]) -> (r: Result<Option<Handled>, DhcpError>)
    requires
        old(pool).wf(),
    ensures
        final(pool).wf(),
        dhcp_fields_of(data@) is None ==> r == Err::<Option<Handled>, DhcpError>(DhcpError::Malformed)
            && final(pool).view() == old(pool).view(),
        dhcp_fields_of(data@) matches Some(v) ==> {
            let t = match v.msg_type {
                Some(c) => Some(message_type_of(c)),
                None => None,
            };
            &&& t is None ==> r == Err::<Option<Handled>, DhcpError>(DhcpError::NoMessageType)
            &&& (t matches Some(k) && k != DhcpMessageType::Discover && k != DhcpMessageType::Request)
                ==> r == Ok::<Option<Handled>, DhcpError>(None)
            &&& r matches Ok(Some(h)) ==> {
                &&& request_matches(h.request, v)
                &&& responds(*old(pool), *final(pool), server_ip, h.request, Ok(Some(h.reply)))
                &&& reply_bytes_fit(h.bytes@, h.reply, message_type_code(h.reply.msg_type))
                &&& event_fits(h.event, h.request.chaddr@, h.request.msg_type.unwrap(), h.reply)
            }
            &&& (t == Some(DhcpMessageType::Discover) || t == Some(DhcpMessageType::Request)) ==> (r matches Ok(Some(_)))
            &&& r is Err ==> final(pool).view() == old(pool).view()
        },
{
    let req = match decode_dhcp(data) {
        Some(req) => req,
        None => return Err(DhcpError::Malformed),
    };
    let reply = match respond(pool, server_ip, &req) {
        Ok(Some(reply)) => reply,
        Ok(None) => return Ok(None),
        Err(e) => return Err(e),
    };
    let bytes = encode_dhcp(&reply);
    let kind = match req.msg_type {
        Some(k) => k,
        None => return Err(DhcpError::NoMessageType),
    };
    let event = binding_event(req.chaddr.as_slice(), kind, &reply);
    Ok(Some(Handled { request: req, reply, bytes, event }))
}

} // verus!
