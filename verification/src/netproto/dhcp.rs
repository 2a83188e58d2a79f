//! DHCPv4 snooping: bindings from server replies, fingerprinting signals
//! from client requests.

use vstd::prelude::*;
use crate::netproto::{is_parse_error, slice_bytes, NetProtoError};
use crate::text::{owned, utf8_string};

verus! {

/// A binding observed in a server reply (OFFER/ACK).
#[derive(Debug)]
pub struct DhcpBinding {
    pub client_mac: [u8; 6],
    /// The offered address (`yiaddr`), network byte order.
    pub offered_ip: [u8; 4],
    pub lease_secs: u32,
}

/// Big-endian 32-bit value of four bytes.
pub open spec fn be32(b0: u8, b1: u8, b2: u8, b3: u8) -> int {
    (b0 as int) * 16777216 + (b1 as int) * 65536 + (b2 as int) * 256 + (b3 as int)
}

/// The lease time a reply's options give, scanning from `i`: option 51
/// with length 4 sets it (the last one wins); pad options (0) are skipped,
/// the end option (255) stops the scan.
pub open spec fn lease_from(p: Seq<u8>, i: int, lease: u32) -> u32
    decreases p.len() + 256 - i,
{
    if 0 <= i && i + 1 < p.len() {
        let code = p[i];
        if code == 255 {
            lease
        } else if code == 0 {
            lease_from(p, i + 1, lease)
        } else {
            let l = p[i + 1] as int;
            let next = if code == 51 && l == 4 && i + 2 + l <= p.len() {
                be32(p[i + 2], p[i + 3], p[i + 4], p[i + 5]) as u32
            } else {
                lease
            };
            lease_from(p, i + 2 + l, next)
        }
    } else {
        lease
    }
}

/// Reads the binding a server reply (BOOTP op 2) carries.
pub fn parse_dhcp_binding(payload: &[u8]) -> (r: Result<DhcpBinding, NetProtoError>)
    ensures
        payload@.len() < 236 ==> (r matches Err(e) && is_parse_error(e, "DHCPv4 payload too short"@)),
        payload@.len() >= 236 && payload@[0] != 2 ==> (r matches Err(e) && is_parse_error(
            e,
            "not a DHCP reply (op != 2)"@,
        )),
        payload@.len() >= 236 && payload@[0] == 2 ==> (r matches Ok(b) && b.client_mac@
            == payload@.subrange(28, 34) && b.offered_ip@ == payload@.subrange(16, 20)
            && b.lease_secs == lease_from(payload@, 240, 86400)),
{
    if payload.len() < 236 {
        return Err(NetProtoError::Parse(owned("DHCPv4 payload too short")));
    }
    if payload[0] != 2 {
        return Err(NetProtoError::Parse(owned("not a DHCP reply (op != 2)")));
    }
    let mac: [u8; 6] = [payload[28], payload[29], payload[30], payload[31], payload[32], payload[33]];
    assert(mac@ =~= payload@.subrange(28, 34));
    let yiaddr: [u8; 4] = [payload[16], payload[17], payload[18], payload[19]];
    assert(yiaddr@ =~= payload@.subrange(16, 20));
    let mut lease_secs: u32 = 86400;
    let mut i: usize = 240;
    let mut done = false;
    while !done && i < payload.len() && payload.len() - i > 1
        invariant
            240 <= i,
            payload.len() >= 236,
            i <= payload.len() || i == 240,
            lease_from(payload@, 240, 86400) == (if done {
                lease_secs
            } else {
                lease_from(payload@, i as int, lease_secs)
            }),
        decreases payload.len() + 256 - i + (if done { 0int } else { 1int }),
    {
        let code = payload[i];
        if code == 255 {
            done = true;
        } else if code == 0 {
            i = i + 1;
        } else {
            let len = payload[i + 1] as usize;
            if len > payload.len() - i - 2 {
                proof {
                    let next = (i + 2 + len) as int;
                    assert(lease_from(payload@, next, lease_secs) == lease_secs);
                    assert(lease_from(payload@, i as int, lease_secs) == lease_from(
                        payload@,
                        next,
                        lease_secs,
                    ));
                }
                done = true;
            } else {
                if code == 51 && len == 4 {
                    let v: u32 = (payload[i + 2] as u32) * 16777216 + (payload[i + 3] as u32) * 65536
                        + (payload[i + 4] as u32) * 256 + (payload[i + 5] as u32);
                    assert(v == be32(payload[i + 2], payload[i + 3], payload[i + 4], payload[i + 5]));
                    lease_secs = v;
                }
                i = i + 2 + len;
            }
        }
    }
    Ok(DhcpBinding { client_mac: mac, offered_ip: yiaddr, lease_secs })
}

/// Fingerprinting signals from a client DISCOVER/REQUEST.
#[derive(Debug)]
pub struct DhcpClientPacket {
    /// The BOOTP `chaddr` field.
    pub client_mac: [u8; 6],
    /// Option 53: message type (1 = DISCOVER, 3 = REQUEST); 0 when absent.
    pub msg_type: u8,
    /// Option 12: host name.
    pub hostname: Option<String>,
    /// Option 55: parameter request list.
    pub parameter_request_list: Option<Vec<u8>>,
    /// Option 60: vendor class identifier.
    pub vendor_class: Option<String>,
}

/// Signals read so far: message type, host name, request list, vendor class.
pub type ClientOpts = (u8, Option<Seq<char>>, Option<Seq<u8>>, Option<Seq<char>>);

/// Text of an option value: its UTF-8 decoding, or none when malformed.
pub open spec fn utf8_text(data: Seq<u8>) -> Option<Seq<char>> {
    if vstd::utf8::valid_utf8(data) {
        Some(vstd::utf8::decode_utf8(data))
    } else {
        None
    }
}

/// The effect of one option on the signals: 12 sets the host name, 53 of
/// length 1 the message type, 55 the request list, 60 the vendor class.
pub open spec fn apply_option(st: ClientOpts, code: u8, data: Seq<u8>) -> ClientOpts {
    if code == 12 {
        (st.0, utf8_text(data), st.2, st.3)
    } else if code == 53 && data.len() == 1 {
        (data[0], st.1, st.2, st.3)
    } else if code == 55 {
        (st.0, st.1, Some(data), st.3)
    } else if code == 60 {
        (st.0, st.1, st.2, utf8_text(data))
    } else {
        st
    }
}

/// The signals that the options from `i` on give: pad (0) is skipped, end
/// (255) stops, as does an option whose length byte or data runs past the
/// payload.
pub open spec fn client_opts_from(p: Seq<u8>, i: int, st: ClientOpts) -> ClientOpts
    decreases p.len() - i,
{
    if 0 <= i && i < p.len() {
        let code = p[i];
        if code == 255 {
            st
        } else if code == 0 {
            client_opts_from(p, i + 1, st)
        } else if i + 1 >= p.len() {
            st
        } else {
            let l = p[i + 1] as int;
            let ds = i + 2;
            if ds + l > p.len() {
                st
            } else {
                client_opts_from(p, ds + l, apply_option(st, code, p.subrange(ds, ds + l)))
            }
        }
    } else {
        st
    }
}

/// The signals of a whole client packet.
pub open spec fn client_opts(p: Seq<u8>) -> ClientOpts {
    client_opts_from(p, 240, (0u8, None, None, None))
}

pub open spec fn opt_string(o: Option<String>) -> Option<Seq<char>> {
    match o {
        Some(s) => Some(s@),
        None => None,
    }
}

pub open spec fn opt_bytes(o: Option<Vec<u8>>) -> Option<Seq<u8>> {
    match o {
        Some(v) => Some(v@),
        None => None,
    }
}

/// Reads fingerprinting signals from a client request (BOOTP op 1).
pub fn parse_dhcp_client(payload: &[u8]) -> (r: Result<DhcpClientPacket, NetProtoError>)
    ensures
        payload@.len() < 240 ==> (r matches Err(e) && is_parse_error(e, "DHCP client payload too short"@)),
        payload@.len() >= 240 && payload@[0] != 1 ==> (r matches Err(e) && is_parse_error(
            e,
            "not a DHCP request (op != 1)"@,
        )),
        payload@.len() >= 240 && payload@[0] == 1 ==> (r matches Ok(c) && c.client_mac@
            == payload@.subrange(28, 34) && (c.msg_type, opt_string(c.hostname), opt_bytes(
            c.parameter_request_list,
        ), opt_string(c.vendor_class)) == client_opts(payload@)),
{
    if payload.len() < 240 {
        return Err(NetProtoError::Parse(owned("DHCP client payload too short")));
    }
    if payload[0] != 1 {
        return Err(NetProtoError::Parse(owned("not a DHCP request (op != 1)")));
    }
    let mac: [u8; 6] = [payload[28], payload[29], payload[30], payload[31], payload[32], payload[33]];
    assert(mac@ =~= payload@.subrange(28, 34));
    let mut msg_type: u8 = 0;
    let mut hostname: Option<String> = None;
    let mut parameter_request_list: Option<Vec<u8>> = None;
    let mut vendor_class: Option<String> = None;
    let mut i: usize = 240;
    let mut done = false;
    while !done && i < payload.len()
        invariant
            240 <= i,
            i <= payload.len() || i == 240,
            client_opts(payload@) == (if done {
                (msg_type, opt_string(hostname), opt_bytes(parameter_request_list), opt_string(vendor_class))
            } else {
                client_opts_from(
                    payload@,
                    i as int,
                    (msg_type, opt_string(hostname), opt_bytes(parameter_request_list), opt_string(vendor_class)),
                )
            }),
        decreases payload.len() + 256 - i + (if done { 0int } else { 1int }),
    {
        let code = payload[i];
        if code == 255 {
            done = true;
        } else if code == 0 {
            i = i + 1;
        } else if i + 1 >= payload.len() {
            done = true;
        } else {
            let len = payload[i + 1] as usize;
            let data_start = i + 2;
            if len > payload.len() - data_start {
                done = true;
            } else {
                let data = slice_bytes(payload, data_start, len);
                if code == 12 {
                    hostname = utf8_string(data);
                } else if code == 53 && len == 1 {
                    msg_type = data[0];
                } else if code == 55 {
                    parameter_request_list = Some(data);
                } else if code == 60 {
                    vendor_class = utf8_string(data);
                }
                i = data_start + len;
            }
        }
    }
    Ok(DhcpClientPacket { client_mac: mac, msg_type, hostname, parameter_request_list, vendor_class })
}

} // verus!
