use nac::netproto::arp::{craft_arp_reply, craft_gratuitous_arp, parse_arp};
use nac::netproto::dhcp::{parse_dhcp_binding, parse_dhcp_client};
use nac::netproto::icmpv6::{parse_ndp, parse_neighbor_advertisement, Icmpv6Type};
use nac::netproto::snmp::encode_get_request;
use nac::netproto::NetProtoError;

fn make_dhcp_discover(mac: [u8; 6], prl: &[u8], hostname: &str) -> Vec<u8> {
    let mut pkt = vec![0u8; 240];
    pkt[0] = 1;
    pkt[1] = 1;
    pkt[2] = 6;
    pkt[28..34].copy_from_slice(&mac);
    pkt[236] = 99;
    pkt[237] = 130;
    pkt[238] = 83;
    pkt[239] = 99;
    pkt.extend_from_slice(&[53, 1, 1]);
    pkt.push(55);
    pkt.push(prl.len() as u8);
    pkt.extend_from_slice(prl);
    let h = hostname.as_bytes();
    pkt.push(12);
    pkt.push(h.len() as u8);
    pkt.extend_from_slice(h);
    pkt.push(255);
    pkt
}

#[test]
fn test_parse_dhcp_discover() {
    let mac = [0xAA, 0xBB, 0xCC, 0xDD, 0xEE, 0xFF];
    let prl = &[1u8, 3, 6, 15];
    let pkt = make_dhcp_discover(mac, prl, "myhost");
    let result = parse_dhcp_client(&pkt).unwrap();
    assert_eq!(result.client_mac, mac);
    assert_eq!(result.msg_type, 1);
    assert_eq!(result.parameter_request_list.as_deref(), Some(prl as &[u8]));
    assert_eq!(result.hostname.as_deref(), Some("myhost"));
}

#[test]
fn test_parse_dhcp_too_short() {
    let short = vec![0u8; 100];
    assert!(parse_dhcp_client(&short).is_err());
}

#[test]
fn test_parse_dhcp_not_request() {
    let mut pkt = vec![0u8; 240];
    pkt[0] = 2;
    assert!(parse_dhcp_client(&pkt).is_err());
}

#[test]
fn dhcp_client_errors_name_their_cause() {
    match parse_dhcp_client(&[0u8; 10]) {
        Err(NetProtoError::Parse(m)) => assert_eq!(m, "DHCP client payload too short"),
        _ => panic!("expected a parse error"),
    }
    let mut pkt = vec![0u8; 240];
    pkt[0] = 2;
    match parse_dhcp_client(&pkt) {
        Err(NetProtoError::Parse(m)) => assert_eq!(m, "not a DHCP request (op != 1)"),
        _ => panic!("expected a parse error"),
    }
}

#[test]
fn dhcp_client_vendor_class_and_bad_utf8_hostname() {
    let mut pkt = vec![0u8; 240];
    pkt[0] = 1;
    pkt.extend_from_slice(&[60, 4, b'M', b'S', b'F', b'T']);
    pkt.extend_from_slice(&[12, 2, 0xff, 0xfe]);
    pkt.push(255);
    let c = parse_dhcp_client(&pkt).unwrap();
    assert_eq!(c.vendor_class.as_deref(), Some("MSFT"));
    assert_eq!(c.hostname, None);
    assert_eq!(c.msg_type, 0);
}

#[test]
fn dhcp_binding_reads_lease_time() {
    let mut pkt = vec![0u8; 240];
    pkt[0] = 2;
    pkt[16..20].copy_from_slice(&[192, 168, 1, 50]);
    pkt[28..34].copy_from_slice(&[1, 2, 3, 4, 5, 6]);
    pkt.extend_from_slice(&[0, 51, 4, 0, 0, 0x0e, 0x10, 255]);
    let b = parse_dhcp_binding(&pkt).unwrap();
    assert_eq!(b.offered_ip, [192, 168, 1, 50]);
    assert_eq!(b.client_mac, [1, 2, 3, 4, 5, 6]);
    assert_eq!(b.lease_secs, 3600);
}

#[test]
fn dhcp_binding_defaults_and_errors() {
    let mut pkt = vec![0u8; 236];
    pkt[0] = 2;
    assert_eq!(parse_dhcp_binding(&pkt).unwrap().lease_secs, 86400);
    pkt[0] = 1;
    match parse_dhcp_binding(&pkt) {
        Err(NetProtoError::Parse(m)) => assert_eq!(m, "not a DHCP reply (op != 2)"),
        _ => panic!("expected a parse error"),
    }
    match parse_dhcp_binding(&[2u8; 100]) {
        Err(NetProtoError::Parse(m)) => assert_eq!(m, "DHCPv4 payload too short"),
        _ => panic!("expected a parse error"),
    }
}

#[test]
fn test_icmpv6_type_from_u8() {
    assert_eq!(Icmpv6Type::from(133), Icmpv6Type::RouterSolicitation);
    assert_eq!(Icmpv6Type::from(134), Icmpv6Type::RouterAdvertisement);
    assert_eq!(Icmpv6Type::from(135), Icmpv6Type::NeighborSolicitation);
    assert_eq!(Icmpv6Type::from(136), Icmpv6Type::NeighborAdvertisement);
    assert_eq!(Icmpv6Type::from(0), Icmpv6Type::Other(0));
}

#[test]
fn test_parse_ndp_too_short() {
    let result = parse_ndp(&[136u8; 10]);
    assert!(result.is_err());
}

#[test]
fn test_parse_ndp_neighbor_advertisement() {
    let mut payload = vec![0u8; 24];
    payload[0] = 136;
    payload[8..24].copy_from_slice(&[0xfe, 0x80, 0, 0, 0, 0, 0, 0, 0, 0, 0, 0, 0, 0, 0, 1]);
    let entry = parse_ndp(&payload).unwrap();
    assert_eq!(entry.icmpv6_type, Icmpv6Type::NeighborAdvertisement);
    assert_eq!(entry.link_layer_addr, None);
}

#[test]
fn ndp_reads_link_layer_option() {
    let mut payload = vec![0u8; 24];
    payload[0] = 135;
    payload.extend_from_slice(&[1, 1, 0x11, 0x22, 0x33, 0x44, 0x55, 0x66]);
    let entry = parse_ndp(&payload).unwrap();
    assert_eq!(entry.icmpv6_type, Icmpv6Type::NeighborSolicitation);
    assert_eq!(entry.link_layer_addr, Some([0x11, 0x22, 0x33, 0x44, 0x55, 0x66]));
}

#[test]
fn neighbor_advertisement_target_option() {
    let mut payload = vec![0u8; 24];
    payload[0] = 136;
    payload[8] = 0xfe;
    payload.extend_from_slice(&[2, 1, 1, 2, 3, 4, 5, 6]);
    let na = parse_neighbor_advertisement(&payload).unwrap();
    assert_eq!(na.target_addr[0], 0xfe);
    assert_eq!(na.link_layer_addr, Some([1, 2, 3, 4, 5, 6]));
    payload[0] = 135;
    match parse_neighbor_advertisement(&payload) {
        Err(NetProtoError::Parse(m)) => assert_eq!(m, "not an ICMPv6 Neighbor Advertisement"),
        _ => panic!("expected a parse error"),
    }
}

#[test]
fn test_craft_gratuitous_arp_length() {
    let mac = [0xAA, 0xBB, 0xCC, 0xDD, 0xEE, 0xFF];
    let ip = [192, 168, 1, 1];
    let frame = craft_gratuitous_arp(mac, ip, ip).unwrap();
    assert_eq!(frame.len(), 42);
    assert_eq!(&frame[0..6], &[0xff; 6]);
    assert_eq!(&frame[12..14], &[0x08, 0x06]);
    assert_eq!(&frame[20..22], &[0x00, 0x02]);
}

#[test]
fn test_craft_arp_reply_unicast() {
    let dst = [0x11, 0x22, 0x33, 0x44, 0x55, 0x66];
    let sender = [0xAA, 0xBB, 0xCC, 0xDD, 0xEE, 0xFF];
    let sender_ip = [192, 168, 1, 1];
    let target = [0x11, 0x22, 0x33, 0x44, 0x55, 0x66];
    let target_ip = [192, 168, 1, 100];
    let frame = craft_arp_reply(dst, sender, sender_ip, target, target_ip).unwrap();
    assert_eq!(frame.len(), 42);
    assert_eq!(&frame[0..6], &dst);
    assert_eq!(&frame[6..12], &sender);
}

#[test]
fn test_parse_arp_reply() {
    let sender_mac = [0xAA, 0xBB, 0xCC, 0xDD, 0xEE, 0xFF];
    let sender_ip = [10, 0, 0, 1];
    let target_ip = [10, 0, 0, 2];
    let frame = craft_gratuitous_arp(sender_mac, sender_ip, target_ip).unwrap();
    let entry = parse_arp(&frame).unwrap();
    assert_eq!(entry.sender_mac, sender_mac);
    assert_eq!(entry.sender_ip, sender_ip);
    assert!(entry.is_reply);
}

#[test]
fn arp_reply_reads_back() {
    let frame = craft_arp_reply([1; 6], [2; 6], [10, 0, 0, 9], [3; 6], [10, 0, 0, 7]).unwrap();
    let e = parse_arp(&frame).unwrap();
    assert_eq!(e.sender_mac, [2; 6]);
    assert_eq!(e.sender_ip, [10, 0, 0, 9]);
    assert_eq!(e.target_ip, [10, 0, 0, 7]);
    assert!(parse_arp(&frame[..41]).is_err());
}

#[test]
fn snmp_get_request_bytes() {
    let b = encode_get_request("public", "1.3.6.1.2.1.1.1.0", 7).unwrap();
    let mut want: Vec<u8> = vec![0x30, 0x26, 0x02, 0x01, 0x01, 0x04, 0x06];
    want.extend_from_slice(b"public");
    want.extend_from_slice(&[0xa0, 0x19, 0x02, 0x01, 0x07, 0x02, 0x01, 0x00, 0x02, 0x01, 0x00]);
    want.extend_from_slice(&[0x30, 0x0e, 0x30, 0x0c, 0x06, 0x08, 0x2b, 0x06, 0x01, 0x02, 0x01, 0x01, 0x01, 0x00]);
    want.extend_from_slice(&[0x05, 0x00]);
    assert_eq!(b, want);
}

#[test]
fn snmp_request_id_and_large_arcs() {
    let b = encode_get_request("c", "1.3.300", 300).unwrap();
    // request id 300 takes two bytes; arc 300 is 0x82 0x2c in base 128.
    assert_eq!(&b[10..14], &[0x02, 0x02, 0x01, 0x2c]);
    assert!(b.windows(5).any(|w| w == [0x06, 0x03, 0x2b, 0x82, 0x2c]));
    let neg = encode_get_request("c", "1.3", -1).unwrap();
    assert_eq!(&neg[10..13], &[0x02, 0x01, 0xff]);
}

#[test]
fn snmp_malformed_oid_is_refused() {
    for oid in ["", "1", "1..3", "1.3.", "1.x.3", "3.1", "1.40", "1.3.99999999999"] {
        match encode_get_request("public", oid, 1) {
            Err(NetProtoError::Parse(m)) => assert_eq!(m, "invalid OID"),
            _ => panic!("expected an error for {oid}"),
        }
    }
}
