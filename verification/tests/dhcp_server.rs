use nac::dhcp_server::pool::LeasePool;
use nac::dhcp_server::reply::{
    binding_event, format_mac, respond, DhcpError, DhcpMessageType, DhcpRequest, LEASE_SECS,
};

use dhcproto::v4::{Decodable, DhcpOption, Encodable, Message, MessageType, Opcode, OptionCode};
use nac::dhcp_server::wire::{decode_dhcp, handle_packet};

fn make_pool() -> LeasePool {
    LeasePool::new([192, 168, 1, 100], [192, 168, 1, 200], [255, 255, 255, 0], [192, 168, 1, 1])
}

#[test]
fn test_allocate_new_mac() {
    let mut pool = make_pool();
    let mac = &[0xAA, 0xBB, 0xCC, 0xDD, 0xEE, 0xFF];
    let ip = pool.get_or_allocate(mac);
    assert_eq!(ip, [192, 168, 1, 100]);
}

#[test]
fn test_same_mac_same_ip() {
    let mut pool = make_pool();
    let mac = &[0x11, 0x22, 0x33, 0x44, 0x55, 0x66];
    let ip1 = pool.get_or_allocate(mac);
    let ip2 = pool.get_or_allocate(mac);
    assert_eq!(ip1, ip2);
}

#[test]
fn test_different_macs_different_ips() {
    let mut pool = make_pool();
    let mac1 = &[0x01, 0x00, 0x00, 0x00, 0x00, 0x01];
    let mac2 = &[0x01, 0x00, 0x00, 0x00, 0x00, 0x02];
    let ip1 = pool.get_or_allocate(mac1);
    let ip2 = pool.get_or_allocate(mac2);
    assert_ne!(ip1, ip2);
}

#[test]
fn exhausted_pool_reuses_first_address() {
    let mut pool = LeasePool::new([10, 0, 0, 1], [10, 0, 0, 2], [255, 0, 0, 0], [10, 0, 0, 254]);
    assert_eq!(pool.get_or_allocate(&[1]), [10, 0, 0, 1]);
    assert_eq!(pool.get_or_allocate(&[2]), [10, 0, 0, 2]);
    assert_eq!(pool.get_or_allocate(&[3]), [10, 0, 0, 1]);
    assert_eq!(pool.get_or_allocate(&[3]), [10, 0, 0, 1]);
}

#[test]
fn key_is_first_six_bytes() {
    let mut pool = make_pool();
    let a = pool.get_or_allocate(&[1, 2, 3, 4, 5, 6, 7, 7]);
    let b = pool.get_or_allocate(&[1, 2, 3, 4, 5, 6, 9, 9]);
    assert_eq!(a, b);
}

#[test]
fn pool_range_crosses_octets() {
    let mut pool = LeasePool::new([10, 0, 0, 255], [10, 0, 1, 5], [255, 255, 0, 0], [10, 0, 0, 1]);
    assert_eq!(pool.get_or_allocate(&[1]), [10, 0, 0, 255]);
    assert_eq!(pool.get_or_allocate(&[2]), [10, 0, 1, 0]);
}

fn request(t: Option<DhcpMessageType>, requested: Option<[u8; 4]>) -> DhcpRequest {
    DhcpRequest {
        msg_type: t,
        htype: 1,
        xid: 0xdeadbeef,
        flags: 0x8000,
        giaddr: [0, 0, 0, 0],
        chaddr: vec![0xAA, 0xBB, 0xCC, 0x00, 0x11, 0x22],
        requested_ip: requested,
    }
}

#[test]
fn discover_gets_an_offer() {
    let mut pool = make_pool();
    let rep = respond(&mut pool, [192, 168, 1, 1], &request(Some(DhcpMessageType::Discover), None)).unwrap().unwrap();
    assert_eq!(rep.msg_type, DhcpMessageType::Offer);
    assert_eq!(rep.yiaddr, [192, 168, 1, 100]);
    assert_eq!(rep.xid, 0xdeadbeef);
    assert_eq!(rep.lease_secs, LEASE_SECS);
    assert_eq!(rep.subnet_mask, [255, 255, 255, 0]);
    assert_eq!(rep.router, [192, 168, 1, 1]);
    assert_eq!(rep.server_identifier, [192, 168, 1, 1]);
}

#[test]
fn request_gets_an_ack_with_requested_address() {
    let mut pool = make_pool();
    let rep = respond(&mut pool, [192, 168, 1, 1], &request(Some(DhcpMessageType::Request), Some([192, 168, 1, 150])))
        .unwrap()
        .unwrap();
    assert_eq!(rep.msg_type, DhcpMessageType::Ack);
    assert_eq!(rep.yiaddr, [192, 168, 1, 150]);
    let rep2 = respond(&mut pool, [192, 168, 1, 1], &request(Some(DhcpMessageType::Request), None)).unwrap().unwrap();
    assert_eq!(rep2.yiaddr, [192, 168, 1, 100]);
}

#[test]
fn other_messages_get_no_reply() {
    let mut pool = make_pool();
    assert!(respond(&mut pool, [1, 1, 1, 1], &request(Some(DhcpMessageType::Release), None)).unwrap().is_none());
    assert_eq!(respond(&mut pool, [1, 1, 1, 1], &request(None, None)).err(), Some(DhcpError::NoMessageType));
}

#[test]
fn mac_text_and_binding_event() {
    assert_eq!(format_mac(&[0xAA, 0x0B, 0xCC, 0xDD, 0xEE, 0xFF, 0, 0]), "aa:0b:cc:dd:ee:ff");
    assert_eq!(format_mac(&[1, 2]), "01:02");
    let mut pool = make_pool();
    let req = request(Some(DhcpMessageType::Discover), None);
    let rep = respond(&mut pool, [192, 168, 1, 1], &req).unwrap().unwrap();
    let ev = binding_event(&req.chaddr, DhcpMessageType::Discover, &rep).unwrap();
    assert_eq!(ev.mac, "aa:bb:cc:00:11:22");
    assert_eq!(ev.ip, "192.168.1.100");
    assert_eq!(ev.msg_type, "Discover");
    let mut zero = rep.clone();
    zero.yiaddr = [0, 0, 0, 0];
    assert!(binding_event(&req.chaddr, DhcpMessageType::Discover, &zero).is_none());
}

fn client_datagram(kind: MessageType, requested: Option<[u8; 4]>) -> Vec<u8> {
    let mut m = Message::default();
    m.set_xid(0x1234_5678).set_chaddr(&[0xaa, 0xbb, 0xcc, 0x00, 0x11, 0x22]);
    m.opts_mut().insert(DhcpOption::MessageType(kind));
    if let Some(ip) = requested {
        m.opts_mut().insert(DhcpOption::RequestedIpAddress(ip.into()));
    }
    m.to_vec().unwrap()
}

#[test]
fn datagram_discover_gets_offer() {
    let mut pool = make_pool();
    let data = client_datagram(MessageType::Discover, None);
    let req = decode_dhcp(&data).unwrap();
    assert_eq!(req.msg_type, Some(DhcpMessageType::Discover));
    assert_eq!(req.xid, 0x1234_5678);
    assert_eq!(req.chaddr, vec![0xaa, 0xbb, 0xcc, 0x00, 0x11, 0x22]);
    let h = handle_packet(&mut pool, [192, 168, 1, 1], &data).unwrap().unwrap();
    assert_eq!(h.reply.yiaddr, [192, 168, 1, 100]);
    let back = Message::from_bytes(&h.bytes).unwrap();
    assert_eq!(back.opcode(), Opcode::BootReply);
    assert_eq!(back.xid(), 0x1234_5678);
    assert_eq!(back.yiaddr().octets(), [192, 168, 1, 100]);
    assert_eq!(back.opts().msg_type(), Some(MessageType::Offer));
    match back.opts().get(OptionCode::AddressLeaseTime) {
        Some(DhcpOption::AddressLeaseTime(t)) => assert_eq!(*t, LEASE_SECS),
        _ => panic!("no lease time"),
    }
    assert_eq!(h.bytes.len(), 268);
    assert_eq!(h.bytes[267], 255);
    assert!(h.bytes[240..267].windows(3).any(|w| w == [53, 1, 2]));
    assert!(h.bytes[240..267].windows(6).any(|w| w == [51, 4, 0, 1, 0x51, 0x80]));
    assert!(h.bytes[240..267].windows(6).any(|w| w == [3, 4, 192, 168, 1, 1]));
    assert!(h.bytes[240..267].windows(6).any(|w| w == [1, 4, 255, 255, 255, 0]));
    assert!(h.bytes[240..267].windows(6).any(|w| w == [54, 4, 192, 168, 1, 1]));
    let ev = h.event.unwrap();
    assert_eq!(ev.mac, "aa:bb:cc:00:11:22");
    assert_eq!(ev.ip, "192.168.1.100");
    assert_eq!(ev.msg_type, "Discover");
}

#[test]
fn datagram_request_acks_requested_address() {
    let mut pool = make_pool();
    let data = client_datagram(MessageType::Request, Some([192, 168, 1, 150]));
    let h = handle_packet(&mut pool, [192, 168, 1, 1], &data).unwrap().unwrap();
    let back = Message::from_bytes(&h.bytes).unwrap();
    assert_eq!(back.opts().msg_type(), Some(MessageType::Ack));
    assert!(h.bytes[240..267].windows(3).any(|w| w == [53, 1, 5]));
    assert_eq!(back.yiaddr().octets(), [192, 168, 1, 150]);
}

#[test]
fn datagram_errors() {
    let mut pool = make_pool();
    assert_eq!(handle_packet(&mut pool, [192, 168, 1, 1], &[1, 2, 3]).err(), Some(DhcpError::Malformed));
    let release = client_datagram(MessageType::Release, None);
    assert!(handle_packet(&mut pool, [192, 168, 1, 1], &release).unwrap().is_none());
    let mut m = Message::default();
    m.set_chaddr(&[1, 2, 3, 4, 5, 6]);
    let untyped = m.to_vec().unwrap();
    assert_eq!(handle_packet(&mut pool, [192, 168, 1, 1], &untyped).err(), Some(DhcpError::NoMessageType));
}
