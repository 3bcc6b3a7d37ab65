use tunshare::natpmp::{
    build_error_response, build_external_address_response, build_mapping_response,
    find_available_port, handle_request, is_lan_client, parse_interface_ip, reload_anchor_rules,
    Mapping, MappingKey, MappingTable, NatPmpServer, Protocol, MIN_ALLOWED_PORT, RESPONSE_FLAG,
};
use tunshare::net::Ipv4;

fn mapping(ip: Ipv4, internal_port: u16, external_port: u16, protocol: Protocol, lifetime_secs: u32) -> Mapping {
    Mapping { internal_ip: ip, internal_port, external_port, protocol, lifetime_secs, created_at: 0 }
}

fn request(opcode: u8, internal: u16, suggested: u16, lifetime: u32) -> Vec<u8> {
    let mut v = vec![0u8, opcode, 0, 0];
    v.extend_from_slice(&internal.to_be_bytes());
    v.extend_from_slice(&suggested.to_be_bytes());
    v.extend_from_slice(&lifetime.to_be_bytes());
    v
}

#[test]
fn test_network_from_ip() {
    assert_eq!(NatPmpServer::network_from_ip(Ipv4::new(192, 168, 2, 1)), "192.168.2.0/24");
    assert_eq!(NatPmpServer::network_from_ip(Ipv4::new(10, 0, 0, 1)), "10.0.0.0/24");
}

#[test]
fn test_build_external_address_response() {
    let ip = Ipv4::new(10, 8, 0, 1);
    let resp = build_external_address_response(42, ip);
    assert_eq!(resp.len(), 12);
    assert_eq!(resp[0], 0);
    assert_eq!(resp[1], RESPONSE_FLAG);
    assert_eq!(u16::from_be_bytes([resp[2], resp[3]]), 0);
    assert_eq!(u32::from_be_bytes([resp[4], resp[5], resp[6], resp[7]]), 42);
    assert_eq!(&resp[8..12], &[10, 8, 0, 1]);
}

#[test]
fn test_build_mapping_response() {
    let resp = build_mapping_response(129, 100, 8080, 8080, 3600);
    assert_eq!(resp.len(), 16);
    assert_eq!(resp[0], 0);
    assert_eq!(resp[1], 129);
    assert_eq!(u16::from_be_bytes([resp[2], resp[3]]), 0);
    assert_eq!(u32::from_be_bytes([resp[4], resp[5], resp[6], resp[7]]), 100);
    assert_eq!(u16::from_be_bytes([resp[8], resp[9]]), 8080);
    assert_eq!(u16::from_be_bytes([resp[10], resp[11]]), 8080);
    assert_eq!(u32::from_be_bytes([resp[12], resp[13], resp[14], resp[15]]), 3600);
}

#[test]
fn test_build_error_response() {
    let resp = build_error_response(RESPONSE_FLAG + 1, 5);
    assert_eq!(resp.len(), 8);
    assert_eq!(resp[0], 0);
    assert_eq!(resp[1], RESPONSE_FLAG + 1);
    assert_eq!(u16::from_be_bytes([resp[2], resp[3]]), 5);
    assert_eq!(u32::from_be_bytes([resp[4], resp[5], resp[6], resp[7]]), 0);
}

#[test]
fn test_find_available_port() {
    let mappings = MappingTable::new();
    assert_eq!(find_available_port(&mappings, Protocol::Tcp), Some(MIN_ALLOWED_PORT));

    let mut mappings = MappingTable::new();
    mappings.insert(mapping(Ipv4::new(192, 168, 2, 100), 8080, 1024, Protocol::Tcp, 3600));
    assert_eq!(find_available_port(&mappings, Protocol::Tcp), Some(1025));
    assert_eq!(find_available_port(&mappings, Protocol::Udp), Some(1024));
}

#[test]
fn test_is_lan_client() {
    let lan = "192.168.2.0/24";
    assert!(is_lan_client(Some(Ipv4::new(192, 168, 2, 100)), lan));
    assert!(!is_lan_client(Some(Ipv4::new(10, 0, 0, 1)), lan));
    assert!(!is_lan_client(Some(Ipv4::new(192, 168, 3, 1)), lan));
}

#[test]
fn test_mapping_expiry() {
    let m = mapping(Ipv4::new(192, 168, 2, 100), 8080, 8080, Protocol::Tcp, 0);
    assert!(m.is_expired(0));
    let m = mapping(Ipv4::new(192, 168, 2, 100), 8080, 8080, Protocol::Tcp, 3600);
    assert!(!m.is_expired(0));
}

#[test]
fn lan_client_edge_cases() {
    assert!(!is_lan_client(None, "192.168.2.0/24"));
    assert!(!is_lan_client(Some(Ipv4::new(192, 168, 2, 1)), "192.168.2.0"));
    assert!(!is_lan_client(Some(Ipv4::new(192, 168, 2, 1)), "192.168.2.0/33"));
    assert!(is_lan_client(Some(Ipv4::new(8, 8, 8, 8)), "10.0.0.0/0"));
    assert!(is_lan_client(Some(Ipv4::new(10, 0, 0, 7)), "10.0.0.7/32"));
}

#[test]
fn handle_request_maps_and_unmaps() {
    let client = Some(Ipv4::new(192, 168, 2, 50));
    let ext = Ipv4::new(203, 0, 113, 9);
    let mut table = MappingTable::new();

    let r = handle_request(&[0], client, ext, 7, &mut table);
    assert!(r.response.is_none());

    let r = handle_request(&[1, 0], client, ext, 7, &mut table);
    assert_eq!(r.response.unwrap(), build_error_response(RESPONSE_FLAG, 1));

    let r = handle_request(&[0, 0], client, ext, 7, &mut table);
    assert_eq!(r.response.unwrap(), build_external_address_response(7, ext));

    let r = handle_request(&[0, 9], client, ext, 7, &mut table);
    assert_eq!(r.response.unwrap(), build_error_response(RESPONSE_FLAG + 9, 5));

    let r = handle_request(&[0, 2, 0, 0], client, ext, 7, &mut table);
    assert_eq!(r.response.unwrap(), build_error_response(130, 2));

    let r = handle_request(&request(2, 8080, 8080, 99999), client, ext, 7, &mut table);
    assert!(r.reload);
    assert_eq!(r.response.unwrap(), build_mapping_response(130, 7, 8080, 8080, 7200));
    assert_eq!(table.len(), 1);
    let m = table.get(MappingKey { protocol: Protocol::Tcp, external_port: 8080 }).unwrap();
    assert_eq!(m.lifetime_secs, 7200);
    assert_eq!(m.created_at, 7);

    // Another client asking for the same port gets the lowest free one.
    let other = Some(Ipv4::new(192, 168, 2, 51));
    let r = handle_request(&request(2, 22, 8080, 60), other, ext, 8, &mut table);
    assert_eq!(r.response.unwrap(), build_mapping_response(130, 8, 22, 1024, 60));
    assert_eq!(table.len(), 2);

    // A low suggested port is replaced by a free one.
    let r = handle_request(&request(1, 53, 80, 60), client, ext, 9, &mut table);
    assert_eq!(r.response.unwrap(), build_mapping_response(129, 9, 53, 1024, 60));

    // Deleting one mapping by internal port.
    let r = handle_request(&request(1, 53, 0, 0), client, ext, 10, &mut table);
    assert!(r.reload);
    assert_eq!(r.response.unwrap(), build_mapping_response(129, 10, 53, 0, 0));
    assert_eq!(table.len(), 2);

    // Deleting everything of a client.
    let r = handle_request(&request(2, 0, 0, 0), client, ext, 11, &mut table);
    assert!(r.reload);
    assert_eq!(r.response.unwrap(), build_mapping_response(130, 11, 0, 0, 0));
    assert_eq!(table.len(), 1);
    let r = handle_request(&request(2, 0, 0, 0), client, ext, 12, &mut table);
    assert!(!r.reload);

    // An IPv6 sender cannot map.
    let r = handle_request(&request(2, 80, 8080, 60), None, ext, 12, &mut table);
    assert_eq!(r.response.unwrap(), build_error_response(130, 2));
}

#[test]
fn serve_packet_ignores_foreign_senders() {
    let server = NatPmpServer::new("utun4", "en8", "192.168.2.0/24");
    let mut table = MappingTable::new();
    let r = server.serve_packet(&[0, 0], Some(Ipv4::new(10, 0, 0, 1)), Ipv4::new(1, 2, 3, 4), 3, &mut table);
    assert!(r.response.is_none());
    let r = server.serve_packet(&[0, 0], Some(Ipv4::new(192, 168, 2, 9)), Ipv4::new(1, 2, 3, 4), 3, &mut table);
    assert_eq!(r.response.unwrap(), build_external_address_response(3, Ipv4::new(1, 2, 3, 4)));
}

#[test]
fn expiry_drops_old_mappings() {
    let mut table = MappingTable::new();
    let mut m = mapping(Ipv4::new(192, 168, 2, 7), 80, 2000, Protocol::Tcp, 60);
    m.created_at = 100;
    table.insert(m);
    assert!(!NatPmpServer::expire(&mut table, 159));
    assert_eq!(table.len(), 1);
    assert!(NatPmpServer::expire(&mut table, 160));
    assert!(table.is_empty());
}

#[test]
fn anchor_rules_text() {
    let mut table = MappingTable::new();
    assert!(reload_anchor_rules("utun4", &table).is_none());
    table.insert(mapping(Ipv4::new(192, 168, 2, 7), 80, 2000, Protocol::Tcp, 60));
    let rules = reload_anchor_rules("utun4", &table).unwrap();
    assert_eq!(
        rules,
        "rdr pass on utun4 proto tcp from any to any port 2000 -> 192.168.2.7 port 80\npass in quick on utun4 proto tcp from any to 192.168.2.7 port 80\n"
    );
}

#[test]
fn interface_ip_from_ifconfig() {
    let out = "utun4: flags=8051<UP,POINTOPOINT,RUNNING,MULTICAST> mtu 1400\n\tinet 10.8.0.6 --> 10.8.0.5 netmask 0xffffffff\n";
    assert_eq!(parse_interface_ip(out), Some(Ipv4::new(10, 8, 0, 6)));
    assert_eq!(parse_interface_ip("en0: flags\n\tether 00:11\n"), None);
}

#[test]
fn lan_of_gateway_is_first_three_octets() {
    let net = NatPmpServer::network_from_ip(Ipv4::new(192, 168, 2, 1));
    assert_eq!(net, "192.168.2.0/24");
    assert!(is_lan_client(Some(Ipv4::new(192, 168, 2, 77)), &net));
    assert!(is_lan_client(Some(Ipv4::new(192, 168, 2, 0)), &net));
    assert!(!is_lan_client(Some(Ipv4::new(192, 168, 3, 77)), &net));
    assert!(!is_lan_client(Some(Ipv4::new(10, 168, 2, 77)), &net));
    assert!(!is_lan_client(None, &net));
}
