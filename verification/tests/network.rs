use tunshare::network::{
    hardware_port_for, parse_hardware_ports, parse_interfaces, select_lan_interfaces,
    select_vpn_interfaces,
};

const IFCONFIG: &str = r#"lo0: flags=8049<UP,LOOPBACK,RUNNING,MULTICAST> mtu 16384
	options=1203<RXCSUM,TXCSUM,TXSTATUS,SW_TIMESTAMP>
	inet 127.0.0.1 netmask 0xff000000
en0: flags=8863<UP,BROADCAST,SMART,RUNNING,SIMPLEX,MULTICAST> mtu 1500
	ether 00:11:22:33:44:55
	inet 192.168.2.1 netmask 0xffffff00 broadcast 192.168.2.255
utun3: flags=8051<UP,POINTOPOINT,RUNNING,MULTICAST> mtu 1500
	inet 10.8.0.6 --> 10.8.0.5 netmask 0xffffffff
"#;

#[test]
fn test_parse_interfaces() {
    let interfaces = parse_interfaces(IFCONFIG);
    assert_eq!(interfaces.len(), 3);

    let en0 = interfaces.iter().find(|i| i.name == "en0").unwrap();
    assert!(en0.is_up);
    assert_eq!(en0.ipv4_address, Some("192.168.2.1".to_string()));

    let utun3 = interfaces.iter().find(|i| i.name == "utun3").unwrap();
    assert!(utun3.is_up);
    assert_eq!(utun3.ipv4_address, Some("10.8.0.6".to_string()));
}

#[test]
fn vpn_and_lan_candidates() {
    let ports = parse_hardware_ports(
        "Hardware Port: Ethernet\nDevice: en0\nEthernet Address: aa\n\nHardware Port: Wi-Fi\nDevice: en1\n",
    );
    assert_eq!(ports.len(), 2);
    assert_eq!(hardware_port_for(&ports, "en0").as_deref(), Some("Ethernet"));
    assert_eq!(hardware_port_for(&ports, "en1").as_deref(), Some("Wi-Fi"));
    assert_eq!(hardware_port_for(&ports, "en9"), None);
    let vpn = select_vpn_interfaces(parse_interfaces(IFCONFIG));
    assert_eq!(vpn.len(), 1);
    assert_eq!(vpn[0].name, "utun3");
    let lan = select_lan_interfaces(parse_interfaces(IFCONFIG), &ports);
    assert_eq!(lan.len(), 1);
    assert_eq!(lan[0].name, "en0");
    assert_eq!(lan[0].description.as_deref(), Some("Ethernet"));
}

#[test]
fn vpn_candidates_need_point_to_point() {
    let text = "utun0: flags=8041<UP,RUNNING,MULTICAST> mtu 1380\n\tinet 10.0.0.2 netmask 0xffffff00\nutun1: flags=8051<UP,POINTOPOINT,RUNNING,MULTICAST> mtu 1380\n\tinet 10.9.0.2 --> 10.9.0.1 netmask 0xffffffff\n";
    let parsed = parse_interfaces(text);
    assert!(!parsed[0].is_point_to_point);
    assert!(parsed[1].is_point_to_point);
    let vpn = select_vpn_interfaces(parsed);
    assert_eq!(vpn.len(), 1);
    assert_eq!(vpn[0].name, "utun1");
}
