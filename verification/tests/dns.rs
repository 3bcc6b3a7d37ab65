use tunshare::dns::{parse_default_dns, parse_dns_for_interface};

const OUTPUT: &str = r#"
DNS configuration

resolver #1
  nameserver[0] : 192.168.1.1
  if_index : 5 (en0)
  flags    : Request A records
  reach    : 0x00020002 (Reachable,Directly Reachable Address)

resolver #2
  nameserver[0] : 10.8.0.1
  if_index : 23 (utun3)
  flags    : Request A records
  reach    : 0x00000002 (Reachable)

resolver #3
  domain   : local
  options  : mdns
  timeout  : 5
  flags    : Request A records
"#;

#[test]
fn test_parse_dns_for_interface() {
    let dns = parse_dns_for_interface(OUTPUT, "utun3");
    assert_eq!(dns, vec!["10.8.0.1"]);
    let dns_en0 = parse_dns_for_interface(OUTPUT, "en0");
    assert_eq!(dns_en0, vec!["192.168.1.1"]);
}

#[test]
fn vpn_dns_is_sorted_and_unique() {
    let out = "resolver #1\n  nameserver[0] : 10.8.0.2\n  nameserver[1] : 10.8.0.1\n  if_index : 23 (utun3)\nresolver #2\n  nameserver[0] : 10.8.0.2\n  interface : utun3\n";
    assert_eq!(parse_dns_for_interface(out, "utun3"), vec!["10.8.0.1", "10.8.0.2"]);
    assert!(parse_dns_for_interface(out, "utun9").is_empty());
}

#[test]
fn default_dns_reads_first_resolver_only() {
    assert_eq!(parse_default_dns(OUTPUT), vec!["192.168.1.1"]);
    assert!(parse_default_dns("no resolvers here\n").is_empty());
}
