use tunshare::firewall::{
    cleanup_main_plan, cleanup_outcome, interpret_pfctl, is_tunshare_main_line, join_blocks,
    main_hooks_present, order_main, parse_pf, pfctl_f_warning_only, pfctl_syntax_error,
    remaining_main_is_empty, strip_main, BypassConfig, Firewall, MainCleanup, TableOp,
};
use tunshare::error::TunshareError;
use tunshare::net::Ipv4;

fn bypass() -> BypassConfig {
    BypassConfig {
        wan_if: "en0".into(),
        wan_gw: Ipv4::new(192, 168, 1, 1),
    }
}

fn line_start(text: &str, needle: &str) -> usize {
    text.lines()
        .scan(0usize, |offset, line| {
            let start = *offset;
            *offset += line.len() + 1;
            Some((start, line))
        })
        .find(|(_, line)| *line == needle)
        .map(|(start, _)| start)
        .unwrap_or_else(|| panic!("missing {needle}"))
}

#[test]
fn generate_rules_always_redirects_dns() {
    let rules = Firewall::generate_rules("utun10", "en8", Ipv4::new(192, 168, 2, 1), 1400, None);
    assert!(rules.contains(
        "rdr on $int_if inet proto udp from $int_if:network to any port 53 -> 192.168.2.1"
    ));
    assert!(rules.contains(
        "rdr on $int_if inet proto tcp from $int_if:network to any port 53 -> 192.168.2.1"
    ));
    assert!(rules.contains("nat on $ext_if inet from $int_if:network to any -> ($ext_if) static-port"));
    assert!(rules.contains(
        "scrub in on $int_if inet proto tcp from $int_if:network to any no-df max-mss 1400"
    ));
    assert!(rules.contains("scrub out on $ext_if inet proto tcp from ($ext_if) to any max-mss 1400"));
    assert!(!rules.contains("from $int_if:network to any max-mss"));
    assert!(!rules.contains("tunshare_bypass"));
    assert!(!rules.contains("route-to"));
    assert!(!rules.contains("rdr-anchor"));
    assert!(!rules.contains("anchor \"natpmp\""));
    assert!(!rules.contains("anchor \"com.tunshare\""));
}

#[test]
fn generate_rules_bypass_uses_wan_not_lan() {
    let b = bypass();
    let rules = Firewall::generate_rules("utun10", "en8", Ipv4::new(192, 168, 2, 1), 1400, Some(&b));
    assert!(rules.contains("table <tunshare_bypass> persist"));
    assert!(rules.contains("wan_if = \"en0\""));
    assert!(rules.contains("wan_gw = \"192.168.1.1\""));
    assert!(rules.contains("to ! <tunshare_bypass>"));
    assert!(rules.contains("nat on $wan_if inet from $int_if:network to <tunshare_bypass>"));
    assert!(rules.contains(
        "pass in quick on $int_if route-to ($wan_if $wan_gw) inet from $int_if:network to <tunshare_bypass> keep state"
    ));
    assert!(rules.contains(
        "scrub in on $int_if inet proto tcp from $int_if:network to ! <tunshare_bypass> no-df max-mss 1400"
    ));
    assert!(rules.contains("scrub out on $ext_if inet proto tcp from ($ext_if) to any max-mss 1400"));
    assert!(!rules.contains("scrub out on $wan_if"));
    assert!(!rules.contains("to <tunshare_bypass> route-to"));
    assert!(!rules.contains("route-to ($int_if"));
}

#[test]
fn main_hooks_are_eight_and_named() {
    let hooks = Firewall::main_hooks();
    assert_eq!(hooks.len(), 8);
    assert!(hooks.contains(&"scrub-anchor \"com.tunshare\""));
    assert!(hooks.contains(&"scrub-anchor \"com.tunshare/*\""));
    assert!(hooks.contains(&"nat-anchor \"com.tunshare\""));
    assert!(hooks.contains(&"nat-anchor \"com.tunshare/*\""));
    assert!(hooks.contains(&"rdr-anchor \"com.tunshare\""));
    assert!(hooks.contains(&"rdr-anchor \"com.tunshare/*\""));
    assert!(hooks.contains(&"anchor \"com.tunshare\""));
    assert!(hooks.contains(&"anchor \"com.tunshare/*\""));
    let text = Firewall::generate_main_hooks();
    assert!(main_hooks_present(&text));
    assert!(line_start(&text, "scrub-anchor \"com.tunshare\"") < line_start(&text, "nat-anchor \"com.tunshare\""));
    assert!(line_start(&text, "nat-anchor \"com.tunshare\"") < line_start(&text, "anchor \"com.tunshare\""));
    let without_scrub = text
        .lines()
        .filter(|line| !line.contains("scrub-anchor"))
        .collect::<Vec<_>>()
        .join("\n");
    assert!(!main_hooks_present(&without_scrub));
}

#[test]
fn merge_main_strips_legacy_nat_and_injects_hooks() {
    let existing = r#"
nat on utun4 inet from 192.168.2.0/24 to ! <tunshare_bypass> -> (utun4) round-robin static-port
nat on en0 inet from 192.168.2.0/24 to <tunshare_bypass> -> (en0) round-robin static-port
rdr on en8 inet proto udp from 192.168.2.0/24 to any port = 53 -> 192.168.2.1
nat on utun4 inet from 10.0.0.0/8 to any -> (utun4) static-port
pass in quick on en8 route-to (en0 192.0.2.1) inet from 192.168.2.0/24 to <tunshare_bypass> keep state
pass in quick on en8 proto tcp from any to any port 443 keep state
"#;
    let merged = Firewall::merge_main(existing);
    for hook in Firewall::main_hooks() {
        assert!(merged.contains(hook), "missing {hook}");
    }
    assert!(merged.contains("nat on utun4 inet from 10.0.0.0/8"));
    assert!(merged.contains("pass in quick on en8 proto tcp"));
    assert!(!merged.contains("tunshare_bypass"));
    assert!(!merged.contains("port = 53"));
    assert!(!merged.contains("route-to (en0"));
    assert!(merged.contains("set skip on lo0"));
    let second = Firewall::merge_main(&merged);
    assert_eq!(
        second.matches("nat-anchor \"com.tunshare\"").count(),
        1,
        "hooks must stay unique on re-merge"
    );
}

#[test]
fn merge_main_keeps_apple_scrub_anchor_before_nat() {
    let existing = r#"
scrub-anchor "com.apple/*" all
nat-anchor "com.apple/*"
rdr-anchor "com.apple/*"
anchor "com.apple/*"
dummynet-anchor "com.apple/*"
"#;
    let merged = Firewall::merge_main(existing);
    let apple_scrub = line_start(&merged, "scrub-anchor \"com.apple/*\" all");
    let tunshare_scrub = line_start(&merged, "scrub-anchor \"com.tunshare\"");
    let nat_hook = line_start(&merged, "nat-anchor \"com.tunshare\"");
    let apple_nat = line_start(&merged, "nat-anchor \"com.apple/*\"");
    let filter_hook = line_start(&merged, "anchor \"com.tunshare\"");
    let apple_filter = line_start(&merged, "anchor \"com.apple/*\"");
    assert!(apple_scrub < tunshare_scrub, "Apple scrub stays first");
    assert!(tunshare_scrub < nat_hook, "tunshare scrub precedes translation");
    assert!(nat_hook < apple_nat);
    assert!(apple_nat < filter_hook);
    assert!(filter_hook < apple_filter);
    let dummy = merged.find("dummynet-anchor").expect("dummynet");
    assert!(dummy < nat_hook, "queueing must precede translation");
    let stopped = order_main(existing);
    assert!(!stopped.contains("com.tunshare"));
    assert!(stopped.find("scrub-anchor").unwrap() < stopped.find("nat-anchor").unwrap());
    assert!(stopped.find("dummynet-anchor").unwrap() < stopped.find("nat-anchor").unwrap());
}

#[test]
fn pfctl_warning_does_not_hide_syntax_error() {
    let stderr = "\
Use of -f option, could result in flushing of rules
present in the main ruleset added by the system at startup.
See /etc/pf.conf for further details.
No ALTQ support in kernel
ALTQ related functions disabled
/tmp/tunshare_pf_main.conf:10: Rules must be in order: options, normalization, queueing, translation, filtering
pfctl: Syntax error in config file: pf rules not loaded
";
    assert!(pfctl_syntax_error(stderr));
    assert!(!pfctl_f_warning_only(stderr));
    let warning_only = "\
Use of -f option, could result in flushing of rules
No ALTQ support in kernel
ALTQ related functions disabled
";
    assert!(pfctl_f_warning_only(warning_only));
    assert!(!pfctl_syntax_error(warning_only));
}

#[test]
fn unhooked_main_plus_intact_body_is_not_bypass_ok() {
    let b = bypass();
    let body = Firewall::generate_rules("utun4", "en8", Ipv4::new(192, 168, 2, 1), 1400, Some(&b));
    let main = "nat on en0 inet from 192.168.2.0/24 to <tunshare_bypass> -> (en0) static-port\n";
    let pf = Firewall::contract_from_text(main, &body);
    assert!(pf.has_dns_rdr);
    assert!(pf.has_bypass_nat);
    assert!(pf.has_route_to);
    assert!(!pf.has_main_hooks);
    assert!(!pf.bypass_ok());
    assert_eq!(pf.miss_message(true), Some("MAIN is missing com.tunshare hooks"));
}

#[test]
fn hooked_main_plus_body_is_bypass_ok() {
    let b = bypass();
    let body = Firewall::generate_rules("utun4", "en8", Ipv4::new(192, 168, 2, 1), 1400, Some(&b));
    let main = Firewall::generate_main_hooks();
    let pf = Firewall::contract_from_text(&main, &body);
    assert!(pf.has_main_hooks);
    assert!(pf.bypass_ok());
    assert_eq!(pf.wan_gw, Some(Ipv4::new(192, 168, 1, 1)));
    assert!(pf.miss_message(true).is_none());
}

#[test]
fn is_tunshare_main_line_does_not_eat_foreign_nat() {
    assert!(is_tunshare_main_line(
        "nat on en0 inet from 192.168.2.0/24 to <tunshare_bypass> -> (en0) static-port"
    ));
    assert!(!is_tunshare_main_line(
        "nat on utun4 inet from 10.0.0.0/8 to any -> (utun4) static-port"
    ));
    assert!(is_tunshare_main_line(r#"anchor "com.tunshare""#));
    assert!(is_tunshare_main_line(r#"anchor "natpmp""#));
}

#[test]
fn parse_pf_reads_body_macros_and_rules() {
    let b = bypass();
    let body = Firewall::generate_rules("utun4", "en8", Ipv4::new(192, 168, 2, 1), 1400, Some(&b));
    let pf = parse_pf(&body);
    assert_eq!(pf.vpn.as_deref(), Some("utun4"));
    assert_eq!(pf.lan.as_deref(), Some("en8"));
    assert_eq!(pf.lan_ip, Some(Ipv4::new(192, 168, 2, 1)));
    assert_eq!(pf.wan.as_deref(), Some("en0"));
    assert_eq!(pf.wan_gw, Some(Ipv4::new(192, 168, 1, 1)));
    assert!(pf.has_dns_rdr && pf.has_bypass_nat && pf.has_route_to);
    assert!(!pf.has_main_hooks);
}

#[test]
fn contract_falls_back_to_main_without_body_rdr() {
    let main = "rdr on en8 inet proto udp from 192.168.2.0/24 to any port = 53 -> 192.168.2.1\nnat on utun4 inet from 10.0.0.0/8 to any -> (utun4) static-port\n";
    let pf = Firewall::contract_from_text(main, "");
    assert!(pf.has_dns_rdr);
    assert_eq!(pf.lan.as_deref(), Some("en8"));
    assert_eq!(pf.lan_ip, Some(Ipv4::new(192, 168, 2, 1)));
    assert_eq!(pf.vpn.as_deref(), Some("utun4"));
    assert!(!pf.sharing_ok());
    assert_eq!(pf.miss_message(false), Some("MAIN is missing com.tunshare hooks"));
}

#[test]
fn merge_of_empty_main_is_hooks_only() {
    let merged = Firewall::merge_main("# comment\nset skip on lo0\n\n");
    assert_eq!(merged, Firewall::generate_main_hooks());
    assert_eq!(Firewall::merge_main(&merged), merged);
    assert!(remaining_main_is_empty("anchor \"com.tunshare\"\n# x\n"));
    assert!(!remaining_main_is_empty("pass all\n"));
}

#[test]
fn merge_twice_equals_once() {
    let existing = "pass in all\nnat on utun4 inet from 10.0.0.0/8 to any -> (utun4)\nscrub-anchor \"com.apple/*\" all\n";
    let once = Firewall::merge_main(existing);
    let twice = Firewall::merge_main(&once);
    assert_eq!(once, twice);
}

#[test]
fn interpret_pfctl_reports_failures_with_prefix() {
    assert!(interpret_pfctl(true, "", "Failed to load rules").is_ok());
    assert!(interpret_pfctl(false, "Use of -f option, could result in flushing\n", "x").is_ok());
    match interpret_pfctl(false, "  pfctl: boom  \n", "Failed to load rules") {
        Err(TunshareError::FirewallError(m)) => assert_eq!(m, "Failed to load rules: pfctl: boom"),
        _ => panic!("expected a firewall error"),
    }
    match interpret_pfctl(true, "Syntax error in config", "Rule validation failed") {
        Err(TunshareError::FirewallError(m)) => assert_eq!(m, "Rule validation failed: Syntax error in config"),
        _ => panic!("expected a firewall error"),
    }
}

#[test]
fn join_blocks_skips_blank_parts() {
    assert_eq!(join_blocks("  \n", " "), "");
    assert_eq!(join_blocks("a", "\n"), "a");
    assert_eq!(join_blocks("", "b"), "b");
    assert_eq!(join_blocks("a", "b"), "a\nb");
}

#[test]
fn cleanup_plan_restores_default_or_loads_ordered() {
    let only_ours = "set skip on lo0\nnat-anchor \"com.tunshare\"\nanchor \"com.tunshare/*\"\n";
    assert!(matches!(cleanup_main_plan(only_ours), MainCleanup::RestoreDefault));
    let mixed = "anchor \"com.tunshare\"\n  pass in all  \nscrub-anchor \"com.apple/*\" all\n";
    assert_eq!(strip_main(mixed), "pass in all\nscrub-anchor \"com.apple/*\" all\n");
    match cleanup_main_plan(mixed) {
        MainCleanup::LoadOrdered(t) => {
            assert_eq!(t, "set skip on lo0\nscrub-anchor \"com.apple/*\" all\npass in all\n")
        }
        MainCleanup::RestoreDefault => panic!("foreign rules remain"),
    }
    assert!(cleanup_outcome(&[]).is_ok());
    match cleanup_outcome(&["a".to_string(), "b".to_string()]) {
        Err(TunshareError::FirewallError(m)) => assert_eq!(m, "a; b"),
        _ => panic!("expected a firewall error"),
    }
}

#[test]
fn table_commands_and_replies() {
    assert!(Firewall::table_args(TableOp::Add, &[]).is_none());
    let args = Firewall::table_args(TableOp::Delete, &[Ipv4::new(1, 2, 3, 4), Ipv4::new(10, 0, 0, 1)]).unwrap();
    assert_eq!(
        args,
        vec!["-a", "com.tunshare", "-t", "tunshare_bypass", "-T", "delete", "1.2.3.4", "10.0.0.1"]
    );
    assert!(Firewall::table_result(true, "").is_ok());
    match Firewall::table_result(false, " no table \n") {
        Err(TunshareError::FirewallError(m)) => assert_eq!(m, "pfctl -T failed: no table"),
        _ => panic!("expected a firewall error"),
    }
    let shown = Firewall::table_show_result(true, "   1.1.1.1\n   junk\n   8.8.8.8\n", "").unwrap();
    assert_eq!(shown, Some(vec![Ipv4::new(1, 1, 1, 1), Ipv4::new(8, 8, 8, 8)]));
    assert_eq!(Firewall::table_show_result(false, "", "pfctl: Table does not exist.").unwrap(), None);
    assert!(matches!(
        Firewall::table_show_result(false, "", "pfctl: Operation not permitted"),
        Err(TunshareError::PermissionDenied)
    ));
    match Firewall::table_show_result(false, "", " weird ") {
        Err(TunshareError::FirewallError(m)) => assert_eq!(m, "pfctl -T show failed: weird"),
        _ => panic!("expected a firewall error"),
    }
}

#[test]
fn cleanup_sync_marks_unloaded_and_names_body_file() {
    let mut fw = Firewall::new();
    assert!(!fw.rules_loaded());
    fw.mark_loaded();
    assert!(fw.rules_loaded());
    let path = fw.cleanup_sync();
    assert_eq!(path, "/tmp/tunshare_pf.conf");
    assert!(!fw.rules_loaded());
    assert_eq!(fw.config_path(), "/tmp/tunshare_pf.conf");
}

#[test]
fn merged_main_passes_hooks_check() {
    let inputs = [
        "",
        "set skip on lo0\n",
        "scrub-anchor \"com.apple/*\" all fragment reassemble\nNAT ON EN0 FROM ANY TO ANY -> (EN0)\n",
        "anchor 'com.tunshare'\nnat-anchor \"com.tunshare\"\npass out all\n",
        "block drop in all\r\nrdr-anchor \"com.apple/*\"\n",
    ];
    for existing in inputs {
        let merged = Firewall::merge_main(existing);
        assert!(main_hooks_present(&merged), "{existing:?}");
        let pf = Firewall::contract_from_text(&merged, "");
        assert!(pf.has_main_hooks);
    }
}

#[test]
fn generated_body_reads_back() {
    let cases = [
        ("utun4", "en8", Ipv4::new(192, 168, 2, 1), 1400u16),
        ("utun10", "bridge100", Ipv4::new(10, 0, 0, 1), 1280u16),
        ("ppp0", "en1", Ipv4::new(172, 16, 255, 254), 0u16),
    ];
    for (vpn, lan, ip, mss) in cases {
        let body = Firewall::generate_rules(vpn, lan, ip, mss, None);
        let pf = parse_pf(&body);
        assert_eq!(pf.vpn.as_deref(), Some(vpn));
        assert_eq!(pf.lan.as_deref(), Some(lan));
        assert_eq!(pf.lan_ip, Some(ip));
        assert!(pf.has_dns_rdr);
    }
}

#[test]
fn loaded_main_and_body_are_sharing_ok() {
    let inputs = ["", "set skip on lo0\nnat on en0 from any to any -> (en0)\n"];
    for existing in inputs {
        let merged = Firewall::merge_main(existing);
        let body = Firewall::generate_rules("utun4", "en8", Ipv4::new(192, 168, 2, 1), 1400, None);
        let pf = Firewall::contract_from_text(&merged, &body);
        assert!(pf.has_main_hooks);
        assert!(pf.has_dns_rdr);
        assert!(pf.sharing_ok());
        assert_eq!(pf.lan_ip, Some(Ipv4::new(192, 168, 2, 1)));
    }
}

#[test]
fn order_main_drops_own_lines() {
    let existing = "scrub-anchor \"com.apple/*\" all fragment reassemble\nnat-anchor \"com.tunshare/*\" all\nrdr on en8 proto udp to any port 53 -> 192.168.2.1\nnat on en0 from 10.0.0.0/8 to any -> (en0)\npass out all\n";
    for input in [existing.to_string(), Firewall::merge_main(existing)] {
        let ordered = order_main(&input);
        let lines: Vec<&str> = ordered.lines().collect();
        assert_eq!(lines[0], "set skip on lo0");
        for line in &lines[1..] {
            assert!(!is_tunshare_main_line(line), "{line}");
        }
        assert!(lines.contains(&"scrub-anchor \"com.apple/*\" all fragment reassemble"));
        assert!(lines.contains(&"nat on en0 from 10.0.0.0/8 to any -> (en0)"));
        assert!(lines.contains(&"pass out all"));
    }
}

#[test]
fn generated_bypass_body_reads_back() {
    let cases = [
        ("utun4", "en8", Ipv4::new(192, 168, 2, 1), 1400u16, "en0", Ipv4::new(192, 168, 1, 1)),
        ("utun10", "bridge100", Ipv4::new(10, 0, 0, 1), 1280u16, "en1", Ipv4::new(10, 1, 0, 254)),
    ];
    for (vpn, lan, ip, mss, wan, gw) in cases {
        let b = BypassConfig { wan_if: wan.to_string(), wan_gw: gw };
        let body = Firewall::generate_rules(vpn, lan, ip, mss, Some(&b));
        let pf = parse_pf(&body);
        assert_eq!(pf.vpn.as_deref(), Some(vpn));
        assert_eq!(pf.lan.as_deref(), Some(lan));
        assert_eq!(pf.lan_ip, Some(ip));
        assert_eq!(pf.wan.as_deref(), Some(wan));
        assert_eq!(pf.wan_gw, Some(gw));
        assert!(pf.has_dns_rdr);
        assert!(pf.has_bypass_nat);
        assert!(pf.has_route_to);
        let merged = Firewall::merge_main("pass out all\n");
        assert!(Firewall::contract_from_text(&merged, &body).bypass_ok());
    }
}

#[test]
fn pf_status_line_is_read() {
    assert!(Firewall::status_enabled("Status: Enabled for 0 days 00:01:02\nDebug: Urgent\n"));
    assert!(!Firewall::status_enabled("Status: Disabled\n"));
    assert!(!Firewall::status_enabled(""));
}

#[test]
fn generated_hooks_and_body_report_bypass_exactly_when_loaded() {
    let main = Firewall::generate_main_hooks();
    let plain = Firewall::generate_rules("utun4", "en8", Ipv4::new(192, 168, 2, 1), 1400, None);
    let pf = Firewall::contract_from_text(&main, &plain);
    assert!(pf.sharing_ok());
    assert!(!pf.has_bypass_nat && !pf.has_route_to);
    assert_eq!(pf.wan, None);
    assert_eq!(pf.wan_gw, None);
    assert!(!pf.bypass_ok());
    assert_eq!(pf.miss_message(false), None);
    let b = BypassConfig { wan_if: "en0".into(), wan_gw: Ipv4::new(192, 168, 1, 1) };
    let with = Firewall::generate_rules("utun4", "en8", Ipv4::new(192, 168, 2, 1), 1400, Some(&b));
    let pf = Firewall::contract_from_text(&main, &with);
    assert!(pf.bypass_ok());
    assert_eq!(pf.wan.as_deref(), Some("en0"));
    assert_eq!(pf.miss_message(true), None);
}

#[test]
fn merge_keeps_every_foreign_line() {
    let existing = "  pass out all  \n\n# note\nnat-anchor \"com.tunshare\"\nscrub-anchor \"com.apple/*\" all fragment reassemble\nnat on en0 from 10.0.0.0/8 to any -> (en0)\nset skip on lo0\n";
    let merged = Firewall::merge_main(existing);
    let mut got: Vec<&str> = merged.lines().collect();
    let hooks = Firewall::main_hooks();
    let mut want: Vec<&str> = vec!["set skip on lo0"];
    want.extend(hooks.iter().copied());
    want.extend(["pass out all", "# note", "scrub-anchor \"com.apple/*\" all fragment reassemble", "nat on en0 from 10.0.0.0/8 to any -> (en0)"]);
    got.sort();
    want.sort();
    assert_eq!(got, want);
}
