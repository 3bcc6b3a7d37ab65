use tunshare::app::{App, AppState, DnsConfig, MenuItem};
use tunshare::doctor::{CheckResult, CheckStatus, CheckSummary};
use tunshare::firewall::Firewall;
use tunshare::health::HealthStatus;
use tunshare::net::Ipv4;
use tunshare::network::InterfaceInfo;
use tunshare::screens::{
    check_icon, connection_rows, doctor_detail_lines, doctor_summary_text, dns_current_text, dns_display, dns_row, enabled_text,
    header_badge, interface_label, items_text, log_window_start, menu_hint, menu_rows,
    rule_kind, service_text, spinner_frame, state_samples, step_text, HeaderBadge, MenuRow,
    RuleKind, DNS_ROW_COUNT,
};
use tunshare::session::SharingSession;
use tunshare::sysctl::IpForwarding;

fn sharing_app() -> App {
    let mut app = App::new(true);
    app.session = Some(SharingSession::new(
        Firewall::new(),
        IpForwarding::new(),
        "utun3".to_string(),
        "en8".to_string(),
        Ipv4::new(192, 168, 2, 1),
    ));
    app
}

#[test]
fn header_badge_follows_health_and_screen() {
    let mut app = App::new(true);
    assert_eq!(header_badge(&app), HeaderBadge::Inactive);
    app.state = AppState::SelectingLan;
    assert_eq!(header_badge(&app), HeaderBadge::Configuring);
    let mut app = sharing_app();
    assert_eq!(header_badge(&app), HeaderBadge::Active);
    app.session.as_mut().unwrap().health_status = HealthStatus::Degraded("x".to_string());
    assert_eq!(header_badge(&app).text(), "Degraded");
    app.session.as_mut().unwrap().health_status = HealthStatus::Down("gone".to_string());
    assert_eq!(header_badge(&app).text(), "VPN Down");
}

#[test]
fn dns_lines() {
    let mut d = DnsConfig::new();
    assert_eq!(dns_display(&d), "none");
    assert_eq!(dns_current_text(&d), "Current: none");
    d.system_servers = vec!["192.168.1.1".to_string()];
    assert_eq!(dns_display(&d), "192.168.1.1 (system)");
    d.vpn_servers = vec!["10.8.0.1".to_string(), "10.8.0.2".to_string()];
    assert_eq!(dns_display(&d), "10.8.0.1 (vpn)");
    assert_eq!(dns_current_text(&d), "Current: 10.8.0.1 (vpn)");
    d.custom = Some("9.9.9.9".to_string());
    assert_eq!(dns_current_text(&d), "Current: 9.9.9.9 (custom)");
    assert_eq!(dns_display(&d), "9.9.9.9 (custom)");
}

#[test]
fn dns_picker_rows() {
    assert_eq!(DNS_ROW_COUNT, 6);
    assert_eq!(dns_row(0), ("Auto-detect".to_string(), None));
    assert_eq!(
        dns_row(1),
        ("Cloudflare        ".to_string(), Some("1.1.1.1".to_string()))
    );
    assert_eq!(dns_row(1).0.len(), 18);
    assert_eq!(
        dns_row(4),
        ("OpenDNS           ".to_string(), Some("208.67.222.222".to_string()))
    );
    assert_eq!(dns_row(5), ("Custom...".to_string(), None));
}

#[test]
fn menu_rows_group_entries() {
    let items = vec![
        MenuItem::StartSharing,
        MenuItem::ToggleDhcp,
        MenuItem::ToggleNatPmp,
        MenuItem::SetDns,
        MenuItem::Quit,
    ];
    assert_eq!(
        menu_rows(&items),
        vec![
            MenuRow::Blank,
            MenuRow::Item(0),
            MenuRow::Blank,
            MenuRow::Separator,
            MenuRow::Blank,
            MenuRow::Item(1),
            MenuRow::Item(2),
            MenuRow::Item(3),
            MenuRow::Blank,
            MenuRow::Separator,
            MenuRow::Blank,
            MenuRow::Item(4),
            MenuRow::Blank,
        ]
    );
    let items = vec![MenuItem::StopSharing, MenuItem::Quit];
    assert_eq!(
        menu_rows(&items),
        vec![
            MenuRow::Blank,
            MenuRow::Item(0),
            MenuRow::Blank,
            MenuRow::Separator,
            MenuRow::Blank,
            MenuRow::Item(1),
            MenuRow::Blank,
        ]
    );
    assert_eq!(menu_hint(true), "Press Enter to stop");
    assert_eq!(menu_hint(false), "Press Enter to start");
}

#[test]
fn connection_card_rows() {
    let mut app = sharing_app();
    app.dns.vpn_servers = vec!["10.8.0.1".to_string()];
    let rows = connection_rows(&app, "192.168.2.1");
    let flat: Vec<(&str, String, bool)> =
        rows.into_iter().map(|r| (r.label, r.value, r.active)).collect();
    assert_eq!(
        flat,
        vec![
            ("Gateway", "192.168.2.1".to_string(), false),
            ("DNS", "10.8.0.1 (vpn)".to_string(), false),
            ("WAN", "Manual".to_string(), false),
            ("NAT-PMP", "Off".to_string(), false),
        ]
    );
    {
        let s = app.session.as_mut().unwrap();
        s.dhcp_active = true;
        s.natpmp_active = true;
        s.dhcp_range = Some(("192.168.2.100".to_string(), "192.168.2.200".to_string()));
    }
    let rows = connection_rows(&app, "192.168.2.1");
    assert_eq!(rows[2].value, "DHCP 100-200");
    assert!(rows[2].active);
    assert_eq!(rows[3].value, "Active");
    app.session.as_mut().unwrap().dhcp_range = None;
    assert_eq!(connection_rows(&app, "x")[2].value, "DHCP Active");
}

#[test]
fn interface_and_step_labels() {
    let mut iface = InterfaceInfo {
        name: "en8".to_string(),
        ipv4_address: None,
        description: None,
        is_up: true,
        is_point_to_point: false,
    };
    assert_eq!(interface_label(&iface), "en8");
    iface.description = Some("USB 10/100/1000 LAN".to_string());
    assert_eq!(interface_label(&iface), "en8 (USB 10/100/1000 LAN)");
    assert_eq!(
        step_text(2, 2, "Select LAN Interface"),
        "Step 2 of 2: Select LAN Interface"
    );
}

#[test]
fn log_window_and_count() {
    assert_eq!(log_window_start(3, 11, false), 0);
    assert_eq!(log_window_start(30, 11, false), 20);
    assert_eq!(log_window_start(30, 11, true), 19);
    assert_eq!(log_window_start(30, 3, false), 27);
    assert_eq!(items_text(42), " 42 items ");
}

#[test]
fn spinner_turns_every_150_ms() {
    assert_eq!(spinner_frame(0), '\u{25d0}');
    assert_eq!(spinner_frame(149), '\u{25d0}');
    assert_eq!(spinner_frame(150), '\u{25d3}');
    assert_eq!(spinner_frame(450), '\u{25d2}');
    assert_eq!(spinner_frame(600), '\u{25d0}');
}

#[test]
fn debug_panel_lines() {
    assert_eq!(enabled_text(true), "\u{25cf} Enabled");
    assert_eq!(enabled_text(false), "\u{25cb} Disabled");
    let range = Some(("192.168.2.100".to_string(), "192.168.2.200".to_string()));
    assert_eq!(
        service_text(true, &range),
        "\u{25cf} Active (192.168.2.100-192.168.2.200)"
    );
    assert_eq!(service_text(true, &None), "\u{25cf} Active");
    assert_eq!(service_text(false, &range), "\u{25cb} Disabled");

    let states = "header\nall tcp 10.0.0.2:1 -> 1.1.1.1:443 ESTABLISHED\nshort\nthird";
    assert_eq!(
        state_samples(states, 12),
        vec!["all tcp 1...".to_string(), "short".to_string()]
    );
    assert!(state_samples("only header", 40).is_empty());
    assert_eq!(state_samples("h\nabcd", 2), vec!["...".to_string()]);

    assert_eq!(rule_kind("# comment"), RuleKind::Comment);
    assert_eq!(rule_kind(""), RuleKind::Comment);
    assert_eq!(rule_kind("nat on utun3 from any"), RuleKind::Translation);
    assert_eq!(rule_kind("scrub in all"), RuleKind::Translation);
    assert_eq!(rule_kind("pass quick on en8"), RuleKind::Pass);
    assert_eq!(rule_kind("block drop all"), RuleKind::Block);
    assert_eq!(rule_kind("anchor \"com.tunshare\""), RuleKind::Other);
}

#[test]
fn doctor_icons() {
    assert_eq!(check_icon(&CheckStatus::Pass), "\u{2713}");
    assert_eq!(check_icon(&CheckStatus::Warn { hint: "h".to_string() }), "\u{26a0}");
    assert_eq!(check_icon(&CheckStatus::Fail { hint: "h".to_string() }), "\u{2717}");
}

#[test]
fn doctor_detail_pane_lines() {
    let w = CheckResult::warn("pf enabled", "sudo pfctl -e", "pf is disabled\nstatus: Disabled");
    assert_eq!(
        doctor_detail_lines(&w),
        vec![
            "  pf is disabled".to_string(),
            "  status: Disabled".to_string(),
            "  hint: sudo pfctl -e".to_string(),
        ]
    );
    let p = CheckResult::pass("root", "euid 0");
    assert_eq!(doctor_detail_lines(&p), vec!["  euid 0".to_string()]);
    let f = CheckResult::fail("dnsmasq", "brew install dnsmasq", "");
    assert_eq!(doctor_detail_lines(&f), vec!["  hint: brew install dnsmasq".to_string()]);
}

#[test]
fn doctor_summary_line() {
    let s = CheckSummary { pass: 7, warn: 2, fail: 1 };
    assert_eq!(doctor_summary_text(s), "10 checks \u{b7} 7 pass \u{b7} 2 warn \u{b7} 1 fail");
    let z = CheckSummary { pass: 0, warn: 0, fail: 0 };
    assert_eq!(doctor_summary_text(z), "0 checks \u{b7} 0 pass \u{b7} 0 warn \u{b7} 0 fail");
}
