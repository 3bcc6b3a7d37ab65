use tunshare::app::{Action, App, AppState, DnsEditMode, Key, MenuItem, AsyncOpResult, PendingOp};
use tunshare::error::TunshareError;
use tunshare::firewall::Firewall;
use tunshare::natpmp::NatPmpServer;
use tunshare::network::InterfaceInfo;
use tunshare::sysctl::IpForwarding;
use tunshare::ui::LogLevel;

fn iface(name: &str, ip: &str) -> InterfaceInfo {
    InterfaceInfo { name: name.to_string(), ipv4_address: Some(ip.to_string()), description: None, is_up: true, is_point_to_point: true }
}

fn last_log(app: &App) -> (LogLevel, String) {
    let e = app.logs.last().unwrap();
    (e.level, e.message.clone())
}

#[test]
fn full_sharing_round_trip() {
    let mut app = App::new(true);
    assert_eq!(app.logs.len(), 1);
    assert_eq!(app.logs[0].timestamp.len(), 5);
    assert_eq!(app.menu_items(), vec![MenuItem::StartSharing, MenuItem::ToggleDhcp, MenuItem::ToggleNatPmp, MenuItem::SetDns, MenuItem::Quit]);

    let a = app.handle_key(Key::Enter);
    assert!(matches!(a, Action::DetectInterfaces));
    assert_eq!(app.pending_op, Some(PendingOp::DetectingInterfaces));
    // Busy: other keys do nothing.
    assert!(matches!(app.handle_key(Key::Enter), Action::Idle));

    let a = app.handle_async_result(AsyncOpResult::InterfacesDetected {
        vpn: Ok(vec![iface("utun3", "10.8.0.6")]),
        lan: Ok(vec![iface("en8", "192.168.2.1")]),
    });
    assert!(matches!(a, Action::Idle));
    assert_eq!(app.state, AppState::SelectingVpn);
    assert_eq!(app.selected_vpn, Some(0));
    assert_eq!(app.pending_op, None);

    match app.handle_key(Key::Enter) {
        Action::DiscoverDns { vpn_name } => assert_eq!(vpn_name, "utun3"),
        _ => panic!("expected DNS discovery"),
    }
    app.handle_async_result(AsyncOpResult::DnsDiscovered {
        vpn_servers: Ok(vec!["10.8.0.1".to_string()]),
        system_servers: Err(TunshareError::PermissionDenied),
    });
    assert_eq!(app.state, AppState::SelectingLan);
    assert_eq!(app.selected_lan, Some(0));
    assert_eq!(app.dns.effective(), vec!["10.8.0.1"]);

    let (fw, fwd) = match app.handle_key(Key::Enter) {
        Action::StartSharing { vpn_name, lan_name, lan_ip, firewall, ip_forwarding } => {
            assert_eq!(vpn_name, "utun3");
            assert_eq!(lan_name, "en8");
            assert_eq!(lan_ip, tunshare::net::Ipv4::new(192, 168, 2, 1));
            (firewall, ip_forwarding)
        }
        _ => panic!("expected start"),
    };
    assert!(app.is_sharing());
    match app.handle_async_result(AsyncOpResult::SharingStarted { result: Ok(()), firewall: fw, ip_forwarding: fwd }) {
        Action::StartDhcp { lan_name, dns_servers, .. } => {
            assert_eq!(lan_name, "en8");
            assert_eq!(dns_servers, vec!["10.8.0.1"]);
        }
        _ => panic!("expected DHCP start"),
    }
    app.set_dhcp_range(("192.168.2.100".to_string(), "192.168.2.200".to_string()));
    match app.handle_async_result(AsyncOpResult::DhcpStarted { result: Ok(()) }) {
        Action::StartNatPmp { vpn_name, .. } => assert_eq!(vpn_name, "utun3"),
        _ => panic!("expected NAT-PMP start"),
    }
    assert!(app.dhcp_active());
    assert!(app.logs.iter().any(|e| e.message == "DHCP server active (192.168.2.100-192.168.2.200)"));
    let server = NatPmpServer::new("utun3", "en8", "192.168.2.0/24");
    app.handle_async_result(AsyncOpResult::NatPmpStarted { result: Ok(()), server: Some(server) });
    assert_eq!(app.state, AppState::Active);
    assert!(app.natpmp_active());
    assert_eq!(last_log(&app), (LogLevel::Success, "NAT-PMP server active".to_string()));

    let (fw, fwd) = match app.handle_key(Key::Char('s')) {
        Action::StopSharing { dhcp_active, natpmp_active, natpmp_server, firewall, ip_forwarding } => {
            assert!(dhcp_active && natpmp_active && natpmp_server.is_some());
            (firewall, ip_forwarding)
        }
        _ => panic!("expected stop"),
    };
    assert!(matches!(
        app.handle_async_result(AsyncOpResult::SharingStopped { result: Ok(()), firewall: fw, ip_forwarding: fwd }),
        Action::Idle
    ));
    assert!(!app.is_sharing());
    assert_eq!(app.state, AppState::Menu);
    assert_eq!(last_log(&app), (LogLevel::Success, "VPN sharing stopped".to_string()));
}

#[test]
fn stale_results_are_discarded() {
    let mut app = App::new(false);
    assert_eq!(app.logs.len(), 3);
    assert!(!app.dhcp_enabled);
    app.handle_async_result(AsyncOpResult::DhcpStarted { result: Ok(()) });
    assert_eq!(last_log(&app), (LogLevel::Info, "Discarded stale async result".to_string()));
}

#[test]
fn cancel_returns_to_menu() {
    let mut app = App::new(true);
    app.handle_key(Key::Char('1'));
    assert_eq!(app.pending_op, Some(PendingOp::DetectingInterfaces));
    app.handle_key(Key::Esc);
    assert_eq!(app.pending_op, None);
    assert_eq!(app.state, AppState::Menu);
    assert_eq!(last_log(&app), (LogLevel::Warning, "Cancelled: Detecting interfaces...".to_string()));
}

#[test]
fn failed_start_drops_session() {
    let mut app = App::new(true);
    app.handle_key(Key::Enter);
    app.handle_async_result(AsyncOpResult::InterfacesDetected {
        vpn: Ok(vec![iface("utun3", "10.8.0.6")]),
        lan: Ok(vec![iface("en8", "192.168.2.1")]),
    });
    app.handle_key(Key::Enter);
    app.handle_async_result(AsyncOpResult::DnsDiscovered { vpn_servers: Ok(vec![]), system_servers: Ok(vec![]) });
    let a = app.handle_key(Key::Enter);
    assert!(matches!(a, Action::StartSharing { .. }));
    let a = app.handle_async_result(AsyncOpResult::SharingStarted {
        result: Err(TunshareError::FirewallError("boom".to_string())),
        firewall: Firewall::new(),
        ip_forwarding: IpForwarding::new(),
    });
    assert!(matches!(a, Action::TearDown { .. }));
    assert!(!app.is_sharing());
    assert_eq!(app.state, AppState::Menu);
    assert!(app.logs.iter().any(|e| e.message == "Failed to start sharing: Firewall error: boom"));
}

#[test]
fn dns_editing() {
    let mut app = App::new(true);
    app.selected_menu_item = 3;
    app.handle_key(Key::Enter);
    assert_eq!(app.state, AppState::EditingDns);
    app.handle_key(Key::Down);
    app.handle_key(Key::Enter);
    assert_eq!(app.dns.custom.as_deref(), Some("1.1.1.1"));
    assert_eq!(last_log(&app), (LogLevel::Success, "DNS set to 1.1.1.1 (Cloudflare)".to_string()));
    app.handle_key(Key::Enter);
    assert_eq!(app.dns.preset_selected, 1);
    for _ in 0..4 {
        app.handle_key(Key::Down);
    }
    app.handle_key(Key::Enter);
    assert_eq!(app.dns.edit_mode, DnsEditMode::CustomInput);
    app.dns.input_buffer.clear();
    for c in "9.99.x10".chars() {
        app.handle_key(Key::Char(c));
    }
    assert_eq!(app.dns.input_buffer, "9.99.10");
    app.handle_key(Key::Backspace);
    app.handle_key(Key::Enter);
    assert_eq!(app.dns.custom.as_deref(), Some("1.1.1.1"));
    assert_eq!(last_log(&app), (LogLevel::Warning, "Invalid IP address: 9.99.1".to_string()));
    assert_eq!(app.state, AppState::Menu);
    assert_eq!(app.dns.source(), "custom");
}

#[test]
fn help_and_labels() {
    let app = App::new(false);
    assert_eq!(app.help_text(), "\u{2191}/\u{2193}: Navigate  Enter: Select  l: Logs  q: Quit");
    assert!(app.is_menu_item_disabled(&MenuItem::ToggleDhcp));
    let (label, _) = app.menu_item_label_status(&MenuItem::SetDns);
    assert_eq!(label, "DNS Server");
    assert_eq!(tunshare::app::menu_item_label_str(&MenuItem::Quit), "Quit");
    assert_eq!(PendingOp::StoppingSharing.display(), "Stopping VPN sharing...");
}

#[test]
fn dns_editor_confirm_keeps_choice() {
    for custom in [None, Some("1.1.1.1"), Some("9.9.9.9"), Some("208.67.222.222")] {
        let mut app = App::new(false);
        app.dns.custom = custom.map(|c| c.to_string());
        app.selected_menu_item = 3;
        app.handle_key(Key::Enter);
        assert_eq!(app.state, AppState::EditingDns);
        app.handle_key(Key::Enter);
        assert_eq!(app.state, AppState::Menu);
        assert_eq!(app.dns.custom.as_deref(), custom);
    }
}

#[test]
fn sharing_stopped_cleans_nothing_more() {
    let mut app = App::new(false);
    let r = app.handle_async_result(AsyncOpResult::SharingStopped {
        result: Err(TunshareError::FirewallError("x".into())),
        firewall: Firewall::new(),
        ip_forwarding: IpForwarding::new(),
    });
    assert!(matches!(r, Action::Idle));
    assert!(!app.is_sharing());
    assert_eq!(app.state, AppState::Menu);
}
