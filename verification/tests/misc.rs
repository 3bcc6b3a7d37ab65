use tunshare::error::TunshareError;
use tunshare::health::{check_health, forwarding_on_from, interface_up_from, HealthStatus};
use tunshare::sysctl::{forwarding_assignment, forwarding_set_result, parse_forwarding_state, IpForwarding};
use tunshare::ui::{parse_help_text, HelpRole};

#[test]
fn forwarding_restore_returns_first_state() {
    let mut f = IpForwarding::new();
    assert!(!f.is_modified());
    f.record_original(false);
    f.record_original(true);
    assert!(f.is_modified());
    assert_eq!(f.restore_sync(), Some(false));
    assert!(!f.is_modified());
    assert_eq!(f.restore_sync(), None);
}

#[test]
fn sysctl_replies() {
    assert!(parse_forwarding_state(" 1\n").unwrap());
    assert!(!parse_forwarding_state("0").unwrap());
    match parse_forwarding_state("2\n") {
        Err(TunshareError::ParseError(m)) => assert_eq!(m, "Unexpected sysctl value: 2"),
        _ => panic!("expected a parse error"),
    }
    assert_eq!(forwarding_assignment(true), "net.inet.ip.forwarding=1");
    assert!(forwarding_set_result(true, true, "").is_ok());
    assert!(matches!(forwarding_set_result(true, false, "sysctl: Operation not permitted"), Err(TunshareError::PermissionDenied)));
    match forwarding_set_result(false, false, "oops") {
        Err(TunshareError::CommandFailed { command, message }) => {
            assert_eq!(command, "sysctl -w net.inet.ip.forwarding=0");
            assert_eq!(message, "oops");
        }
        _ => panic!("expected a failed command"),
    }
}

#[test]
fn health_verdicts() {
    assert!(matches!(check_health("utun4", true, true), HealthStatus::Healthy));
    match check_health("utun4", false, true) {
        HealthStatus::Down(m) => assert_eq!(m, "VPN interface utun4 is no longer up"),
        _ => panic!("expected down"),
    }
    assert!(matches!(check_health("utun4", true, false), HealthStatus::Degraded(_)));
    assert!(interface_up_from(None));
    assert!(!interface_up_from(Some((false, "flags=8051<UP>".to_string()))));
    assert!(interface_up_from(Some((true, "flags=8051<UP>".to_string()))));
    assert!(forwarding_on_from(Some("1\n".to_string())));
    assert!(!forwarding_on_from(Some("0\n".to_string())));
}

#[test]
fn help_text_pieces() {
    let pieces = parse_help_text("\u{2191}/\u{2193}: Navigate  Enter: Select");
    let got: Vec<(HelpRole, &str)> = pieces.iter().map(|(r, s)| (*r, s.as_str())).collect();
    assert_eq!(
        got,
        vec![
            (HelpRole::Plain, "  "),
            (HelpRole::Key, "\u{2191}/\u{2193}"),
            (HelpRole::Text, " Navigate"),
            (HelpRole::Plain, "   "),
            (HelpRole::Key, "Enter"),
            (HelpRole::Text, " Select"),
        ]
    );
}

#[test]
fn error_messages() {
    assert_eq!(TunshareError::PermissionDenied.message(), "Permission denied. Run with sudo.");
    let e = TunshareError::CommandFailed { command: "x".into(), message: "y".into() };
    assert_eq!(e.message(), "Command failed: x - y");
}

#[test]
fn dhcp_range_is_hosts_100_to_200_of_the_gateway_network() {
    let (start, end) = tunshare::session::dhcp_range(tunshare::net::Ipv4::new(192, 168, 2, 1));
    assert_eq!(start, "192.168.2.100");
    assert_eq!(end, "192.168.2.200");
    let (start, end) = tunshare::session::dhcp_range(tunshare::net::Ipv4::new(10, 0, 7, 254));
    assert_eq!(start, "10.0.7.100");
    assert_eq!(end, "10.0.7.200");
}

#[test]
fn anchors_are_the_ones_sharing_loads() {
    assert_eq!(tunshare::doctor::STALE_ANCHOR, tunshare::firewall::ANCHOR_NAME);
    assert_eq!(tunshare::natpmp::PF_ANCHOR_NAME, tunshare::firewall::NATPMP_ANCHOR);
    let r = tunshare::doctor::check_stale_anchor(Ok("nat on en0 all -> (en0)\n".to_string()));
    assert_eq!(r.name, "'com.tunshare' pf anchor clean");
    assert!(matches!(&r.status, tunshare::doctor::CheckStatus::Fail { hint } if hint == "Press [c] to flush, or run: sudo pfctl -a com.tunshare -F all"));
}
