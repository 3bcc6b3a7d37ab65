//! Laws of the application state machine.

use vstd::prelude::*;
use crate::app::{
    preset_ip, start_dns_edit_spec, AppState, dhcp_started_spec, sharing_started_spec, dns_found_spec, ifaces_result, interfaces_spec,
    key_spec, logged, managers_back, manual_dns_note, natpmp_or_finish_spec, result_matches,
    result_spec, servers_result, ActionView, AppView, Key, AsyncOpResult, PendingOp, MAX_LOG_ENTRIES,
};
use crate::error::{error_text, TunshareError};
use crate::network::IfaceSpec;
use crate::net::ip_text;
use crate::session::{firewall_view, SessionView};
use crate::ui::LogLevel;

verus! {

/// The operation an action starts, if it starts one.
pub open spec fn op_of(a: ActionView) -> Option<PendingOp> {
    match a {
        ActionView::DetectInterfaces => Some(PendingOp::DetectingInterfaces),
        ActionView::DiscoverDns(_) => Some(PendingOp::DiscoveringDns),
        ActionView::StartSharing { .. } => Some(PendingOp::StartingSharing),
        ActionView::StartDhcp { .. } => Some(PendingOp::StartingDhcp),
        ActionView::StartNatPmp { .. } => Some(PendingOp::StartingNatPmp),
        ActionView::StopSharing { .. } => Some(PendingOp::StoppingSharing),
        ActionView::FetchDebugInfo { .. } => Some(PendingOp::FetchingDebugInfo),
        _ => None,
    }
}

/// While an operation is in flight, no key starts another; keys other
/// than quit and cancel change nothing at all.
pub proof fn lemma_busy_keys(v: AppView, key: Key)
    requires
        v.pending_op is Some,
    ensures
        key_spec(v, key).1 == ActionView::Idle,
        key != Key::Char('q') && key != Key::Esc ==> key_spec(v, key).0 == v,
{
}

/// A key that starts an operation does so only when none is in flight,
/// and marks that operation as the one in flight.
pub proof fn lemma_key_marks_op(v: AppView, key: Key)
    ensures
        op_of(key_spec(v, key).1) is Some ==> v.pending_op is None && key_spec(v, key).0.pending_op
            == op_of(key_spec(v, key).1),
{
}

/// An operation started on a result is marked as the one in flight.
pub proof fn lemma_result_marks_op(v: AppView, r: AsyncOpResult)
    ensures
        op_of(result_spec(v, r).1) is Some ==> result_spec(v, r).0.pending_op == op_of(
            result_spec(v, r).1,
        ),
{
}

/// The log never grows past [`MAX_LOG_ENTRIES`], whatever key comes.
#[verifier::spinoff_prover]
#[verifier::rlimit(40)]
pub proof fn lemma_key_log_bounded(v: AppView, key: Key)
    requires
        v.logs.len() <= MAX_LOG_ENTRIES,
    ensures
        key_spec(v, key).0.logs.len() <= MAX_LOG_ENTRIES,
{
}

/// The log stays bounded through the steps after a start result.
proof fn lemma_tail_steps_bounded(v: AppView)
    requires
        v.logs.len() <= MAX_LOG_ENTRIES,
    ensures
        natpmp_or_finish_spec(v).0.logs.len() <= MAX_LOG_ENTRIES,
        manual_dns_note(v).logs.len() <= MAX_LOG_ENTRIES,
        natpmp_or_finish_spec(manual_dns_note(v)).0.logs.len() <= MAX_LOG_ENTRIES,
{
}

/// The log stays bounded when sharing started or failed to.
proof fn lemma_started_bounded(v: AppView, result: Result<(), TunshareError>, fw: (bool, Seq<char>), fwd: Option<bool>)
    requires
        v.logs.len() <= MAX_LOG_ENTRIES,
    ensures
        sharing_started_spec(v, result, fw, fwd).0.logs.len() <= MAX_LOG_ENTRIES,
{
    let v0 = managers_back(v, fw, fwd);
    assert(v0.logs == v.logs);
    let gw = match v0.session {
        Some(s) => ip_text(s.lan_ip),
        None => "unknown"@,
    };
    let v1 = logged(v0, LogLevel::Success, "VPN sharing active! Gateway: "@ + gw);
    lemma_tail_steps_bounded(v1);
    lemma_tail_steps_bounded(logged(v1, LogLevel::Info, "DHCP disabled by user preference"@));
    lemma_tail_steps_bounded(logged(v1, LogLevel::Info, "DHCP disabled (dnsmasq not installed)"@));
}

/// The log stays bounded when the DHCP server started or failed to.
proof fn lemma_dhcp_bounded(v: AppView, result: Result<(), TunshareError>)
    requires
        v.logs.len() <= MAX_LOG_ENTRIES,
    ensures
        dhcp_started_spec(v, result).0.logs.len() <= MAX_LOG_ENTRIES,
{
    match result {
        Ok(_) => {
            let msg = match v.session {
                Some(s) => match s.dhcp_range {
                    Some((a, b)) => "DHCP server active ("@ + a + "-"@ + b + ")"@,
                    None => "DHCP server active"@,
                },
                None => "DHCP server active"@,
            };
            let w = match v.session {
                Some(s) => AppView { session: Some(SessionView { dhcp_active: true, ..s }), ..v },
                None => v,
            };
            lemma_tail_steps_bounded(logged(logged(w, LogLevel::Success, msg), LogLevel::Info, "Router can now use DHCP on WAN interface"@));
        },
        Err(e) => {
            let w = logged(logged(v, LogLevel::Warning, "DHCP server failed: "@ + error_text(e)), LogLevel::Info, "Router needs manual IP configuration"@);
            lemma_tail_steps_bounded(w);
            lemma_tail_steps_bounded(manual_dns_note(w));
        },
    }
}

/// The log stays bounded when interfaces or DNS servers were found.
proof fn lemma_found_bounded(
    v: AppView,
    vpn: Result<Seq<IfaceSpec>, TunshareError>,
    lan: Result<Seq<IfaceSpec>, TunshareError>,
    vs: Result<Seq<Seq<char>>, TunshareError>,
    ss: Result<Seq<Seq<char>>, TunshareError>,
)
    requires
        v.logs.len() <= MAX_LOG_ENTRIES,
    ensures
        interfaces_spec(v, vpn, lan).logs.len() <= MAX_LOG_ENTRIES,
        dns_found_spec(v, vs, ss).logs.len() <= MAX_LOG_ENTRIES,
{
}

/// The log never grows past [`MAX_LOG_ENTRIES`], whatever result comes.
pub proof fn lemma_result_log_bounded(v: AppView, r: AsyncOpResult)
    requires
        v.logs.len() <= MAX_LOG_ENTRIES,
    ensures
        result_spec(v, r).0.logs.len() <= MAX_LOG_ENTRIES,
{
    match r {
        AsyncOpResult::InterfacesDetected { vpn, lan } => {
            lemma_found_bounded(v, ifaces_result(vpn), ifaces_result(lan), Ok(Seq::empty()), Ok(Seq::empty()));
        },
        AsyncOpResult::DnsDiscovered { vpn_servers, system_servers } => {
            lemma_found_bounded(v, Ok(Seq::empty()), Ok(Seq::empty()), servers_result(vpn_servers), servers_result(system_servers));
        },
        AsyncOpResult::SharingStarted { result, firewall, ip_forwarding } => {
            lemma_started_bounded(v, result, firewall_view(firewall), ip_forwarding.original());
        },
        AsyncOpResult::DhcpStarted { result } => {
            lemma_dhcp_bounded(v, result);
        },
        _ => {},
    }
}

/// A result that no longer belongs to the operation in flight changes
/// nothing but the log.
pub proof fn lemma_stale_result(v: AppView, r: AsyncOpResult)
    requires
        !result_matches(r, v.pending_op),
    ensures
        result_spec(v, r) == (logged(v, LogLevel::Info, "Discarded stale async result"@), ActionView::Idle),
{
}

/// Once sharing stopped, there is no session, nothing in flight, and
/// the menu shows; nothing is cleaned up a second time.
pub proof fn lemma_stopped_ends_session(v: AppView, r: AsyncOpResult)
    requires
        r is SharingStopped,
    ensures
        result_spec(v, r).1 == ActionView::Idle,
        result_spec(v, r).0.session is None,
        result_spec(v, r).0.pending_op is None,
        result_spec(v, r).0.state == crate::app::AppState::Menu,
{
}

/// The preset addresses: all different.
proof fn lemma_presets_differ()
    ensures
        forall|i: int, j: int| 0 <= i < 4 && 0 <= j < 4 && i != j ==> #[trigger] preset_ip(i) != #[trigger] preset_ip(j),
{
    reveal_strlit("1.1.1.1");
    reveal_strlit("8.8.8.8");
    reveal_strlit("9.9.9.9");
    reveal_strlit("208.67.222.222");
    assert("1.1.1.1"@[0] != "8.8.8.8"@[0]);
    assert("1.1.1.1"@[0] != "9.9.9.9"@[0]);
    assert("1.1.1.1"@[0] != "208.67.222.222"@[0]);
    assert("8.8.8.8"@[0] != "9.9.9.9"@[0]);
    assert("8.8.8.8"@[0] != "208.67.222.222"@[0]);
    assert("9.9.9.9"@[0] != "208.67.222.222"@[0]);
}

/// Opening the DNS editor and confirming at once keeps the DNS choice:
/// the editor opens on the row of the current choice (auto-detect or a
/// preset), and Enter on that row chooses it again and goes back to the
/// menu.
pub proof fn lemma_dns_edit_confirm_keeps(v: AppView)
    requires
        v.pending_op is None,
        v.dns.custom is None || exists|i: int| 0 <= i < 4 && v.dns.custom == Some(#[trigger] preset_ip(i)),
    ensures
        key_spec(start_dns_edit_spec(v), Key::Enter).0.dns.custom == v.dns.custom,
        key_spec(start_dns_edit_spec(v), Key::Enter).0.state == AppState::Menu,
{
    lemma_presets_differ();
    if v.dns.custom is Some {
        let i = choose|i: int| 0 <= i < 4 && v.dns.custom == Some(#[trigger] preset_ip(i));
        assert(preset_ip(0) != preset_ip(i) || i == 0);
        assert(preset_ip(1) != preset_ip(i) || i == 1);
        assert(preset_ip(2) != preset_ip(i) || i == 2);
        assert(preset_ip(3) != preset_ip(i) || i == 3);
    }
}

/// When sharing has started and DHCP is wanted and available, the DHCP
/// server is started on the session's LAN with the DNS servers in use:
/// the one the user chose if there is one, else the VPN's, else the
/// system's.
pub proof fn lemma_dhcp_gets_dns_in_use(v: AppView, r: AsyncOpResult)
    requires
        v.pending_op == Some(PendingOp::StartingSharing),
        v.dhcp_enabled,
        v.dnsmasq_installed,
        v.session is Some,
        r matches AsyncOpResult::SharingStarted { result, .. } && result is Ok,
    ensures
        result_spec(v, r).1 == (ActionView::StartDhcp {
            lan_name: v.session->0.lan_name,
            lan_ip: v.session->0.lan_ip,
            dns_servers: match v.dns.custom {
                Some(c) => seq![c],
                None => if v.dns.vpn_servers.len() > 0 {
                    v.dns.vpn_servers
                } else {
                    v.dns.system_servers
                },
            },
        }),
        result_spec(v, r).0.pending_op == Some(PendingOp::StartingDhcp),
{
}

} // verus!
