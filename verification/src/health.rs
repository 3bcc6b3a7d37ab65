//! Health of an active sharing session: VPN interface up, IP forwarding
//! still on.

use vstd::prelude::*;
use crate::text::{chars_of, contains, contains_chars, extend_str, string_of, trim, trim_chars};

verus! {

/// Overall health of the active sharing session.
#[derive(Debug, Clone)]
pub enum HealthStatus {
    /// Everything works.
    Healthy,
    /// Something is degraded but traffic may still flow.
    Degraded(String),
    /// The VPN interface is down; traffic is not flowing.
    Down(String),
}

/// A health status as plain values: 0 healthy, 1 degraded, 2 down, with
/// the message.
pub open spec fn health_view(h: HealthStatus) -> (int, Seq<char>) {
    match h {
        HealthStatus::Healthy => (0, Seq::empty()),
        HealthStatus::Degraded(m) => (1, m@),
        HealthStatus::Down(m) => (2, m@),
    }
}

impl HealthStatus {
    /// A session starts healthy.
    pub fn default_status() -> (h: HealthStatus)
        ensures
            h is Healthy,
    {
        HealthStatus::Healthy
    }
}

/// Whether the interface is up, from an `ifconfig <name>` run: `None`
/// when it could not run (assumed up rather than raising a false
/// alarm), otherwise its exit status and stdout. A failed run means the
/// interface is gone.
pub fn interface_up_from(probe: Option<(bool, String)>) -> (up: bool)
    ensures
        up == match probe {
            None => true,
            Some((success, out)) => success && contains(out@, "UP"@),
        },
{
    match probe {
        None => true,
        Some((success, out)) => {
            if !success {
                return false;
            }
            let v = chars_of(out.as_str());
            let up = chars_of("UP");
            contains_chars(v.as_slice(), up.as_slice())
        },
    }
}

/// Whether forwarding is on, from a `sysctl -n net.inet.ip.forwarding`
/// run: `None` when it could not run (assumed on), otherwise its stdout.
pub fn forwarding_on_from(probe: Option<String>) -> (on: bool)
    ensures
        on == match probe {
            None => true,
            Some(out) => trim(out@) == "1"@,
        },
{
    proof {
        reveal_strlit("1");
    }
    match probe {
        None => true,
        Some(out) => {
            let v = chars_of(out.as_str());
            let t = trim_chars(v.as_slice());
            if t.len() == 1 && t[0] == '1' {
                assert(t@ =~= "1"@);
                true
            } else {
                proof {
                    if t@ == "1"@ {
                        assert(t@[0] == '1');
                    }
                }
                false
            }
        },
    }
}

/// The session's health from the two probes, the interface first: down
/// when the VPN interface is gone, degraded when forwarding was turned
/// off, healthy otherwise.
pub fn check_health(vpn_name: &str, interface_up: bool, forwarding_on: bool) -> (h: HealthStatus)
    ensures
        !interface_up ==> health_view(h) == (2int, "VPN interface "@ + vpn_name@ + " is no longer up"@),
        interface_up && !forwarding_on ==> health_view(h) == (1int, "IP forwarding was disabled externally"@),
        interface_up && forwarding_on ==> h is Healthy,
{
    if !interface_up {
        let mut v: Vec<char> = Vec::new();
        extend_str(&mut v, "VPN interface ");
        extend_str(&mut v, vpn_name);
        extend_str(&mut v, " is no longer up");
        return HealthStatus::Down(string_of(v.as_slice()));
    }
    if !forwarding_on {
        return HealthStatus::Degraded(String::from_str("IP forwarding was disabled externally"));
    }
    HealthStatus::Healthy
}

} // verus!
