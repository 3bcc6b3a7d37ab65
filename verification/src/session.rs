//! An active sharing session: interfaces, services, health, and the
//! firewall and forwarding managers it owns while sharing runs.

use vstd::prelude::*;
use crate::firewall::Firewall;
use crate::health::{health_view, HealthStatus};
use crate::natpmp::NatPmpServer;
use crate::net::{ip_chars, ip_text, Ipv4};
use crate::text::string_of;
use crate::sysctl::IpForwarding;

verus! {

/// A firewall manager as plain values: rules loaded, body file path.
pub open spec fn firewall_view(f: Firewall) -> (bool, Seq<char>) {
    (f.loaded(), f.path_view())
}

/// A NAT-PMP service as plain values: external interface, LAN network.
pub open spec fn natpmp_view(s: NatPmpServer) -> (Seq<char>, Seq<char>) {
    (s.ext_view(), s.lan_view())
}

/// A DHCP range as plain values.
pub open spec fn range_view(r: Option<(String, String)>) -> Option<(Seq<char>, Seq<char>)> {
    match r {
        Some((a, b)) => Some((a@, b@)),
        None => None,
    }
}

/// A session as plain values.
pub struct SessionView {
    pub vpn_name: Seq<char>,
    pub lan_name: Seq<char>,
    pub lan_ip: Ipv4,
    pub dhcp_active: bool,
    pub dhcp_range: Option<(Seq<char>, Seq<char>)>,
    pub natpmp_active: bool,
    pub health: (int, Seq<char>),
    pub firewall: Option<(bool, Seq<char>)>,
    pub forwarding: Option<Option<bool>>,
    pub natpmp_server: Option<(Seq<char>, Seq<char>)>,
}

/// What dropping a session must still clean up.
pub struct Teardown {
    /// Signal and flush the NAT-PMP service.
    pub stop_natpmp: bool,
    /// Stop the DHCP server.
    pub stop_dhcp: bool,
    /// Clean up the firewall: the body file to remove, when the session
    /// still owns the firewall manager.
    pub firewall_path: Option<String>,
    /// Restore forwarding to this state, when the session still owns the
    /// forwarding manager and it changed the state.
    pub restore_forwarding: Option<bool>,
}

/// The live sharing session. The firewall and forwarding managers are
/// optional so that an operation in flight can own them; a teardown
/// skips what the session does not own.
pub struct SharingSession {
    /// The firewall manager, when the session holds it.
    pub firewall: Option<Firewall>,
    /// The forwarding manager, when the session holds it.
    pub ip_forwarding: Option<IpForwarding>,
    /// VPN interface name (e.g. `utun4`).
    pub vpn_name: String,
    /// LAN interface name (e.g. `en0`).
    pub lan_name: String,
    /// LAN gateway address.
    pub lan_ip: Ipv4,
    /// Whether the DHCP server is running.
    pub dhcp_active: bool,
    /// DHCP range served (start, end).
    pub dhcp_range: Option<(String, String)>,
    /// Whether the NAT-PMP service is running.
    pub natpmp_active: bool,
    /// The NAT-PMP service handle, while it runs.
    pub natpmp_server: Option<NatPmpServer>,
    /// Health from the periodic checks.
    pub health_status: HealthStatus,
}

impl SharingSession {
    /// The session as plain values.
    pub open spec fn view(&self) -> SessionView {
        SessionView {
            vpn_name: self.vpn_name@,
            lan_name: self.lan_name@,
            lan_ip: self.lan_ip,
            dhcp_active: self.dhcp_active,
            dhcp_range: range_view(self.dhcp_range),
            natpmp_active: self.natpmp_active,
            health: health_view(self.health_status),
            firewall: match self.firewall {
                Some(f) => Some(firewall_view(f)),
                None => None,
            },
            forwarding: match self.ip_forwarding {
                Some(f) => Some(f.original()),
                None => None,
            },
            natpmp_server: match self.natpmp_server {
                Some(s) => Some(natpmp_view(s)),
                None => None,
            },
        }
    }

    /// A session that owns the given managers, with no services running.
    pub fn new(
        firewall: Firewall,
        ip_forwarding: IpForwarding,
        vpn_name: String,
        lan_name: String,
        lan_ip: Ipv4,
    ) -> (s: SharingSession)
        ensures
            s.view() == (SessionView {
                vpn_name: vpn_name@,
                lan_name: lan_name@,
                lan_ip,
                dhcp_active: false,
                dhcp_range: None,
                natpmp_active: false,
                health: (0, Seq::empty()),
                firewall: Some(firewall_view(firewall)),
                forwarding: Some(ip_forwarding.original()),
                natpmp_server: None,
            }),
    {
        SharingSession {
            firewall: Some(firewall),
            ip_forwarding: Some(ip_forwarding),
            vpn_name,
            lan_name,
            lan_ip,
            dhcp_active: false,
            dhcp_range: None,
            natpmp_active: false,
            natpmp_server: None,
            health_status: HealthStatus::default_status(),
        }
    }

    /// Hands the managers to an operation in flight (fresh ones when the
    /// session does not hold them); the session then owns neither.
    pub fn take_managers(&mut self) -> (r: (Firewall, IpForwarding))
        ensures
            firewall_view(r.0) == match old(self).view().firewall {
                Some(f) => f,
                None => (false, crate::firewall::PF_BODY_PATH@),
            },
            r.1.original() == match old(self).view().forwarding {
                Some(o) => o,
                None => None,
            },
            final(self).view() == (SessionView { firewall: None, forwarding: None, ..old(self).view() }),
    {
        let fw = match self.firewall.take() {
            Some(f) => f,
            None => Firewall::new(),
        };
        let fwd = match self.ip_forwarding.take() {
            Some(f) => f,
            None => IpForwarding::new(),
        };
        (fw, fwd)
    }

    /// Gives the managers back after an operation.
    pub fn restore_managers(&mut self, firewall: Firewall, ip_forwarding: IpForwarding)
        ensures
            final(self).view() == (SessionView {
                firewall: Some(firewall_view(firewall)),
                forwarding: Some(ip_forwarding.original()),
                ..old(self).view()
            }),
    {
        self.firewall = Some(firewall);
        self.ip_forwarding = Some(ip_forwarding);
    }

    /// Whether the forwarding manager (when the session holds it)
    /// changed the forwarding state.
    pub fn ip_forwarding_is_modified(&self) -> (b: bool)
        ensures
            b == (self.view().forwarding matches Some(o) && o is Some),
    {
        match &self.ip_forwarding {
            Some(f) => f.is_modified(),
            None => false,
        }
    }

    /// Takes the NAT-PMP service handle, to be signalled to shut down.
    pub fn shutdown_natpmp(&mut self) -> (s: Option<NatPmpServer>)
        ensures
            match s {
                Some(x) => old(self).view().natpmp_server == Some(natpmp_view(x)),
                None => old(self).view().natpmp_server is None,
            },
            final(self).view() == (SessionView { natpmp_server: None, ..old(self).view() }),
    {
        self.natpmp_server.take()
    }

    /// Records the NAT-PMP service handle after it started.
    pub fn set_natpmp_server(&mut self, server: Option<NatPmpServer>)
        ensures
            final(self).view() == (SessionView {
                natpmp_server: match server {
                    Some(x) => Some(natpmp_view(x)),
                    None => None,
                },
                ..old(self).view()
            }),
    {
        self.natpmp_server = server;
    }

    /// What ending the session must clean up, NAT-PMP first so the
    /// anchor flush works, then DHCP, then the firewall, then
    /// forwarding; the session no longer owns its managers afterwards.
    pub fn teardown(&mut self) -> (t: Teardown)
        ensures
            t.stop_natpmp == old(self).view().natpmp_active,
            t.stop_dhcp == old(self).view().dhcp_active,
            match t.firewall_path {
                Some(p) => old(self).view().firewall matches Some(f) && p@ == f.1,
                None => old(self).view().firewall is None,
            },
            t.restore_forwarding == match old(self).view().forwarding {
                Some(o) => o,
                None => None,
            },
            final(self).view().firewall is None,
            final(self).view().forwarding is None,
    {
        let firewall_path = match self.firewall.take() {
            Some(mut f) => Some(f.cleanup_sync()),
            None => None,
        };
        let restore_forwarding = match self.ip_forwarding.take() {
            Some(mut f) => f.restore_sync(),
            None => None,
        };
        Teardown {
            stop_natpmp: self.natpmp_active,
            stop_dhcp: self.dhcp_active,
            firewall_path,
            restore_forwarding,
        }
    }
}

/// The addresses the DHCP server hands out on the LAN's `/24`: hosts
/// 100 to 200 of the gateway's network.
pub open spec fn dhcp_range_spec(lan_ip: Ipv4) -> (Seq<char>, Seq<char>) {
    (ip_text(Ipv4 { d: 100, ..lan_ip }), ip_text(Ipv4 { d: 200, ..lan_ip }))
}

/// The first and last address the DHCP server hands out.
pub fn dhcp_range(lan_ip: Ipv4) -> (r: (String, String))
    ensures
        (r.0@, r.1@) == dhcp_range_spec(lan_ip),
{
    let start = ip_chars(Ipv4 { d: 100, ..lan_ip });
    let end = ip_chars(Ipv4 { d: 200, ..lan_ip });
    (string_of(start.as_slice()), string_of(end.as_slice()))
}

} // verus!
