//! The application's state machine: menu navigation, interface and DNS
//! selection, and the steps of starting and stopping sharing.
//!
//! The state changes in response to two kinds of events, a key press
//! and the result of an operation that was asked for. Each transition
//! returns the [`Action`] the caller is to carry out (detect
//! interfaces, load the firewall, start a service, ...); its result
//! comes back later as an [`AsyncOpResult`].

use vstd::prelude::*;
use crate::error::{error_text, TunshareError};
use crate::firewall::{Firewall, PF_BODY_PATH};
use crate::natpmp::NatPmpServer;
use crate::net::{dec, ip_text, parse_ipv4, parse_ipv4_chars, push_dec, push_ip, Ipv4};
use crate::network::{iface_specs, IfaceSpec, InterfaceInfo};
use crate::session::{firewall_view, natpmp_view, range_view, SessionView, SharingSession, Teardown};
use crate::sysctl::IpForwarding;
use crate::text::{
    chars_of, contains, contains_chars, extend_str, join_strings, join_with, lines, split_lines,
    string_of, string_views, trim, trim_chars,
};
use crate::ui::{is_clock_text, LogEntry, LogLevel};

verus! {

/// Most log entries kept; the oldest goes first.
pub const MAX_LOG_ENTRIES: usize = 500;

/// An operation in flight, shown while it runs.
#[derive(Clone, Copy, Debug, PartialEq, Eq, Structural)]
pub enum PendingOp {
    DetectingInterfaces,
    DiscoveringDns,
    StartingSharing,
    StartingDhcp,
    StartingNatPmp,
    StoppingSharing,
    FetchingDebugInfo,
}

/// What is shown while an operation runs.
pub open spec fn pending_text(op: PendingOp) -> Seq<char> {
    match op {
        PendingOp::DetectingInterfaces => "Detecting interfaces..."@,
        PendingOp::DiscoveringDns => "Discovering DNS..."@,
        PendingOp::StartingSharing => "Starting VPN sharing..."@,
        PendingOp::StartingDhcp => "Starting DHCP server..."@,
        PendingOp::StartingNatPmp => "Starting NAT-PMP server..."@,
        PendingOp::StoppingSharing => "Stopping VPN sharing..."@,
        PendingOp::FetchingDebugInfo => "Fetching debug info..."@,
    }
}

impl PendingOp {
    /// What is shown while the operation runs.
    pub fn display(&self) -> (s: &'static str)
        ensures
            s@ == pending_text(*self),
    {
        match self {
            PendingOp::DetectingInterfaces => "Detecting interfaces...",
            PendingOp::DiscoveringDns => "Discovering DNS...",
            PendingOp::StartingSharing => "Starting VPN sharing...",
            PendingOp::StartingDhcp => "Starting DHCP server...",
            PendingOp::StartingNatPmp => "Starting NAT-PMP server...",
            PendingOp::StoppingSharing => "Stopping VPN sharing...",
            PendingOp::FetchingDebugInfo => "Fetching debug info...",
        }
    }
}

/// A well-known DNS service.
#[derive(Clone, Copy, Debug)]
pub struct DnsPreset {
    pub name: &'static str,
    pub ip: &'static str,
}

/// Number of DNS presets.
pub const PRESET_COUNT: usize = 4;

/// Name of preset `i`.
pub open spec fn preset_name(i: int) -> Seq<char> {
    if i == 0 {
        "Cloudflare"@
    } else if i == 1 {
        "Google"@
    } else if i == 2 {
        "Quad9"@
    } else {
        "OpenDNS"@
    }
}

/// Address of preset `i`.
pub open spec fn preset_ip(i: int) -> Seq<char> {
    if i == 0 {
        "1.1.1.1"@
    } else if i == 1 {
        "8.8.8.8"@
    } else if i == 2 {
        "9.9.9.9"@
    } else {
        "208.67.222.222"@
    }
}

/// The DNS presets, in menu order.
pub fn dns_presets() -> (v: Vec<DnsPreset>)
    ensures
        v@.len() == PRESET_COUNT,
        forall|i: int| 0 <= i < 4 ==> (#[trigger] v@[i]).name@ == preset_name(i) && v@[i].ip@ == preset_ip(i),
{
    let v = vec![
        DnsPreset { name: "Cloudflare", ip: "1.1.1.1" },
        DnsPreset { name: "Google", ip: "8.8.8.8" },
        DnsPreset { name: "Quad9", ip: "9.9.9.9" },
        DnsPreset { name: "OpenDNS", ip: "208.67.222.222" },
    ];
    v
}

/// DNS edit sub-mode.
#[derive(Clone, Copy, Debug, PartialEq, Eq, Structural)]
pub enum DnsEditMode {
    /// Choosing from the preset list.
    SelectingPreset,
    /// Typing a custom address.
    CustomInput,
}

/// DNS configuration and edit state.
pub struct DnsConfig {
    /// DNS servers found for the VPN.
    pub vpn_servers: Vec<String>,
    /// System default DNS servers.
    pub system_servers: Vec<String>,
    /// The user's own server, overriding the detected ones.
    pub custom: Option<String>,
    /// Text typed while editing.
    pub input_buffer: String,
    /// Preset list or custom input.
    pub edit_mode: DnsEditMode,
    /// Highlighted row of the preset list: 0 detect, 1 to 4 a preset,
    /// 5 custom.
    pub preset_selected: usize,
}

/// DNS state as plain values.
pub struct DnsView {
    pub vpn_servers: Seq<Seq<char>>,
    pub system_servers: Seq<Seq<char>>,
    pub custom: Option<Seq<char>>,
    pub input_buffer: Seq<char>,
    pub edit_mode: DnsEditMode,
    pub preset_selected: usize,
}

/// The text of an optional string.
pub open spec fn opt_str(o: Option<String>) -> Option<Seq<char>> {
    match o {
        Some(s) => Some(s@),
        None => None,
    }
}

/// The servers in use: the custom one, else the VPN's, else the
/// system's.
pub open spec fn effective_spec(d: DnsView) -> Seq<Seq<char>> {
    match d.custom {
        Some(c) => seq![c],
        None => if d.vpn_servers.len() > 0 {
            d.vpn_servers
        } else {
            d.system_servers
        },
    }
}

/// Where the servers in use come from.
pub open spec fn source_spec(d: DnsView) -> Seq<char> {
    if d.custom is Some {
        "custom"@
    } else if d.vpn_servers.len() > 0 {
        "vpn"@
    } else if d.system_servers.len() > 0 {
        "system"@
    } else {
        "none"@
    }
}

/// A copy of a list of strings.
fn copy_strings(v: &Vec<String>) -> (r: Vec<String>)
    ensures
        string_views(r@) == string_views(v@),
{
    let mut r: Vec<String> = Vec::new();
    let mut i: usize = 0;
    while i < v.len()
        invariant
            i <= v@.len(),
            string_views(r@) == string_views(v@).take(i as int),
        decreases v@.len() - i,
    {
        let ghost before = r@;
        let c = copy_string(&v[i]);
        r.push(c);
        assert(string_views(r@) =~= string_views(before).push(c@));
        assert(string_views(v@).take(i + 1) =~= string_views(v@).take(i as int).push(v@[i as int]@));
        i = i + 1;
    }
    assert(string_views(v@).take(v@.len() as int) =~= string_views(v@));
    r
}

/// A copy of a string.
pub fn copy_string(s: &String) -> (r: String)
    ensures
        r@ == s@,
{
    let v = chars_of(s.as_str());
    string_of(v.as_slice())
}

impl DnsConfig {
    /// The state as plain values.
    pub open spec fn view(&self) -> DnsView {
        DnsView {
            vpn_servers: string_views(self.vpn_servers@),
            system_servers: string_views(self.system_servers@),
            custom: opt_str(self.custom),
            input_buffer: self.input_buffer@,
            edit_mode: self.edit_mode,
            preset_selected: self.preset_selected,
        }
    }

    /// Nothing found, nothing chosen.
    pub fn new() -> (d: DnsConfig)
        ensures
            d.view() == (DnsView {
                vpn_servers: Seq::empty(),
                system_servers: Seq::empty(),
                custom: None,
                input_buffer: Seq::empty(),
                edit_mode: DnsEditMode::SelectingPreset,
                preset_selected: 0,
            }),
    {
        let d = DnsConfig {
            vpn_servers: Vec::new(),
            system_servers: Vec::new(),
            custom: None,
            input_buffer: String::new(),
            edit_mode: DnsEditMode::SelectingPreset,
            preset_selected: 0,
        };
        assert(d.view().vpn_servers =~= Seq::<Seq<char>>::empty());
        assert(d.view().system_servers =~= Seq::<Seq<char>>::empty());
        d
    }

    /// The servers in use: custom, else VPN, else system.
    pub fn effective(&self) -> (v: Vec<String>)
        ensures
            string_views(v@) == effective_spec(self.view()),
    {
        match &self.custom {
            Some(c) => {
                let mut v: Vec<String> = Vec::new();
                v.push(copy_string(c));
                assert(string_views(v@) =~= seq![c@]);
                v
            },
            None => if self.vpn_servers.len() > 0 {
                copy_strings(&self.vpn_servers)
            } else {
                copy_strings(&self.system_servers)
            },
        }
    }

    /// Where the servers in use come from: `custom`, `vpn`, `system` or
    /// `none`.
    pub fn source(&self) -> (s: &'static str)
        ensures
            s@ == source_spec(self.view()),
    {
        if self.custom.is_some() {
            "custom"
        } else if self.vpn_servers.len() > 0 {
            "vpn"
        } else if self.system_servers.len() > 0 {
            "system"
        } else {
            "none"
        }
    }
}

/// The screen being shown.
#[derive(Clone, Copy, Debug, PartialEq, Eq, Structural)]
pub enum AppState {
    /// Main menu.
    Menu,
    /// Choosing the VPN interface.
    SelectingVpn,
    /// Choosing the LAN interface.
    SelectingLan,
    /// Sharing runs; status shown.
    Active,
    /// Editing the DNS server.
    EditingDns,
}

/// Main menu entries.
#[derive(Clone, Copy, Debug, PartialEq, Eq, Structural)]
pub enum MenuItem {
    StartSharing,
    StopSharing,
    ToggleDhcp,
    ToggleNatPmp,
    SetDns,
    Quit,
}

/// System state shown in the debug panel.
#[derive(Debug, Clone)]
pub struct DebugInfo {
    /// Loaded pf rules.
    pub pf_rules: String,
    /// pf state table dump.
    pub pf_states: String,
    /// Number of pf states.
    pub pf_state_count: usize,
    /// Whether pf is enabled.
    pub pf_enabled: bool,
    /// Whether sharing changed IP forwarding.
    pub ip_forwarding_modified: bool,
    /// Whether IP forwarding is on.
    pub ip_forwarding_enabled: bool,
    /// Whether the DHCP server runs.
    pub dhcp_running: bool,
    /// DHCP range, if it runs.
    pub dhcp_range: Option<(String, String)>,
    /// Whether the NAT-PMP service runs.
    pub natpmp_running: bool,
}

/// Debug information as plain values.
pub struct DebugView {
    pub pf_rules: Seq<char>,
    pub pf_states: Seq<char>,
    pub pf_state_count: usize,
    pub pf_enabled: bool,
    pub ip_forwarding_modified: bool,
    pub ip_forwarding_enabled: bool,
    pub dhcp_running: bool,
    pub dhcp_range: Option<(Seq<char>, Seq<char>)>,
    pub natpmp_running: bool,
}

impl DebugInfo {
    /// The information as plain values.
    pub open spec fn view(&self) -> DebugView {
        DebugView {
            pf_rules: self.pf_rules@,
            pf_states: self.pf_states@,
            pf_state_count: self.pf_state_count,
            pf_enabled: self.pf_enabled,
            ip_forwarding_modified: self.ip_forwarding_modified,
            ip_forwarding_enabled: self.ip_forwarding_enabled,
            dhcp_running: self.dhcp_running,
            dhcp_range: range_view(self.dhcp_range),
            natpmp_running: self.natpmp_running,
        }
    }

    /// The panel's information from the probes: a failed dump shows as
    /// `Error: <message>`, the state count is the dump's line count less
    /// the header, unknown pf or forwarding status reads as off.
    pub fn from_probes(
        pf_rules: Result<String, TunshareError>,
        pf_states: Result<String, TunshareError>,
        pf_enabled: Result<bool, TunshareError>,
        ip_forwarding: Result<bool, TunshareError>,
        ip_forwarding_modified: bool,
        dhcp_running: bool,
        dhcp_range: Option<(String, String)>,
        natpmp_running: bool,
    ) -> (d: DebugInfo)
        ensures
            d.pf_rules@ == dump_or_error(pf_rules),
            d.pf_states@ == dump_or_error(pf_states),
            d.pf_state_count == if lines(dump_or_error(pf_states)).len() > 0 {
                lines(dump_or_error(pf_states)).len() - 1
            } else {
                0
            },
            d.pf_enabled == (pf_enabled matches Ok(b) && b),
            d.ip_forwarding_enabled == (ip_forwarding matches Ok(b) && b),
            d.ip_forwarding_modified == ip_forwarding_modified,
            d.dhcp_running == dhcp_running,
            range_view(d.dhcp_range) == range_view(dhcp_range),
            d.natpmp_running == natpmp_running,
    {
        let rules = dump_text(pf_rules);
        let states = dump_text(pf_states);
        let sv = chars_of(states.as_str());
        let n = split_lines(sv.as_slice()).len();
        let count = if n > 0 {
            n - 1
        } else {
            0
        };
        DebugInfo {
            pf_rules: rules,
            pf_states: states,
            pf_state_count: count,
            pf_enabled: match pf_enabled {
                Ok(b) => b,
                Err(_) => false,
            },
            ip_forwarding_modified,
            ip_forwarding_enabled: match ip_forwarding {
                Ok(b) => b,
                Err(_) => false,
            },
            dhcp_running,
            dhcp_range,
            natpmp_running,
        }
    }
}

/// A dump's text, or `Error: <message>`.
pub open spec fn dump_or_error(r: Result<String, TunshareError>) -> Seq<char> {
    match r {
        Ok(s) => s@,
        Err(e) => "Error: "@ + error_text(e),
    }
}

/// A dump's text, or `Error: <message>`.
fn dump_text(r: Result<String, TunshareError>) -> (s: String)
    ensures
        s@ == dump_or_error(r),
{
    match r {
        Ok(s) => s,
        Err(e) => text2("Error: ", e.message().as_str()),
    }
}

/// `a` followed by `b`.
pub fn text2(a: &str, b: &str) -> (s: String)
    ensures
        s@ == a@ + b@,
{
    let mut v: Vec<char> = Vec::new();
    extend_str(&mut v, a);
    extend_str(&mut v, b);
    string_of(v.as_slice())
}

/// `a`, `b`, `c` in a row.
pub fn text3(a: &str, b: &str, c: &str) -> (s: String)
    ensures
        s@ == a@ + b@ + c@,
{
    let mut v: Vec<char> = Vec::new();
    extend_str(&mut v, a);
    extend_str(&mut v, b);
    extend_str(&mut v, c);
    assert(v@ =~= a@ + b@ + c@);
    string_of(v.as_slice())
}

/// `a` to `e` in a row.
pub fn text5(a: &str, b: &str, c: &str, d: &str, e: &str) -> (s: String)
    ensures
        s@ == a@ + b@ + c@ + d@ + e@,
{
    let mut v: Vec<char> = Vec::new();
    extend_str(&mut v, a);
    extend_str(&mut v, b);
    extend_str(&mut v, c);
    extend_str(&mut v, d);
    extend_str(&mut v, e);
    assert(v@ =~= a@ + b@ + c@ + d@ + e@);
    string_of(v.as_slice())
}

/// Decimal text of a count.
pub fn count_text(n: usize) -> (s: String)
    ensures
        s@ == dec(n as nat),
{
    let mut v: Vec<char> = Vec::new();
    push_dec(&mut v, n as u64);
    assert(v@ =~= dec(n as nat));
    string_of(v.as_slice())
}

/// Dotted-quad text of an address.
pub fn ip_string(ip: Ipv4) -> (s: String)
    ensures
        s@ == ip_text(ip),
{
    let mut v: Vec<char> = Vec::new();
    push_ip(&mut v, ip);
    assert(v@ =~= ip_text(ip));
    string_of(v.as_slice())
}

// ---------------------------------------------------------------------
// The application state
// ---------------------------------------------------------------------

/// A key press, as far as the app tells keys apart.
#[derive(Clone, Copy, Debug, PartialEq, Eq, Structural)]
pub enum Key {
    Up,
    Down,
    Enter,
    Esc,
    Backspace,
    Char(char),
    Other,
}

/// The log as (level, message) pairs, oldest first.
pub type LogView = Seq<(LogLevel, Seq<char>)>;

/// The log after one more entry; at [`MAX_LOG_ENTRIES`] the oldest
/// goes.
pub open spec fn log_push(l: LogView, level: LogLevel, msg: Seq<char>) -> LogView {
    if l.len() >= MAX_LOG_ENTRIES {
        l.drop_first().push((level, msg))
    } else {
        l.push((level, msg))
    }
}

/// The entries of a log as (level, message) pairs.
pub open spec fn log_views(v: Seq<LogEntry>) -> LogView {
    v.map_values(|e: LogEntry| (e.level, e.message@))
}

/// The application state as plain values.
pub struct AppView {
    pub vpn_interfaces: Seq<IfaceSpec>,
    pub lan_interfaces: Seq<IfaceSpec>,
    pub dns: DnsView,
    pub selected_vpn: Option<usize>,
    pub selected_lan: Option<usize>,
    pub session: Option<SessionView>,
    pub logs: LogView,
    pub state: AppState,
    pub selected_menu_item: usize,
    pub should_quit: bool,
    pub pending_op: Option<PendingOp>,
    pub show_debug: bool,
    pub debug_info: Option<DebugView>,
    pub logs_expanded: bool,
    pub dhcp_enabled: bool,
    pub natpmp_enabled: bool,
    pub dnsmasq_installed: bool,
}

/// What the caller is asked to carry out, as plain values.
pub enum ActionView {
    Idle,
    DetectInterfaces,
    DiscoverDns(Seq<char>),
    StartSharing {
        vpn_name: Seq<char>,
        lan_name: Seq<char>,
        lan_ip: Ipv4,
        firewall: (bool, Seq<char>),
        forwarding: Option<bool>,
    },
    StartDhcp { lan_name: Seq<char>, lan_ip: Ipv4, dns_servers: Seq<Seq<char>> },
    StartNatPmp { vpn_name: Seq<char>, lan_name: Seq<char>, lan_ip: Ipv4 },
    StopSharing {
        dhcp_active: bool,
        natpmp_active: bool,
        natpmp_server: Option<(Seq<char>, Seq<char>)>,
        firewall: (bool, Seq<char>),
        forwarding: Option<bool>,
    },
    FetchDebugInfo {
        ip_forwarding_modified: bool,
        dhcp_running: bool,
        dhcp_range: Option<(Seq<char>, Seq<char>)>,
        natpmp_running: bool,
    },
    CheckIpv6(Seq<char>),
    TearDown {
        stop_natpmp: bool,
        stop_dhcp: bool,
        firewall_path: Option<Seq<char>>,
        restore_forwarding: Option<bool>,
    },
}

/// What the caller is asked to carry out next.
pub enum Action {
    /// Nothing.
    Idle,
    /// Detect the VPN and LAN interfaces; answer with
    /// [`AsyncOpResult::InterfacesDetected`].
    DetectInterfaces,
    /// Find the DNS servers of the VPN interface and of the system;
    /// answer with [`AsyncOpResult::DnsDiscovered`].
    DiscoverDns { vpn_name: String },
    /// Enable forwarding and load the firewall with these managers;
    /// answer with [`AsyncOpResult::SharingStarted`], handing them back.
    StartSharing {
        vpn_name: String,
        lan_name: String,
        lan_ip: Ipv4,
        firewall: Firewall,
        ip_forwarding: IpForwarding,
    },
    /// Start the DHCP server; answer with [`AsyncOpResult::DhcpStarted`].
    StartDhcp { lan_name: String, lan_ip: Ipv4, dns_servers: Vec<String> },
    /// Start the NAT-PMP service; answer with [`AsyncOpResult::NatPmpStarted`].
    StartNatPmp { vpn_name: String, lan_name: String, lan_ip: Ipv4 },
    /// Signal the NAT-PMP service (when there is a handle), stop the
    /// services that run, clean up the firewall and restore forwarding;
    /// answer with [`AsyncOpResult::SharingStopped`], handing the managers
    /// back.
    StopSharing {
        dhcp_active: bool,
        natpmp_active: bool,
        natpmp_server: Option<NatPmpServer>,
        firewall: Firewall,
        ip_forwarding: IpForwarding,
    },
    /// Gather debug information; answer with
    /// [`AsyncOpResult::DebugInfoFetched`].
    FetchDebugInfo {
        ip_forwarding_modified: bool,
        dhcp_running: bool,
        dhcp_range: Option<(String, String)>,
        natpmp_running: bool,
    },
    /// Tell whether `input` is an IPv6 address; answer with
    /// [`App::apply_dns_input`].
    CheckIpv6 { input: String },
    /// A session ended: clean up what it still owned.
    TearDown { teardown: Teardown },
}

impl Action {
    /// The action as plain values.
    pub open spec fn view(&self) -> ActionView {
        match self {
            Action::Idle => ActionView::Idle,
            Action::DetectInterfaces => ActionView::DetectInterfaces,
            Action::DiscoverDns { vpn_name } => ActionView::DiscoverDns(vpn_name@),
            Action::StartSharing { vpn_name, lan_name, lan_ip, firewall, ip_forwarding } =>
                ActionView::StartSharing {
                vpn_name: vpn_name@,
                lan_name: lan_name@,
                lan_ip: *lan_ip,
                firewall: firewall_view(*firewall),
                forwarding: ip_forwarding.original(),
            },
            Action::StartDhcp { lan_name, lan_ip, dns_servers } => ActionView::StartDhcp {
                lan_name: lan_name@,
                lan_ip: *lan_ip,
                dns_servers: string_views(dns_servers@),
            },
            Action::StartNatPmp { vpn_name, lan_name, lan_ip } => ActionView::StartNatPmp {
                vpn_name: vpn_name@,
                lan_name: lan_name@,
                lan_ip: *lan_ip,
            },
            Action::StopSharing {
                dhcp_active,
                natpmp_active,
                natpmp_server,
                firewall,
                ip_forwarding,
            } => ActionView::StopSharing {
                dhcp_active: *dhcp_active,
                natpmp_active: *natpmp_active,
                natpmp_server: match natpmp_server {
                    Some(x) => Some(natpmp_view(*x)),
                    None => None,
                },
                firewall: firewall_view(*firewall),
                forwarding: ip_forwarding.original(),
            },
            Action::FetchDebugInfo {
                ip_forwarding_modified,
                dhcp_running,
                dhcp_range,
                natpmp_running,
            } => ActionView::FetchDebugInfo {
                ip_forwarding_modified: *ip_forwarding_modified,
                dhcp_running: *dhcp_running,
                dhcp_range: range_view(*dhcp_range),
                natpmp_running: *natpmp_running,
            },
            Action::CheckIpv6 { input } => ActionView::CheckIpv6(input@),
            Action::TearDown { teardown } => ActionView::TearDown {
                stop_natpmp: teardown.stop_natpmp,
                stop_dhcp: teardown.stop_dhcp,
                firewall_path: opt_str(teardown.firewall_path),
                restore_forwarding: teardown.restore_forwarding,
            },
        }
    }
}

/// The result of an operation that was asked for.
pub enum AsyncOpResult {
    InterfacesDetected {
        vpn: Result<Vec<InterfaceInfo>, TunshareError>,
        lan: Result<Vec<InterfaceInfo>, TunshareError>,
    },
    DnsDiscovered {
        vpn_servers: Result<Vec<String>, TunshareError>,
        system_servers: Result<Vec<String>, TunshareError>,
    },
    SharingStarted { result: Result<(), TunshareError>, firewall: Firewall, ip_forwarding: IpForwarding },
    DhcpStarted { result: Result<(), TunshareError> },
    NatPmpStarted { result: Result<(), TunshareError>, server: Option<NatPmpServer> },
    SharingStopped { result: Result<(), TunshareError>, firewall: Firewall, ip_forwarding: IpForwarding },
    DebugInfoFetched { info: Result<DebugInfo, TunshareError> },
}

/// The application.
pub struct App {
    /// Detected VPN interfaces.
    pub vpn_interfaces: Vec<InterfaceInfo>,
    /// Detected LAN interfaces.
    pub lan_interfaces: Vec<InterfaceInfo>,
    /// DNS configuration and edit state.
    pub dns: DnsConfig,
    /// Highlighted VPN interface.
    pub selected_vpn: Option<usize>,
    /// Highlighted LAN interface.
    pub selected_lan: Option<usize>,
    /// The sharing session, while sharing.
    pub session: Option<SharingSession>,
    /// The log, oldest first, at most [`MAX_LOG_ENTRIES`].
    pub logs: Vec<LogEntry>,
    /// The screen being shown.
    pub state: AppState,
    /// Highlighted menu entry.
    pub selected_menu_item: usize,
    /// Whether the app is to quit.
    pub should_quit: bool,
    /// The operation in flight.
    pub pending_op: Option<PendingOp>,
    /// Whether the debug panel is shown.
    pub show_debug: bool,
    /// Debug information last gathered.
    pub debug_info: Option<DebugInfo>,
    /// Whether the log panel is expanded.
    pub logs_expanded: bool,
    /// Whether to start DHCP when sharing.
    pub dhcp_enabled: bool,
    /// Whether to start NAT-PMP when sharing.
    pub natpmp_enabled: bool,
    /// Whether dnsmasq is installed.
    pub dnsmasq_installed: bool,
}

/// An optional session as plain values.
pub open spec fn session_view(s: Option<SharingSession>) -> Option<SessionView> {
    match s {
        Some(x) => Some(x.view()),
        None => None,
    }
}

/// Optional debug information as plain values.
pub open spec fn debug_view(d: Option<DebugInfo>) -> Option<DebugView> {
    match d {
        Some(x) => Some(x.view()),
        None => None,
    }
}

impl App {
    /// The application state as plain values.
    pub open spec fn view(&self) -> AppView {
        AppView {
            vpn_interfaces: iface_specs(self.vpn_interfaces@),
            lan_interfaces: iface_specs(self.lan_interfaces@),
            dns: self.dns.view(),
            selected_vpn: self.selected_vpn,
            selected_lan: self.selected_lan,
            session: session_view(self.session),
            logs: log_views(self.logs@),
            state: self.state,
            selected_menu_item: self.selected_menu_item,
            should_quit: self.should_quit,
            pending_op: self.pending_op,
            show_debug: self.show_debug,
            debug_info: debug_view(self.debug_info),
            logs_expanded: self.logs_expanded,
            dhcp_enabled: self.dhcp_enabled,
            natpmp_enabled: self.natpmp_enabled,
            dnsmasq_installed: self.dnsmasq_installed,
        }
    }
}

// ---------------------------------------------------------------------
// Transitions, as plain values
// ---------------------------------------------------------------------

/// `v` with one more log entry.
pub open spec fn logged(v: AppView, level: LogLevel, msg: Seq<char>) -> AppView {
    AppView { logs: log_push(v.logs, level, msg), ..v }
}

/// `v` with `op` in flight.
pub open spec fn with_pending(v: AppView, op: PendingOp) -> AppView {
    AppView { pending_op: Some(op), ..v }
}

/// `v` with nothing in flight.
pub open spec fn without_pending(v: AppView) -> AppView {
    AppView { pending_op: None, ..v }
}

/// `v` showing screen `s`.
pub open spec fn on_screen(v: AppView, s: AppState) -> AppView {
    AppView { state: s, ..v }
}

/// A fresh firewall manager.
pub open spec fn fresh_firewall() -> (bool, Seq<char>) {
    (false, PF_BODY_PATH@)
}

/// The menu entries: while sharing, stop and quit; otherwise start, the
/// two service toggles, DNS and quit.
pub open spec fn menu_items_spec(sharing: bool) -> Seq<MenuItem> {
    if sharing {
        seq![MenuItem::StopSharing, MenuItem::Quit]
    } else {
        seq![
            MenuItem::StartSharing,
            MenuItem::ToggleDhcp,
            MenuItem::ToggleNatPmp,
            MenuItem::SetDns,
            MenuItem::Quit,
        ]
    }
}

/// Start detecting interfaces, unless something is in flight.
pub open spec fn refresh_spec(v: AppView) -> (AppView, ActionView) {
    if v.pending_op is Some {
        (v, ActionView::Idle)
    } else {
        (
            with_pending(
                logged(v, LogLevel::Info, "Detecting network interfaces..."@),
                PendingOp::DetectingInterfaces,
            ),
            ActionView::DetectInterfaces,
        )
    }
}

/// Start stopping the session: signal NAT-PMP, hand over the managers.
pub open spec fn stop_spec(v: AppView) -> (AppView, ActionView) {
    if v.pending_op is Some {
        (v, ActionView::Idle)
    } else {
        match v.session {
            None => (
                on_screen(logged(v, LogLevel::Warning, "VPN sharing is not active"@), AppState::Menu),
                ActionView::Idle,
            ),
            Some(s) => {
                let v1 = with_pending(
                    logged(v, LogLevel::Info, "Stopping VPN sharing..."@),
                    PendingOp::StoppingSharing,
                );
                (
                    AppView {
                        session: Some(
                            SessionView { natpmp_server: None, firewall: None, forwarding: None, ..s },
                        ),
                        ..v1
                    },
                    ActionView::StopSharing {
                        dhcp_active: s.dhcp_active,
                        natpmp_active: s.natpmp_active,
                        natpmp_server: s.natpmp_server,
                        firewall: match s.firewall {
                            Some(f) => f,
                            None => fresh_firewall(),
                        },
                        forwarding: match s.forwarding {
                            Some(o) => o,
                            None => None,
                        },
                    },
                )
            },
        }
    }
}

/// Quit: stop sharing first when it runs.
pub open spec fn quit_spec(v: AppView) -> (AppView, ActionView) {
    let v1 = AppView { should_quit: true, ..v };
    if v.session is Some {
        stop_spec(v1)
    } else {
        (v1, ActionView::Idle)
    }
}

/// Ask for debug information, unless something is in flight.
pub open spec fn fetch_debug_spec(v: AppView) -> (AppView, ActionView) {
    if v.pending_op is Some {
        (v, ActionView::Idle)
    } else {
        (
            with_pending(v, PendingOp::FetchingDebugInfo),
            ActionView::FetchDebugInfo {
                ip_forwarding_modified: v.session matches Some(s) && (s.forwarding matches Some(o)
                    && o is Some),
                dhcp_running: v.session matches Some(s) && s.dhcp_active,
                dhcp_range: match v.session {
                    Some(s) => s.dhcp_range,
                    None => None,
                },
                natpmp_running: v.session matches Some(s) && s.natpmp_active,
            },
        )
    }
}

/// Show or hide the debug panel.
pub open spec fn toggle_debug_spec(v: AppView) -> (AppView, ActionView) {
    let v1 = AppView { show_debug: !v.show_debug, ..v };
    if v1.show_debug {
        fetch_debug_spec(v1)
    } else {
        (AppView { debug_info: None, ..v1 }, ActionView::Idle)
    }
}

/// Flip the DHCP preference (only with dnsmasq installed).
pub open spec fn toggle_dhcp_spec(v: AppView) -> AppView {
    if !v.dnsmasq_installed {
        logged(v, LogLevel::Warning, "Cannot toggle DHCP: dnsmasq not installed"@)
    } else if !v.dhcp_enabled {
        logged(AppView { dhcp_enabled: true, ..v }, LogLevel::Info, "DHCP server enabled"@)
    } else {
        logged(
            AppView { dhcp_enabled: false, ..v },
            LogLevel::Info,
            "DHCP server disabled (manual router config required)"@,
        )
    }
}

/// Flip the NAT-PMP preference.
pub open spec fn toggle_natpmp_spec(v: AppView) -> AppView {
    if !v.natpmp_enabled {
        logged(AppView { natpmp_enabled: true, ..v }, LogLevel::Info, "NAT-PMP server enabled"@)
    } else {
        logged(AppView { natpmp_enabled: false, ..v }, LogLevel::Info, "NAT-PMP server disabled"@)
    }
}

/// The preset row of a custom server: its preset's row, else the custom
/// row.
pub open spec fn preset_row(c: Seq<char>) -> usize {
    if c == preset_ip(0) {
        1
    } else if c == preset_ip(1) {
        2
    } else if c == preset_ip(2) {
        3
    } else if c == preset_ip(3) {
        4
    } else {
        5
    }
}

/// Open the DNS editor on the current choice.
pub open spec fn start_dns_edit_spec(v: AppView) -> AppView {
    AppView {
        dns: DnsView {
            input_buffer: match v.dns.custom {
                Some(c) => c,
                None => Seq::empty(),
            },
            edit_mode: DnsEditMode::SelectingPreset,
            preset_selected: match v.dns.custom {
                None => 0,
                Some(c) => preset_row(c),
            },
            ..v.dns
        },
        state: AppState::EditingDns,
        ..v
    }
}

/// A key that moves up.
pub open spec fn is_up(k: Key) -> bool {
    k == Key::Up || k == Key::Char('k')
}

/// A key that moves down.
pub open spec fn is_down(k: Key) -> bool {
    k == Key::Down || k == Key::Char('j')
}

/// The chosen menu entry.
pub open spec fn menu_choice_spec(v: AppView, item: MenuItem) -> (AppView, ActionView) {
    match item {
        MenuItem::StartSharing => refresh_spec(v),
        MenuItem::StopSharing => stop_spec(v),
        MenuItem::ToggleDhcp => (toggle_dhcp_spec(v), ActionView::Idle),
        MenuItem::ToggleNatPmp => (toggle_natpmp_spec(v), ActionView::Idle),
        MenuItem::SetDns => (start_dns_edit_spec(v), ActionView::Idle),
        MenuItem::Quit => quit_spec(v),
    }
}

/// A key on the main menu.
pub open spec fn menu_key_spec(v: AppView, key: Key) -> (AppView, ActionView) {
    let items = menu_items_spec(v.session is Some);
    if is_up(key) {
        (
            if v.selected_menu_item > 0 {
                AppView { selected_menu_item: (v.selected_menu_item - 1) as usize, ..v }
            } else {
                v
            },
            ActionView::Idle,
        )
    } else if is_down(key) {
        (
            if v.selected_menu_item < items.len() - 1 {
                AppView { selected_menu_item: (v.selected_menu_item + 1) as usize, ..v }
            } else {
                v
            },
            ActionView::Idle,
        )
    } else if key == Key::Enter {
        if v.selected_menu_item < items.len() {
            menu_choice_spec(v, items[v.selected_menu_item as int])
        } else {
            (v, ActionView::Idle)
        }
    } else if key == Key::Char('1') {
        if items[0] == MenuItem::StartSharing {
            refresh_spec(v)
        } else {
            stop_spec(v)
        }
    } else if key == Key::Char('2') {
        if items[1] == MenuItem::Quit {
            quit_spec(v)
        } else if items[1] == MenuItem::StopSharing {
            stop_spec(v)
        } else {
            (v, ActionView::Idle)
        }
    } else if key == Key::Char('q') {
        quit_spec(v)
    } else if key == Key::Char('d') && v.session is Some {
        toggle_debug_spec(v)
    } else if key == Key::Char('l') {
        (AppView { logs_expanded: !v.logs_expanded, ..v }, ActionView::Idle)
    } else {
        (v, ActionView::Idle)
    }
}

/// Move a highlight up.
pub open spec fn moved_up(sel: Option<usize>) -> Option<usize> {
    match sel {
        Some(i) => if i > 0 {
            Some((i - 1) as usize)
        } else {
            sel
        },
        None => None,
    }
}

/// Move a highlight down in a list of `len` entries.
pub open spec fn moved_down(sel: Option<usize>, len: nat) -> Option<usize> {
    match sel {
        Some(i) => if len > 0 && i < len - 1 {
            Some((i + 1) as usize)
        } else {
            sel
        },
        None => None,
    }
}

/// Start finding DNS servers for the chosen VPN interface.
pub open spec fn discover_spec(v: AppView, name: Seq<char>) -> (AppView, ActionView) {
    if v.pending_op is Some {
        (v, ActionView::Idle)
    } else {
        (
            with_pending(
                logged(v, LogLevel::Info, "Discovering DNS for "@ + name + "..."@),
                PendingOp::DiscoveringDns,
            ),
            ActionView::DiscoverDns(name),
        )
    }
}

/// A key while choosing the VPN interface.
pub open spec fn vpn_key_spec(v: AppView, key: Key) -> (AppView, ActionView) {
    if is_up(key) {
        (AppView { selected_vpn: moved_up(v.selected_vpn), ..v }, ActionView::Idle)
    } else if is_down(key) {
        (
            AppView { selected_vpn: moved_down(v.selected_vpn, v.vpn_interfaces.len()), ..v },
            ActionView::Idle,
        )
    } else if key == Key::Enter {
        match v.selected_vpn {
            Some(i) => if i < v.vpn_interfaces.len() {
                discover_spec(v, v.vpn_interfaces[i as int].name)
            } else {
                (v, ActionView::Idle)
            },
            None => (v, ActionView::Idle),
        }
    } else if key == Key::Esc || key == Key::Char('q') {
        (
            on_screen(logged(v, LogLevel::Info, "Cancelled interface selection"@), AppState::Menu),
            ActionView::Idle,
        )
    } else {
        (v, ActionView::Idle)
    }
}

/// The gateway address of the LAN interface (unspecified when it has no
/// readable IPv4 address).
pub open spec fn lan_ip_of(addr: Option<Seq<char>>) -> Ipv4 {
    match addr {
        Some(t) => match parse_ipv4(t) {
            Some(ip) => ip,
            None => Ipv4 { a: 0, b: 0, c: 0, d: 0 },
        },
        None => Ipv4 { a: 0, b: 0, c: 0, d: 0 },
    }
}

/// Start sharing from `vpn` to `lan`: a fresh session whose managers go
/// to the operation.
pub open spec fn start_sharing_spec(v: AppView, vpn: Seq<char>, lan: Seq<char>, addr: Option<Seq<char>>) -> (
    AppView,
    ActionView,
) {
    if v.pending_op is Some {
        (v, ActionView::Idle)
    } else {
        let v1 = with_pending(
            logged(v, LogLevel::Info, "Starting VPN sharing: "@ + vpn + " -> "@ + lan),
            PendingOp::StartingSharing,
        );
        let ip = lan_ip_of(addr);
        (
            AppView {
                session: Some(
                    SessionView {
                        vpn_name: vpn,
                        lan_name: lan,
                        lan_ip: ip,
                        dhcp_active: false,
                        dhcp_range: None,
                        natpmp_active: false,
                        health: (0, Seq::empty()),
                        firewall: None,
                        forwarding: None,
                        natpmp_server: None,
                    },
                ),
                ..v1
            },
            ActionView::StartSharing {
                vpn_name: vpn,
                lan_name: lan,
                lan_ip: ip,
                firewall: fresh_firewall(),
                forwarding: None,
            },
        )
    }
}

/// A key while choosing the LAN interface.
pub open spec fn lan_key_spec(v: AppView, key: Key) -> (AppView, ActionView) {
    if is_up(key) {
        (AppView { selected_lan: moved_up(v.selected_lan), ..v }, ActionView::Idle)
    } else if is_down(key) {
        (
            AppView { selected_lan: moved_down(v.selected_lan, v.lan_interfaces.len()), ..v },
            ActionView::Idle,
        )
    } else if key == Key::Enter {
        match (v.selected_vpn, v.selected_lan) {
            (Some(vi), Some(li)) => if vi < v.vpn_interfaces.len() && li < v.lan_interfaces.len() {
                start_sharing_spec(
                    v,
                    v.vpn_interfaces[vi as int].name,
                    v.lan_interfaces[li as int].name,
                    v.lan_interfaces[li as int].ipv4_address,
                )
            } else {
                (v, ActionView::Idle)
            },
            _ => (v, ActionView::Idle),
        }
    } else if key == Key::Esc || key == Key::Char('q') || key == Key::Backspace {
        (
            on_screen(logged(v, LogLevel::Info, "Back to VPN selection"@), AppState::SelectingVpn),
            ActionView::Idle,
        )
    } else {
        (v, ActionView::Idle)
    }
}

/// A key while sharing is shown.
pub open spec fn active_key_spec(v: AppView, key: Key) -> (AppView, ActionView) {
    if key == Key::Char('s') || key == Key::Enter {
        stop_spec(v)
    } else if key == Key::Char('q') {
        stop_spec(AppView { should_quit: true, ..v })
    } else if key == Key::Char('d') {
        toggle_debug_spec(v)
    } else if key == Key::Char('l') {
        (AppView { logs_expanded: !v.logs_expanded, ..v }, ActionView::Idle)
    } else if key == Key::Esc {
        if v.show_debug {
            (AppView { show_debug: false, debug_info: None, ..v }, ActionView::Idle)
        } else {
            (on_screen(v, AppState::Menu), ActionView::Idle)
        }
    } else {
        (v, ActionView::Idle)
    }
}

/// `v` with DNS state `d`.
pub open spec fn with_dns(v: AppView, d: DnsView) -> AppView {
    AppView { dns: d, ..v }
}

/// A key in the DNS preset list.
pub open spec fn preset_key_spec(v: AppView, key: Key) -> AppView {
    let d = v.dns;
    let idx = d.preset_selected;
    if is_up(key) {
        if idx > 0 {
            with_dns(v, DnsView { preset_selected: (idx - 1) as usize, ..d })
        } else {
            v
        }
    } else if is_down(key) {
        if idx < 5 {
            with_dns(v, DnsView { preset_selected: (idx + 1) as usize, ..d })
        } else {
            v
        }
    } else if key == Key::Enter {
        if idx == 0 {
            on_screen(
                logged(
                    with_dns(v, DnsView { custom: None, ..d }),
                    LogLevel::Info,
                    "DNS reset to auto-detect"@,
                ),
                AppState::Menu,
            )
        } else if idx <= 4 {
            on_screen(
                logged(
                    with_dns(v, DnsView { custom: Some(preset_ip(idx - 1)), ..d }),
                    LogLevel::Success,
                    "DNS set to "@ + preset_ip(idx - 1) + " ("@ + preset_name(idx - 1) + ")"@,
                ),
                AppState::Menu,
            )
        } else {
            with_dns(
                v,
                DnsView {
                    edit_mode: DnsEditMode::CustomInput,
                    input_buffer: match d.custom {
                        Some(c) => c,
                        None => Seq::empty(),
                    },
                    ..d
                },
            )
        }
    } else if key == Key::Esc {
        on_screen(with_dns(v, DnsView { input_buffer: Seq::empty(), ..d }), AppState::Menu)
    } else {
        v
    }
}

/// A character that custom DNS input accepts: a digit, `.` or `:`.
pub open spec fn dns_input_char(c: char) -> bool {
    ('0' <= c && c <= '9') || c == '.' || c == ':'
}

/// Finish custom DNS input with the verdict on `input`.
pub open spec fn apply_dns_spec(v: AppView, input: Seq<char>, valid: bool) -> AppView {
    let v1 = if valid {
        logged(
            with_dns(v, DnsView { custom: Some(input), ..v.dns }),
            LogLevel::Success,
            "Custom DNS set to "@ + input,
        )
    } else {
        logged(v, LogLevel::Warning, "Invalid IP address: "@ + input)
    };
    on_screen(with_dns(v1, DnsView { input_buffer: Seq::empty(), ..v1.dns }), AppState::Menu)
}

/// A key while typing a custom DNS server.
pub open spec fn custom_key_spec(v: AppView, key: Key) -> (AppView, ActionView) {
    let d = v.dns;
    match key {
        Key::Char(c) => (
            if dns_input_char(c) {
                with_dns(v, DnsView { input_buffer: d.input_buffer.push(c), ..d })
            } else {
                v
            },
            ActionView::Idle,
        ),
        Key::Backspace => (
            if d.input_buffer.len() > 0 {
                with_dns(v, DnsView { input_buffer: d.input_buffer.drop_last(), ..d })
            } else {
                v
            },
            ActionView::Idle,
        ),
        Key::Enter => {
            let input = trim(d.input_buffer);
            if input.len() == 0 {
                (
                    on_screen(
                        logged(
                            with_dns(v, DnsView { custom: None, input_buffer: Seq::empty(), ..d }),
                            LogLevel::Info,
                            "DNS reset to auto-detect"@,
                        ),
                        AppState::Menu,
                    ),
                    ActionView::Idle,
                )
            } else if contains(input, ":"@) {
                (v, ActionView::CheckIpv6(input))
            } else {
                (apply_dns_spec(v, input, parse_ipv4(input) is Some), ActionView::Idle)
            }
        },
        Key::Esc => (
            with_dns(v, DnsView { edit_mode: DnsEditMode::SelectingPreset, ..d }),
            ActionView::Idle,
        ),
        _ => (v, ActionView::Idle),
    }
}

/// Give up the operation in flight: log it and go back to where it
/// started.
pub open spec fn cancel_spec(v: AppView) -> AppView {
    match v.pending_op {
        None => v,
        Some(op) => {
            let v1 = without_pending(logged(v, LogLevel::Warning, "Cancelled: "@ + pending_text(op)));
            match op {
                PendingOp::DetectingInterfaces => on_screen(v1, AppState::Menu),
                PendingOp::DiscoveringDns => on_screen(v1, AppState::SelectingVpn),
                PendingOp::StartingSharing => on_screen(v1, AppState::Menu),
                PendingOp::StartingDhcp => on_screen(v1, AppState::Menu),
                PendingOp::StartingNatPmp => on_screen(v1, AppState::Menu),
                _ => v1,
            }
        },
    }
}

/// A key press: while an operation is in flight only quit and cancel
/// work; otherwise the screen decides.
pub open spec fn key_spec(v: AppView, key: Key) -> (AppView, ActionView) {
    if v.pending_op is Some {
        if key == Key::Char('q') {
            (AppView { should_quit: true, ..v }, ActionView::Idle)
        } else if key == Key::Esc {
            (cancel_spec(v), ActionView::Idle)
        } else {
            (v, ActionView::Idle)
        }
    } else {
        match v.state {
            AppState::Menu => menu_key_spec(v, key),
            AppState::SelectingVpn => vpn_key_spec(v, key),
            AppState::SelectingLan => lan_key_spec(v, key),
            AppState::Active => active_key_spec(v, key),
            AppState::EditingDns => match v.dns.edit_mode {
                DnsEditMode::SelectingPreset => (preset_key_spec(v, key), ActionView::Idle),
                DnsEditMode::CustomInput => custom_key_spec(v, key),
            },
        }
    }
}

// ---------------------------------------------------------------------
// Key handling
// ---------------------------------------------------------------------

/// A log entry of the given level.
fn entry_of(level: LogLevel, msg: String) -> (e: LogEntry)
    ensures
        e.level == level,
        e.message@ == msg@,
        is_clock_text(e.timestamp@),
{
    match level {
        LogLevel::Info => LogEntry::info(msg),
        LogLevel::Success => LogEntry::success(msg),
        LogLevel::Warning => LogEntry::warning(msg),
        LogLevel::Error => LogEntry::error(msg),
    }
}

/// Whether a key moves up.
fn key_up(k: Key) -> (b: bool)
    ensures
        b == is_up(k),
{
    k == Key::Up || k == Key::Char('k')
}

/// Whether a key moves down.
fn key_down(k: Key) -> (b: bool)
    ensures
        b == is_down(k),
{
    k == Key::Down || k == Key::Char('j')
}

impl App {
    /// Appends a log entry, dropping the oldest at capacity.
    pub fn push_log(&mut self, level: LogLevel, msg: String)
        ensures
            final(self).view() == logged(old(self).view(), level, msg@),
            final(self).logs@.len() > 0,
            is_clock_text(final(self).logs@.last().timestamp@),
            final(self).logs@.drop_last() == if old(self).logs@.len() >= MAX_LOG_ENTRIES {
                old(self).logs@.drop_first()
            } else {
                old(self).logs@
            },
    {
        let ghost before = self.logs@;
        let ghost m = msg@;
        let e = entry_of(level, msg);
        if self.logs.len() >= MAX_LOG_ENTRIES {
            self.logs.remove(0);
        }
        let ghost kept = self.logs@;
        self.logs.push(e);
        assert(self.logs@.drop_last() =~= kept);
        assert(log_views(self.logs@) =~= log_push(log_views(before), level, m));
    }

    /// Appends a log entry with a literal message.
    fn log_str(&mut self, level: LogLevel, msg: &str)
        ensures
            final(self).view() == logged(old(self).view(), level, msg@),
    {
        self.push_log(level, String::from_str(msg));
    }

    /// Whether sharing runs.
    pub fn is_sharing(&self) -> (b: bool)
        ensures
            b == (self.view().session is Some),
    {
        self.session.is_some()
    }

    /// Whether the DHCP server runs.
    pub fn dhcp_active(&self) -> (b: bool)
        ensures
            b == (self.view().session matches Some(s) && s.dhcp_active),
    {
        match &self.session {
            Some(s) => s.dhcp_active,
            None => false,
        }
    }

    /// Whether the NAT-PMP service runs.
    pub fn natpmp_active(&self) -> (b: bool)
        ensures
            b == (self.view().session matches Some(s) && s.natpmp_active),
    {
        match &self.session {
            Some(s) => s.natpmp_active,
            None => false,
        }
    }

    /// The DHCP range being served.
    pub fn dhcp_range(&self) -> (r: Option<(String, String)>)
        ensures
            range_view(r) == match self.view().session {
                Some(s) => s.dhcp_range,
                None => None,
            },
    {
        match &self.session {
            Some(s) => match &s.dhcp_range {
                Some((a, b)) => Some((copy_string(a), copy_string(b))),
                None => None,
            },
            None => None,
        }
    }

    /// Whether an operation is in flight.
    pub fn is_loading(&self) -> (b: bool)
        ensures
            b == (self.pending_op is Some),
    {
        self.pending_op.is_some()
    }

    /// The menu entries for the current state.
    pub fn menu_items(&self) -> (v: Vec<MenuItem>)
        ensures
            v@ == menu_items_spec(self.view().session is Some),
    {
        if self.is_sharing() {
            let v = vec![MenuItem::StopSharing, MenuItem::Quit];
            assert(v@ =~= menu_items_spec(true));
            v
        } else {
            let v = vec![
                MenuItem::StartSharing,
                MenuItem::ToggleDhcp,
                MenuItem::ToggleNatPmp,
                MenuItem::SetDns,
                MenuItem::Quit,
            ];
            assert(v@ =~= menu_items_spec(false));
            v
        }
    }

    /// Starts detecting interfaces.
    fn refresh_interfaces(&mut self) -> (a: Action)
        ensures
            (final(self).view(), a.view()) == refresh_spec(old(self).view()),
    {
        if self.pending_op.is_some() {
            return Action::Idle;
        }
        self.log_str(LogLevel::Info, "Detecting network interfaces...");
        self.pending_op = Some(PendingOp::DetectingInterfaces);
        Action::DetectInterfaces
    }

    /// Starts stopping the session.
    fn stop_sharing(&mut self) -> (a: Action)
        ensures
            (final(self).view(), a.view()) == stop_spec(old(self).view()),
    {
        if self.pending_op.is_some() {
            return Action::Idle;
        }
        if self.session.is_none() {
            self.log_str(LogLevel::Warning, "VPN sharing is not active");
            self.state = AppState::Menu;
            return Action::Idle;
        }
        self.log_str(LogLevel::Info, "Stopping VPN sharing...");
        self.pending_op = Some(PendingOp::StoppingSharing);
        let ghost v1 = self.view();
        match self.session.take() {
            Some(mut session) => {
                let dhcp_active = session.dhcp_active;
                let natpmp_active = session.natpmp_active;
                let natpmp_server = session.shutdown_natpmp();
                let (firewall, ip_forwarding) = session.take_managers();
                self.session = Some(session);
                Action::StopSharing { dhcp_active, natpmp_active, natpmp_server, firewall, ip_forwarding }
            },
            None => Action::Idle,
        }
    }

    /// Quits, stopping sharing first when it runs.
    fn quit(&mut self) -> (a: Action)
        ensures
            (final(self).view(), a.view()) == quit_spec(old(self).view()),
    {
        self.should_quit = true;
        if self.session.is_some() {
            self.stop_sharing()
        } else {
            Action::Idle
        }
    }

    /// Asks for debug information.
    fn fetch_debug_info(&mut self) -> (a: Action)
        ensures
            (final(self).view(), a.view()) == fetch_debug_spec(old(self).view()),
    {
        if self.pending_op.is_some() {
            return Action::Idle;
        }
        self.pending_op = Some(PendingOp::FetchingDebugInfo);
        let ip_forwarding_modified = match &self.session {
            Some(s) => s.ip_forwarding_is_modified(),
            None => false,
        };
        let dhcp_running = self.dhcp_active();
        let dhcp_range = self.dhcp_range();
        let natpmp_running = self.natpmp_active();
        Action::FetchDebugInfo { ip_forwarding_modified, dhcp_running, dhcp_range, natpmp_running }
    }

    /// Shows or hides the debug panel.
    fn toggle_debug(&mut self) -> (a: Action)
        ensures
            (final(self).view(), a.view()) == toggle_debug_spec(old(self).view()),
    {
        self.show_debug = !self.show_debug;
        if self.show_debug {
            self.fetch_debug_info()
        } else {
            self.debug_info = None;
            Action::Idle
        }
    }

    /// Flips the DHCP preference.
    fn toggle_dhcp_preference(&mut self)
        ensures
            final(self).view() == toggle_dhcp_spec(old(self).view()),
    {
        if !self.dnsmasq_installed {
            self.log_str(LogLevel::Warning, "Cannot toggle DHCP: dnsmasq not installed");
            return ;
        }
        self.dhcp_enabled = !self.dhcp_enabled;
        if self.dhcp_enabled {
            self.log_str(LogLevel::Info, "DHCP server enabled");
        } else {
            self.log_str(LogLevel::Info, "DHCP server disabled (manual router config required)");
        }
    }

    /// Flips the NAT-PMP preference.
    fn toggle_natpmp_preference(&mut self)
        ensures
            final(self).view() == toggle_natpmp_spec(old(self).view()),
    {
        self.natpmp_enabled = !self.natpmp_enabled;
        if self.natpmp_enabled {
            self.log_str(LogLevel::Info, "NAT-PMP server enabled");
        } else {
            self.log_str(LogLevel::Info, "NAT-PMP server disabled");
        }
    }

    /// Opens the DNS editor on the current choice.
    fn start_dns_edit(&mut self)
        ensures
            final(self).view() == start_dns_edit_spec(old(self).view()),
    {
        let row: usize = match &self.dns.custom {
            None => 0,
            Some(c) => preset_row_of(c.as_str()),
        };
        self.dns.input_buffer = match &self.dns.custom {
            Some(c) => copy_string(c),
            None => String::new(),
        };
        self.dns.edit_mode = DnsEditMode::SelectingPreset;
        self.dns.preset_selected = row;
        self.state = AppState::EditingDns;
    }

    /// A key on the main menu.
    fn handle_menu_key(&mut self, key: Key) -> (a: Action)
        ensures
            (final(self).view(), a.view()) == menu_key_spec(old(self).view(), key),
    {
        let items = self.menu_items();
        if key_up(key) {
            if self.selected_menu_item > 0 {
                self.selected_menu_item = self.selected_menu_item - 1;
            }
            return Action::Idle;
        }
        if key_down(key) {
            if self.selected_menu_item < items.len() - 1 {
                self.selected_menu_item = self.selected_menu_item + 1;
            }
            return Action::Idle;
        }
        if key == Key::Enter {
            if self.selected_menu_item < items.len() {
                let item = items[self.selected_menu_item];
                return match item {
                    MenuItem::StartSharing => self.refresh_interfaces(),
                    MenuItem::StopSharing => self.stop_sharing(),
                    MenuItem::ToggleDhcp => {
                        self.toggle_dhcp_preference();
                        Action::Idle
                    },
                    MenuItem::ToggleNatPmp => {
                        self.toggle_natpmp_preference();
                        Action::Idle
                    },
                    MenuItem::SetDns => {
                        self.start_dns_edit();
                        Action::Idle
                    },
                    MenuItem::Quit => self.quit(),
                };
            }
            return Action::Idle;
        }
        if key == Key::Char('1') {
            if items[0] == MenuItem::StartSharing {
                return self.refresh_interfaces();
            }
            return self.stop_sharing();
        }
        if key == Key::Char('2') {
            if items[1] == MenuItem::Quit {
                return self.quit();
            }
            if items[1] == MenuItem::StopSharing {
                return self.stop_sharing();
            }
            return Action::Idle;
        }
        if key == Key::Char('q') {
            return self.quit();
        }
        if key == Key::Char('d') && self.session.is_some() {
            return self.toggle_debug();
        }
        if key == Key::Char('l') {
            self.logs_expanded = !self.logs_expanded;
        }
        Action::Idle
    }

    /// Starts finding DNS servers for a VPN interface.
    fn discover_dns(&mut self, vpn_name: String) -> (a: Action)
        ensures
            (final(self).view(), a.view()) == discover_spec(old(self).view(), vpn_name@),
    {
        if self.pending_op.is_some() {
            return Action::Idle;
        }
        self.push_log(LogLevel::Info, text3("Discovering DNS for ", vpn_name.as_str(), "..."));
        self.pending_op = Some(PendingOp::DiscoveringDns);
        Action::DiscoverDns { vpn_name }
    }

    /// A key while choosing the VPN interface.
    fn handle_vpn_select_key(&mut self, key: Key) -> (a: Action)
        ensures
            (final(self).view(), a.view()) == vpn_key_spec(old(self).view(), key),
    {
        if key_up(key) {
            self.selected_vpn = move_up(self.selected_vpn);
            return Action::Idle;
        }
        if key_down(key) {
            proof {
                lemma_iface_len(self.vpn_interfaces@);
            }
            self.selected_vpn = move_down(self.selected_vpn, self.vpn_interfaces.len());
            return Action::Idle;
        }
        if key == Key::Enter {
            proof {
                lemma_iface_len(self.vpn_interfaces@);
            }
            match self.selected_vpn {
                Some(i) => {
                    if i < self.vpn_interfaces.len() {
                        let name = copy_string(&self.vpn_interfaces[i].name);
                        return self.discover_dns(name);
                    }
                    return Action::Idle;
                },
                None => {
                    return Action::Idle;
                },
            }
        }
        if key == Key::Esc || key == Key::Char('q') {
            self.state = AppState::Menu;
            self.log_str(LogLevel::Info, "Cancelled interface selection");
        }
        Action::Idle
    }

    /// Starts sharing from `vpn_name` to `lan_name`.
    fn start_sharing(&mut self, vpn_name: String, lan_name: String, lan_addr: Option<String>) -> (a: Action)
        ensures
            (final(self).view(), a.view()) == start_sharing_spec(
                old(self).view(),
                vpn_name@,
                lan_name@,
                opt_str(lan_addr),
            ),
    {
        if self.pending_op.is_some() {
            return Action::Idle;
        }
        let mut msg: Vec<char> = Vec::new();
        extend_str(&mut msg, "Starting VPN sharing: ");
        extend_str(&mut msg, vpn_name.as_str());
        extend_str(&mut msg, " -> ");
        extend_str(&mut msg, lan_name.as_str());
        self.push_log(LogLevel::Info, string_of(msg.as_slice()));
        self.pending_op = Some(PendingOp::StartingSharing);
        let lan_ip = match &lan_addr {
            Some(t) => match crate::net::parse_ipv4_str(t.as_str()) {
                Some(ip) => ip,
                None => Ipv4::unspecified(),
            },
            None => Ipv4::unspecified(),
        };
        let mut session = SharingSession::new(
            Firewall::new(),
            IpForwarding::new(),
            copy_string(&vpn_name),
            copy_string(&lan_name),
            lan_ip,
        );
        let (firewall, ip_forwarding) = session.take_managers();
        self.session = Some(session);
        Action::StartSharing { vpn_name, lan_name, lan_ip, firewall, ip_forwarding }
    }

    /// A key while choosing the LAN interface.
    fn handle_lan_select_key(&mut self, key: Key) -> (a: Action)
        ensures
            (final(self).view(), a.view()) == lan_key_spec(old(self).view(), key),
    {
        if key_up(key) {
            self.selected_lan = move_up(self.selected_lan);
            return Action::Idle;
        }
        if key_down(key) {
            proof {
                lemma_iface_len(self.lan_interfaces@);
            }
            self.selected_lan = move_down(self.selected_lan, self.lan_interfaces.len());
            return Action::Idle;
        }
        if key == Key::Enter {
            proof {
                lemma_iface_len(self.vpn_interfaces@);
                lemma_iface_len(self.lan_interfaces@);
            }
            match (self.selected_vpn, self.selected_lan) {
                (Some(vi), Some(li)) => {
                    if vi < self.vpn_interfaces.len() && li < self.lan_interfaces.len() {
                        let vpn = copy_string(&self.vpn_interfaces[vi].name);
                        let lan = copy_string(&self.lan_interfaces[li].name);
                        let addr = crate::network::clone_opt(&self.lan_interfaces[li].ipv4_address);
                        return self.start_sharing(vpn, lan, addr);
                    }
                    return Action::Idle;
                },
                _ => {
                    return Action::Idle;
                },
            }
        }
        if key == Key::Esc || key == Key::Char('q') || key == Key::Backspace {
            self.state = AppState::SelectingVpn;
            self.log_str(LogLevel::Info, "Back to VPN selection");
        }
        Action::Idle
    }

    /// A key while sharing is shown.
    fn handle_active_key(&mut self, key: Key) -> (a: Action)
        ensures
            (final(self).view(), a.view()) == active_key_spec(old(self).view(), key),
    {
        if key == Key::Char('s') || key == Key::Enter {
            return self.stop_sharing();
        }
        if key == Key::Char('q') {
            self.should_quit = true;
            return self.stop_sharing();
        }
        if key == Key::Char('d') {
            return self.toggle_debug();
        }
        if key == Key::Char('l') {
            self.logs_expanded = !self.logs_expanded;
            return Action::Idle;
        }
        if key == Key::Esc {
            if self.show_debug {
                self.show_debug = false;
                self.debug_info = None;
            } else {
                self.state = AppState::Menu;
            }
        }
        Action::Idle
    }

    /// A key in the DNS preset list.
    fn handle_dns_preset_key(&mut self, key: Key)
        ensures
            final(self).view() == preset_key_spec(old(self).view(), key),
    {
        let idx = self.dns.preset_selected;
        if key_up(key) {
            if idx > 0 {
                self.dns.preset_selected = idx - 1;
            }
            return ;
        }
        if key_down(key) {
            if idx < 5 {
                self.dns.preset_selected = idx + 1;
            }
            return ;
        }
        if key == Key::Enter {
            if idx == 0 {
                self.dns.custom = None;
                self.log_str(LogLevel::Info, "DNS reset to auto-detect");
                self.state = AppState::Menu;
            } else if idx <= 4 {
                let presets = dns_presets();
                let p = presets[idx - 1];
                self.dns.custom = Some(String::from_str(p.ip));
                self.push_log(LogLevel::Success, text5("DNS set to ", p.ip, " (", p.name, ")"));
                self.state = AppState::Menu;
            } else {
                self.dns.edit_mode = DnsEditMode::CustomInput;
                self.dns.input_buffer = match &self.dns.custom {
                    Some(c) => copy_string(c),
                    None => String::new(),
                };
            }
            return ;
        }
        if key == Key::Esc {
            self.dns.input_buffer = String::new();
            self.state = AppState::Menu;
        }
    }

    /// Finishes custom DNS input with the verdict on `input`: set as the
    /// custom server when it is an address, else warned about; back to
    /// the menu either way.
    pub fn apply_dns_input(&mut self, input: String, valid: bool)
        ensures
            final(self).view() == apply_dns_spec(old(self).view(), input@, valid),
    {
        if valid {
            self.dns.custom = Some(copy_string(&input));
            self.push_log(LogLevel::Success, text2("Custom DNS set to ", input.as_str()));
        } else {
            self.push_log(LogLevel::Warning, text2("Invalid IP address: ", input.as_str()));
        }
        self.dns.input_buffer = String::new();
        self.state = AppState::Menu;
    }

    /// A key while typing a custom DNS server.
    fn handle_dns_custom_input_key(&mut self, key: Key) -> (a: Action)
        ensures
            (final(self).view(), a.view()) == custom_key_spec(old(self).view(), key),
    {
        match key {
            Key::Char(c) => {
                if ('0' <= c && c <= '9') || c == '.' || c == ':' {
                    let mut v = chars_of(self.dns.input_buffer.as_str());
                    v.push(c);
                    self.dns.input_buffer = string_of(v.as_slice());
                }
                Action::Idle
            },
            Key::Backspace => {
                let mut v = chars_of(self.dns.input_buffer.as_str());
                if v.len() > 0 {
                    v.pop();
                    self.dns.input_buffer = string_of(v.as_slice());
                }
                Action::Idle
            },
            Key::Enter => {
                let v = chars_of(self.dns.input_buffer.as_str());
                let t = trim_chars(v.as_slice());
                let input = string_of(t);
                if t.len() == 0 {
                    self.dns.custom = None;
                    self.dns.input_buffer = String::new();
                    self.log_str(LogLevel::Info, "DNS reset to auto-detect");
                    self.state = AppState::Menu;
                    return Action::Idle;
                }
                let colon = chars_of(":");
                if contains_chars(t, colon.as_slice()) {
                    return Action::CheckIpv6 { input };
                }
                let valid = parse_ipv4_chars(t).is_some();
                self.apply_dns_input(input, valid);
                Action::Idle
            },
            Key::Esc => {
                self.dns.edit_mode = DnsEditMode::SelectingPreset;
                Action::Idle
            },
            _ => Action::Idle,
        }
    }

    /// Gives up the operation in flight.
    fn cancel_pending_op(&mut self)
        ensures
            final(self).view() == cancel_spec(old(self).view()),
    {
        match self.pending_op {
            None => {},
            Some(op) => {
                self.push_log(LogLevel::Warning, text2("Cancelled: ", op.display()));
                self.pending_op = None;
                match op {
                    PendingOp::DetectingInterfaces => {
                        self.state = AppState::Menu;
                    },
                    PendingOp::DiscoveringDns => {
                        self.state = AppState::SelectingVpn;
                    },
                    PendingOp::StartingSharing => {
                        self.state = AppState::Menu;
                    },
                    PendingOp::StartingDhcp => {
                        self.state = AppState::Menu;
                    },
                    PendingOp::StartingNatPmp => {
                        self.state = AppState::Menu;
                    },
                    _ => {},
                }
            },
        }
    }

    /// Handles a key press and returns what the caller is to do next.
    pub fn handle_key(&mut self, key: Key) -> (a: Action)
        ensures
            (final(self).view(), a.view()) == key_spec(old(self).view(), key),
    {
        if self.pending_op.is_some() {
            if key == Key::Char('q') {
                self.should_quit = true;
            } else if key == Key::Esc {
                self.cancel_pending_op();
            }
            return Action::Idle;
        }
        match self.state {
            AppState::Menu => self.handle_menu_key(key),
            AppState::SelectingVpn => self.handle_vpn_select_key(key),
            AppState::SelectingLan => self.handle_lan_select_key(key),
            AppState::Active => self.handle_active_key(key),
            AppState::EditingDns => match self.dns.edit_mode {
                DnsEditMode::SelectingPreset => {
                    self.handle_dns_preset_key(key);
                    Action::Idle
                },
                DnsEditMode::CustomInput => self.handle_dns_custom_input_key(key),
            },
        }
    }
}

/// The number of interfaces is the number of their plain values.
pub proof fn lemma_iface_len(v: Seq<InterfaceInfo>)
    ensures
        iface_specs(v).len() == v.len(),
        forall|i: int| 0 <= i < v.len() ==> #[trigger] iface_specs(v)[i] == v[i].spec(),
{
}

/// A highlight moved up.
fn move_up(sel: Option<usize>) -> (r: Option<usize>)
    ensures
        r == moved_up(sel),
{
    match sel {
        Some(i) => if i > 0 {
            Some(i - 1)
        } else {
            sel
        },
        None => None,
    }
}

/// A highlight moved down in a list of `len` entries.
fn move_down(sel: Option<usize>, len: usize) -> (r: Option<usize>)
    ensures
        r == moved_down(sel, len as nat),
{
    match sel {
        Some(i) => if len > 0 && i < len - 1 {
            Some(i + 1)
        } else {
            sel
        },
        None => None,
    }
}

/// The preset row of a custom server.
fn preset_row_of(c: &str) -> (r: usize)
    ensures
        r == preset_row(c@),
{
    let v = chars_of(c);
    let presets = dns_presets();
    let mut i: usize = 0;
    while i < 4
        invariant
            i <= 4,
            v@ == c@,
            presets@.len() == 4,
            forall|j: int| 0 <= j < 4 ==> (#[trigger] presets@[j]).ip@ == preset_ip(j),
            forall|j: int| 0 <= j < i ==> v@ != preset_ip(j),
        decreases 4 - i,
    {
        let p = chars_of(presets[i].ip);
        if p.len() == v.len() && crate::text::starts_with_chars(v.as_slice(), p.as_slice()) {
            assert(v@.subrange(0, p@.len() as int) =~= v@);
            return i + 1;
        }
        proof {
            if v@ == preset_ip(i as int) {
                assert(v@.subrange(0, p@.len() as int) =~= v@);
            }
        }
        i = i + 1;
    }
    5
}

// ---------------------------------------------------------------------
// Operation results
// ---------------------------------------------------------------------

/// A result that still belongs to the operation in flight. Results that
/// hand back the managers are always taken.
pub open spec fn result_matches(r: AsyncOpResult, pending: Option<PendingOp>) -> bool {
    match r {
        AsyncOpResult::SharingStarted { .. } => true,
        AsyncOpResult::SharingStopped { .. } => true,
        AsyncOpResult::InterfacesDetected { .. } => pending == Some(PendingOp::DetectingInterfaces),
        AsyncOpResult::DnsDiscovered { .. } => pending == Some(PendingOp::DiscoveringDns),
        AsyncOpResult::DhcpStarted { .. } => pending == Some(PendingOp::StartingDhcp),
        AsyncOpResult::NatPmpStarted { .. } => pending == Some(PendingOp::StartingNatPmp),
        AsyncOpResult::DebugInfoFetched { .. } => pending == Some(PendingOp::FetchingDebugInfo),
    }
}

/// The interfaces of a detection result.
pub open spec fn ifaces_result(r: Result<Vec<InterfaceInfo>, TunshareError>) -> Result<Seq<IfaceSpec>, TunshareError> {
    match r {
        Ok(v) => Ok(iface_specs(v@)),
        Err(e) => Err(e),
    }
}

/// The servers of a discovery result.
pub open spec fn servers_result(r: Result<Vec<String>, TunshareError>) -> Result<Seq<Seq<char>>, TunshareError> {
    match r {
        Ok(v) => Ok(string_views(v@)),
        Err(e) => Err(e),
    }
}

/// The VPN interfaces found, logged.
pub open spec fn take_vpn_ifaces(v: AppView, r: Result<Seq<IfaceSpec>, TunshareError>) -> AppView {
    match r {
        Ok(l) => {
            let v1 = AppView { vpn_interfaces: l, ..v };
            if l.len() > 0 {
                logged(v1, LogLevel::Success, "Found "@ + dec(l.len()) + " VPN interface(s)"@)
            } else {
                logged(v1, LogLevel::Warning, "No VPN interfaces found. Is your VPN connected?"@)
            }
        },
        Err(e) => AppView {
            vpn_interfaces: Seq::empty(),
            ..logged(v, LogLevel::Error, "Failed to detect VPN interfaces: "@ + error_text(e))
        },
    }
}

/// The LAN interfaces found, logged.
pub open spec fn take_lan_ifaces(v: AppView, r: Result<Seq<IfaceSpec>, TunshareError>) -> AppView {
    match r {
        Ok(l) => {
            let v1 = AppView { lan_interfaces: l, ..v };
            if l.len() > 0 {
                logged(v1, LogLevel::Success, "Found "@ + dec(l.len()) + " LAN interface(s)"@)
            } else {
                logged(v1, LogLevel::Warning, "No LAN interfaces found"@)
            }
        },
        Err(e) => AppView {
            lan_interfaces: Seq::empty(),
            ..logged(v, LogLevel::Error, "Failed to detect LAN interfaces: "@ + error_text(e))
        },
    }
}

/// Interfaces detected: keep them and go on to choosing the VPN
/// interface when there are both kinds.
pub open spec fn interfaces_spec(
    v: AppView,
    vpn: Result<Seq<IfaceSpec>, TunshareError>,
    lan: Result<Seq<IfaceSpec>, TunshareError>,
) -> AppView {
    let v2 = take_lan_ifaces(take_vpn_ifaces(without_pending(v), vpn), lan);
    if v2.vpn_interfaces.len() > 0 && v2.lan_interfaces.len() > 0 {
        logged(
            AppView { state: AppState::SelectingVpn, selected_vpn: Some(0), ..v2 },
            LogLevel::Info,
            "Select VPN interface to share from"@,
        )
    } else if v2.vpn_interfaces.len() == 0 {
        logged(v2, LogLevel::Error, "No VPN interfaces found. Connect to VPN first."@)
    } else {
        logged(v2, LogLevel::Error, "No LAN interfaces found."@)
    }
}

/// DNS servers found: keep them and go on to choosing the LAN
/// interface.
pub open spec fn dns_found_spec(
    v: AppView,
    vpn: Result<Seq<Seq<char>>, TunshareError>,
    system: Result<Seq<Seq<char>>, TunshareError>,
) -> AppView {
    let v0 = without_pending(v);
    let v1 = match vpn {
        Ok(s) => {
            let w = if s.len() == 0 {
                logged(v0, LogLevel::Warning, "No VPN DNS servers found"@)
            } else {
                logged(v0, LogLevel::Success, "VPN DNS: "@ + join_with(s, ", "@))
            };
            with_dns(w, DnsView { vpn_servers: s, ..w.dns })
        },
        Err(e) => {
            let w = logged(v0, LogLevel::Warning, "VPN DNS discovery failed: "@ + error_text(e));
            with_dns(w, DnsView { vpn_servers: Seq::empty(), ..w.dns })
        },
    };
    let v2 = match system {
        Ok(s) => {
            let w = if s.len() > 0 {
                logged(v1, LogLevel::Info, "System DNS: "@ + join_with(s, ", "@))
            } else {
                v1
            };
            with_dns(w, DnsView { system_servers: s, ..w.dns })
        },
        Err(_) => with_dns(v1, DnsView { system_servers: Seq::empty(), ..v1.dns }),
    };
    logged(
        AppView {
            state: AppState::SelectingLan,
            selected_lan: if v2.lan_interfaces.len() == 0 {
                None
            } else {
                Some(0)
            },
            ..v2
        },
        LogLevel::Info,
        "Select LAN interface to share to"@,
    )
}

/// The note on configuring the router by hand, when servers are known.
pub open spec fn manual_dns_note(v: AppView) -> AppView {
    let eff = effective_spec(v.dns);
    if eff.len() > 0 {
        logged(v, LogLevel::Info, "Configure router manually - DNS: "@ + join_with(eff, ", "@))
    } else {
        v
    }
}

/// Start NAT-PMP when wanted, else sharing is up.
pub open spec fn natpmp_or_finish_spec(v: AppView) -> (AppView, ActionView) {
    match v.session {
        Some(s) => if v.natpmp_enabled {
            (
                with_pending(
                    logged(v, LogLevel::Info, "Starting NAT-PMP server..."@),
                    PendingOp::StartingNatPmp,
                ),
                ActionView::StartNatPmp {
                    vpn_name: s.vpn_name,
                    lan_name: s.lan_name,
                    lan_ip: s.lan_ip,
                },
            )
        } else {
            (on_screen(without_pending(v), AppState::Active), ActionView::Idle)
        },
        None => (on_screen(without_pending(v), AppState::Active), ActionView::Idle),
    }
}

/// The session with its managers handed back.
pub open spec fn managers_back(v: AppView, fw: (bool, Seq<char>), fwd: Option<bool>) -> AppView {
    match v.session {
        Some(s) => AppView {
            session: Some(SessionView { firewall: Some(fw), forwarding: Some(fwd), ..s }),
            ..v
        },
        None => v,
    }
}

/// What ending a session cleans up.
pub open spec fn teardown_of(s: Option<SessionView>) -> ActionView {
    match s {
        Some(x) => ActionView::TearDown {
            stop_natpmp: x.natpmp_active,
            stop_dhcp: x.dhcp_active,
            firewall_path: match x.firewall {
                Some(f) => Some(f.1),
                None => None,
            },
            restore_forwarding: match x.forwarding {
                Some(o) => o,
                None => None,
            },
        },
        None => ActionView::Idle,
    }
}

/// Sharing started (or failed to): on success, DHCP next when wanted
/// and possible, else NAT-PMP, else done; on failure back to the menu
/// without a session.
pub open spec fn sharing_started_spec(
    v: AppView,
    result: Result<(), TunshareError>,
    fw: (bool, Seq<char>),
    fwd: Option<bool>,
) -> (AppView, ActionView) {
    let v0 = managers_back(v, fw, fwd);
    if v0.pending_op != Some(PendingOp::StartingSharing) {
        (
            logged(v0, LogLevel::Info, "Sharing result arrived after cancel (resources restored)"@),
            ActionView::Idle,
        )
    } else {
        match result {
            Ok(_) => {
                let gw = match v0.session {
                    Some(s) => ip_text(s.lan_ip),
                    None => "unknown"@,
                };
                let v1 = logged(v0, LogLevel::Success, "VPN sharing active! Gateway: "@ + gw);
                if v1.dhcp_enabled && v1.dnsmasq_installed {
                    match v1.session {
                        Some(s) => (
                            with_pending(
                                logged(v1, LogLevel::Info, "Starting DHCP server..."@),
                                PendingOp::StartingDhcp,
                            ),
                            ActionView::StartDhcp {
                                lan_name: s.lan_name,
                                lan_ip: s.lan_ip,
                                dns_servers: effective_spec(v1.dns),
                            },
                        ),
                        None => natpmp_or_finish_spec(v1),
                    }
                } else if !v1.dhcp_enabled {
                    natpmp_or_finish_spec(
                        manual_dns_note(logged(v1, LogLevel::Info, "DHCP disabled by user preference"@)),
                    )
                } else {
                    natpmp_or_finish_spec(
                        manual_dns_note(
                            logged(v1, LogLevel::Info, "DHCP disabled (dnsmasq not installed)"@),
                        ),
                    )
                }
            },
            Err(e) => (
                AppView {
                    session: None,
                    state: AppState::Menu,
                    ..without_pending(
                        logged(v0, LogLevel::Error, "Failed to start sharing: "@ + error_text(e)),
                    )
                },
                teardown_of(v0.session),
            ),
        }
    }
}

/// The DHCP server started (or failed to); NAT-PMP next.
pub open spec fn dhcp_started_spec(v: AppView, result: Result<(), TunshareError>) -> (AppView, ActionView) {
    let v1 = match result {
        Ok(_) => {
            let msg = match v.session {
                Some(s) => match s.dhcp_range {
                    Some((a, b)) => "DHCP server active ("@ + a + "-"@ + b + ")"@,
                    None => "DHCP server active"@,
                },
                None => "DHCP server active"@,
            };
            let w = match v.session {
                Some(s) => AppView { session: Some(SessionView { dhcp_active: true, ..s }), ..v },
                None => v,
            };
            logged(
                logged(w, LogLevel::Success, msg),
                LogLevel::Info,
                "Router can now use DHCP on WAN interface"@,
            )
        },
        Err(e) => manual_dns_note(
            logged(
                logged(v, LogLevel::Warning, "DHCP server failed: "@ + error_text(e)),
                LogLevel::Info,
                "Router needs manual IP configuration"@,
            ),
        ),
    };
    natpmp_or_finish_spec(v1)
}

/// The NAT-PMP service started (or failed to); sharing is up.
pub open spec fn natpmp_started_spec(
    v: AppView,
    result: Result<(), TunshareError>,
    server: Option<(Seq<char>, Seq<char>)>,
) -> AppView {
    let v1 = match result {
        Ok(_) => logged(
            match v.session {
                Some(s) => AppView {
                    session: Some(SessionView { natpmp_active: true, natpmp_server: server, ..s }),
                    ..v
                },
                None => v,
            },
            LogLevel::Success,
            "NAT-PMP server active"@,
        ),
        Err(e) => logged(v, LogLevel::Warning, "NAT-PMP server failed: "@ + error_text(e)),
    };
    on_screen(without_pending(v1), AppState::Active)
}

/// Sharing stopped: the session ends and the menu shows again.
pub open spec fn sharing_stopped_spec(
    v: AppView,
    result: Result<(), TunshareError>,
    fw: (bool, Seq<char>),
    fwd: Option<bool>,
) -> (AppView, ActionView) {
    let v0 = without_pending(managers_back(v, fw, fwd));
    let v1 = match result {
        Ok(_) => logged(v0, LogLevel::Success, "VPN sharing stopped"@),
        Err(e) => logged(v0, LogLevel::Error, "Cleanup warning: "@ + error_text(e)),
    };
    (
        AppView {
            session: None,
            state: AppState::Menu,
            selected_menu_item: 0,
            show_debug: false,
            debug_info: None,
            ..v1
        },
        ActionView::Idle,
    )
}

/// Debug information arrived (or failed to).
pub open spec fn debug_fetched_spec(v: AppView, info: Result<DebugInfo, TunshareError>) -> AppView {
    let v0 = without_pending(v);
    match info {
        Ok(d) => AppView { debug_info: Some(d.view()), ..v0 },
        Err(e) => AppView {
            debug_info: None,
            ..logged(v0, LogLevel::Warning, "Failed to fetch debug info: "@ + error_text(e))
        },
    }
}

/// The result of an operation: stale ones are logged and dropped.
pub open spec fn result_spec(v: AppView, r: AsyncOpResult) -> (AppView, ActionView) {
    if !result_matches(r, v.pending_op) {
        (logged(v, LogLevel::Info, "Discarded stale async result"@), ActionView::Idle)
    } else {
        match r {
            AsyncOpResult::InterfacesDetected { vpn, lan } => (
                interfaces_spec(v, ifaces_result(vpn), ifaces_result(lan)),
                ActionView::Idle,
            ),
            AsyncOpResult::DnsDiscovered { vpn_servers, system_servers } => (
                dns_found_spec(v, servers_result(vpn_servers), servers_result(system_servers)),
                ActionView::Idle,
            ),
            AsyncOpResult::SharingStarted { result, firewall, ip_forwarding } => sharing_started_spec(
                v,
                result,
                firewall_view(firewall),
                ip_forwarding.original(),
            ),
            AsyncOpResult::DhcpStarted { result } => dhcp_started_spec(v, result),
            AsyncOpResult::NatPmpStarted { result, server } => (
                natpmp_started_spec(
                    v,
                    result,
                    match server {
                        Some(x) => Some(natpmp_view(x)),
                        None => None,
                    },
                ),
                ActionView::Idle,
            ),
            AsyncOpResult::SharingStopped { result, firewall, ip_forwarding } => sharing_stopped_spec(
                v,
                result,
                firewall_view(firewall),
                ip_forwarding.original(),
            ),
            AsyncOpResult::DebugInfoFetched { info } => (debug_fetched_spec(v, info), ActionView::Idle),
        }
    }
}

impl App {
    /// Hands the managers back to the session, if there is one.
    fn managers_back(&mut self, firewall: Firewall, ip_forwarding: IpForwarding)
        ensures
            final(self).view() == managers_back(old(self).view(), firewall_view(firewall), ip_forwarding.original()),
    {
        match self.session.take() {
            Some(mut s) => {
                s.restore_managers(firewall, ip_forwarding);
                self.session = Some(s);
            },
            None => {},
        }
    }

    /// Ends the session and asks for what it still owns to be cleaned
    /// up.
    fn end_session(&mut self) -> (a: Action)
        ensures
            final(self).view() == (AppView { session: None, ..old(self).view() }),
            a.view() == teardown_of(old(self).view().session),
    {
        match self.session.take() {
            Some(mut s) => {
                let t = s.teardown();
                Action::TearDown { teardown: t }
            },
            None => Action::Idle,
        }
    }

    /// Logs the DNS servers to set on the router by hand, when known.
    fn manual_dns_note(&mut self)
        ensures
            final(self).view() == manual_dns_note(old(self).view()),
    {
        let eff = self.dns.effective();
        if eff.len() > 0 {
            let j = join_strings(eff.as_slice(), ", ");
            self.push_log(LogLevel::Info, text2("Configure router manually - DNS: ", j.as_str()));
        }
    }

    /// Starts NAT-PMP when wanted, else finishes starting up.
    fn natpmp_or_finish(&mut self) -> (a: Action)
        ensures
            (final(self).view(), a.view()) == natpmp_or_finish_spec(old(self).view()),
    {
        if self.natpmp_enabled {
            match &self.session {
                Some(s) => {
                    let vpn_name = copy_string(&s.vpn_name);
                    let lan_name = copy_string(&s.lan_name);
                    let lan_ip = s.lan_ip;
                    self.log_str(LogLevel::Info, "Starting NAT-PMP server...");
                    self.pending_op = Some(PendingOp::StartingNatPmp);
                    return Action::StartNatPmp { vpn_name, lan_name, lan_ip };
                },
                None => {},
            }
        }
        self.pending_op = None;
        self.state = AppState::Active;
        Action::Idle
    }

    /// Keeps the VPN interfaces found and logs them.
    fn take_vpn_ifaces(&mut self, r: Result<Vec<InterfaceInfo>, TunshareError>)
        ensures
            final(self).view() == take_vpn_ifaces(old(self).view(), ifaces_result(r)),
    {
        match r {
            Ok(list) => {
                let n = list.len();
                proof {
                    lemma_iface_len(list@);
                }
                self.vpn_interfaces = list;
                if n > 0 {
                    let c = count_text(n);
                    self.push_log(LogLevel::Success, text3("Found ", c.as_str(), " VPN interface(s)"));
                } else {
                    self.log_str(LogLevel::Warning, "No VPN interfaces found. Is your VPN connected?");
                }
            },
            Err(e) => {
                let m = e.message();
                self.push_log(LogLevel::Error, text2("Failed to detect VPN interfaces: ", m.as_str()));
                self.vpn_interfaces = Vec::new();
                assert(iface_specs(self.vpn_interfaces@) =~= Seq::<IfaceSpec>::empty());
            },
        }
    }

    /// Keeps the LAN interfaces found and logs them.
    fn take_lan_ifaces(&mut self, r: Result<Vec<InterfaceInfo>, TunshareError>)
        ensures
            final(self).view() == take_lan_ifaces(old(self).view(), ifaces_result(r)),
    {
        match r {
            Ok(list) => {
                let n = list.len();
                proof {
                    lemma_iface_len(list@);
                }
                self.lan_interfaces = list;
                if n > 0 {
                    let c = count_text(n);
                    self.push_log(LogLevel::Success, text3("Found ", c.as_str(), " LAN interface(s)"));
                } else {
                    self.log_str(LogLevel::Warning, "No LAN interfaces found");
                }
            },
            Err(e) => {
                let m = e.message();
                self.push_log(LogLevel::Error, text2("Failed to detect LAN interfaces: ", m.as_str()));
                self.lan_interfaces = Vec::new();
                assert(iface_specs(self.lan_interfaces@) =~= Seq::<IfaceSpec>::empty());
            },
        }
    }

    /// Interfaces detected.
    fn on_interfaces(
        &mut self,
        vpn: Result<Vec<InterfaceInfo>, TunshareError>,
        lan: Result<Vec<InterfaceInfo>, TunshareError>,
    )
        ensures
            final(self).view() == interfaces_spec(old(self).view(), ifaces_result(vpn), ifaces_result(lan)),
    {
        self.pending_op = None;
        self.take_vpn_ifaces(vpn);
        self.take_lan_ifaces(lan);
        proof {
            lemma_iface_len(self.vpn_interfaces@);
            lemma_iface_len(self.lan_interfaces@);
        }
        if self.vpn_interfaces.len() > 0 && self.lan_interfaces.len() > 0 {
            self.state = AppState::SelectingVpn;
            self.selected_vpn = Some(0);
            self.log_str(LogLevel::Info, "Select VPN interface to share from");
        } else if self.vpn_interfaces.len() == 0 {
            self.log_str(LogLevel::Error, "No VPN interfaces found. Connect to VPN first.");
        } else {
            self.log_str(LogLevel::Error, "No LAN interfaces found.");
        }
    }

    /// DNS servers found.
    fn on_dns(
        &mut self,
        vpn_servers: Result<Vec<String>, TunshareError>,
        system_servers: Result<Vec<String>, TunshareError>,
    )
        ensures
            final(self).view() == dns_found_spec(
                old(self).view(),
                servers_result(vpn_servers),
                servers_result(system_servers),
            ),
    {
        self.pending_op = None;
        match vpn_servers {
            Ok(servers) => {
                if servers.len() == 0 {
                    self.log_str(LogLevel::Warning, "No VPN DNS servers found");
                } else {
                    let j = join_strings(servers.as_slice(), ", ");
                    self.push_log(LogLevel::Success, text2("VPN DNS: ", j.as_str()));
                }
                self.dns.vpn_servers = servers;
            },
            Err(e) => {
                let m = e.message();
                self.push_log(LogLevel::Warning, text2("VPN DNS discovery failed: ", m.as_str()));
                self.dns.vpn_servers = Vec::new();
                assert(string_views(self.dns.vpn_servers@) =~= Seq::<Seq<char>>::empty());
            },
        }
        match system_servers {
            Ok(servers) => {
                if servers.len() > 0 {
                    let j = join_strings(servers.as_slice(), ", ");
                    self.push_log(LogLevel::Info, text2("System DNS: ", j.as_str()));
                }
                self.dns.system_servers = servers;
            },
            Err(_) => {
                self.dns.system_servers = Vec::new();
                assert(string_views(self.dns.system_servers@) =~= Seq::<Seq<char>>::empty());
            },
        }
        self.state = AppState::SelectingLan;
        proof {
            lemma_iface_len(self.lan_interfaces@);
        }
        self.selected_lan = if self.lan_interfaces.len() == 0 {
            None
        } else {
            Some(0)
        };
        self.log_str(LogLevel::Info, "Select LAN interface to share to");
    }

    /// Sharing started, or failed to.
    fn on_sharing_started(
        &mut self,
        result: Result<(), TunshareError>,
        firewall: Firewall,
        ip_forwarding: IpForwarding,
    ) -> (a: Action)
        ensures
            (final(self).view(), a.view()) == sharing_started_spec(
                old(self).view(),
                result,
                firewall_view(firewall),
                ip_forwarding.original(),
            ),
    {
        self.managers_back(firewall, ip_forwarding);
        if self.pending_op != Some(PendingOp::StartingSharing) {
            self.log_str(LogLevel::Info, "Sharing result arrived after cancel (resources restored)");
            return Action::Idle;
        }
        match result {
            Ok(()) => {
                let gw = match &self.session {
                    Some(s) => ip_string(s.lan_ip),
                    None => String::from_str("unknown"),
                };
                self.push_log(LogLevel::Success, text2("VPN sharing active! Gateway: ", gw.as_str()));
                if self.dhcp_enabled && self.dnsmasq_installed {
                    match &self.session {
                        Some(s) => {
                            let lan_name = copy_string(&s.lan_name);
                            let lan_ip = s.lan_ip;
                            let dns_servers = self.dns.effective();
                            self.log_str(LogLevel::Info, "Starting DHCP server...");
                            self.pending_op = Some(PendingOp::StartingDhcp);
                            return Action::StartDhcp { lan_name, lan_ip, dns_servers };
                        },
                        None => {
                            return self.natpmp_or_finish();
                        },
                    }
                } else if !self.dhcp_enabled {
                    self.log_str(LogLevel::Info, "DHCP disabled by user preference");
                    self.manual_dns_note();
                } else {
                    self.log_str(LogLevel::Info, "DHCP disabled (dnsmasq not installed)");
                    self.manual_dns_note();
                }
                self.natpmp_or_finish()
            },
            Err(e) => {
                let m = e.message();
                self.push_log(LogLevel::Error, text2("Failed to start sharing: ", m.as_str()));
                self.pending_op = None;
                self.state = AppState::Menu;
                self.end_session()
            },
        }
    }

    /// The DHCP server started, or failed to.
    fn on_dhcp_started(&mut self, result: Result<(), TunshareError>) -> (a: Action)
        ensures
            (final(self).view(), a.view()) == dhcp_started_spec(old(self).view(), result),
    {
        match result {
            Ok(()) => {
                let msg = match &self.session {
                    Some(s) => match &s.dhcp_range {
                        Some((a, b)) => text5("DHCP server active (", a.as_str(), "-", b.as_str(), ")"),
                        None => String::from_str("DHCP server active"),
                    },
                    None => String::from_str("DHCP server active"),
                };
                match self.session.take() {
                    Some(mut s) => {
                        s.dhcp_active = true;
                        self.session = Some(s);
                    },
                    None => {},
                }
                self.push_log(LogLevel::Success, msg);
                self.log_str(LogLevel::Info, "Router can now use DHCP on WAN interface");
            },
            Err(e) => {
                let m = e.message();
                self.push_log(LogLevel::Warning, text2("DHCP server failed: ", m.as_str()));
                self.log_str(LogLevel::Info, "Router needs manual IP configuration");
                self.manual_dns_note();
            },
        }
        self.natpmp_or_finish()
    }

    /// The NAT-PMP service started, or failed to.
    fn on_natpmp_started(&mut self, result: Result<(), TunshareError>, server: Option<NatPmpServer>)
        ensures
            final(self).view() == natpmp_started_spec(
                old(self).view(),
                result,
                match server {
                    Some(x) => Some(natpmp_view(x)),
                    None => None,
                },
            ),
    {
        match result {
            Ok(()) => {
                match self.session.take() {
                    Some(mut s) => {
                        s.natpmp_active = true;
                        s.set_natpmp_server(server);
                        self.session = Some(s);
                    },
                    None => {},
                }
                self.log_str(LogLevel::Success, "NAT-PMP server active");
            },
            Err(e) => {
                let m = e.message();
                self.push_log(LogLevel::Warning, text2("NAT-PMP server failed: ", m.as_str()));
            },
        }
        self.pending_op = None;
        self.state = AppState::Active;
    }

    /// Sharing stopped.
    fn on_sharing_stopped(
        &mut self,
        result: Result<(), TunshareError>,
        firewall: Firewall,
        ip_forwarding: IpForwarding,
    ) -> (a: Action)
        ensures
            (final(self).view(), a.view()) == sharing_stopped_spec(
                old(self).view(),
                result,
                firewall_view(firewall),
                ip_forwarding.original(),
            ),
    {
        self.managers_back(firewall, ip_forwarding);
        self.pending_op = None;
        match result {
            Ok(()) => self.log_str(LogLevel::Success, "VPN sharing stopped"),
            Err(e) => {
                let m = e.message();
                self.push_log(LogLevel::Error, text2("Cleanup warning: ", m.as_str()));
            },
        }
        self.session = None;
        self.state = AppState::Menu;
        self.selected_menu_item = 0;
        self.show_debug = false;
        self.debug_info = None;
        Action::Idle
    }

    /// Debug information arrived, or failed to.
    fn on_debug_info(&mut self, info: Result<DebugInfo, TunshareError>)
        ensures
            final(self).view() == debug_fetched_spec(old(self).view(), info),
    {
        self.pending_op = None;
        match info {
            Ok(d) => {
                self.debug_info = Some(d);
            },
            Err(e) => {
                let m = e.message();
                self.push_log(LogLevel::Warning, text2("Failed to fetch debug info: ", m.as_str()));
                self.debug_info = None;
            },
        }
    }

    /// Whether a result belongs to the operation in flight.
    fn result_matches_pending(&self, r: &AsyncOpResult) -> (b: bool)
        ensures
            b == result_matches(*r, self.pending_op),
    {
        match r {
            AsyncOpResult::SharingStarted { .. } => true,
            AsyncOpResult::SharingStopped { .. } => true,
            AsyncOpResult::InterfacesDetected { .. } => self.pending_op == Some(PendingOp::DetectingInterfaces),
            AsyncOpResult::DnsDiscovered { .. } => self.pending_op == Some(PendingOp::DiscoveringDns),
            AsyncOpResult::DhcpStarted { .. } => self.pending_op == Some(PendingOp::StartingDhcp),
            AsyncOpResult::NatPmpStarted { .. } => self.pending_op == Some(PendingOp::StartingNatPmp),
            AsyncOpResult::DebugInfoFetched { .. } => self.pending_op == Some(PendingOp::FetchingDebugInfo),
        }
    }

    /// Handles the result of an operation and returns what the caller is
    /// to do next. A result that no longer belongs to the operation in
    /// flight is logged and dropped; those handing back the managers are
    /// always taken.
    pub fn handle_async_result(&mut self, r: AsyncOpResult) -> (a: Action)
        ensures
            (final(self).view(), a.view()) == result_spec(old(self).view(), r),
    {
        if !self.result_matches_pending(&r) {
            self.log_str(LogLevel::Info, "Discarded stale async result");
            return Action::Idle;
        }
        match r {
            AsyncOpResult::InterfacesDetected { vpn, lan } => {
                self.on_interfaces(vpn, lan);
                Action::Idle
            },
            AsyncOpResult::DnsDiscovered { vpn_servers, system_servers } => {
                self.on_dns(vpn_servers, system_servers);
                Action::Idle
            },
            AsyncOpResult::SharingStarted { result, firewall, ip_forwarding } => self.on_sharing_started(
                result,
                firewall,
                ip_forwarding,
            ),
            AsyncOpResult::DhcpStarted { result } => self.on_dhcp_started(result),
            AsyncOpResult::NatPmpStarted { result, server } => {
                self.on_natpmp_started(result, server);
                Action::Idle
            },
            AsyncOpResult::SharingStopped { result, firewall, ip_forwarding } => self.on_sharing_stopped(
                result,
                firewall,
                ip_forwarding,
            ),
            AsyncOpResult::DebugInfoFetched { info } => {
                self.on_debug_info(info);
                Action::Idle
            },
        }
    }
}

// ---------------------------------------------------------------------
// Start, help, menu labels
// ---------------------------------------------------------------------

/// The state of a freshly started app, told whether dnsmasq is
/// installed.
pub open spec fn initial_spec(dnsmasq: bool) -> AppView {
    let v = AppView {
        vpn_interfaces: Seq::empty(),
        lan_interfaces: Seq::empty(),
        dns: DnsView {
            vpn_servers: Seq::empty(),
            system_servers: Seq::empty(),
            custom: None,
            input_buffer: Seq::empty(),
            edit_mode: DnsEditMode::SelectingPreset,
            preset_selected: 0,
        },
        selected_vpn: None,
        selected_lan: None,
        session: None,
        logs: Seq::empty(),
        state: AppState::Menu,
        selected_menu_item: 0,
        should_quit: false,
        pending_op: None,
        show_debug: false,
        debug_info: None,
        logs_expanded: false,
        dhcp_enabled: dnsmasq,
        natpmp_enabled: true,
        dnsmasq_installed: dnsmasq,
    };
    let v1 = logged(v, LogLevel::Info, "Ready. Press Enter to start VPN sharing."@);
    if dnsmasq {
        v1
    } else {
        logged(
            logged(v1, LogLevel::Warning, "dnsmasq not found. Install with: brew install dnsmasq"@),
            LogLevel::Info,
            "DHCP will be disabled; router needs manual IP config."@,
        )
    }
}

/// The help line for the current state.
pub open spec fn help_spec(v: AppView) -> Seq<char> {
    if v.pending_op is Some {
        "Esc: Cancel  q: Force quit"@
    } else {
        match v.state {
            AppState::Menu => if v.session is Some {
                "\u{2191}/\u{2193}: Navigate  Enter: Select  d: Debug  l: Logs  q: Quit"@
            } else {
                "\u{2191}/\u{2193}: Navigate  Enter: Select  l: Logs  q: Quit"@
            },
            AppState::SelectingVpn => "\u{2191}/\u{2193}: Navigate  Enter: Select  Esc: Cancel"@,
            AppState::SelectingLan => "\u{2191}/\u{2193}: Navigate  Enter: Select  \u{2190}: Back  Esc: Cancel"@,
            AppState::Active => if v.show_debug {
                "d: Hide debug  s: Stop  l: Logs  q: Quit"@
            } else {
                "s: Stop  d: Debug  l: Logs  q: Quit"@
            },
            AppState::EditingDns => match v.dns.edit_mode {
                DnsEditMode::SelectingPreset => "\u{2191}/\u{2193}: Navigate  Enter: Select  Esc: Cancel"@,
                DnsEditMode::CustomInput => "Enter: Save  Esc: Back  (empty = auto-detect)"@,
            },
        }
    }
}

/// The label of a menu entry.
pub open spec fn menu_label_spec(item: MenuItem) -> Seq<char> {
    match item {
        MenuItem::StartSharing => "Start VPN Sharing"@,
        MenuItem::StopSharing => "Stop VPN Sharing"@,
        MenuItem::ToggleDhcp => "DHCP Server"@,
        MenuItem::ToggleNatPmp => "NAT-PMP Server"@,
        MenuItem::SetDns => "DNS Server"@,
        MenuItem::Quit => "Quit"@,
    }
}

/// The label of a menu entry.
pub fn menu_item_label_str(item: &MenuItem) -> (s: &'static str)
    ensures
        s@ == menu_label_spec(*item),
{
    match item {
        MenuItem::StartSharing => "Start VPN Sharing",
        MenuItem::StopSharing => "Stop VPN Sharing",
        MenuItem::ToggleDhcp => "DHCP Server",
        MenuItem::ToggleNatPmp => "NAT-PMP Server",
        MenuItem::SetDns => "DNS Server",
        MenuItem::Quit => "Quit",
    }
}

/// The badge beside a menu entry.
pub enum StatusBadge {
    On,
    Off,
    Value(String),
    Disabled(String),
}

/// A badge as plain values: 0 on, 1 off, 2 a value, 3 disabled, with
/// its text.
pub open spec fn badge_view(b: Option<StatusBadge>) -> Option<(int, Seq<char>)> {
    match b {
        Some(StatusBadge::On) => Some((0, Seq::empty())),
        Some(StatusBadge::Off) => Some((1, Seq::empty())),
        Some(StatusBadge::Value(s)) => Some((2, s@)),
        Some(StatusBadge::Disabled(s)) => Some((3, s@)),
        None => None,
    }
}

/// The badge of a menu entry: service switches show on or off (DHCP
/// disabled without dnsmasq), DNS shows the server in use.
pub open spec fn menu_badge_spec(item: MenuItem, v: AppView) -> Option<(int, Seq<char>)> {
    match item {
        MenuItem::ToggleDhcp => if !v.dnsmasq_installed {
            Some((3, "not installed"@))
        } else if v.dhcp_enabled {
            Some((0, Seq::empty()))
        } else {
            Some((1, Seq::empty()))
        },
        MenuItem::ToggleNatPmp => if v.natpmp_enabled {
            Some((0, Seq::empty()))
        } else {
            Some((1, Seq::empty()))
        },
        MenuItem::SetDns => Some(
            (
                2,
                match v.dns.custom {
                    Some(c) => c,
                    None => if effective_spec(v.dns).len() == 0 {
                        "auto"@
                    } else {
                        effective_spec(v.dns)[0]
                    },
                },
            ),
        ),
        _ => None,
    }
}

impl App {
    /// A fresh app in the menu, told whether dnsmasq is installed (DHCP
    /// is wanted exactly when it is).
    pub fn new(dnsmasq_available: bool) -> (app: App)
        ensures
            app.view() == initial_spec(dnsmasq_available),
    {
        let mut app = App {
            vpn_interfaces: Vec::new(),
            lan_interfaces: Vec::new(),
            dns: DnsConfig::new(),
            selected_vpn: None,
            selected_lan: None,
            session: None,
            logs: Vec::new(),
            state: AppState::Menu,
            selected_menu_item: 0,
            should_quit: false,
            pending_op: None,
            show_debug: false,
            debug_info: None,
            logs_expanded: false,
            dhcp_enabled: dnsmasq_available,
            natpmp_enabled: true,
            dnsmasq_installed: dnsmasq_available,
        };
        assert(iface_specs(app.vpn_interfaces@) =~= Seq::<IfaceSpec>::empty());
        assert(iface_specs(app.lan_interfaces@) =~= Seq::<IfaceSpec>::empty());
        assert(log_views(app.logs@) =~= Seq::<(LogLevel, Seq<char>)>::empty());
        app.log_str(LogLevel::Info, "Ready. Press Enter to start VPN sharing.");
        if !dnsmasq_available {
            app.log_str(LogLevel::Warning, "dnsmasq not found. Install with: brew install dnsmasq");
            app.log_str(LogLevel::Info, "DHCP will be disabled; router needs manual IP config.");
        }
        app
    }

    /// The help line for the current state.
    pub fn help_text(&self) -> (s: &'static str)
        ensures
            s@ == help_spec(self.view()),
    {
        if self.pending_op.is_some() {
            return "Esc: Cancel  q: Force quit";
        }
        match self.state {
            AppState::Menu => if self.session.is_some() {
                "\u{2191}/\u{2193}: Navigate  Enter: Select  d: Debug  l: Logs  q: Quit"
            } else {
                "\u{2191}/\u{2193}: Navigate  Enter: Select  l: Logs  q: Quit"
            },
            AppState::SelectingVpn => "\u{2191}/\u{2193}: Navigate  Enter: Select  Esc: Cancel",
            AppState::SelectingLan => "\u{2191}/\u{2193}: Navigate  Enter: Select  \u{2190}: Back  Esc: Cancel",
            AppState::Active => if self.show_debug {
                "d: Hide debug  s: Stop  l: Logs  q: Quit"
            } else {
                "s: Stop  d: Debug  l: Logs  q: Quit"
            },
            AppState::EditingDns => match self.dns.edit_mode {
                DnsEditMode::SelectingPreset => "\u{2191}/\u{2193}: Navigate  Enter: Select  Esc: Cancel",
                DnsEditMode::CustomInput => "Enter: Save  Esc: Back  (empty = auto-detect)",
            },
        }
    }

    /// Records the DHCP range chosen for the session's server.
    pub fn set_dhcp_range(&mut self, range: (String, String))
        ensures
            final(self).view() == (AppView {
                session: match old(self).view().session {
                    Some(s) => Some(SessionView { dhcp_range: Some((range.0@, range.1@)), ..s }),
                    None => None,
                },
                ..old(self).view()
            }),
    {
        match self.session.take() {
            Some(mut s) => {
                s.dhcp_range = Some(range);
                self.session = Some(s);
            },
            None => {},
        }
    }

    /// Ends the app: what the session still owns is to be cleaned up.
    pub fn shutdown(&mut self) -> (a: Action)
        ensures
            final(self).view() == (AppView { session: None, ..old(self).view() }),
            a.view() == teardown_of(old(self).view().session),
    {
        self.end_session()
    }

    /// Whether a menu entry is greyed out: DHCP without dnsmasq.
    pub fn is_menu_item_disabled(&self, item: &MenuItem) -> (b: bool)
        ensures
            b == (*item == MenuItem::ToggleDhcp && !self.dnsmasq_installed),
    {
        *item == MenuItem::ToggleDhcp && !self.dnsmasq_installed
    }

    /// The label and badge of a menu entry.
    pub fn menu_item_label_status(&self, item: &MenuItem) -> (r: (String, Option<StatusBadge>))
        ensures
            r.0@ == menu_label_spec(*item),
            badge_view(r.1) == menu_badge_spec(*item, self.view()),
    {
        let label = String::from_str(menu_item_label_str(item));
        let badge = match item {
            MenuItem::ToggleDhcp => if !self.dnsmasq_installed {
                Some(StatusBadge::Disabled(String::from_str("not installed")))
            } else if self.dhcp_enabled {
                Some(StatusBadge::On)
            } else {
                Some(StatusBadge::Off)
            },
            MenuItem::ToggleNatPmp => if self.natpmp_enabled {
                Some(StatusBadge::On)
            } else {
                Some(StatusBadge::Off)
            },
            MenuItem::SetDns => {
                let value = match &self.dns.custom {
                    Some(c) => copy_string(c),
                    None => {
                        let eff = self.dns.effective();
                        if eff.len() == 0 {
                            String::from_str("auto")
                        } else {
                            assert(string_views(eff@)[0] == eff@[0]@);
                            copy_string(&eff[0])
                        }
                    },
                };
                Some(StatusBadge::Value(value))
            },
            _ => None,
        };
        (label, badge)
    }
}

} // verus!
