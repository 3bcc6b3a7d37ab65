//! What the screens show: the header badge, the menu's rows, the
//! connection card's rows, the DNS picker's lines, the log window, the
//! debug panel's lines and the doctor's icons. Drawing them is left to
//! the terminal front end; every text and choice it draws comes from
//! here.

use vstd::prelude::*;
use crate::app::{
    copy_string, effective_spec, preset_ip, preset_name, source_spec, AppState, AppView, DnsConfig,
    DnsView, App, MenuItem, PRESET_COUNT,
};
use crate::network::{opt_text, InterfaceInfo};
use crate::doctor::{CheckResult, CheckStatus, CheckSummary, Verdict};
use crate::net::{dec, pieces, pieces_of, push_dec};
use crate::text::{
    chars_of, extend_chars, extend_str, lines, split_lines, starts_with, starts_with_chars,
    string_of, views,
};

verus! {

// ---------------------------------------------------------------------
// Header
// ---------------------------------------------------------------------

/// The status at the right of the header.
#[derive(Clone, Copy, Debug, PartialEq, Eq, Structural)]
pub enum HeaderBadge {
    /// Sharing, healthy.
    Active,
    /// Sharing, degraded.
    Degraded,
    /// Sharing, but the VPN interface is down.
    VpnDown,
    /// Not sharing, on a setup screen.
    Configuring,
    /// Not sharing.
    Inactive,
}

/// The header's status for an application state: the session's health
/// while sharing, else whether a setup screen is open.
pub open spec fn header_badge_spec(v: AppView) -> HeaderBadge {
    match v.session {
        Some(s) => if s.health.0 == 0 {
            HeaderBadge::Active
        } else if s.health.0 == 1 {
            HeaderBadge::Degraded
        } else {
            HeaderBadge::VpnDown
        },
        None => if v.state == AppState::SelectingVpn || v.state == AppState::SelectingLan
            || v.state == AppState::EditingDns {
            HeaderBadge::Configuring
        } else {
            HeaderBadge::Inactive
        },
    }
}

/// The text of a header status.
pub open spec fn header_badge_text(b: HeaderBadge) -> Seq<char> {
    match b {
        HeaderBadge::Active => "Active"@,
        HeaderBadge::Degraded => "Degraded"@,
        HeaderBadge::VpnDown => "VPN Down"@,
        HeaderBadge::Configuring => "Configuring"@,
        HeaderBadge::Inactive => "Inactive"@,
    }
}

impl HeaderBadge {
    /// The text of the status.
    pub fn text(&self) -> (s: &'static str)
        ensures
            s@ == header_badge_text(*self),
    {
        match self {
            HeaderBadge::Active => "Active",
            HeaderBadge::Degraded => "Degraded",
            HeaderBadge::VpnDown => "VPN Down",
            HeaderBadge::Configuring => "Configuring",
            HeaderBadge::Inactive => "Inactive",
        }
    }
}

/// The header's status for the application.
pub fn header_badge(app: &App) -> (b: HeaderBadge)
    ensures
        b == header_badge_spec(app.view()),
{
    match &app.session {
        Some(s) => match &s.health_status {
            crate::health::HealthStatus::Healthy => HeaderBadge::Active,
            crate::health::HealthStatus::Degraded(_) => HeaderBadge::Degraded,
            crate::health::HealthStatus::Down(_) => HeaderBadge::VpnDown,
        },
        None => if app.state == AppState::SelectingVpn || app.state == AppState::SelectingLan
            || app.state == AppState::EditingDns {
            HeaderBadge::Configuring
        } else {
            HeaderBadge::Inactive
        },
    }
}

// ---------------------------------------------------------------------
// DNS lines
// ---------------------------------------------------------------------

/// The DNS in use as shown beside an interface: the first server and
/// where it comes from, or `none`.
pub open spec fn dns_display_spec(d: DnsView) -> Seq<char> {
    let e = effective_spec(d);
    if e.len() == 0 {
        "none"@
    } else {
        e[0] + " ("@ + source_spec(d) + ")"@
    }
}

/// The DNS in use as shown beside an interface.
pub fn dns_display(d: &DnsConfig) -> (s: String)
    ensures
        s@ == dns_display_spec(d.view()),
{
    let e = d.effective();
    if e.len() == 0 {
        return String::from_str("none");
    }
    let mut v: Vec<char> = Vec::new();
    let first = chars_of(e[0].as_str());
    assert(first@ == effective_spec(d.view())[0]);
    extend_chars(&mut v, first.as_slice());
    extend_str(&mut v, " (");
    extend_str(&mut v, d.source());
    extend_str(&mut v, ")");
    assert(v@ =~= dns_display_spec(d.view()));
    string_of(v.as_slice())
}

/// The "current" line of the DNS picker: the custom server, else the
/// first server in use and its source, else `none`.
pub open spec fn dns_current_spec(d: DnsView) -> Seq<char> {
    match d.custom {
        Some(c) => "Current: "@ + c + " (custom)"@,
        None => if effective_spec(d).len() == 0 {
            "Current: none"@
        } else {
            "Current: "@ + effective_spec(d)[0] + " ("@ + source_spec(d) + ")"@
        },
    }
}

/// The "current" line of the DNS picker.
pub fn dns_current_text(d: &DnsConfig) -> (s: String)
    ensures
        s@ == dns_current_spec(d.view()),
{
    let mut v: Vec<char> = Vec::new();
    match &d.custom {
        Some(c) => {
            extend_str(&mut v, "Current: ");
            extend_str(&mut v, c.as_str());
            extend_str(&mut v, " (custom)");
            assert(v@ =~= dns_current_spec(d.view()));
        },
        None => {
            let e = d.effective();
            if e.len() == 0 {
                extend_str(&mut v, "Current: none");
            } else {
                extend_str(&mut v, "Current: ");
                let first = chars_of(e[0].as_str());
                assert(first@ == effective_spec(d.view())[0]);
                extend_chars(&mut v, first.as_slice());
                extend_str(&mut v, " (");
                extend_str(&mut v, d.source());
                extend_str(&mut v, ")");
                assert(v@ =~= dns_current_spec(d.view()));
            }
        },
    }
    string_of(v.as_slice())
}

/// Width of the name column in the DNS picker.
pub const DNS_NAME_WIDTH: usize = 18;

/// `s` padded with spaces on the right to `w` characters.
pub open spec fn pad_right(s: Seq<char>, w: nat) -> Seq<char> {
    if s.len() >= w {
        s
    } else {
        s + Seq::new((w - s.len()) as nat, |i: int| ' ')
    }
}

/// The rows of the DNS picker: auto-detect, each preset (name padded,
/// address), custom.
pub open spec fn dns_row_spec(i: int) -> (Seq<char>, Option<Seq<char>>) {
    if i == 0 {
        ("Auto-detect"@, None)
    } else if i <= PRESET_COUNT {
        (pad_right(preset_name(i - 1), DNS_NAME_WIDTH as nat), Some(preset_ip(i - 1)))
    } else {
        ("Custom..."@, None)
    }
}

/// Number of rows in the DNS picker.
pub const DNS_ROW_COUNT: usize = 6;

/// `s` padded with spaces on the right to `w` characters.
fn padded(s: &str, w: usize) -> (r: String)
    ensures
        r@ == pad_right(s@, w as nat),
{
    let mut v = chars_of(s);
    while v.len() < w
        invariant
            s@.len() <= v@.len(),
            v@.len() <= w || v@.len() == s@.len(),
            v@.subrange(0, s@.len() as int) == s@,
            forall|k: int| s@.len() <= k < v@.len() ==> v@[k] == ' ',
        decreases w - v.len(),
    {
        v.push(' ');
    }
    proof {
        if s@.len() < w {
            assert(v@ =~= pad_right(s@, w as nat));
        } else {
            assert(v@ =~= s@);
        }
    }
    string_of(v.as_slice())
}

/// Row `i` of the DNS picker: its label and, for a preset, its address.
pub fn dns_row(i: usize) -> (r: (String, Option<String>))
    requires
        i < DNS_ROW_COUNT,
    ensures
        r.0@ == dns_row_spec(i as int).0,
        opt_text(r.1) == dns_row_spec(i as int).1,
{
    if i == 0 {
        (String::from_str("Auto-detect"), None)
    } else if i <= PRESET_COUNT {
        let presets = crate::app::dns_presets();
        let p = presets[i - 1];
        (padded(p.name, DNS_NAME_WIDTH), Some(String::from_str(p.ip)))
    } else {
        (String::from_str("Custom..."), None)
    }
}

// ---------------------------------------------------------------------
// Interface lists
// ---------------------------------------------------------------------

/// An interface as listed: its name, with the description in brackets
/// when it has one.
pub open spec fn iface_label_spec(name: Seq<char>, description: Option<Seq<char>>) -> Seq<char> {
    match description {
        Some(d) => name + " ("@ + d + ")"@,
        None => name,
    }
}

/// An interface as listed.
pub fn interface_label(iface: &InterfaceInfo) -> (s: String)
    ensures
        s@ == iface_label_spec(iface.name@, opt_text(iface.description)),
{
    match &iface.description {
        Some(d) => {
            let mut v: Vec<char> = Vec::new();
            extend_str(&mut v, iface.name.as_str());
            extend_str(&mut v, " (");
            extend_str(&mut v, d.as_str());
            extend_str(&mut v, ")");
            assert(v@ =~= iface_label_spec(iface.name@, opt_text(iface.description)));
            string_of(v.as_slice())
        },
        None => copy_string(&iface.name),
    }
}

/// The wizard's step line: `Step <current> of <total>: <description>`.
pub open spec fn step_spec(current: u8, total: u8, description: Seq<char>) -> Seq<char> {
    "Step "@ + dec(current as nat) + " of "@ + dec(total as nat) + ": "@ + description
}

/// The wizard's step line.
pub fn step_text(current: u8, total: u8, description: &str) -> (s: String)
    ensures
        s@ == step_spec(current, total, description@),
{
    let mut v: Vec<char> = Vec::new();
    extend_str(&mut v, "Step ");
    push_dec(&mut v, current as u64);
    extend_str(&mut v, " of ");
    push_dec(&mut v, total as u64);
    extend_str(&mut v, ": ");
    extend_str(&mut v, description);
    assert(v@ =~= step_spec(current, total, description@));
    string_of(v.as_slice())
}

// ---------------------------------------------------------------------
// Log panel and loading indicator
// ---------------------------------------------------------------------

/// Most log lines shown while the panel is collapsed.
pub const COLLAPSED_LOG_LINES: usize = 10;

/// How many of the newest log entries fit: all lines when expanded, at
/// most ten when collapsed.
pub open spec fn visible_log_count(max_lines: usize, expanded: bool) -> usize {
    if expanded || max_lines <= COLLAPSED_LOG_LINES {
        max_lines
    } else {
        COLLAPSED_LOG_LINES
    }
}

/// Index of the first log entry shown: the newest entries that fit.
pub open spec fn log_window_start_spec(len: usize, max_lines: usize, expanded: bool) -> usize {
    if len > visible_log_count(max_lines, expanded) {
        (len - visible_log_count(max_lines, expanded)) as usize
    } else {
        0
    }
}

/// Index of the first log entry shown.
pub fn log_window_start(len: usize, max_lines: usize, expanded: bool) -> (start: usize)
    ensures
        start == log_window_start_spec(len, max_lines, expanded),
        start <= len,
        len - start <= visible_log_count(max_lines, expanded),
{
    let count = if expanded || max_lines <= COLLAPSED_LOG_LINES {
        max_lines
    } else {
        COLLAPSED_LOG_LINES
    };
    if len > count {
        len - count
    } else {
        0
    }
}

/// The count at the right of the log panel's title: ` <n> items `.
pub open spec fn items_text_spec(n: usize) -> Seq<char> {
    " "@ + dec(n as nat) + " items "@
}

/// The count at the right of the log panel's title.
pub fn items_text(n: usize) -> (s: String)
    ensures
        s@ == items_text_spec(n),
{
    let mut v: Vec<char> = Vec::new();
    extend_str(&mut v, " ");
    push_dec(&mut v, n as u64);
    extend_str(&mut v, " items ");
    assert(v@ =~= items_text_spec(n));
    string_of(v.as_slice())
}

/// Milliseconds each frame of the loading spinner is shown.
pub const SPINNER_FRAME_MS: u64 = 150;

/// The moon phases of the loading spinner.
pub open spec fn spinner_frames() -> Seq<char> {
    seq!['\u{25d0}', '\u{25d3}', '\u{25d1}', '\u{25d2}']
}

/// The spinner's frame at a clock reading in milliseconds: a new phase
/// every 150 ms, round the four phases.
pub fn spinner_frame(millis: u64) -> (c: char)
    ensures
        c == spinner_frames()[((millis / SPINNER_FRAME_MS) % 4) as int],
{
    let k = (millis / SPINNER_FRAME_MS) % 4;
    if k == 0 {
        '\u{25d0}'
    } else if k == 1 {
        '\u{25d3}'
    } else if k == 2 {
        '\u{25d1}'
    } else {
        '\u{25d2}'
    }
}

// ---------------------------------------------------------------------
// Main menu
// ---------------------------------------------------------------------

/// A row of the main menu card.
#[derive(Clone, Copy, Debug, PartialEq, Eq, Structural)]
pub enum MenuRow {
    /// An empty line.
    Blank,
    /// A dotted line between groups.
    Separator,
    /// The menu entry at this index.
    Item(usize),
}

/// The group of a menu entry: 0 the sharing action, 1 the settings, 2
/// quitting.
pub open spec fn menu_group(item: MenuItem) -> u8 {
    match item {
        MenuItem::StartSharing | MenuItem::StopSharing => 0,
        MenuItem::ToggleDhcp | MenuItem::ToggleNatPmp | MenuItem::SetDns => 1,
        MenuItem::Quit => 2,
    }
}

/// The rows of the entries of group `g`, in menu order.
pub open spec fn group_rows(items: Seq<MenuItem>, g: u8) -> Seq<MenuRow>
    decreases items.len(),
{
    if items.len() == 0 {
        seq![]
    } else {
        group_rows(items.drop_last(), g) + if menu_group(items.last()) == g {
            seq![MenuRow::Item((items.len() - 1) as usize)]
        } else {
            seq![]
        }
    }
}

/// A group framed for the card: a separator and a blank line before it,
/// a blank line after it; nothing when the group is empty.
pub open spec fn framed_group(rows: Seq<MenuRow>) -> Seq<MenuRow> {
    if rows.len() > 0 {
        seq![MenuRow::Separator, MenuRow::Blank] + rows + seq![MenuRow::Blank]
    } else {
        seq![]
    }
}

/// The rows of the main menu card: the sharing action between blank
/// lines, then the settings and quitting, each group after a separator.
pub open spec fn menu_rows_spec(items: Seq<MenuItem>) -> Seq<MenuRow> {
    seq![MenuRow::Blank] + group_rows(items, 0) + seq![MenuRow::Blank] + framed_group(
        group_rows(items, 1),
    ) + framed_group(group_rows(items, 2))
}

/// The group of a menu entry.
fn menu_group_of(item: MenuItem) -> (g: u8)
    ensures
        g == menu_group(item),
{
    match item {
        MenuItem::StartSharing | MenuItem::StopSharing => 0,
        MenuItem::ToggleDhcp | MenuItem::ToggleNatPmp | MenuItem::SetDns => 1,
        MenuItem::Quit => 2,
    }
}

/// The rows of the entries of group `g`.
fn group_items(items: &[MenuItem], g: u8) -> (rows: Vec<MenuRow>)
    ensures
        rows@ == group_rows(items@, g),
{
    let mut rows: Vec<MenuRow> = Vec::new();
    let mut i: usize = 0;
    assert(items@.take(0) =~= Seq::<MenuItem>::empty());
    while i < items.len()
        invariant
            i <= items@.len(),
            rows@ == group_rows(items@.take(i as int), g),
        decreases items@.len() - i,
    {
        assert(items@.take(i + 1).drop_last() =~= items@.take(i as int));
        assert(items@.take(i + 1).last() == items@[i as int]);
        if menu_group_of(items[i]) == g {
            rows.push(MenuRow::Item(i));
        }
        assert(rows@ =~= group_rows(items@.take(i + 1), g));
        i = i + 1;
    }
    assert(items@.take(items@.len() as int) =~= items@);
    rows
}

/// Appends a group framed for the card.
fn push_framed(rows: &mut Vec<MenuRow>, group: Vec<MenuRow>)
    ensures
        final(rows)@ == old(rows)@ + framed_group(group@),
{
    if group.len() > 0 {
        let mut g = group;
        rows.push(MenuRow::Separator);
        rows.push(MenuRow::Blank);
        rows.append(&mut g);
        rows.push(MenuRow::Blank);
        assert(rows@ =~= old(rows)@ + framed_group(group@));
    } else {
        assert(rows@ =~= old(rows)@ + framed_group(group@));
    }
}

/// The rows of the main menu card for its entries.
pub fn menu_rows(items: &[MenuItem]) -> (rows: Vec<MenuRow>)
    ensures
        rows@ == menu_rows_spec(items@),
{
    let mut action = group_items(items, 0);
    let settings = group_items(items, 1);
    let quit = group_items(items, 2);
    let mut rows: Vec<MenuRow> = Vec::new();
    rows.push(MenuRow::Blank);
    rows.append(&mut action);
    rows.push(MenuRow::Blank);
    push_framed(&mut rows, settings);
    push_framed(&mut rows, quit);
    assert(rows@ =~= menu_rows_spec(items@));
    rows
}

/// The hint under the menu card.
pub fn menu_hint(sharing: bool) -> (s: &'static str)
    ensures
        s@ == (if sharing {
            "Press Enter to stop"@
        } else {
            "Press Enter to start"@
        }),
{
    if sharing {
        "Press Enter to stop"
    } else {
        "Press Enter to start"
    }
}

// ---------------------------------------------------------------------
// Connection card
// ---------------------------------------------------------------------

/// One row of the connection card.
pub struct InfoRow {
    pub label: &'static str,
    pub value: String,
    /// Whether the value shows as running.
    pub active: bool,
}

/// Rows as (label, value, active).
pub open spec fn info_rows_view(rows: Seq<InfoRow>) -> Seq<(Seq<char>, Seq<char>, bool)> {
    rows.map_values(|r: InfoRow| (r.label@, r.value@, r.active))
}

/// The last dot-separated part of an address.
pub open spec fn last_octet_text(s: Seq<char>) -> Seq<char> {
    pieces(s, '.').last()
}

/// Splitting always gives at least one piece.
proof fn lemma_pieces_nonempty(s: Seq<char>, c: char)
    ensures
        pieces(s, c).len() >= 1,
{
}

/// The last dot-separated part of an address.
fn last_octet(s: &str) -> (r: String)
    ensures
        r@ == last_octet_text(s@),
{
    let v = chars_of(s);
    let ps = pieces_of(v.as_slice(), '.');
    proof {
        lemma_pieces_nonempty(v@, '.');
    }
    let n = ps.len();
    assert(views(ps@)[n - 1] == ps@[n - 1]@);
    string_of(ps[n - 1])
}

/// How DHCP shows on the connection card: the range's last octets while
/// it runs, `Manual` when it does not.
pub open spec fn dhcp_status_spec(active: bool, range: Option<(Seq<char>, Seq<char>)>) -> Seq<char> {
    if active {
        match range {
            Some((a, b)) => "DHCP "@ + last_octet_text(a) + "-"@ + last_octet_text(b),
            None => "DHCP Active"@,
        }
    } else {
        "Manual"@
    }
}

/// Whether the session's DHCP server runs.
pub open spec fn session_dhcp(v: AppView) -> bool {
    match v.session {
        Some(s) => s.dhcp_active,
        None => false,
    }
}

/// The session's DHCP range.
pub open spec fn session_range(v: AppView) -> Option<(Seq<char>, Seq<char>)> {
    match v.session {
        Some(s) => s.dhcp_range,
        None => None,
    }
}

/// Whether the session's NAT-PMP service runs.
pub open spec fn session_natpmp(v: AppView) -> bool {
    match v.session {
        Some(s) => s.natpmp_active,
        None => false,
    }
}

/// The connection card's rows: gateway, DNS in use, how clients get
/// addresses, NAT-PMP.
pub open spec fn connection_rows_spec(v: AppView, gateway: Seq<char>) -> Seq<
    (Seq<char>, Seq<char>, bool),
> {
    seq![
        ("Gateway"@, gateway, false),
        ("DNS"@, dns_display_spec(v.dns), false),
        ("WAN"@, dhcp_status_spec(session_dhcp(v), session_range(v)), session_dhcp(v)),
        ("NAT-PMP"@, if session_natpmp(v) {
            "Active"@
        } else {
            "Off"@
        }, session_natpmp(v)),
    ]
}

/// How DHCP shows on the connection card.
fn dhcp_status(active: bool, range: Option<(String, String)>) -> (s: String)
    ensures
        s@ == dhcp_status_spec(active, crate::session::range_view(range)),
{
    if !active {
        return String::from_str("Manual");
    }
    match range {
        Some((a, b)) => {
            let mut v: Vec<char> = Vec::new();
            extend_str(&mut v, "DHCP ");
            let x = last_octet(a.as_str());
            extend_str(&mut v, x.as_str());
            extend_str(&mut v, "-");
            let y = last_octet(b.as_str());
            extend_str(&mut v, y.as_str());
            assert(v@ =~= dhcp_status_spec(active, crate::session::range_view(Some((a, b)))));
            string_of(v.as_slice())
        },
        None => String::from_str("DHCP Active"),
    }
}

/// The connection card's rows, with `gateway` as the LAN address shown.
pub fn connection_rows(app: &App, gateway: &str) -> (rows: Vec<InfoRow>)
    ensures
        info_rows_view(rows@) == connection_rows_spec(app.view(), gateway@),
{
    let dhcp = app.dhcp_active();
    let natpmp = app.natpmp_active();
    let mut rows: Vec<InfoRow> = Vec::new();
    rows.push(InfoRow { label: "Gateway", value: String::from_str(gateway), active: false });
    rows.push(InfoRow { label: "DNS", value: dns_display(&app.dns), active: false });
    rows.push(InfoRow { label: "WAN", value: dhcp_status(dhcp, app.dhcp_range()), active: dhcp });
    rows.push(
        InfoRow {
            label: "NAT-PMP",
            value: String::from_str(
                if natpmp {
                    "Active"
                } else {
                    "Off"
                },
            ),
            active: natpmp,
        },
    );
    assert(info_rows_view(rows@) =~= connection_rows_spec(app.view(), gateway@));
    rows
}

// ---------------------------------------------------------------------
// Debug panel
// ---------------------------------------------------------------------

/// A switch as the debug panel shows it.
pub open spec fn enabled_text_spec(on: bool) -> Seq<char> {
    if on {
        "\u{25cf} Enabled"@
    } else {
        "\u{25cb} Disabled"@
    }
}

/// A switch as the debug panel shows it.
pub fn enabled_text(on: bool) -> (s: &'static str)
    ensures
        s@ == enabled_text_spec(on),
{
    if on {
        "\u{25cf} Enabled"
    } else {
        "\u{25cb} Disabled"
    }
}

/// A service as the debug panel shows it: active, with the DHCP range
/// when there is one, or disabled.
pub open spec fn service_text_spec(running: bool, range: Option<(Seq<char>, Seq<char>)>) -> Seq<char> {
    if running {
        match range {
            Some((a, b)) => "\u{25cf} Active ("@ + a + "-"@ + b + ")"@,
            None => "\u{25cf} Active"@,
        }
    } else {
        "\u{25cb} Disabled"@
    }
}

/// A service as the debug panel shows it.
pub fn service_text(running: bool, range: &Option<(String, String)>) -> (s: String)
    ensures
        s@ == service_text_spec(running, crate::session::range_view(*range)),
{
    if !running {
        return String::from_str("\u{25cb} Disabled");
    }
    match range {
        Some((a, b)) => {
            let mut v: Vec<char> = Vec::new();
            extend_str(&mut v, "\u{25cf} Active (");
            extend_str(&mut v, a.as_str());
            extend_str(&mut v, "-");
            extend_str(&mut v, b.as_str());
            extend_str(&mut v, ")");
            assert(v@ =~= service_text_spec(running, crate::session::range_view(*range)));
            string_of(v.as_slice())
        },
        None => String::from_str("\u{25cf} Active"),
    }
}

/// A line cut to `w` characters: longer lines keep `w - 3` characters
/// and end in `...`.
pub open spec fn truncated(l: Seq<char>, w: nat) -> Seq<char> {
    if l.len() > w {
        l.take(if w >= 3 {
            w - 3
        } else {
            0
        }) + "..."@
    } else {
        l
    }
}

/// The sample connections of the debug panel: the first two state lines
/// after the dump's header, each cut to `w` characters.
pub open spec fn state_samples_spec(states: Seq<char>, w: nat) -> Seq<Seq<char>> {
    let ls = lines(states);
    if ls.len() <= 1 {
        seq![]
    } else {
        ls.subrange(1, if ls.len() >= 3 {
            3
        } else {
            ls.len() as int
        }).map_values(|l: Seq<char>| truncated(l, w))
    }
}

/// A line cut to `w` characters.
fn truncate_line(l: &[char], w: usize) -> (r: String)
    ensures
        r@ == truncated(l@, w as nat),
{
    if l.len() <= w {
        return string_of(l);
    }
    let keep = if w >= 3 {
        w - 3
    } else {
        0
    };
    let mut v: Vec<char> = Vec::new();
    extend_chars(&mut v, &l[0..keep]);
    extend_str(&mut v, "...");
    assert(l@.subrange(0, keep as int) =~= l@.take(keep as int));
    assert(v@ =~= truncated(l@, w as nat));
    string_of(v.as_slice())
}

/// The sample connections of the debug panel.
pub fn state_samples(states: &str, w: usize) -> (r: Vec<String>)
    ensures
        crate::text::string_views(r@) == state_samples_spec(states@, w as nat),
{
    let v = chars_of(states);
    let ls = split_lines(v.as_slice());
    let ghost lv = views(ls@);
    let mut r: Vec<String> = Vec::new();
    if ls.len() <= 1 {
        assert(crate::text::string_views(r@) =~= state_samples_spec(states@, w as nat));
        return r;
    }
    let end: usize = if ls.len() >= 3 {
        3
    } else {
        ls.len()
    };
    let mut k: usize = 1;
    while k < end
        invariant
            lv == views(ls@),
            lv == lines(states@),
            1 <= k <= end,
            end <= ls@.len(),
            crate::text::string_views(r@) == lv.subrange(1, k as int).map_values(
                |l: Seq<char>| truncated(l, w as nat),
            ),
        decreases end - k,
    {
        let ghost before = r@;
        assert(lv[k as int] == ls@[k as int]@);
        let t = truncate_line(ls[k], w);
        r.push(t);
        assert(crate::text::string_views(r@) =~= crate::text::string_views(before).push(t@));
        assert(lv.subrange(1, k + 1) =~= lv.subrange(1, k as int).push(lv[k as int]));
        assert(lv.subrange(1, k + 1).map_values(|l: Seq<char>| truncated(l, w as nat))
            =~= lv.subrange(1, k as int).map_values(|l: Seq<char>| truncated(l, w as nat)).push(
            truncated(lv[k as int], w as nat),
        ));
        k = k + 1;
    }
    r
}

/// How a pf rule line is coloured.
#[derive(Clone, Copy, Debug, PartialEq, Eq, Structural)]
pub enum RuleKind {
    /// A comment or an empty line.
    Comment,
    /// A `nat` or `scrub` rule.
    Translation,
    /// A `pass` rule.
    Pass,
    /// A `block` rule.
    Block,
    /// Anything else.
    Other,
}

/// How a pf rule line is coloured, by how it starts.
pub open spec fn rule_kind_spec(l: Seq<char>) -> RuleKind {
    if starts_with(l, "#"@) || l.len() == 0 {
        RuleKind::Comment
    } else if starts_with(l, "nat "@) || starts_with(l, "scrub "@) {
        RuleKind::Translation
    } else if starts_with(l, "pass "@) {
        RuleKind::Pass
    } else if starts_with(l, "block "@) {
        RuleKind::Block
    } else {
        RuleKind::Other
    }
}

/// Whether `l` starts with `p`.
fn begins(l: &[char], p: &str) -> (b: bool)
    ensures
        b == starts_with(l@, p@),
{
    let pv = chars_of(p);
    starts_with_chars(l, pv.as_slice())
}

/// How a pf rule line is coloured.
pub fn rule_kind(line: &str) -> (k: RuleKind)
    ensures
        k == rule_kind_spec(line@),
{
    let l = chars_of(line);
    let s = l.as_slice();
    if begins(s, "#") || s.len() == 0 {
        RuleKind::Comment
    } else if begins(s, "nat ") || begins(s, "scrub ") {
        RuleKind::Translation
    } else if begins(s, "pass ") {
        RuleKind::Pass
    } else if begins(s, "block ") {
        RuleKind::Block
    } else {
        RuleKind::Other
    }
}

// ---------------------------------------------------------------------
// Doctor
// ---------------------------------------------------------------------

/// The icon of a check's verdict.
pub open spec fn verdict_icon(v: Verdict) -> Seq<char> {
    match v {
        Verdict::Pass => "\u{2713}"@,
        Verdict::Warn => "\u{26a0}"@,
        Verdict::Fail => "\u{2717}"@,
    }
}

/// The icon of a check's status.
pub fn check_icon(status: &CheckStatus) -> (s: &'static str)
    ensures
        s@ == verdict_icon(
            match status {
                CheckStatus::Pass => Verdict::Pass,
                CheckStatus::Warn { .. } => Verdict::Warn,
                CheckStatus::Fail { .. } => Verdict::Fail,
            },
        ),
{
    match status {
        CheckStatus::Pass => "\u{2713}",
        CheckStatus::Warn { .. } => "\u{26a0}",
        CheckStatus::Fail { .. } => "\u{2717}",
    }
}

/// The lines of a check's detail pane: each line of its detail indented
/// by two spaces, then its hint when it warns or fails.
pub open spec fn doctor_detail_spec(detail: Seq<char>, status: CheckStatus) -> Seq<Seq<char>> {
    lines(detail).map_values(|l: Seq<char>| "  "@ + l) + match status {
        CheckStatus::Pass => Seq::<Seq<char>>::empty(),
        CheckStatus::Warn { hint } => seq!["  hint: "@ + hint@],
        CheckStatus::Fail { hint } => seq!["  hint: "@ + hint@],
    }
}

/// The detail pane of a check.
pub fn doctor_detail_lines(r: &CheckResult) -> (out: Vec<String>)
    ensures
        crate::text::string_views(out@) == doctor_detail_spec(r.detail@, r.status),
{
    let v = chars_of(r.detail.as_str());
    let ls = split_lines(v.as_slice());
    let ghost lv = views(ls@);
    let mut out: Vec<String> = Vec::new();
    let mut k: usize = 0;
    while k < ls.len()
        invariant
            lv == views(ls@),
            lv == lines(r.detail@),
            k <= ls@.len(),
            crate::text::string_views(out@) == lv.take(k as int).map_values(|l: Seq<char>| "  "@ + l),
        decreases ls@.len() - k,
    {
        let ghost before = out@;
        assert(lv[k as int] == ls@[k as int]@);
        let mut line: Vec<char> = Vec::new();
        extend_str(&mut line, "  ");
        extend_chars(&mut line, ls[k]);
        out.push(string_of(line.as_slice()));
        assert(crate::text::string_views(out@) =~= crate::text::string_views(before).push(
            "  "@ + lv[k as int],
        ));
        assert(lv.take(k + 1) =~= lv.take(k as int).push(lv[k as int]));
        assert(lv.take(k + 1).map_values(|l: Seq<char>| "  "@ + l) =~= lv.take(k as int).map_values(
            |l: Seq<char>| "  "@ + l,
        ).push("  "@ + lv[k as int]));
        k = k + 1;
    }
    assert(lv.take(k as int) =~= lv);
    let ghost body = out@;
    match &r.status {
        CheckStatus::Pass => {},
        CheckStatus::Warn { hint } | CheckStatus::Fail { hint } => {
            let mut line: Vec<char> = Vec::new();
            extend_str(&mut line, "  hint: ");
            extend_str(&mut line, hint.as_str());
            out.push(string_of(line.as_slice()));
            assert(crate::text::string_views(out@) =~= crate::text::string_views(body).push(
                "  hint: "@ + hint@,
            ));
        },
    }
    assert(crate::text::string_views(out@) =~= doctor_detail_spec(r.detail@, r.status));
    out
}

/// The doctor's summary line: how many checks ran, passed, warned and
/// failed.
pub open spec fn doctor_summary_spec(pass: nat, warn: nat, fail: nat) -> Seq<char> {
    dec(pass + warn + fail) + " checks \u{b7} "@ + dec(pass) + " pass \u{b7} "@ + dec(warn)
        + " warn \u{b7} "@ + dec(fail) + " fail"@
}

/// The doctor's summary line of a tally.
pub fn doctor_summary_text(s: CheckSummary) -> (t: String)
    requires
        s.pass + s.warn + s.fail <= usize::MAX,
    ensures
        t@ == doctor_summary_spec(s.pass as nat, s.warn as nat, s.fail as nat),
{
    let total = s.total();
    let mut v: Vec<char> = Vec::new();
    push_dec(&mut v, total as u64);
    extend_str(&mut v, " checks \u{b7} ");
    push_dec(&mut v, s.pass as u64);
    extend_str(&mut v, " pass \u{b7} ");
    push_dec(&mut v, s.warn as u64);
    extend_str(&mut v, " warn \u{b7} ");
    push_dec(&mut v, s.fail as u64);
    extend_str(&mut v, " fail");
    assert(v@ =~= doctor_summary_spec(s.pass as nat, s.warn as nat, s.fail as nat));
    string_of(v.as_slice())
}

} // verus!
