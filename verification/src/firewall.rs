//! Packet filter (pf) rule text: the sharing anchor body, the MAIN hook
//! lines and their merge into an existing MAIN ruleset, and the reading
//! back of loaded rules into a [`PfContract`].
//!
//! Sharing NAT / rdr / filter / scrub live in the named anchor
//! `com.tunshare`. MAIN only holds the hook lines, so a later flush of
//! MAIN filters cannot drop `route-to` or the MSS clamp while leaving
//! WAN NAT in place.

use vstd::prelude::*;
use crate::error::{is_firewall_error, TunshareError};
use crate::net::{ip_chars, ip_text, parse_ipv4, parse_ipv4_chars, push_ip, push_dec, dec, Ipv4};
use crate::text::{
    after_last, after_last_chars, before_first, before_first_chars, chars_of, contains,
    contains_chars, extend_chars, extend_str, first_token, has_char, lines, replace, replace_chars,
    second_piece, second_piece_chars, split_lines, split_once, split_once_chars, starts_with,
    starts_with_chars, string_of, strip_prefix, strip_prefix_chars, to_lower, to_lower_chars,
    tokens, tokens_of, trim, trim_char, trim_char_chars, trim_chars, views, single, join_strings,
    join_with, string_views,
};

verus! {

/// pf table of allowlisted destination addresses.
pub const BYPASS_TABLE: &'static str = "tunshare_bypass";

/// The anchor that holds the sharing rules.
pub const ANCHOR_NAME: &'static str = "com.tunshare";

/// The nested anchor of the NAT-PMP redirects.
pub const NATPMP_ANCHOR: &'static str = "com.tunshare/natpmp";

/// Where the anchor body is written before loading.
pub const PF_BODY_PATH: &'static str = "/tmp/tunshare_pf.conf";

/// Where the merged MAIN ruleset is written before loading.
pub const PF_MAIN_PATH: &'static str = "/tmp/tunshare_pf_main.conf";

/// The system's default pf configuration.
pub const DEFAULT_PF_CONF: &'static str = "/etc/pf.conf";

/// The MAIN hook lines, in load order: two scrub hooks, four
/// translation hooks, two filter hooks. The `/*` form runs the nested
/// anchors (such as the NAT-PMP one).
pub open spec fn main_hooks_spec() -> Seq<Seq<char>> {
    seq![
        "scrub-anchor \"com.tunshare\""@,
        "scrub-anchor \"com.tunshare/*\""@,
        "nat-anchor \"com.tunshare\""@,
        "nat-anchor \"com.tunshare/*\""@,
        "rdr-anchor \"com.tunshare\""@,
        "rdr-anchor \"com.tunshare/*\""@,
        "anchor \"com.tunshare\""@,
        "anchor \"com.tunshare/*\""@,
    ]
}

/// The MAIN options line that sharing keeps in place.
pub open spec fn skip_line() -> Seq<char> {
    "set skip on lo0"@
}

/// Lines joined, each followed by a newline.
pub open spec fn join_lines(ls: Seq<Seq<char>>) -> Seq<char>
    decreases ls.len(),
{
    if ls.len() == 0 {
        seq![]
    } else {
        join_lines(ls.drop_last()) + ls.last() + seq!['\n']
    }
}

/// WAN hop for allowlisted destinations: traffic to the bypass table is
/// NAT'd on this interface and routed to this gateway.
pub struct BypassConfig {
    pub wan_if: String,
    pub wan_gw: Ipv4,
}

/// The five bypass-dependent pieces of the anchor body:
/// (WAN macros, table line, VPN NAT rule, WAN NAT rule, WAN filter rules,
/// destination of the inbound MSS clamp).
pub open spec fn bypass_pieces(bypass: Option<(Seq<char>, Ipv4)>) -> (
    Seq<char>,
    Seq<char>,
    Seq<char>,
    Seq<char>,
    Seq<char>,
    Seq<char>,
) {
    match bypass {
        Some((wan_if, wan_gw)) => (
            "wan_if = \""@ + wan_if + "\"\nwan_gw = \""@ + ip_text(wan_gw) + "\"\n"@,
            "table <tunshare_bypass> persist\n"@,
            "nat on $ext_if inet from $int_if:network to ! <tunshare_bypass> -> ($ext_if) static-port"@,
            "nat on $wan_if inet from $int_if:network to <tunshare_bypass> -> ($wan_if) static-port\n"@,
            "pass in quick on $int_if route-to ($wan_if $wan_gw) inet from $int_if:network to <tunshare_bypass> keep state\npass out quick on $wan_if inet from ($wan_if) to any keep state\n"@,
            "to ! <tunshare_bypass>"@,
        ),
        None => (
            Seq::empty(),
            Seq::empty(),
            "nat on $ext_if inet from $int_if:network to any -> ($ext_if) static-port"@,
            Seq::empty(),
            Seq::empty(),
            "to any"@,
        ),
    }
}

/// The anchor body for the given interfaces, gateway, MSS and bypass.
pub open spec fn rules_text(
    vpn_if: Seq<char>,
    lan_if: Seq<char>,
    lan_ip: Ipv4,
    mss: u16,
    bypass: Option<(Seq<char>, Ipv4)>,
) -> Seq<char> {
    let (wan_macro, table_line, vpn_nat, extra_nat, extra_filter, lan_mss_to) = bypass_pieces(
        bypass,
    );
    "# tunshare anchor body \u{2014} com.tunshare\n# VPN interface: "@ + vpn_if
        + "\n# LAN interface: "@ + lan_if + "\n\next_if = \""@ + vpn_if + "\"\nint_if = \""@
        + lan_if + "\"\n"@ + wan_macro + table_line
        + "\nscrub in all no-df\nscrub in on $int_if inet proto tcp from $int_if:network "@
        + lan_mss_to + " no-df max-mss "@ + dec(mss as nat)
        + "\nscrub out on $ext_if inet proto tcp from ($ext_if) to any max-mss "@ + dec(
        mss as nat,
    ) + "\n"@ + vpn_nat + "\n"@ + extra_nat
        + "rdr on $int_if inet proto udp from $int_if:network to any port 53 -> "@ + ip_text(lan_ip)
        + "\nrdr on $int_if inet proto tcp from $int_if:network to any port 53 -> "@ + ip_text(
        lan_ip,
    ) + "\n\n"@ + extra_filter
        + "pass quick on $int_if all keep state\npass out quick on $ext_if inet from ($ext_if) to any keep state\n"@
}

/// The text of MAIN hooks as loaded on their own: the skip line, then
/// every hook, each on its own line.
pub open spec fn main_hooks_text() -> Seq<char> {
    join_lines(seq![skip_line()] + main_hooks_spec())
}


// ---------------------------------------------------------------------
// MAIN ruleset lines
// ---------------------------------------------------------------------

/// The section of a MAIN ruleset that a line belongs to. Apple pf wants
/// options, normalization, queueing, translation, filtering in order.
#[derive(Clone, Copy, Debug, PartialEq, Eq, Structural)]
pub enum MainSection {
    Options,
    Scrub,
    Queue,
    Nat,
    Filter,
}

/// The section of a (trimmed) MAIN line, by its leading keyword.
pub open spec fn classify_spec(l: Seq<char>) -> MainSection {
    if starts_with(l, "set "@) {
        MainSection::Options
    } else if starts_with(l, "scrub "@) || starts_with(l, "scrub-anchor "@) {
        MainSection::Scrub
    } else if starts_with(l, "dummynet"@) || starts_with(l, "altq "@) || starts_with(
        l,
        "queue "@,
    ) {
        MainSection::Queue
    } else if starts_with(l, "nat "@) || starts_with(l, "rdr "@) || starts_with(l, "binat "@)
        || starts_with(l, "nat-anchor "@) || starts_with(l, "rdr-anchor "@) || starts_with(
        l,
        "binat-anchor "@,
    ) {
        MainSection::Nat
    } else {
        MainSection::Filter
    }
}

/// A MAIN line that sharing itself put there (or an older version of
/// it did): the skip line, anything naming the anchor or the bypass
/// table, a NAT-PMP anchor hook, a DNS redirect or a `route-to` rule.
/// Comments and blank lines are never ours.
pub open spec fn is_tunshare_line_spec(line: Seq<char>) -> bool {
    let t = trim(line);
    let lower = to_lower(t);
    if t.len() == 0 || starts_with(t, "#"@) {
        false
    } else if t == skip_line() {
        true
    } else {
        ||| contains(lower, "com.tunshare"@)
        ||| contains(lower, "tunshare_bypass"@)
        ||| (contains(t, "rdr-anchor"@) || contains(t, "nat-anchor"@) || starts_with(t, "anchor "@))
            && contains(t, "natpmp"@)
        ||| contains(lower, "rdr"@) && (contains(lower, "port 53"@) || contains(
            lower,
            "port = 53"@,
        ))
        ||| contains(lower, "route-to"@) && contains(lower, "keep state"@)
    }
}

/// A trimmed line that the merge keeps in section `sec`.
pub open spec fn kept_in(t: Seq<char>, sec: MainSection) -> bool {
    t.len() > 0 && !is_tunshare_line_spec(t) && classify_spec(t) == sec
}

/// The kept lines of `ls` that belong to section `sec`, trimmed, each
/// followed by a newline, in their original order.
pub open spec fn bucket(ls: Seq<Seq<char>>, sec: MainSection) -> Seq<char>
    decreases ls.len(),
{
    if ls.len() == 0 {
        seq![]
    } else {
        let t = trim(ls.last());
        bucket(ls.drop_last(), sec) + if kept_in(t, sec) {
            t + seq!['\n']
        } else {
            seq![]
        }
    }
}

/// The section texts of an existing MAIN ruleset, the options section
/// starting with the skip line.
pub open spec fn buckets_spec(text: Seq<char>) -> (Seq<char>, Seq<char>, Seq<char>, Seq<char>, Seq<char>) {
    let ls = lines(text);
    (
        skip_line() + seq!['\n'] + bucket(ls, MainSection::Options),
        bucket(ls, MainSection::Scrub),
        bucket(ls, MainSection::Queue),
        bucket(ls, MainSection::Nat),
        bucket(ls, MainSection::Filter),
    )
}

/// The sections in pf's order, with the hooks after their sections'
/// foreign lines when `inject` holds.
pub open spec fn assemble_spec(
    b: (Seq<char>, Seq<char>, Seq<char>, Seq<char>, Seq<char>),
    inject: bool,
) -> Seq<char> {
    let h = main_hooks_spec();
    b.0 + b.1 + (if inject {
        join_lines(h.subrange(0, 2))
    } else {
        seq![]
    }) + b.2 + (if inject {
        join_lines(h.subrange(2, 6))
    } else {
        seq![]
    }) + b.3 + (if inject {
        join_lines(h.subrange(6, 8))
    } else {
        seq![]
    }) + b.4
}

/// MAIN after stripping sharing's own lines, ordered, with the hooks.
pub open spec fn merge_main_spec(text: Seq<char>) -> Seq<char> {
    assemble_spec(buckets_spec(text), true)
}

/// MAIN after stripping sharing's own lines, ordered, without hooks.
pub open spec fn order_main_spec(text: Seq<char>) -> Seq<char> {
    assemble_spec(buckets_spec(text), false)
}

/// A trimmed line that leaves MAIN "empty" when it is all that is left.
pub open spec fn ignorable_line(t: Seq<char>) -> bool {
    t.len() == 0 || starts_with(t, "#"@) || t == skip_line() || is_tunshare_line_spec(t)
}

/// MAIN holds nothing but blank lines, comments, the skip line and
/// sharing's own lines.
pub open spec fn remaining_main_is_empty_spec(text: Seq<char>) -> bool {
    forall|k: int| 0 <= k < lines(text).len() ==> ignorable_line(trim(#[trigger] lines(text)[k]))
}

/// What [`Firewall::merge_main`] returns.
pub open spec fn firewall_merge_spec(text: Seq<char>) -> Seq<char> {
    if remaining_main_is_empty_spec(text) {
        main_hooks_text()
    } else {
        merge_main_spec(text)
    }
}

/// The section of a MAIN line.
pub fn classify_main_line(line: &[char]) -> (s: MainSection)
    ensures
        s == classify_spec(line@),
{
    if starts_with_chars(line, chars_of("set ").as_slice()) {
        MainSection::Options
    } else if starts_with_chars(line, chars_of("scrub ").as_slice()) || starts_with_chars(
        line,
        chars_of("scrub-anchor ").as_slice(),
    ) {
        MainSection::Scrub
    } else if starts_with_chars(line, chars_of("dummynet").as_slice()) || starts_with_chars(
        line,
        chars_of("altq ").as_slice(),
    ) || starts_with_chars(line, chars_of("queue ").as_slice()) {
        MainSection::Queue
    } else if starts_with_chars(line, chars_of("nat ").as_slice()) || starts_with_chars(
        line,
        chars_of("rdr ").as_slice(),
    ) || starts_with_chars(line, chars_of("binat ").as_slice()) || starts_with_chars(
        line,
        chars_of("nat-anchor ").as_slice(),
    ) || starts_with_chars(line, chars_of("rdr-anchor ").as_slice()) || starts_with_chars(
        line,
        chars_of("binat-anchor ").as_slice(),
    ) {
        MainSection::Nat
    } else {
        MainSection::Filter
    }
}

/// Whether `t` occurs in `s`, for a literal `t`.
fn has(s: &[char], t: &str) -> (b: bool)
    ensures
        b == contains(s@, t@),
{
    let v = chars_of(t);
    contains_chars(s, v.as_slice())
}

/// Whether `s` starts with the literal `t`.
fn begins(s: &[char], t: &str) -> (b: bool)
    ensures
        b == starts_with(s@, t@),
{
    let v = chars_of(t);
    starts_with_chars(s, v.as_slice())
}

/// Whether `s` is the literal `t`.
fn is_text(s: &[char], t: &str) -> (b: bool)
    ensures
        b == (s@ == t@),
{
    let v = chars_of(t);
    if s.len() != v.len() {
        return false;
    }
    let r = starts_with_chars(s, v.as_slice());
    assert(s@.subrange(0, v@.len() as int) =~= s@);
    r
}

/// Whether a MAIN line is one of sharing's own.
pub fn is_tunshare_line_chars(line: &[char]) -> (b: bool)
    ensures
        b == is_tunshare_line_spec(line@),
{
    let t = trim_chars(line);
    if t.len() == 0 || begins(t, "#") {
        return false;
    }
    if is_text(t, "set skip on lo0") {
        return true;
    }
    let lower_v = to_lower_chars(t);
    let lower = lower_v.as_slice();
    if has(lower, "com.tunshare") || has(lower, "tunshare_bypass") {
        return true;
    }
    if (has(t, "rdr-anchor") || has(t, "nat-anchor") || begins(t, "anchor ")) && has(t, "natpmp") {
        return true;
    }
    if has(lower, "rdr") && (has(lower, "port 53") || has(lower, "port = 53")) {
        return true;
    }
    if has(lower, "route-to") && has(lower, "keep state") {
        return true;
    }
    false
}

/// Whether a MAIN line is one of sharing's own.
pub fn is_tunshare_main_line(line: &str) -> (b: bool)
    ensures
        b == is_tunshare_line_spec(line@),
{
    let v = chars_of(line);
    is_tunshare_line_chars(v.as_slice())
}

/// Section texts of a MAIN ruleset under construction.
struct MainBuckets {
    options: Vec<char>,
    scrub: Vec<char>,
    queue: Vec<char>,
    nat: Vec<char>,
    filter: Vec<char>,
}

/// Sorts the kept lines of an existing MAIN into sections.
fn bucket_main_lines(existing: &[char]) -> (b: MainBuckets)
    ensures
        (b.options@, b.scrub@, b.queue@, b.nat@, b.filter@) == buckets_spec(existing@),
{
    let mut options: Vec<char> = Vec::new();
    extend_str(&mut options, "set skip on lo0");
    options.push('\n');
    let ghost opt0 = options@;
    assert(opt0 =~= skip_line() + seq!['\n']);
    let mut scrub: Vec<char> = Vec::new();
    let mut queue: Vec<char> = Vec::new();
    let mut nat_lines: Vec<char> = Vec::new();
    let mut filter: Vec<char> = Vec::new();
    let ls = split_lines(existing);
    let ghost lv = views(ls@);
    let mut k: usize = 0;
    assert(lv.take(0) =~= Seq::<Seq<char>>::empty());
    assert(opt0 + Seq::<char>::empty() =~= opt0);
    while k < ls.len()
        invariant
            lv == views(ls@),
            lv == lines(existing@),
            k <= ls@.len(),
            opt0 == skip_line() + seq!['\n'],
            options@ == opt0 + bucket(lv.take(k as int), MainSection::Options),
            scrub@ == bucket(lv.take(k as int), MainSection::Scrub),
            queue@ == bucket(lv.take(k as int), MainSection::Queue),
            nat_lines@ == bucket(lv.take(k as int), MainSection::Nat),
            filter@ == bucket(lv.take(k as int), MainSection::Filter),
        decreases ls@.len() - k,
    {
        let line = ls[k];
        let t = trim_chars(line);
        assert(lv.take(k + 1).drop_last() =~= lv.take(k as int));
        assert(lv.take(k + 1).last() == line@);
        if t.len() > 0 && !is_tunshare_line_chars(t) {
            let sec = classify_main_line(t);
            match sec {
                MainSection::Options => {
                    extend_chars(&mut options, t);
                    options.push('\n');
                },
                MainSection::Scrub => {
                    extend_chars(&mut scrub, t);
                    scrub.push('\n');
                },
                MainSection::Queue => {
                    extend_chars(&mut queue, t);
                    queue.push('\n');
                },
                MainSection::Nat => {
                    extend_chars(&mut nat_lines, t);
                    nat_lines.push('\n');
                },
                MainSection::Filter => {
                    extend_chars(&mut filter, t);
                    filter.push('\n');
                },
            }
        }
        assert(options@ =~= opt0 + bucket(lv.take(k + 1), MainSection::Options));
        assert(scrub@ =~= bucket(lv.take(k + 1), MainSection::Scrub));
        assert(queue@ =~= bucket(lv.take(k + 1), MainSection::Queue));
        assert(nat_lines@ =~= bucket(lv.take(k + 1), MainSection::Nat));
        assert(filter@ =~= bucket(lv.take(k + 1), MainSection::Filter));
        k = k + 1;
    }
    assert(lv.take(ls@.len() as int) =~= lv);
    MainBuckets { options, scrub, queue, nat: nat_lines, filter }
}

/// Appends the hooks `from..to` to `out`, one per line.
fn push_hooks(out: &mut Vec<char>, from: usize, to: usize)
    requires
        from <= to <= 8,
    ensures
        final(out)@ == old(out)@ + join_lines(main_hooks_spec().subrange(from as int, to as int)),
{
    let hooks = Firewall::main_hooks();
    let ghost h = main_hooks_spec();
    let mut k: usize = from;
    assert(h.subrange(from as int, from as int) =~= Seq::<Seq<char>>::empty());
    assert(old(out)@ + join_lines(Seq::<Seq<char>>::empty()) =~= old(out)@);
    while k < to
        invariant
            from <= k <= to <= 8,
            hooks@.len() == 8,
            forall|j: int| 0 <= j < 8 ==> (#[trigger] hooks@[j])@ == main_hooks_spec()[j],
            h == main_hooks_spec(),
            out@ == old(out)@ + join_lines(h.subrange(from as int, k as int)),
        decreases to - k,
    {
        extend_str(out, hooks[k]);
        out.push('\n');
        assert(h.subrange(from as int, k + 1).drop_last() =~= h.subrange(from as int, k as int));
        assert(h.subrange(from as int, k + 1).last() == h[k as int]);
        k = k + 1;
    }
}

/// The sections in pf's order, with the hooks when `inject_hooks` holds.
fn assemble_main(b: &MainBuckets, inject_hooks: bool) -> (out: Vec<char>)
    ensures
        out@ == assemble_spec((b.options@, b.scrub@, b.queue@, b.nat@, b.filter@), inject_hooks),
{
    let mut out: Vec<char> = Vec::new();
    extend_chars(&mut out, b.options.as_slice());
    extend_chars(&mut out, b.scrub.as_slice());
    let ghost s1 = out@;
    if inject_hooks {
        push_hooks(&mut out, 0, 2);
    }
    let ghost h1 = if inject_hooks { join_lines(main_hooks_spec().subrange(0, 2)) } else { Seq::<char>::empty() };
    assert(out@ =~= s1 + h1);
    extend_chars(&mut out, b.queue.as_slice());
    let ghost s2 = out@;
    if inject_hooks {
        push_hooks(&mut out, 2, 6);
    }
    let ghost h2 = if inject_hooks { join_lines(main_hooks_spec().subrange(2, 6)) } else { Seq::<char>::empty() };
    assert(out@ =~= s2 + h2);
    extend_chars(&mut out, b.nat.as_slice());
    let ghost s3 = out@;
    if inject_hooks {
        push_hooks(&mut out, 6, 8);
    }
    let ghost h3 = if inject_hooks { join_lines(main_hooks_spec().subrange(6, 8)) } else { Seq::<char>::empty() };
    assert(out@ =~= s3 + h3);
    extend_chars(&mut out, b.filter.as_slice());
    assert(out@ =~= assemble_spec((b.options@, b.scrub@, b.queue@, b.nat@, b.filter@), inject_hooks));
    out
}

/// MAIN after stripping sharing's lines, ordered, plus skip line and hooks.
///
/// Apple pf requires section order options, normalization, queueing,
/// translation, filtering; a dump of MAIN lists `scrub-anchor` among the
/// filters, so the lines are re-sorted by section.
pub fn merge_main(existing: &str) -> (out: String)
    ensures
        out@ == merge_main_spec(existing@),
{
    let v = chars_of(existing);
    let b = bucket_main_lines(v.as_slice());
    let out = assemble_main(&b, true);
    string_of(out.as_slice())
}

/// The same ordering as the merge, without sharing's hooks: used when
/// sharing stops, so Apple's `scrub-anchor` still comes first.
pub fn order_main(existing: &str) -> (out: String)
    ensures
        out@ == order_main_spec(existing@),
{
    let v = chars_of(existing);
    let b = bucket_main_lines(v.as_slice());
    let out = assemble_main(&b, false);
    string_of(out.as_slice())
}

/// Whether MAIN holds nothing but blank lines, comments, the skip line
/// and sharing's own lines.
pub fn remaining_main_is_empty(text: &str) -> (b: bool)
    ensures
        b == remaining_main_is_empty_spec(text@),
{
    let v = chars_of(text);
    let ls = split_lines(v.as_slice());
    let ghost lv = views(ls@);
    let mut k: usize = 0;
    while k < ls.len()
        invariant
            lv == views(ls@),
            lv == lines(text@),
            k <= ls@.len(),
            forall|j: int| 0 <= j < k ==> ignorable_line(trim(#[trigger] lv[j])),
        decreases ls@.len() - k,
    {
        let t = trim_chars(ls[k]);
        assert(lv[k as int] == ls@[k as int]@);
        if !(t.len() == 0 || begins(t, "#") || is_text(t, "set skip on lo0")
            || is_tunshare_line_chars(t)) {
            return false;
        }
        k = k + 1;
    }
    true
}


// ---------------------------------------------------------------------
// Reading loaded rules back
// ---------------------------------------------------------------------

/// What is actually loaded: MAIN hooks plus the `com.tunshare` body.
#[derive(Debug, Clone)]
pub struct PfContract {
    pub has_main_hooks: bool,
    pub vpn: Option<String>,
    pub lan: Option<String>,
    pub lan_ip: Option<Ipv4>,
    pub wan: Option<String>,
    pub wan_gw: Option<Ipv4>,
    pub has_dns_rdr: bool,
    pub has_bypass_nat: bool,
    pub has_route_to: bool,
}

/// The contents of a [`PfContract`] as plain values.
pub struct PfSpec {
    pub has_main_hooks: bool,
    pub vpn: Option<Seq<char>>,
    pub lan: Option<Seq<char>>,
    pub lan_ip: Option<Ipv4>,
    pub wan: Option<Seq<char>>,
    pub wan_gw: Option<Ipv4>,
    pub has_dns_rdr: bool,
    pub has_bypass_nat: bool,
    pub has_route_to: bool,
}

/// The text of an optional string.
pub open spec fn opt_view(o: Option<String>) -> Option<Seq<char>> {
    match o {
        Some(s) => Some(s@),
        None => None,
    }
}

impl PfContract {
    /// The contract as plain values.
    pub open spec fn spec(&self) -> PfSpec {
        PfSpec {
            has_main_hooks: self.has_main_hooks,
            vpn: opt_view(self.vpn),
            lan: opt_view(self.lan),
            lan_ip: self.lan_ip,
            wan: opt_view(self.wan),
            wan_gw: self.wan_gw,
            has_dns_rdr: self.has_dns_rdr,
            has_bypass_nat: self.has_bypass_nat,
            has_route_to: self.has_route_to,
        }
    }

    /// Nothing found.
    pub fn empty() -> (pf: PfContract)
        ensures
            pf.spec() == empty_pf(),
    {
        PfContract {
            has_main_hooks: false,
            vpn: None,
            lan: None,
            lan_ip: None,
            wan: None,
            wan_gw: None,
            has_dns_rdr: false,
            has_bypass_nat: false,
            has_route_to: false,
        }
    }

    /// Sharing works: MAIN hooks the anchor and the DNS redirect is there.
    pub fn sharing_ok(&self) -> (b: bool)
        ensures
            b == (self.has_main_hooks && self.has_dns_rdr),
    {
        self.has_main_hooks && self.has_dns_rdr
    }

    /// WAN bypass works: sharing works, and both the WAN NAT and the
    /// `route-to` rule are there.
    pub fn bypass_ok(&self) -> (b: bool)
        ensures
            b == (self.has_main_hooks && self.has_dns_rdr && self.has_bypass_nat
                && self.has_route_to),
    {
        self.sharing_ok() && self.has_bypass_nat && self.has_route_to
    }

    /// What is missing, if anything, for the mode in use.
    pub fn miss_message(&self, bypass_on: bool) -> (m: Option<&'static str>)
        ensures
            m is None <==> miss_spec(self.spec(), bypass_on) is None,
            m matches Some(t) ==> miss_spec(self.spec(), bypass_on) == Some(t@),
    {
        if bypass_on {
            if !self.has_main_hooks {
                return Some("MAIN is missing com.tunshare hooks");
            }
            if !self.has_route_to || !self.has_bypass_nat {
                return Some("WAN bypass is on but pf has no route-to / WAN NAT");
            }
            return None;
        }
        if !self.sharing_ok() {
            return Some("MAIN is missing com.tunshare hooks");
        }
        None
    }
}

/// What [`PfContract::miss_message`] reports.
pub open spec fn miss_spec(pf: PfSpec, bypass_on: bool) -> Option<Seq<char>> {
    if bypass_on {
        if !pf.has_main_hooks {
            Some("MAIN is missing com.tunshare hooks"@)
        } else if !pf.has_route_to || !pf.has_bypass_nat {
            Some("WAN bypass is on but pf has no route-to / WAN NAT"@)
        } else {
            None
        }
    } else if !(pf.has_main_hooks && pf.has_dns_rdr) {
        Some("MAIN is missing com.tunshare hooks"@)
    } else {
        None
    }
}

/// Nothing found.
pub open spec fn empty_pf() -> PfSpec {
    PfSpec {
        has_main_hooks: false,
        vpn: None,
        lan: None,
        lan_ip: None,
        wan: None,
        wan_gw: None,
        has_dns_rdr: false,
        has_bypass_nat: false,
        has_route_to: false,
    }
}

/// Hook text compared case-insensitively, single quotes as double.
pub open spec fn hooks_lower(text: Seq<char>) -> Seq<char> {
    replace(to_lower(text), "'"@, "\""@)
}

/// A (trimmed) line names `kind` and the anchor, with `*` exactly when
/// `child` (the nested form).
pub open spec fn names_hook(l: Seq<char>, kind: Seq<char>, child: bool) -> bool {
    contains(l, kind) && contains(l, "com.tunshare"@) && has_char(l, '*') == child
}

/// A (trimmed) line is a filter `anchor` hook of the anchor (not a
/// scrub or translation one), with `*` exactly when `child`.
pub open spec fn is_filter_hook(l: Seq<char>, child: bool) -> bool {
    !contains(l, "nat-anchor"@) && !contains(l, "rdr-anchor"@) && !contains(l, "scrub-anchor"@)
        && contains(l, "anchor"@) && contains(l, "com.tunshare"@) && has_char(l, '*') == child
}

/// Some line of `lower` names `kind` and the anchor, with `*` exactly
/// when `child`.
pub open spec fn line_has_spec(lower: Seq<char>, kind: Seq<char>, child: bool) -> bool {
    exists|k: int|
        0 <= k < lines(lower).len() && names_hook(trim(#[trigger] lines(lower)[k]), kind, child)
}

/// Some line of `lower` is a filter hook of the anchor.
pub open spec fn filter_hook_spec(lower: Seq<char>, child: bool) -> bool {
    exists|k: int|
        0 <= k < lines(lower).len() && is_filter_hook(trim(#[trigger] lines(lower)[k]), child)
}

/// All eight MAIN hooks are present.
pub open spec fn main_hooks_present_spec(text: Seq<char>) -> bool {
    let lower = hooks_lower(text);
    &&& line_has_spec(lower, "scrub-anchor"@, false)
    &&& line_has_spec(lower, "scrub-anchor"@, true)
    &&& line_has_spec(lower, "nat-anchor"@, false)
    &&& line_has_spec(lower, "nat-anchor"@, true)
    &&& line_has_spec(lower, "rdr-anchor"@, false)
    &&& line_has_spec(lower, "rdr-anchor"@, true)
    &&& filter_hook_spec(lower, false)
    &&& filter_hook_spec(lower, true)
}

/// The name and value of a `name = value` macro line, quotes removed.
pub open spec fn macro_of(line: Seq<char>) -> Option<(Seq<char>, Seq<char>)> {
    match split_once(trim(line), "="@) {
        Some((n, v)) => Some((trim(n), trim_char(trim_char(trim(v), '"'), '\''))),
        None => None,
    }
}

/// One line's effect on the interfaces read from macros; the first
/// definition of each macro wins.
pub open spec fn macro_step(pf: PfSpec, line: Seq<char>) -> PfSpec {
    match macro_of(line) {
        None => pf,
        Some((name, value)) => if has_char(name, ' ') || value.len() == 0 {
            pf
        } else if name == "ext_if"@ && pf.vpn is None {
            PfSpec { vpn: Some(value), ..pf }
        } else if name == "int_if"@ && pf.lan is None {
            PfSpec { lan: Some(value), ..pf }
        } else if name == "wan_if"@ && pf.wan is None {
            PfSpec { wan: Some(value), ..pf }
        } else if name == "wan_gw"@ && pf.wan_gw is None {
            PfSpec { wan_gw: parse_ipv4(value), ..pf }
        } else {
            pf
        },
    }
}

/// The macro lines' effect, in order.
pub open spec fn macros_fold(pf: PfSpec, ls: Seq<Seq<char>>) -> PfSpec
    decreases ls.len(),
{
    if ls.len() == 0 {
        pf
    } else {
        macro_step(macros_fold(pf, ls.drop_last()), ls.last())
    }
}

/// One macro line's substitution into `out`.
pub open spec fn expand_step(out: Seq<char>, line: Seq<char>) -> Seq<char> {
    match macro_of(line) {
        None => out,
        Some((name, value)) => if name.len() == 0 || value.len() == 0 || has_char(name, ' ') {
            out
        } else {
            replace(out, seq!['$'] + name, value)
        },
    }
}

/// The substitutions of the macro lines `ls`, in order.
pub open spec fn expand_fold(out: Seq<char>, ls: Seq<Seq<char>>) -> Seq<char>
    decreases ls.len(),
{
    if ls.len() == 0 {
        out
    } else {
        expand_step(expand_fold(out, ls.drop_last()), ls.last())
    }
}

/// `text` with every `$name` of its own macros replaced by the value.
pub open spec fn expand_spec(text: Seq<char>) -> Seq<char> {
    expand_fold(text, lines(text))
}

/// The token after the first `on` token, if the `on` is not last.
pub open spec fn after_on(ts: Seq<Seq<char>>) -> Option<Seq<char>>
    decreases ts.len(),
{
    if ts.len() == 0 {
        None
    } else if ts[0] == "on"@ {
        if ts.len() > 1 {
            Some(ts[1])
        } else {
            None
        }
    } else {
        after_on(ts.drop_first())
    }
}

/// The interface after the first `on` in a rule.
pub open spec fn iface_after_on_spec(text: Seq<char>) -> Option<Seq<char>> {
    after_on(tokens(text))
}

/// The interface and target of a DNS redirect rule (the part after
/// `rdr `), if it is one.
pub open spec fn dns_rdr_spec(rest: Seq<char>) -> Option<(Seq<char>, Ipv4)> {
    if !contains(rest, "port"@) || !contains(rest, "53"@) {
        None
    } else {
        match iface_after_on_spec(rest) {
            None => None,
            Some(iface) => match first_token(after_last(rest, "->"@)) {
                None => None,
                Some(tok) => match parse_ipv4(tok) {
                    None => None,
                    Some(ip) => Some((iface, ip)),
                },
            },
        }
    }
}

/// A NAT rule's effect (the part after `nat on `): NAT to the bypass
/// table names the WAN, any other names the VPN if none is known yet.
pub open spec fn nat_step(pf: PfSpec, rest: Seq<char>) -> PfSpec {
    match first_token(rest) {
        None => pf,
        Some(iface) => {
            let to_bypass = contains(rest, "to <tunshare_bypass>"@) || contains(
                rest,
                "to < tunshare_bypass >"@,
            );
            let to_not_bypass = contains(rest, "to ! <tunshare_bypass>"@) || contains(
                rest,
                "to ! <"@,
            );
            if to_bypass && !to_not_bypass {
                PfSpec { has_bypass_nat: true, wan: Some(iface), ..pf }
            } else if pf.vpn is None {
                PfSpec { vpn: Some(iface), ..pf }
            } else {
                pf
            }
        },
    }
}

/// The interface and gateway inside `route-to (iface gw)`.
pub open spec fn route_to_spec(line: Seq<char>) -> Option<(Seq<char>, Ipv4)> {
    match second_piece(line, "route-to"@) {
        None => None,
        Some(rest) => match second_piece(rest, "("@) {
            None => None,
            Some(p) => {
                let ts = tokens(trim(before_first(p, ")"@)));
                if ts.len() < 2 {
                    None
                } else {
                    match parse_ipv4(ts[1]) {
                        None => None,
                        Some(gw) => Some((ts[0], gw)),
                    }
                }
            },
        },
    }
}

/// One (expanded) rule line's effect.
pub open spec fn body_step(pf: PfSpec, line: Seq<char>) -> PfSpec {
    let l = trim(line);
    match strip_prefix(l, "rdr "@) {
        Some(rest) => match dns_rdr_spec(rest) {
            Some((iface, ip)) => PfSpec {
                lan: Some(iface),
                lan_ip: Some(ip),
                has_dns_rdr: true,
                ..pf
            },
            None => pf,
        },
        None => match strip_prefix(l, "nat on "@) {
            Some(rest) => nat_step(pf, rest),
            None => if contains(l, "route-to"@) && contains(l, "tunshare_bypass"@) {
                match route_to_spec(l) {
                    Some((iface, gw)) => PfSpec {
                        has_route_to: true,
                        wan: Some(iface),
                        wan_gw: Some(gw),
                        ..pf
                    },
                    None => PfSpec { has_route_to: true, ..pf },
                }
            } else {
                pf
            },
        },
    }
}

/// The rule lines' effect, in order.
pub open spec fn body_fold(pf: PfSpec, ls: Seq<Seq<char>>) -> PfSpec
    decreases ls.len(),
{
    if ls.len() == 0 {
        pf
    } else {
        body_step(body_fold(pf, ls.drop_last()), ls.last())
    }
}

/// What a ruleset text says about the sharing setup.
pub open spec fn parse_pf_spec(text: Seq<char>) -> PfSpec {
    let pf0 = PfSpec { has_main_hooks: main_hooks_present_spec(text), ..empty_pf() };
    body_fold(macros_fold(pf0, lines(text)), lines(expand_spec(text)))
}

/// What MAIN and the anchor body together say: the body's findings,
/// hook detection from MAIN, and MAIN's findings filling in when the
/// body has no DNS redirect.
pub open spec fn contract_spec(main: Seq<char>, body: Seq<char>) -> PfSpec {
    let pf = PfSpec { has_main_hooks: main_hooks_present_spec(main), ..parse_pf_spec(body) };
    if !pf.has_dns_rdr {
        let m = parse_pf_spec(main);
        PfSpec {
            has_main_hooks: pf.has_main_hooks,
            vpn: if pf.vpn is None { m.vpn } else { pf.vpn },
            lan: if pf.lan is None { m.lan } else { pf.lan },
            lan_ip: if pf.lan_ip is None { m.lan_ip } else { pf.lan_ip },
            wan: if pf.wan is None { m.wan } else { pf.wan },
            wan_gw: if pf.wan_gw is None { m.wan_gw } else { pf.wan_gw },
            has_dns_rdr: m.has_dns_rdr,
            has_bypass_nat: pf.has_bypass_nat || m.has_bypass_nat,
            has_route_to: pf.has_route_to || m.has_route_to,
        }
    } else {
        pf
    }
}

// ---------------------------------------------------------------------
// Executable reading of rule text
// ---------------------------------------------------------------------

/// Whether some line of `lower` names `kind` and the anchor.
fn line_has(lower: &[char], kind: &str, child: bool) -> (b: bool)
    ensures
        b == line_has_spec(lower@, kind@, child),
{
    let ls = split_lines(lower);
    let ghost lv = views(ls@);
    let star = single('*');
    let mut k: usize = 0;
    while k < ls.len()
        invariant
            lv == views(ls@),
            lv == lines(lower@),
            k <= ls@.len(),
            star@ == seq!['*'],
            forall|j: int| 0 <= j < k ==> !names_hook(trim(#[trigger] lv[j]), kind@, child),
        decreases ls@.len() - k,
    {
        let l = trim_chars(ls[k]);
        assert(lv[k as int] == ls@[k as int]@);
        if has(l, kind) && has(l, "com.tunshare") && contains_chars(l, star.as_slice()) == child {
            assert(names_hook(trim(lines(lower@)[k as int]), kind@, child));
            return true;
        }
        k = k + 1;
    }
    false
}

/// Whether some line of `lower` is a filter hook of the anchor.
fn filter_hook(lower: &[char], child: bool) -> (b: bool)
    ensures
        b == filter_hook_spec(lower@, child),
{
    let ls = split_lines(lower);
    let ghost lv = views(ls@);
    let star = single('*');
    let mut k: usize = 0;
    while k < ls.len()
        invariant
            lv == views(ls@),
            lv == lines(lower@),
            k <= ls@.len(),
            star@ == seq!['*'],
            forall|j: int| 0 <= j < k ==> !is_filter_hook(trim(#[trigger] lv[j]), child),
        decreases ls@.len() - k,
    {
        let l = trim_chars(ls[k]);
        assert(lv[k as int] == ls@[k as int]@);
        let other_kind = has(l, "nat-anchor") || has(l, "rdr-anchor") || has(l, "scrub-anchor");
        if !other_kind && has(l, "anchor") && has(l, "com.tunshare") && contains_chars(
            l,
            star.as_slice(),
        ) == child {
            assert(is_filter_hook(trim(lines(lower@)[k as int]), child));
            return true;
        }
        k = k + 1;
    }
    false
}

/// Whether all eight MAIN hooks are present in a ruleset text, compared
/// case-insensitively and with single quotes read as double.
pub fn main_hooks_present(text: &str) -> (b: bool)
    ensures
        b == main_hooks_present_spec(text@),
{
    let v = chars_of(text);
    let lower0 = to_lower_chars(v.as_slice());
    let q = chars_of("'");
    let dq = chars_of("\"");
    proof {
        reveal_strlit("'");
    }
    let lower_v = replace_chars(lower0.as_slice(), q.as_slice(), dq.as_slice());
    let lower = lower_v.as_slice();
    line_has(lower, "scrub-anchor", false) && line_has(lower, "scrub-anchor", true) && line_has(
        lower,
        "nat-anchor",
        false,
    ) && line_has(lower, "nat-anchor", true) && line_has(lower, "rdr-anchor", false) && line_has(
        lower,
        "rdr-anchor",
        true,
    ) && filter_hook(lower, false) && filter_hook(lower, true)
}

/// The name and value of a `name = value` macro line.
fn macro_parts<'a>(line: &'a [char]) -> (r: Option<(&'a [char], &'a [char])>)
    ensures
        match r {
            Some((n, v)) => macro_of(line@) == Some((n@, v@)),
            None => macro_of(line@) is None,
        },
{
    let t = trim_chars(line);
    let eq = chars_of("=");
    match split_once_chars(t, eq.as_slice()) {
        Some((n, v)) => {
            let name = trim_chars(n);
            let value = trim_char_chars(trim_char_chars(trim_chars(v), '"'), '\'');
            Some((name, value))
        },
        None => None,
    }
}

/// Applies one macro line to the interfaces read so far.
fn apply_macro(pf: &mut PfContract, line: &[char])
    ensures
        final(pf).spec() == macro_step(old(pf).spec(), line@),
{
    match macro_parts(line) {
        None => {},
        Some((name, value)) => {
            let sp = single(' ');
            if contains_chars(name, sp.as_slice()) || value.len() == 0 {
                return ;
            }
            if is_text(name, "ext_if") && pf.vpn.is_none() {
                pf.vpn = Some(string_of(value));
            } else if is_text(name, "int_if") && pf.lan.is_none() {
                pf.lan = Some(string_of(value));
            } else if is_text(name, "wan_if") && pf.wan.is_none() {
                pf.wan = Some(string_of(value));
            } else if is_text(name, "wan_gw") && pf.wan_gw.is_none() {
                pf.wan_gw = parse_ipv4_chars(value);
            }
        },
    }
}

/// Reads the interface macros of a ruleset text; the first definition
/// of each wins.
fn parse_pf_macros(text: &[char], pf: &mut PfContract)
    ensures
        final(pf).spec() == macros_fold(old(pf).spec(), lines(text@)),
{
    let ls = split_lines(text);
    let ghost lv = views(ls@);
    let ghost pf0 = pf.spec();
    let mut k: usize = 0;
    assert(lv.take(0) =~= Seq::<Seq<char>>::empty());
    while k < ls.len()
        invariant
            lv == views(ls@),
            lv == lines(text@),
            k <= ls@.len(),
            pf.spec() == macros_fold(pf0, lv.take(k as int)),
        decreases ls@.len() - k,
    {
        assert(lv[k as int] == ls@[k as int]@);
        apply_macro(pf, ls[k]);
        assert(lv.take(k + 1).drop_last() =~= lv.take(k as int));
        k = k + 1;
    }
    assert(lv.take(ls@.len() as int) =~= lv);
}

/// The text with every `$name` of its own macros replaced by the value.
fn expand_pf_macros(text: &[char]) -> (out: Vec<char>)
    ensures
        out@ == expand_spec(text@),
{
    let mut out: Vec<char> = Vec::new();
    extend_chars(&mut out, text);
    assert(out@ =~= text@);
    let ls = split_lines(text);
    let ghost lv = views(ls@);
    let sp = single(' ');
    let mut k: usize = 0;
    assert(lv.take(0) =~= Seq::<Seq<char>>::empty());
    while k < ls.len()
        invariant
            lv == views(ls@),
            lv == lines(text@),
            k <= ls@.len(),
            sp@ == seq![' '],
            out@ == expand_fold(text@, lv.take(k as int)),
        decreases ls@.len() - k,
    {
        assert(lv[k as int] == ls@[k as int]@);
        match macro_parts(ls[k]) {
            Some((name, value)) => {
                if name.len() > 0 && value.len() > 0 && !contains_chars(name, sp.as_slice()) {
                    let mut pat: Vec<char> = Vec::new();
                    pat.push('$');
                    extend_chars(&mut pat, name);
                    assert(pat@ =~= seq!['$'] + name@);
                    out = replace_chars(out.as_slice(), pat.as_slice(), value);
                }
            },
            None => {},
        }
        assert(lv.take(k + 1).drop_last() =~= lv.take(k as int));
        k = k + 1;
    }
    assert(lv.take(ls@.len() as int) =~= lv);
    out
}

/// The token after the first `on` token of `text`.
fn iface_after_on<'a>(text: &'a [char]) -> (r: Option<&'a [char]>)
    ensures
        match r {
            Some(x) => iface_after_on_spec(text@) == Some(x@),
            None => iface_after_on_spec(text@) is None,
        },
{
    let ts = tokens_of(text);
    let ghost tv = views(ts@);
    let mut i: usize = 0;
    assert(tv.skip(0) =~= tv);
    while i < ts.len()
        invariant
            tv == views(ts@),
            tv == tokens(text@),
            i <= ts@.len(),
            after_on(tv) == after_on(tv.skip(i as int)),
        decreases ts@.len() - i,
    {
        assert(tv.skip(i as int)[0] == ts@[i as int]@);
        if is_text(ts[i], "on") {
            if i + 1 < ts.len() {
                assert(tv.skip(i as int)[1] == ts@[i + 1]@);
                return Some(ts[i + 1]);
            }
            return None;
        }
        assert(tv.skip(i as int).drop_first() =~= tv.skip(i + 1));
        i = i + 1;
    }
    assert(tv.skip(i as int).len() == 0);
    None
}

/// The interface and target of a DNS redirect (the part after `rdr `).
fn parse_dns_rdr<'a>(rest: &'a [char]) -> (r: Option<(&'a [char], Ipv4)>)
    ensures
        match r {
            Some((i, ip)) => dns_rdr_spec(rest@) == Some((i@, ip)),
            None => dns_rdr_spec(rest@) is None,
        },
{
    let names_dns = has(rest, "port") && has(rest, "53");
    if !names_dns {
        return None;
    }
    let iface = match iface_after_on(rest) {
        Some(x) => x,
        None => {
            return None;
        },
    };
    let arrow = chars_of("->");
    proof {
        reveal_strlit("->");
    }
    let tail = after_last_chars(rest, arrow.as_slice());
    let ts = tokens_of(tail);
    if ts.len() == 0 {
        return None;
    }
    match parse_ipv4_chars(ts[0]) {
        Some(ip) => Some((iface, ip)),
        None => None,
    }
}

/// Applies a NAT rule (the part after `nat on `).
fn apply_nat(pf: &mut PfContract, rest: &[char])
    ensures
        final(pf).spec() == nat_step(old(pf).spec(), rest@),
{
    let ts = tokens_of(rest);
    if ts.len() == 0 {
        return ;
    }
    let iface = ts[0];
    let to_bypass = has(rest, "to <tunshare_bypass>") || has(rest, "to < tunshare_bypass >");
    let to_not_bypass = has(rest, "to ! <tunshare_bypass>") || has(rest, "to ! <");
    if to_bypass && !to_not_bypass {
        pf.has_bypass_nat = true;
        pf.wan = Some(string_of(iface));
    } else if pf.vpn.is_none() {
        pf.vpn = Some(string_of(iface));
    }
}

/// The interface and gateway inside `route-to (iface gw)`.
fn parse_route_to<'a>(line: &'a [char]) -> (r: Option<(&'a [char], Ipv4)>)
    ensures
        match r {
            Some((i, gw)) => route_to_spec(line@) == Some((i@, gw)),
            None => route_to_spec(line@) is None,
        },
{
    let kw = chars_of("route-to");
    let rest = match second_piece_chars(line, kw.as_slice()) {
        Some(x) => x,
        None => {
            return None;
        },
    };
    let open = chars_of("(");
    let p = match second_piece_chars(rest, open.as_slice()) {
        Some(x) => x,
        None => {
            return None;
        },
    };
    let close = chars_of(")");
    let inner = trim_chars(before_first_chars(p, close.as_slice()));
    let ts = tokens_of(inner);
    if ts.len() < 2 {
        return None;
    }
    match parse_ipv4_chars(ts[1]) {
        Some(gw) => Some((ts[0], gw)),
        None => None,
    }
}

/// Applies one (expanded) rule line.
fn apply_rule_line(pf: &mut PfContract, line: &[char])
    ensures
        final(pf).spec() == body_step(old(pf).spec(), line@),
{
    let l = trim_chars(line);
    let rdr = chars_of("rdr ");
    match strip_prefix_chars(l, rdr.as_slice()) {
        Some(rest) => {
            match parse_dns_rdr(rest) {
                Some((iface, ip)) => {
                    pf.lan = Some(string_of(iface));
                    pf.lan_ip = Some(ip);
                    pf.has_dns_rdr = true;
                },
                None => {},
            }
        },
        None => {
            let natp = chars_of("nat on ");
            match strip_prefix_chars(l, natp.as_slice()) {
                Some(rest) => apply_nat(pf, rest),
                None => {
                    if has(l, "route-to") && has(l, "tunshare_bypass") {
                        pf.has_route_to = true;
                        match parse_route_to(l) {
                            Some((iface, gw)) => {
                                pf.wan = Some(string_of(iface));
                                pf.wan_gw = Some(gw);
                            },
                            None => {},
                        }
                    }
                },
            }
        },
    }
}

/// What a ruleset text says about the sharing setup: hooks, interface
/// macros, DNS redirect, bypass NAT and `route-to`.
pub fn parse_pf(text: &str) -> (pf: PfContract)
    ensures
        pf.spec() == parse_pf_spec(text@),
{
    let mut pf = PfContract::empty();
    pf.has_main_hooks = main_hooks_present(text);
    let v = chars_of(text);
    parse_pf_macros(v.as_slice(), &mut pf);
    let expanded = expand_pf_macros(v.as_slice());
    let ls = split_lines(expanded.as_slice());
    let ghost lv = views(ls@);
    let ghost pf1 = pf.spec();
    let mut k: usize = 0;
    assert(lv.take(0) =~= Seq::<Seq<char>>::empty());
    while k < ls.len()
        invariant
            lv == views(ls@),
            lv == lines(expanded@),
            k <= ls@.len(),
            pf.spec() == body_fold(pf1, lv.take(k as int)),
        decreases ls@.len() - k,
    {
        assert(lv[k as int] == ls@[k as int]@);
        apply_rule_line(&mut pf, ls[k]);
        assert(lv.take(k + 1).drop_last() =~= lv.take(k as int));
        k = k + 1;
    }
    assert(lv.take(ls@.len() as int) =~= lv);
    pf
}

// ---------------------------------------------------------------------
// pfctl replies and cleanup
// ---------------------------------------------------------------------

/// pfctl's stderr reports a rejected ruleset.
pub open spec fn syntax_error_spec(stderr: Seq<char>) -> bool {
    let lower = to_lower(stderr);
    contains(lower, "syntax error"@) || contains(lower, "rules not loaded"@) || contains(
        lower,
        "rules must be in order"@,
    )
}

/// A stderr line that only warns (the `-f` notice, missing ALTQ, pf
/// enabled, rules loaded) or is blank.
pub open spec fn warning_line(l: Seq<char>) -> bool {
    let t = trim(l);
    ||| t.len() == 0
    ||| contains(t, "Use of -f option"@)
    ||| contains(t, "No ALTQ support"@)
    ||| contains(t, "ALTQ related functions disabled"@)
    ||| contains(t, "pf enabled"@)
    ||| contains(t, "rules loaded"@)
}

/// pfctl's stderr holds warnings only.
pub open spec fn warning_only_spec(stderr: Seq<char>) -> bool {
    let t = trim(stderr);
    t.len() == 0 || forall|k: int| 0 <= k < lines(t).len() ==> warning_line(#[trigger] lines(t)[k])
}

/// A pfctl run failed: a syntax error, or a failure exit with more than
/// warnings on stderr.
pub open spec fn pfctl_failed(success: bool, stderr: Seq<char>) -> bool {
    syntax_error_spec(stderr) || (!success && !warning_only_spec(stderr))
}

/// Whether pfctl's stderr reports a rejected ruleset.
pub fn pfctl_syntax_error(stderr: &str) -> (b: bool)
    ensures
        b == syntax_error_spec(stderr@),
{
    let v = chars_of(stderr);
    let lower_v = to_lower_chars(v.as_slice());
    let lower = lower_v.as_slice();
    has(lower, "syntax error") || has(lower, "rules not loaded") || has(
        lower,
        "rules must be in order",
    )
}

/// Whether pfctl's stderr holds warnings only (`-f` always warns on
/// macOS, so a failure exit with only these lines is not an error).
pub fn pfctl_f_warning_only(stderr: &str) -> (b: bool)
    ensures
        b == warning_only_spec(stderr@),
{
    let v = chars_of(stderr);
    let t = trim_chars(v.as_slice());
    if t.len() == 0 {
        return true;
    }
    let ls = split_lines(t);
    let ghost lv = views(ls@);
    let mut k: usize = 0;
    while k < ls.len()
        invariant
            lv == views(ls@),
            lv == lines(t@),
            t@ == trim(stderr@),
            k <= ls@.len(),
            forall|j: int| 0 <= j < k ==> warning_line(#[trigger] lv[j]),
        decreases ls@.len() - k,
    {
        let l = trim_chars(ls[k]);
        assert(lv[k as int] == ls@[k as int]@);
        let ok = l.len() == 0 || has(l, "Use of -f option") || has(l, "No ALTQ support") || has(
            l,
            "ALTQ related functions disabled",
        ) || has(l, "pf enabled") || has(l, "rules loaded");
        if !ok {
            assert(!warning_line(lines(t@)[k as int]));
            return false;
        }
        k = k + 1;
    }
    true
}

/// The error text of a failed pfctl run.
pub open spec fn pfctl_error_text(prefix: Seq<char>, stderr: Seq<char>) -> Seq<char> {
    prefix + ": "@ + trim(stderr)
}

/// The outcome of a pfctl load or check run, from its exit status and
/// stderr: an error carrying `prefix` and the trimmed stderr exactly
/// when the run failed.
pub fn interpret_pfctl(success: bool, stderr: &str, prefix: &str) -> (r: Result<(), TunshareError>)
    ensures
        r is Ok <==> !pfctl_failed(success, stderr@),
        r matches Err(e) ==> is_firewall_error(e, pfctl_error_text(prefix@, stderr@)),
{
    if pfctl_syntax_error(stderr) || (!success && !pfctl_f_warning_only(stderr)) {
        let mut out: Vec<char> = Vec::new();
        extend_str(&mut out, prefix);
        extend_str(&mut out, ": ");
        let v = chars_of(stderr);
        extend_chars(&mut out, trim_chars(v.as_slice()));
        assert(out@ =~= pfctl_error_text(prefix@, stderr@));
        return Err(TunshareError::FirewallError(string_of(out.as_slice())));
    }
    Ok(())
}

/// Two ruleset dumps joined by a newline, leaving out a blank one.
pub open spec fn join_blocks_spec(a: Seq<char>, b: Seq<char>) -> Seq<char> {
    let a_blank = trim(a).len() == 0;
    let b_blank = trim(b).len() == 0;
    if a_blank && b_blank {
        seq![]
    } else if b_blank {
        a
    } else if a_blank {
        b
    } else {
        a + seq!['\n'] + b
    }
}

/// Two ruleset dumps (translation and filter) as one text.
pub fn join_blocks(a: &str, b: &str) -> (out: String)
    ensures
        out@ == join_blocks_spec(a@, b@),
{
    let av = chars_of(a);
    let bv = chars_of(b);
    let a_blank = trim_chars(av.as_slice()).len() == 0;
    let b_blank = trim_chars(bv.as_slice()).len() == 0;
    if a_blank && b_blank {
        return String::new();
    }
    if b_blank {
        return string_of(av.as_slice());
    }
    if a_blank {
        return string_of(bv.as_slice());
    }
    let mut out: Vec<char> = Vec::new();
    extend_chars(&mut out, av.as_slice());
    out.push('\n');
    extend_chars(&mut out, bv.as_slice());
    string_of(out.as_slice())
}

/// A MAIN line that stays when sharing stops.
pub open spec fn kept_for_cleanup(l: Seq<char>) -> bool {
    !is_tunshare_line_spec(l) && trim(l) != skip_line()
}

/// The lines that stay when sharing stops, trimmed, one per line.
pub open spec fn strip_lines(ls: Seq<Seq<char>>) -> Seq<char>
    decreases ls.len(),
{
    if ls.len() == 0 {
        seq![]
    } else {
        strip_lines(ls.drop_last()) + if kept_for_cleanup(ls.last()) {
            trim(ls.last()) + seq!['\n']
        } else {
            seq![]
        }
    }
}

/// MAIN without sharing's lines and the skip line.
pub open spec fn strip_main_spec(text: Seq<char>) -> Seq<char> {
    strip_lines(lines(text))
}

/// MAIN without sharing's lines and the skip line, each kept line
/// trimmed.
pub fn strip_main(existing: &str) -> (out: String)
    ensures
        out@ == strip_main_spec(existing@),
{
    let v = chars_of(existing);
    let ls = split_lines(v.as_slice());
    let ghost lv = views(ls@);
    let mut out: Vec<char> = Vec::new();
    let mut k: usize = 0;
    assert(lv.take(0) =~= Seq::<Seq<char>>::empty());
    while k < ls.len()
        invariant
            lv == views(ls@),
            lv == lines(existing@),
            k <= ls@.len(),
            out@ == strip_lines(lv.take(k as int)),
        decreases ls@.len() - k,
    {
        let line = ls[k];
        assert(lv[k as int] == line@);
        let t = trim_chars(line);
        if !is_tunshare_line_chars(line) && !is_text(t, "set skip on lo0") {
            extend_chars(&mut out, t);
            out.push('\n');
        }
        assert(lv.take(k + 1).drop_last() =~= lv.take(k as int));
        assert(out@ =~= strip_lines(lv.take(k + 1)));
        k = k + 1;
    }
    assert(lv.take(ls@.len() as int) =~= lv);
    string_of(out.as_slice())
}

/// What to load into MAIN when sharing stops.
#[derive(Debug)]
pub enum MainCleanup {
    /// Nothing foreign is left: reload the system's default rules
    /// ([`DEFAULT_PF_CONF`]) when that file exists.
    RestoreDefault,
    /// Load this text (written to [`PF_MAIN_PATH`]): the foreign lines in
    /// section order, without the hooks.
    LoadOrdered(String),
}

/// What MAIN becomes when sharing stops, from a snapshot of it.
pub fn cleanup_main_plan(existing: &str) -> (plan: MainCleanup)
    ensures
        match plan {
            MainCleanup::RestoreDefault => remaining_main_is_empty_spec(
                strip_main_spec(existing@),
            ),
            MainCleanup::LoadOrdered(t) => !remaining_main_is_empty_spec(strip_main_spec(existing@))
                && t@ == order_main_spec(strip_main_spec(existing@)),
        },
{
    let stripped = strip_main(existing);
    if remaining_main_is_empty(stripped.as_str()) {
        MainCleanup::RestoreDefault
    } else {
        MainCleanup::LoadOrdered(order_main(stripped.as_str()))
    }
}

/// The outcome of a cleanup from the errors it met: one firewall error
/// joining them with `"; "`, or success when there were none.
pub fn cleanup_outcome(errors: &[String]) -> (r: Result<(), TunshareError>)
    ensures
        r is Ok <==> errors@.len() == 0,
        r matches Err(e) ==> is_firewall_error(e, join_with(string_views(errors@), "; "@)),
{
    if errors.len() == 0 {
        return Ok(());
    }
    Err(TunshareError::FirewallError(join_strings(errors, "; ")))
}

/// Operations on the bypass table.
#[derive(Clone, Copy, Debug, PartialEq, Eq, Structural)]
pub enum TableOp {
    Add,
    Delete,
}

/// The pfctl word of a table operation.
pub open spec fn table_op_word(op: TableOp) -> Seq<char> {
    match op {
        TableOp::Add => "add"@,
        TableOp::Delete => "delete"@,
    }
}

/// The dotted-quad texts of addresses.
pub open spec fn ip_texts(ips: Seq<Ipv4>) -> Seq<Seq<char>> {
    ips.map_values(|ip: Ipv4| ip_text(ip))
}

/// The pfctl arguments that add or delete `ips` in the bypass table.
pub open spec fn table_args_spec(op: TableOp, ips: Seq<Ipv4>) -> Seq<Seq<char>> {
    seq!["-a"@, ANCHOR_NAME@, "-t"@, BYPASS_TABLE@, "-T"@, table_op_word(op)] + ip_texts(ips)
}

/// The addresses of `pfctl -T show` output, one per line; lines that
/// are not an address are skipped.
pub open spec fn table_ips(ls: Seq<Seq<char>>) -> Seq<Ipv4>
    decreases ls.len(),
{
    if ls.len() == 0 {
        seq![]
    } else {
        table_ips(ls.drop_last()) + match parse_ipv4(trim(ls.last())) {
            Some(ip) => seq![ip],
            None => seq![],
        }
    }
}

/// pfctl's stderr says the table does not exist.
pub open spec fn table_missing(stderr: Seq<char>) -> bool {
    let lower = to_lower(stderr);
    contains(lower, "does not exist"@) || contains(lower, "no such table"@)
}

/// pfctl's stderr says the process lacks privilege.
pub open spec fn permission_refused(stderr: Seq<char>) -> bool {
    contains(stderr, "Permission denied"@) || contains(stderr, "Operation not permitted"@)
}

/// The arguments of one string list.
fn push_arg(args: &mut Vec<String>, a: &str)
    ensures
        string_views(final(args)@) == string_views(old(args)@).push(a@),
{
    let ghost before = args@;
    args.push(String::from_str(a));
    assert(string_views(args@) =~= string_views(before).push(a@));
}

/// Manages the pf rules of a sharing session.
pub struct Firewall {
    /// Whether sharing rules are loaded.
    rules_loaded: bool,
    /// Path of the anchor body file.
    config_path: String,
}

impl Firewall {
    /// Whether sharing rules are loaded.
    pub closed spec fn loaded(&self) -> bool {
        self.rules_loaded
    }

    /// Path of the anchor body file.
    pub closed spec fn path_view(&self) -> Seq<char> {
        self.config_path@
    }

    /// A manager with nothing loaded, writing its body to the default path.
    pub fn new() -> (fw: Firewall)
        ensures
            !fw.loaded(),
            fw.path_view() == PF_BODY_PATH@,
    {
        Firewall { rules_loaded: false, config_path: String::from_str(PF_BODY_PATH) }
    }

    /// Path of the anchor body file.
    pub fn config_path(&self) -> (p: &str)
        ensures
            p@ == self.path_view(),
    {
        self.config_path.as_str()
    }

    /// Whether sharing rules are loaded.
    pub fn rules_loaded(&self) -> (b: bool)
        ensures
            b == self.loaded(),
    {
        self.rules_loaded
    }

    /// Records that the anchor body and MAIN hooks were loaded.
    pub fn mark_loaded(&mut self)
        ensures
            final(self).loaded(),
            final(self).path_view() == old(self).path_view(),
    {
        self.rules_loaded = true;
    }

    /// Records the end of a synchronous cleanup and hands back the body
    /// file that the cleanup removes; the caller runs the flush and
    /// restore commands that [`cleanup_main_plan`] decides.
    pub fn cleanup_sync(&mut self) -> (path: String)
        ensures
            !final(self).loaded(),
            final(self).path_view() == old(self).path_view(),
            path@ == old(self).path_view(),
    {
        self.rules_loaded = false;
        self.config_path.clone()
    }

    /// MAIN hook lines, in load order.
    pub fn main_hooks() -> (hooks: Vec<&'static str>)
        ensures
            hooks@.len() == 8,
            forall|k: int| 0 <= k < 8 ==> (#[trigger] hooks@[k])@ == main_hooks_spec()[k],
    {
        let hooks = vec![
            "scrub-anchor \"com.tunshare\"",
            "scrub-anchor \"com.tunshare/*\"",
            "nat-anchor \"com.tunshare\"",
            "nat-anchor \"com.tunshare/*\"",
            "rdr-anchor \"com.tunshare\"",
            "rdr-anchor \"com.tunshare/*\"",
            "anchor \"com.tunshare\"",
            "anchor \"com.tunshare/*\"",
        ];
        hooks
    }

    /// Anchor body: scrub, table, NAT, DNS rdr, filter. No MAIN hooks.
    ///
    /// The MSS clamp is inbound on the share interface, before source
    /// NAT: a clamp on the outbound VPN side would never match, since NAT
    /// has already rewritten the source address.
    pub fn generate_rules(
        vpn_if: &str,
        lan_if: &str,
        lan_ip: Ipv4,
        mss: u16,
        bypass: Option<&BypassConfig>,
    ) -> (rules: String)
        ensures
            rules@ == rules_text(
                vpn_if@,
                lan_if@,
                lan_ip,
                mss,
                match bypass {
                    Some(b) => Some((b.wan_if@, b.wan_gw)),
                    None => None,
                },
            ),
    {
        let ghost bv: Option<(Seq<char>, Ipv4)> = match bypass {
            Some(b) => Some((b.wan_if@, b.wan_gw)),
            None => None,
        };
        let ghost pieces = bypass_pieces(bv);
        let mut wan_macro: Vec<char> = Vec::new();
        let mut table_line: Vec<char> = Vec::new();
        let mut vpn_nat: Vec<char> = Vec::new();
        let mut extra_nat: Vec<char> = Vec::new();
        let mut extra_filter: Vec<char> = Vec::new();
        let mut lan_mss_to: Vec<char> = Vec::new();
        match bypass {
            Some(b) => {
                extend_str(&mut wan_macro, "wan_if = \"");
                extend_str(&mut wan_macro, b.wan_if.as_str());
                extend_str(&mut wan_macro, "\"\nwan_gw = \"");
                push_ip(&mut wan_macro, b.wan_gw);
                extend_str(&mut wan_macro, "\"\n");
                extend_str(&mut table_line, "table <tunshare_bypass> persist\n");
                extend_str(
                    &mut vpn_nat,
                    "nat on $ext_if inet from $int_if:network to ! <tunshare_bypass> -> ($ext_if) static-port",
                );
                extend_str(
                    &mut extra_nat,
                    "nat on $wan_if inet from $int_if:network to <tunshare_bypass> -> ($wan_if) static-port\n",
                );
                extend_str(
                    &mut extra_filter,
                    "pass in quick on $int_if route-to ($wan_if $wan_gw) inet from $int_if:network to <tunshare_bypass> keep state\npass out quick on $wan_if inet from ($wan_if) to any keep state\n",
                );
                extend_str(&mut lan_mss_to, "to ! <tunshare_bypass>");
            },
            None => {
                extend_str(
                    &mut vpn_nat,
                    "nat on $ext_if inet from $int_if:network to any -> ($ext_if) static-port",
                );
                extend_str(&mut lan_mss_to, "to any");
            },
        }
        assert(wan_macro@ =~= pieces.0);
        assert(table_line@ =~= pieces.1);
        assert(vpn_nat@ =~= pieces.2);
        assert(extra_nat@ =~= pieces.3);
        assert(extra_filter@ =~= pieces.4);
        assert(lan_mss_to@ =~= pieces.5);
        let mut out: Vec<char> = Vec::new();
        extend_str(&mut out, "# tunshare anchor body \u{2014} com.tunshare\n# VPN interface: ");
        extend_str(&mut out, vpn_if);
        extend_str(&mut out, "\n# LAN interface: ");
        extend_str(&mut out, lan_if);
        extend_str(&mut out, "\n\next_if = \"");
        extend_str(&mut out, vpn_if);
        extend_str(&mut out, "\"\nint_if = \"");
        extend_str(&mut out, lan_if);
        extend_str(&mut out, "\"\n");
        extend_chars(&mut out, wan_macro.as_slice());
        extend_chars(&mut out, table_line.as_slice());
        extend_str(
            &mut out,
            "\nscrub in all no-df\nscrub in on $int_if inet proto tcp from $int_if:network ",
        );
        extend_chars(&mut out, lan_mss_to.as_slice());
        extend_str(&mut out, " no-df max-mss ");
        push_dec(&mut out, mss as u64);
        extend_str(&mut out, "\nscrub out on $ext_if inet proto tcp from ($ext_if) to any max-mss ");
        push_dec(&mut out, mss as u64);
        extend_str(&mut out, "\n");
        extend_chars(&mut out, vpn_nat.as_slice());
        extend_str(&mut out, "\n");
        extend_chars(&mut out, extra_nat.as_slice());
        extend_str(&mut out, "rdr on $int_if inet proto udp from $int_if:network to any port 53 -> ");
        push_ip(&mut out, lan_ip);
        extend_str(&mut out, "\nrdr on $int_if inet proto tcp from $int_if:network to any port 53 -> ");
        push_ip(&mut out, lan_ip);
        extend_str(&mut out, "\n\n");
        extend_chars(&mut out, extra_filter.as_slice());
        extend_str(
            &mut out,
            "pass quick on $int_if all keep state\npass out quick on $ext_if inet from ($ext_if) to any keep state\n",
        );
        assert(out@ =~= rules_text(vpn_if@, lan_if@, lan_ip, mss, bv));
        string_of(out.as_slice())
    }

    /// MAIN fragment: the skip line plus the hooks, one per line.
    pub fn generate_main_hooks() -> (text: String)
        ensures
            text@ == main_hooks_text(),
    {
        let mut out: Vec<char> = Vec::new();
        extend_str(&mut out, "set skip on lo0");
        out.push('\n');
        let hooks = Self::main_hooks();
        let mut k: usize = 0;
        let ghost ls = seq![skip_line()] + main_hooks_spec();
        assert(join_lines(ls.take(1)) =~= skip_line() + seq!['\n']) by {
            assert(ls.take(1).drop_last() =~= Seq::<Seq<char>>::empty());
            assert(ls.take(1).last() == skip_line());
            assert(join_lines(Seq::<Seq<char>>::empty()) =~= Seq::<char>::empty());
            assert(Seq::<char>::empty() + skip_line() =~= skip_line());
        }
        while k < hooks.len()
            invariant
                hooks@.len() == 8,
                forall|j: int| 0 <= j < 8 ==> (#[trigger] hooks@[j])@ == main_hooks_spec()[j],
                ls == seq![skip_line()] + main_hooks_spec(),
                k <= 8,
                out@ == join_lines(ls.take(k + 1)),
            decreases 8 - k,
        {
            extend_str(&mut out, hooks[k]);
            out.push('\n');
            assert(ls.take(k + 2).drop_last() =~= ls.take(k + 1));
            assert(ls.take(k + 2).last() == main_hooks_spec()[k as int]);
            k = k + 1;
        }
        assert(ls.take(9) =~= ls);
        string_of(out.as_slice())
    }

    /// What MAIN and the anchor body together say. The body's findings
    /// win; hook detection comes from MAIN, and when the body has no DNS
    /// redirect MAIN's findings fill the gaps.
    pub fn contract_from_text(main: &str, body: &str) -> (pf: PfContract)
        ensures
            pf.spec() == contract_spec(main@, body@),
    {
        let mut pf = parse_pf(body);
        pf.has_main_hooks = main_hooks_present(main);
        if !pf.has_dns_rdr {
            let m = parse_pf(main);
            let PfContract {
                has_main_hooks: _,
                vpn,
                lan,
                lan_ip,
                wan,
                wan_gw,
                has_dns_rdr,
                has_bypass_nat,
                has_route_to,
            } = m;
            if pf.lan.is_none() {
                pf.lan = lan;
            }
            if pf.lan_ip.is_none() {
                pf.lan_ip = lan_ip;
            }
            pf.has_dns_rdr = has_dns_rdr;
            pf.has_bypass_nat = pf.has_bypass_nat || has_bypass_nat;
            pf.has_route_to = pf.has_route_to || has_route_to;
            if pf.wan.is_none() {
                pf.wan = wan;
            }
            if pf.wan_gw.is_none() {
                pf.wan_gw = wan_gw;
            }
            if pf.vpn.is_none() {
                pf.vpn = vpn;
            }
        }
        pf
    }

    /// Whether the output of `pfctl -si` reports pf enabled.
    pub fn status_enabled(info: &str) -> (b: bool)
        ensures
            b == contains(info@, "Status: Enabled"@),
    {
        let v = chars_of(info);
        has(v.as_slice(), "Status: Enabled")
    }

    /// The pfctl arguments that add (or delete) `ips` in the bypass
    /// table; `None` when there is nothing to do.
    pub fn table_args(op: TableOp, ips: &[Ipv4]) -> (args: Option<Vec<String>>)
        ensures
            args is None <==> ips@.len() == 0,
            args matches Some(a) ==> string_views(a@) == table_args_spec(op, ips@),
    {
        if ips.len() == 0 {
            return None;
        }
        let mut args: Vec<String> = Vec::new();
        push_arg(&mut args, "-a");
        push_arg(&mut args, ANCHOR_NAME);
        push_arg(&mut args, "-t");
        push_arg(&mut args, BYPASS_TABLE);
        push_arg(&mut args, "-T");
        match op {
            TableOp::Add => push_arg(&mut args, "add"),
            TableOp::Delete => push_arg(&mut args, "delete"),
        }
        let ghost head = string_views(args@);
        assert(head =~= seq!["-a"@, ANCHOR_NAME@, "-t"@, BYPASS_TABLE@, "-T"@, table_op_word(op)]);
        let mut k: usize = 0;
        while k < ips.len()
            invariant
                k <= ips@.len(),
                string_views(args@) == head + ip_texts(ips@.take(k as int)),
            decreases ips@.len() - k,
        {
            let text = ip_chars(ips[k]);
            let ghost before = args@;
            args.push(string_of(text.as_slice()));
            assert(string_views(args@) =~= string_views(before).push(ip_text(ips@[k as int])));
            assert(ip_texts(ips@.take(k + 1)) =~= ip_texts(ips@.take(k as int)).push(
                ip_text(ips@[k as int]),
            ));
            k = k + 1;
        }
        assert(ips@.take(ips@.len() as int) =~= ips@);
        Some(args)
    }

    /// The outcome of a table add or delete run.
    pub fn table_result(success: bool, stderr: &str) -> (r: Result<(), TunshareError>)
        ensures
            r is Ok <==> success,
            r matches Err(e) ==> is_firewall_error(e, "pfctl -T failed: "@ + trim(stderr@)),
    {
        if success {
            return Ok(());
        }
        let mut out: Vec<char> = Vec::new();
        extend_str(&mut out, "pfctl -T failed: ");
        let v = chars_of(stderr);
        extend_chars(&mut out, trim_chars(v.as_slice()));
        Err(TunshareError::FirewallError(string_of(out.as_slice())))
    }

    /// The addresses in the bypass table from a `pfctl -T show` run:
    /// `None` when the table does not exist, an error when pfctl was
    /// refused or failed otherwise.
    pub fn table_show_result(success: bool, stdout: &str, stderr: &str) -> (r: Result<
        Option<Vec<Ipv4>>,
        TunshareError,
    >)
        ensures
            success ==> (r matches Ok(Some(ips)) && ips@ == table_ips(lines(stdout@))),
            !success && table_missing(stderr@) ==> r matches Ok(None),
            !success && !table_missing(stderr@) && permission_refused(stderr@) ==> r matches Err(
                TunshareError::PermissionDenied,
            ),
            !success && !table_missing(stderr@) && !permission_refused(stderr@) ==> (r matches Err(
                e,
            ) && is_firewall_error(e, "pfctl -T show failed: "@ + trim(stderr@))),
    {
        if !success {
            let ev = chars_of(stderr);
            let lower_v = to_lower_chars(ev.as_slice());
            let lower = lower_v.as_slice();
            if has(lower, "does not exist") || has(lower, "no such table") {
                return Ok(None);
            }
            if has(ev.as_slice(), "Permission denied") || has(
                ev.as_slice(),
                "Operation not permitted",
            ) {
                return Err(TunshareError::PermissionDenied);
            }
            let mut out: Vec<char> = Vec::new();
            extend_str(&mut out, "pfctl -T show failed: ");
            extend_chars(&mut out, trim_chars(ev.as_slice()));
            return Err(TunshareError::FirewallError(string_of(out.as_slice())));
        }
        let v = chars_of(stdout);
        let ls = split_lines(v.as_slice());
        let ghost lv = views(ls@);
        let mut ips: Vec<Ipv4> = Vec::new();
        let mut k: usize = 0;
        assert(lv.take(0) =~= Seq::<Seq<char>>::empty());
        while k < ls.len()
            invariant
                lv == views(ls@),
                lv == lines(stdout@),
                k <= ls@.len(),
                ips@ == table_ips(lv.take(k as int)),
            decreases ls@.len() - k,
        {
            assert(lv[k as int] == ls@[k as int]@);
            match parse_ipv4_chars(trim_chars(ls[k])) {
                Some(ip) => ips.push(ip),
                None => {},
            }
            assert(lv.take(k + 1).drop_last() =~= lv.take(k as int));
            assert(ips@ =~= table_ips(lv.take(k + 1)));
            k = k + 1;
        }
        assert(lv.take(ls@.len() as int) =~= lv);
        Ok(Some(ips))
    }

    /// MAIN with the hooks in place: only the skip line and the hooks
    /// when nothing foreign is left, otherwise the foreign lines merged
    /// with the hooks by section.
    pub fn merge_main(existing: &str) -> (out: String)
        ensures
            out@ == firewall_merge_spec(existing@),
    {
        if remaining_main_is_empty(existing) {
            return Self::generate_main_hooks();
        }
        merge_main(existing)
    }
}

} // verus!
