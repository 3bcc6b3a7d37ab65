//! Diagnostic checks for "why isn't this working?": the verdict of each
//! check from what its probe found, and the tally of a report.
//!
//! The probes themselves (running `sysctl`, `pfctl`, `lsof`, ...) are
//! made by the caller; every function here turns a probe's outcome into
//! a [`CheckResult`].

use vstd::prelude::*;
use crate::text::{
    chars_of, contains, contains_chars, extend_chars, extend_str, join_strings, join_with, lines,
    split_lines, string_of, string_views, tokens, tokens_of, trim, trim_chars, views,
};

verus! {

/// Outcome of a single diagnostic check.
#[derive(Debug, Clone)]
pub enum CheckStatus {
    Pass,
    Warn { hint: String },
    Fail { hint: String },
}

/// One row of the diagnostic report.
#[derive(Debug, Clone)]
pub struct CheckResult {
    /// Short, scannable name shown in the checklist.
    pub name: String,
    pub status: CheckStatus,
    /// Multi-line detail shown when the row is expanded.
    pub detail: String,
}

/// The kind of a check status.
#[derive(Debug, Clone, Copy, PartialEq, Eq, Structural)]
pub enum Verdict {
    Pass,
    Warn,
    Fail,
}

/// A check result as plain values: name, verdict, hint, detail.
pub struct CheckSpec {
    pub name: Seq<char>,
    pub verdict: Verdict,
    pub hint: Seq<char>,
    pub detail: Seq<char>,
}

impl CheckResult {
    /// The result as plain values (a passing check has an empty hint).
    pub open spec fn spec(&self) -> CheckSpec {
        CheckSpec {
            name: self.name@,
            verdict: match self.status {
                CheckStatus::Pass => Verdict::Pass,
                CheckStatus::Warn { .. } => Verdict::Warn,
                CheckStatus::Fail { .. } => Verdict::Fail,
            },
            hint: match self.status {
                CheckStatus::Pass => Seq::empty(),
                CheckStatus::Warn { hint } => hint@,
                CheckStatus::Fail { hint } => hint@,
            },
            detail: self.detail@,
        }
    }

    /// A passing check.
    pub fn pass(name: &str, detail: &str) -> (r: CheckResult)
        ensures
            r.spec() == (CheckSpec { name: name@, verdict: Verdict::Pass, hint: Seq::empty(), detail: detail@ }),
    {
        CheckResult {
            name: String::from_str(name),
            status: CheckStatus::Pass,
            detail: String::from_str(detail),
        }
    }

    /// A check that warns, with a hint.
    pub fn warn(name: &str, hint: &str, detail: &str) -> (r: CheckResult)
        ensures
            r.spec() == (CheckSpec { name: name@, verdict: Verdict::Warn, hint: hint@, detail: detail@ }),
    {
        CheckResult {
            name: String::from_str(name),
            status: CheckStatus::Warn { hint: String::from_str(hint) },
            detail: String::from_str(detail),
        }
    }

    /// A failing check, with a hint.
    pub fn fail(name: &str, hint: &str, detail: &str) -> (r: CheckResult)
        ensures
            r.spec() == (CheckSpec { name: name@, verdict: Verdict::Fail, hint: hint@, detail: detail@ }),
    {
        CheckResult {
            name: String::from_str(name),
            status: CheckStatus::Fail { hint: String::from_str(hint) },
            detail: String::from_str(detail),
        }
    }
}

/// The verdicts of a list of results.
pub open spec fn verdicts(rs: Seq<CheckResult>) -> Seq<Verdict> {
    rs.map_values(|r: CheckResult| r.spec().verdict)
}

/// How many of `vs` are `v`.
pub open spec fn count_verdict(vs: Seq<Verdict>, v: Verdict) -> nat
    decreases vs.len(),
{
    if vs.len() == 0 {
        0
    } else {
        count_verdict(vs.drop_last(), v) + if vs.last() == v {
            1nat
        } else {
            0nat
        }
    }
}

/// Pass / warn / fail tally for the summary line.
#[derive(Debug, Clone, Copy)]
pub struct CheckSummary {
    pub pass: usize,
    pub warn: usize,
    pub fail: usize,
}

impl CheckSummary {
    /// The tally of a report.
    pub fn from_results(results: &[CheckResult]) -> (s: CheckSummary)
        ensures
            s.pass == count_verdict(verdicts(results@), Verdict::Pass),
            s.warn == count_verdict(verdicts(results@), Verdict::Warn),
            s.fail == count_verdict(verdicts(results@), Verdict::Fail),
            s.pass + s.warn + s.fail == results@.len(),
    {
        let ghost vs = verdicts(results@);
        let mut s = CheckSummary { pass: 0, warn: 0, fail: 0 };
        let mut i: usize = 0;
        assert(vs.take(0) =~= Seq::<Verdict>::empty());
        while i < results.len()
            invariant
                vs == verdicts(results@),
                i <= results@.len(),
                s.pass == count_verdict(vs.take(i as int), Verdict::Pass),
                s.warn == count_verdict(vs.take(i as int), Verdict::Warn),
                s.fail == count_verdict(vs.take(i as int), Verdict::Fail),
                s.pass + s.warn + s.fail == i,
            decreases results@.len() - i,
        {
            assert(vs.take(i + 1).drop_last() =~= vs.take(i as int));
            assert(vs.take(i + 1).last() == results@[i as int].spec().verdict);
            match &results[i].status {
                CheckStatus::Pass => s.pass = s.pass + 1,
                CheckStatus::Warn { .. } => s.warn = s.warn + 1,
                CheckStatus::Fail { .. } => s.fail = s.fail + 1,
            }
            i = i + 1;
        }
        assert(vs.take(results@.len() as int) =~= vs);
        s
    }

    /// Number of checks in the tally.
    pub fn total(self) -> (n: usize)
        requires
            self.pass + self.warn + self.fail <= usize::MAX,
        ensures
            n == self.pass + self.warn + self.fail,
    {
        self.pass + self.warn + self.fail
    }
}

/// Tools the app shells out to; they ship with macOS.
pub fn required_binaries() -> (v: Vec<&'static str>)
    ensures
        v@.len() == 6,
        v@[0]@ == "pfctl"@,
        v@[1]@ == "sysctl"@,
        v@[2]@ == "ifconfig"@,
        v@[3]@ == "networksetup"@,
        v@[4]@ == "scutil"@,
        v@[5]@ == "route"@,
{
    vec!["pfctl", "sysctl", "ifconfig", "networksetup", "scutil", "route"]
}

/// The pf anchor the check looks at for stale NAT rules.
pub const STALE_ANCHOR: &'static str = "com.tunshare";

/// Root check from the effective user id.
pub fn check_root(euid: u32) -> (r: CheckResult)
    ensures
        euid == 0 ==> r.spec() == (CheckSpec { name: "Running as root"@, verdict: Verdict::Pass, hint: Seq::empty(), detail: "geteuid() == 0"@ }),
        euid != 0 ==> r.spec() == (CheckSpec {
            name: "Running as root"@,
            verdict: Verdict::Fail,
            hint: "Re-run with: sudo tunshare"@,
            detail: "Most pf-based checks below will be inconclusive without root."@,
        }),
{
    if euid == 0 {
        CheckResult::pass("Running as root", "geteuid() == 0")
    } else {
        CheckResult::fail(
            "Running as root",
            "Re-run with: sudo tunshare",
            "Most pf-based checks below will be inconclusive without root.",
        )
    }
}

/// A result with owned texts.
fn result_of(name: String, status: CheckStatus, detail: String) -> (r: CheckResult)
    ensures
        r.name@ == name@,
        r.status == status,
        r.detail@ == detail@,
{
    CheckResult { name, status, detail }
}

/// Required tools check from the names found missing.
pub fn check_required_binaries(missing: &[String]) -> (r: CheckResult)
    ensures
        missing@.len() == 0 ==> r.spec() == (CheckSpec {
            name: "Required system tools"@,
            verdict: Verdict::Pass,
            hint: Seq::empty(),
            detail: "pfctl, sysctl, ifconfig, networksetup, scutil, route"@,
        }),
        missing@.len() > 0 ==> r.spec() == (CheckSpec {
            name: "Required system tools"@,
            verdict: Verdict::Fail,
            hint: "These ship with macOS \u{2014} check $PATH"@,
            detail: "missing: "@ + join_with(string_views(missing@), ", "@),
        }),
{
    if missing.len() == 0 {
        return CheckResult::pass(
            "Required system tools",
            "pfctl, sysctl, ifconfig, networksetup, scutil, route",
        );
    }
    let mut d: Vec<char> = Vec::new();
    extend_str(&mut d, "missing: ");
    let j = join_strings(missing, ", ");
    extend_str(&mut d, j.as_str());
    let detail = string_of(d.as_slice());
    result_of(
        String::from_str("Required system tools"),
        CheckStatus::Fail { hint: String::from_str("These ship with macOS \u{2014} check $PATH") },
        detail,
    )
}

/// Where `which` found a program: its trimmed output when the run
/// succeeded with some.
pub fn which_result(success: bool, stdout: &str) -> (r: Option<String>)
    ensures
        r matches Some(p) ==> success && trim(stdout@).len() > 0 && p@ == trim(stdout@),
        r is None ==> !success || trim(stdout@).len() == 0,
{
    if !success {
        return None;
    }
    let v = chars_of(stdout);
    let t = trim_chars(v.as_slice());
    if t.len() == 0 {
        return None;
    }
    Some(string_of(t))
}

/// dnsmasq check from where `which` found it.
pub fn check_dnsmasq_installed(path: Option<String>) -> (r: CheckResult)
    ensures
        path matches Some(p) ==> r.spec() == (CheckSpec { name: "dnsmasq installed (optional)"@, verdict: Verdict::Pass, hint: Seq::empty(), detail: p@ }),
        path is None ==> r.spec() == (CheckSpec {
            name: "dnsmasq installed (optional)"@,
            verdict: Verdict::Warn,
            hint: "brew install dnsmasq \u{2014} required for DHCP on connected devices"@,
            detail: "not found in $PATH"@,
        }),
{
    match path {
        Some(p) => result_of(String::from_str("dnsmasq installed (optional)"), CheckStatus::Pass, p),
        None => CheckResult::warn(
            "dnsmasq installed (optional)",
            "brew install dnsmasq \u{2014} required for DHCP on connected devices",
            "not found in $PATH",
        ),
    }
}

/// Forwarding check from `sysctl -n net.inet.ip.forwarding`: its
/// stdout, or the failure's text.
pub fn check_ip_forwarding(probe: Result<String, String>) -> (r: CheckResult)
    ensures
        r.spec().name == "IP forwarding pre-state"@,
        probe matches Ok(out) ==> (trim(out@) == "0"@ ==> r.spec() == (CheckSpec {
            name: "IP forwarding pre-state"@,
            verdict: Verdict::Pass,
            hint: Seq::empty(),
            detail: "off (tunshare will enable on start, restore on exit)"@,
        })),
        probe matches Ok(out) ==> (trim(out@) == "1"@ ==> r.spec() == (CheckSpec {
            name: "IP forwarding pre-state"@,
            verdict: Verdict::Warn,
            hint: "Something else set this; tunshare will preserve the value on exit"@,
            detail: "net.inet.ip.forwarding == 1 before tunshare started"@,
        })),
        probe matches Ok(out) ==> (trim(out@) != "0"@ && trim(out@) != "1"@ ==> r.spec() == (CheckSpec {
            name: "IP forwarding pre-state"@,
            verdict: Verdict::Warn,
            hint: "Unexpected sysctl value"@,
            detail: "got: "@ + trim(out@),
        })),
        probe matches Err(e) ==> r.spec() == (CheckSpec {
            name: "IP forwarding pre-state"@,
            verdict: Verdict::Warn,
            hint: "sysctl invocation failed"@,
            detail: e@,
        }),
{
    proof {
        reveal_strlit("0");
        reveal_strlit("1");
    }
    match probe {
        Ok(out) => {
            let v = chars_of(out.as_str());
            let t = trim_chars(v.as_slice());
            if t.len() == 1 && t[0] == '0' {
                assert(t@ =~= "0"@);
                return CheckResult::pass(
                    "IP forwarding pre-state",
                    "off (tunshare will enable on start, restore on exit)",
                );
            }
            if t.len() == 1 && t[0] == '1' {
                assert(t@ =~= "1"@);
                return CheckResult::warn(
                    "IP forwarding pre-state",
                    "Something else set this; tunshare will preserve the value on exit",
                    "net.inet.ip.forwarding == 1 before tunshare started",
                );
            }
            proof {
                if t@ == "0"@ {
                    assert(t@[0] == '0');
                }
                if t@ == "1"@ {
                    assert(t@[0] == '1');
                }
            }
            let mut d: Vec<char> = Vec::new();
            extend_str(&mut d, "got: ");
            extend_chars(&mut d, t);
            result_of(
                String::from_str("IP forwarding pre-state"),
                CheckStatus::Warn { hint: String::from_str("Unexpected sysctl value") },
                string_of(d.as_slice()),
            )
        },
        Err(e) => result_of(
            String::from_str("IP forwarding pre-state"),
            CheckStatus::Warn { hint: String::from_str("sysctl invocation failed") },
            e,
        ),
    }
}

/// pf status check from `pfctl -si`: its stdout, or the failure's text.
pub fn check_pf_enabled(probe: Result<String, String>) -> (r: CheckResult)
    ensures
        probe matches Ok(out) ==> (contains(out@, "Status: Enabled"@) ==> r.spec() == (CheckSpec {
            name: "pf is enabled"@,
            verdict: Verdict::Pass,
            hint: Seq::empty(),
            detail: "pfctl reports Status: Enabled"@,
        })),
        probe matches Ok(out) ==> (!contains(out@, "Status: Enabled"@) && contains(out@, "Status: Disabled"@) ==> r.spec() == (CheckSpec {
            name: "pf is enabled"@,
            verdict: Verdict::Warn,
            hint: "tunshare will enable pf on start"@,
            detail: "pf is currently disabled"@,
        })),
        probe matches Ok(out) ==> (!contains(out@, "Status: Enabled"@) && !contains(out@, "Status: Disabled"@) ==> r.spec() == (CheckSpec {
            name: "pf is enabled"@,
            verdict: Verdict::Warn,
            hint: "Could not parse pfctl output (need root?)"@,
            detail: out@,
        })),
        probe matches Err(e) ==> r.spec() == (CheckSpec {
            name: "pf is enabled"@,
            verdict: Verdict::Warn,
            hint: "pfctl invocation failed (need root?)"@,
            detail: e@,
        }),
{
    match probe {
        Ok(out) => {
            let v = chars_of(out.as_str());
            let en = chars_of("Status: Enabled");
            let dis = chars_of("Status: Disabled");
            if contains_chars(v.as_slice(), en.as_slice()) {
                CheckResult::pass("pf is enabled", "pfctl reports Status: Enabled")
            } else if contains_chars(v.as_slice(), dis.as_slice()) {
                CheckResult::warn(
                    "pf is enabled",
                    "tunshare will enable pf on start",
                    "pf is currently disabled",
                )
            } else {
                result_of(
                    String::from_str("pf is enabled"),
                    CheckStatus::Warn {
                        hint: String::from_str("Could not parse pfctl output (need root?)"),
                    },
                    out,
                )
            }
        },
        Err(e) => result_of(
            String::from_str("pf is enabled"),
            CheckStatus::Warn { hint: String::from_str("pfctl invocation failed (need root?)") },
            e,
        ),
    }
}

/// Stale anchor check from `pfctl -a com.tunshare -s nat`: its stdout, or
/// the failure's text.
pub fn check_stale_anchor(probe: Result<String, String>) -> (r: CheckResult)
    ensures
        probe matches Ok(out) ==> (trim(out@).len() == 0 ==> r.spec() == (CheckSpec {
            name: "'com.tunshare' pf anchor clean"@,
            verdict: Verdict::Pass,
            hint: Seq::empty(),
            detail: "anchor has no NAT rules"@,
        })),
        probe matches Ok(out) ==> (trim(out@).len() > 0 ==> r.spec() == (CheckSpec {
            name: "'com.tunshare' pf anchor clean"@,
            verdict: Verdict::Fail,
            hint: "Press [c] to flush, or run: sudo pfctl -a com.tunshare -F all"@,
            detail: out@,
        })),
        probe matches Err(e) ==> r.spec() == (CheckSpec {
            name: "'com.tunshare' pf anchor clean"@,
            verdict: Verdict::Warn,
            hint: "pfctl invocation failed (need root?)"@,
            detail: e@,
        }),
{
    match probe {
        Ok(out) => {
            let v = chars_of(out.as_str());
            if trim_chars(v.as_slice()).len() == 0 {
                CheckResult::pass("'com.tunshare' pf anchor clean", "anchor has no NAT rules")
            } else {
                result_of(
                    String::from_str("'com.tunshare' pf anchor clean"),
                    CheckStatus::Fail {
                        hint: String::from_str(
                            "Press [c] to flush, or run: sudo pfctl -a com.tunshare -F all",
                        ),
                    },
                    out,
                )
            }
        },
        Err(e) => result_of(
            String::from_str("'com.tunshare' pf anchor clean"),
            CheckStatus::Warn { hint: String::from_str("pfctl invocation failed (need root?)") },
            e,
        ),
    }
}

/// Internet Sharing check from `defaults read ... NAT`: its stdout, or
/// `None` when there is no NAT dictionary (never configured).
pub fn check_internet_sharing(probe: Option<String>) -> (r: CheckResult)
    ensures
        probe matches Some(out) ==> (contains(out@, "Enabled = 1"@) ==> r.spec() == (CheckSpec {
            name: "macOS Internet Sharing off"@,
            verdict: Verdict::Fail,
            hint: "Disable in System Settings \u{2192} General \u{2192} Sharing \u{2192} Internet Sharing"@,
            detail: "Internet Sharing is on and will conflict with tunshare's pf rules."@,
        })),
        probe matches Some(out) ==> (!contains(out@, "Enabled = 1"@) ==> r.spec() == (CheckSpec {
            name: "macOS Internet Sharing off"@,
            verdict: Verdict::Pass,
            hint: Seq::empty(),
            detail: "Enabled = 0 or unset"@,
        })),
        probe is None ==> r.spec() == (CheckSpec {
            name: "macOS Internet Sharing off"@,
            verdict: Verdict::Pass,
            hint: Seq::empty(),
            detail: "never configured (no NAT dict)"@,
        }),
{
    match probe {
        Some(out) => {
            let v = chars_of(out.as_str());
            let on = chars_of("Enabled = 1");
            if contains_chars(v.as_slice(), on.as_slice()) {
                CheckResult::fail(
                    "macOS Internet Sharing off",
                    "Disable in System Settings \u{2192} General \u{2192} Sharing \u{2192} Internet Sharing",
                    "Internet Sharing is on and will conflict with tunshare's pf rules.",
                )
            } else {
                CheckResult::pass("macOS Internet Sharing off", "Enabled = 0 or unset")
            }
        },
        None => CheckResult::pass("macOS Internet Sharing off", "never configured (no NAT dict)"),
    }
}

/// Foreign dnsmasq check from `pgrep -x dnsmasq`: its stdout when it
/// found processes, `None` otherwise.
pub fn check_foreign_dnsmasq(probe: Option<String>) -> (r: CheckResult)
    ensures
        probe matches Some(out) ==> r.spec() == (CheckSpec {
            name: "No foreign dnsmasq running"@,
            verdict: Verdict::Warn,
            hint: "May conflict with tunshare's DHCP server on port 53/67"@,
            detail: "running PIDs: "@ + join_with(tokens(out@), ", "@),
        }),
        probe is None ==> r.spec() == (CheckSpec {
            name: "No foreign dnsmasq running"@,
            verdict: Verdict::Pass,
            hint: Seq::empty(),
            detail: "pgrep found none"@,
        }),
{
    match probe {
        Some(out) => {
            let v = chars_of(out.as_str());
            let ts = tokens_of(v.as_slice());
            let mut pids: Vec<String> = Vec::new();
            let mut i: usize = 0;
            while i < ts.len()
                invariant
                    i <= ts@.len(),
                    string_views(pids@) == views(ts@).take(i as int),
                decreases ts@.len() - i,
            {
                let ghost before = pids@;
                let p = string_of(ts[i]);
                pids.push(p);
                assert(string_views(pids@) =~= string_views(before).push(p@));
                assert(views(ts@).take(i + 1) =~= views(ts@).take(i as int).push(ts@[i as int]@));
                i = i + 1;
            }
            assert(views(ts@).take(ts@.len() as int) =~= views(ts@));
            let mut d: Vec<char> = Vec::new();
            extend_str(&mut d, "running PIDs: ");
            let j = join_strings(pids.as_slice(), ", ");
            extend_str(&mut d, j.as_str());
            result_of(
                String::from_str("No foreign dnsmasq running"),
                CheckStatus::Warn {
                    hint: String::from_str("May conflict with tunshare's DHCP server on port 53/67"),
                },
                string_of(d.as_slice()),
            )
        },
        None => CheckResult::pass("No foreign dnsmasq running", "pgrep found none"),
    }
}

/// NAT-PMP port check from `lsof -nP -iUDP:5351`: its stdout when the
/// run succeeded with output, `None` otherwise. The first line is the
/// header; the port is taken when any row follows it.
pub fn check_natpmp_port(probe: Option<String>) -> (r: CheckResult)
    ensures
        probe matches Some(out) ==> (lines(out@).len() > 1 ==> r.spec() == (CheckSpec {
            name: "NAT-PMP port 5351/udp free"@,
            verdict: Verdict::Warn,
            hint: "Another process holds the port; tunshare's NAT-PMP server will fail to start"@,
            detail: join_with(lines(out@).drop_first(), "\n"@),
        })),
        (probe is None || (probe matches Some(out) && lines(out@).len() <= 1)) ==> r.spec() == (CheckSpec {
            name: "NAT-PMP port 5351/udp free"@,
            verdict: Verdict::Pass,
            hint: Seq::empty(),
            detail: "no process bound"@,
        }),
{
    match probe {
        Some(out) => {
            let v = chars_of(out.as_str());
            let ls = split_lines(v.as_slice());
            if ls.len() <= 1 {
                return CheckResult::pass("NAT-PMP port 5351/udp free", "no process bound");
            }
            let ghost lv = views(ls@);
            let mut rows: Vec<String> = Vec::new();
            let mut i: usize = 1;
            while i < ls.len()
                invariant
                    lv == views(ls@),
                    1 <= i <= ls@.len(),
                    string_views(rows@) == lv.subrange(1, i as int),
                decreases ls@.len() - i,
            {
                let ghost before = rows@;
                let row = string_of(ls[i]);
                rows.push(row);
                assert(string_views(rows@) =~= string_views(before).push(row@));
                assert(lv.subrange(1, i + 1) =~= lv.subrange(1, i as int).push(lv[i as int]));
                i = i + 1;
            }
            assert(lv.subrange(1, ls@.len() as int) =~= lv.drop_first());
            let detail = join_strings(rows.as_slice(), "\n");
            result_of(
                String::from_str("NAT-PMP port 5351/udp free"),
                CheckStatus::Warn {
                    hint: String::from_str(
                        "Another process holds the port; tunshare's NAT-PMP server will fail to start",
                    ),
                },
                detail,
            )
        },
        None => CheckResult::pass("NAT-PMP port 5351/udp free", "no process bound"),
    }
}

/// VPN interface check from detection: the names found, or the error's
/// text.
pub fn check_vpn_interface(probe: Result<Vec<String>, String>) -> (r: CheckResult)
    ensures
        probe matches Ok(names) ==> (names@.len() > 0 ==> r.spec() == (CheckSpec {
            name: "VPN interface detected"@,
            verdict: Verdict::Pass,
            hint: Seq::empty(),
            detail: join_with(string_views(names@), ", "@),
        })),
        probe matches Ok(names) ==> (names@.len() == 0 ==> r.spec() == (CheckSpec {
            name: "VPN interface detected"@,
            verdict: Verdict::Fail,
            hint: "Connect to your VPN before starting tunshare"@,
            detail: "No utun* interface is up with an IPv4 address."@,
        })),
        probe matches Err(e) ==> r.spec() == (CheckSpec {
            name: "VPN interface detected"@,
            verdict: Verdict::Fail,
            hint: "Interface detection failed"@,
            detail: e@,
        }),
{
    match probe {
        Ok(names) => {
            if names.len() > 0 {
                result_of(
                    String::from_str("VPN interface detected"),
                    CheckStatus::Pass,
                    join_strings(names.as_slice(), ", "),
                )
            } else {
                CheckResult::fail(
                    "VPN interface detected",
                    "Connect to your VPN before starting tunshare",
                    "No utun* interface is up with an IPv4 address.",
                )
            }
        },
        Err(e) => result_of(
            String::from_str("VPN interface detected"),
            CheckStatus::Fail { hint: String::from_str("Interface detection failed") },
            e,
        ),
    }
}

/// LAN interface check from detection: the names found, or the error's
/// text.
pub fn check_lan_interface(probe: Result<Vec<String>, String>) -> (r: CheckResult)
    ensures
        probe matches Ok(names) ==> (names@.len() > 0 ==> r.spec() == (CheckSpec {
            name: "LAN interface detected"@,
            verdict: Verdict::Pass,
            hint: Seq::empty(),
            detail: join_with(string_views(names@), ", "@),
        })),
        probe matches Ok(names) ==> (names@.len() == 0 ==> r.spec() == (CheckSpec {
            name: "LAN interface detected"@,
            verdict: Verdict::Fail,
            hint: "An en* interface (ethernet / USB ethernet) must be up with an IPv4 address"@,
            detail: "No en* interface is up with an IPv4 address."@,
        })),
        probe matches Err(e) ==> r.spec() == (CheckSpec {
            name: "LAN interface detected"@,
            verdict: Verdict::Fail,
            hint: "Interface detection failed"@,
            detail: e@,
        }),
{
    match probe {
        Ok(names) => {
            if names.len() > 0 {
                result_of(
                    String::from_str("LAN interface detected"),
                    CheckStatus::Pass,
                    join_strings(names.as_slice(), ", "),
                )
            } else {
                CheckResult::fail(
                    "LAN interface detected",
                    "An en* interface (ethernet / USB ethernet) must be up with an IPv4 address",
                    "No en* interface is up with an IPv4 address.",
                )
            }
        },
        Err(e) => result_of(
            String::from_str("LAN interface detected"),
            CheckStatus::Fail { hint: String::from_str("Interface detection failed") },
            e,
        ),
    }
}

/// What creating the config directory found.
pub enum ConfigDirProbe {
    /// The config directory could not be determined.
    Unknown,
    /// The directory (shown as `path`) exists or was created.
    Writable { path: String },
    /// Creating the directory (shown as `path`) failed with `error`.
    Failed { path: String, error: String },
}

/// Config directory check.
pub fn check_config_writable(probe: ConfigDirProbe) -> (r: CheckResult)
    ensures
        probe is Unknown ==> r.spec() == (CheckSpec {
            name: "Config dir writable"@,
            verdict: Verdict::Warn,
            hint: "Could not determine config directory ($HOME unset?)"@,
            detail: "dirs::config_dir() returned None"@,
        }),
        probe matches ConfigDirProbe::Writable { path } ==> r.spec() == (CheckSpec {
            name: "Config dir writable"@,
            verdict: Verdict::Pass,
            hint: Seq::empty(),
            detail: path@,
        }),
        probe matches ConfigDirProbe::Failed { path, error } ==> r.spec() == (CheckSpec {
            name: "Config dir writable"@,
            verdict: Verdict::Fail,
            hint: "Check filesystem permissions on $XDG_CONFIG_HOME"@,
            detail: path@ + ": "@ + error@,
        }),
{
    match probe {
        ConfigDirProbe::Unknown => CheckResult::warn(
            "Config dir writable",
            "Could not determine config directory ($HOME unset?)",
            "dirs::config_dir() returned None",
        ),
        ConfigDirProbe::Writable { path } => result_of(
            String::from_str("Config dir writable"),
            CheckStatus::Pass,
            path,
        ),
        ConfigDirProbe::Failed { path, error } => {
            let mut d: Vec<char> = Vec::new();
            extend_str(&mut d, path.as_str());
            extend_str(&mut d, ": ");
            extend_str(&mut d, error.as_str());
            result_of(
                String::from_str("Config dir writable"),
                CheckStatus::Fail {
                    hint: String::from_str("Check filesystem permissions on $XDG_CONFIG_HOME"),
                },
                string_of(d.as_slice()),
            )
        },
    }
}

} // verus!
