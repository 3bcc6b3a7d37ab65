//! IP forwarding state: what was there before sharing, and reading and
//! setting `net.inet.ip.forwarding`.

use vstd::prelude::*;
use crate::error::{is_command_failed, is_parse_error, TunshareError};
use crate::text::{chars_of, contains, extend_chars, extend_str, string_of, trim, trim_chars};

verus! {

/// The sysctl that turns IPv4 forwarding on and off.
pub const FORWARDING_SYSCTL: &'static str = "net.inet.ip.forwarding";

/// Remembers the forwarding state found before sharing changed it.
pub struct IpForwarding {
    original_state: Option<bool>,
}

impl IpForwarding {
    /// The state found before sharing changed it, if it did.
    pub closed spec fn original(&self) -> Option<bool> {
        self.original_state
    }

    /// Nothing changed yet.
    pub fn new() -> (f: IpForwarding)
        ensures
            f.original() is None,
    {
        IpForwarding { original_state: None }
    }

    /// Whether sharing changed the state (the original is saved).
    pub fn is_modified(&self) -> (b: bool)
        ensures
            b == self.original() is Some,
    {
        self.original_state.is_some()
    }

    /// Saves `current` as the original state unless one is saved
    /// already; the first state seen before enabling is what a restore
    /// goes back to.
    pub fn record_original(&mut self, current: bool)
        ensures
            final(self).original() == after_record(old(self).original(), current),
    {
        if self.original_state.is_none() {
            self.original_state = Some(current);
        }
    }

    /// Takes the saved original state, to be written back; afterwards
    /// nothing is saved. `None` when sharing never changed the state.
    pub fn restore_sync(&mut self) -> (r: Option<bool>)
        ensures
            r == old(self).original(),
            final(self).original() is None,
    {
        let r = self.original_state;
        self.original_state = None;
        r
    }
}

/// The saved original after seeing `current`: the first one seen stays.
pub open spec fn after_record(saved: Option<bool>, current: bool) -> Option<bool> {
    match saved {
        Some(b) => Some(b),
        None => Some(current),
    }
}

/// However often forwarding is enabled, a restore goes back to the
/// state seen before the first time: recording `first` and then
/// `later` keeps `first`.
pub proof fn lemma_restore_returns_first(first: bool, later: bool)
    ensures
        after_record(after_record(None, first), later) == Some(first),
{
}

/// The sysctl value that means `enabled`.
pub open spec fn state_text(enabled: bool) -> Seq<char> {
    if enabled {
        "1"@
    } else {
        "0"@
    }
}

/// The `sysctl -w` argument that sets forwarding to `enabled`.
pub open spec fn assignment_text(enabled: bool) -> Seq<char> {
    "net.inet.ip.forwarding="@ + state_text(enabled)
}

/// The `sysctl -w` argument that sets forwarding to `enabled`.
pub fn forwarding_assignment(enabled: bool) -> (s: String)
    ensures
        s@ == assignment_text(enabled),
{
    let mut v: Vec<char> = Vec::new();
    extend_str(&mut v, "net.inet.ip.forwarding=");
    if enabled {
        extend_str(&mut v, "1");
    } else {
        extend_str(&mut v, "0");
    }
    string_of(v.as_slice())
}

/// The state that `sysctl -n` printed: `1` on, `0` off, anything else a
/// parse error naming the value.
pub fn parse_forwarding_state(stdout: &str) -> (r: Result<bool, TunshareError>)
    ensures
        trim(stdout@) == "1"@ ==> r == Ok::<bool, TunshareError>(true),
        trim(stdout@) == "0"@ ==> r == Ok::<bool, TunshareError>(false),
        trim(stdout@) != "1"@ && trim(stdout@) != "0"@ ==> (r matches Err(e) && is_parse_error(
            e,
            "Unexpected sysctl value: "@ + trim(stdout@),
        )),
{
    let v = chars_of(stdout);
    let t = trim_chars(v.as_slice());
    proof {
        reveal_strlit("1");
        reveal_strlit("0");
    }
    if t.len() == 1 && t[0] == '1' {
        assert(t@ =~= "1"@);
        assert(t@ != "0"@);
        return Ok(true);
    }
    if t.len() == 1 && t[0] == '0' {
        assert(t@ =~= "0"@);
        assert(t@ != "1"@);
        return Ok(false);
    }
    proof {
        if t@ == "1"@ {
            assert(t@[0] == '1');
        }
        if t@ == "0"@ {
            assert(t@[0] == '0');
        }
    }
    let mut msg: Vec<char> = Vec::new();
    extend_str(&mut msg, "Unexpected sysctl value: ");
    extend_chars(&mut msg, t);
    Err(TunshareError::ParseError(string_of(msg.as_slice())))
}

/// The outcome of a `sysctl -w` run that set forwarding to `enabled`:
/// refused privilege, or a failed command carrying its stderr.
pub fn forwarding_set_result(enabled: bool, success: bool, stderr: &str) -> (r: Result<
    (),
    TunshareError,
>)
    ensures
        success ==> r is Ok,
        !success && (contains(stderr@, "Operation not permitted"@) || contains(
            stderr@,
            "Permission denied"@,
        )) ==> r matches Err(TunshareError::PermissionDenied),
        !success && !(contains(stderr@, "Operation not permitted"@) || contains(
            stderr@,
            "Permission denied"@,
        )) ==> (r matches Err(e) && is_command_failed(
            e,
            "sysctl -w "@ + assignment_text(enabled),
            stderr@,
        )),
{
    if success {
        return Ok(());
    }
    let v = chars_of(stderr);
    let a = chars_of("Operation not permitted");
    let b = chars_of("Permission denied");
    if crate::text::contains_chars(v.as_slice(), a.as_slice()) || crate::text::contains_chars(
        v.as_slice(),
        b.as_slice(),
    ) {
        return Err(TunshareError::PermissionDenied);
    }
    let mut cmd: Vec<char> = Vec::new();
    extend_str(&mut cmd, "sysctl -w ");
    let assign = forwarding_assignment(enabled);
    extend_str(&mut cmd, assign.as_str());
    Err(
        TunshareError::CommandFailed {
            command: string_of(cmd.as_slice()),
            message: string_of(v.as_slice()),
        },
    )
}

} // verus!
