//! Display-side values: log entries, menu labels and badges, and the
//! key/action parts of help text.

use vstd::prelude::*;
use crate::net::is_digit;
use crate::text::{
    chars_of, contains, contains_chars, find, find_chars, lemma_find_result, string_of, trim_start,
    trim_start_index,
};

verus! {

/// Severity of a log entry.
#[derive(Clone, Copy, Debug, PartialEq, Eq, Structural)]
pub enum LogLevel {
    Info,
    Success,
    Warning,
    Error,
}

/// `HH:MM` text of a time of day.
pub open spec fn is_clock_text(s: Seq<char>) -> bool {
    &&& s.len() == 5
    &&& is_digit(s[0]) && is_digit(s[1]) && s[2] == ':' && is_digit(s[3]) && is_digit(s[4])
    &&& (s[0] as u32 - 48) * 10 + (s[1] as u32 - 48) <= 23
    &&& (s[3] as u32 - 48) * 10 + (s[4] as u32 - 48) <= 59
}

/// The local time of day as `HH:MM` (`chrono::Local::now()` formatted
/// with `%H:%M`). chrono documents `%H` as the hour 00 to 23 and `%M` as
/// the minute 00 to 59, each zero-padded to two digits; which time it
/// is, is not stated.
#[verifier::external_body]
fn local_clock() -> (s: String)
    ensures
        is_clock_text(s@),
{
    chrono::Local::now().format("%H:%M").to_string()
}

/// One line of the log panel.
#[derive(Debug, Clone)]
pub struct LogEntry {
    /// Local time of day when it was logged, `HH:MM`.
    pub timestamp: String,
    pub message: String,
    pub level: LogLevel,
}

impl LogEntry {
    /// An entry stamped with the current local time.
    fn stamped(message: String, level: LogLevel) -> (e: LogEntry)
        ensures
            e.message@ == message@,
            e.level == level,
            is_clock_text(e.timestamp@),
    {
        LogEntry { timestamp: local_clock(), message, level }
    }

    /// An informational entry.
    pub fn info(message: String) -> (e: LogEntry)
        ensures
            e.message@ == message@,
            e.level == LogLevel::Info,
            is_clock_text(e.timestamp@),
    {
        Self::stamped(message, LogLevel::Info)
    }

    /// A success entry.
    pub fn success(message: String) -> (e: LogEntry)
        ensures
            e.message@ == message@,
            e.level == LogLevel::Success,
            is_clock_text(e.timestamp@),
    {
        Self::stamped(message, LogLevel::Success)
    }

    /// A warning entry.
    pub fn warning(message: String) -> (e: LogEntry)
        ensures
            e.message@ == message@,
            e.level == LogLevel::Warning,
            is_clock_text(e.timestamp@),
    {
        Self::stamped(message, LogLevel::Warning)
    }

    /// An error entry.
    pub fn error(message: String) -> (e: LogEntry)
        ensures
            e.message@ == message@,
            e.level == LogLevel::Error,
            is_clock_text(e.timestamp@),
    {
        Self::stamped(message, LogLevel::Error)
    }
}

/// The icon shown before a log message of a level.
pub open spec fn level_icon_spec(level: LogLevel) -> Seq<char> {
    match level {
        LogLevel::Success => "\u{25cf}"@,
        LogLevel::Info => "i"@,
        LogLevel::Warning => "\u{26a0}"@,
        LogLevel::Error => "\u{2717}"@,
    }
}

/// The icon shown before a log message of a level.
pub fn level_icon(level: LogLevel) -> (s: &'static str)
    ensures
        s@ == level_icon_spec(level),
{
    match level {
        LogLevel::Success => "\u{25cf}",
        LogLevel::Info => "i",
        LogLevel::Warning => "\u{26a0}",
        LogLevel::Error => "\u{2717}",
    }
}

/// Alignment of a card's title.
#[derive(Clone, Copy, Debug, PartialEq, Eq, Structural)]
pub enum TitleAlignment {
    Left,
}

impl TitleAlignment {
    /// Titles sit on the left.
    pub fn default_alignment() -> (a: TitleAlignment)
        ensures
            a == TitleAlignment::Left,
    {
        TitleAlignment::Left
    }
}

/// The styling role of a piece of help text.
#[derive(Clone, Copy, Debug, PartialEq, Eq, Structural)]
pub enum HelpRole {
    /// Padding between groups.
    Plain,
    /// A key name.
    Key,
    /// What the key does.
    Text,
}

/// The pieces of `s` between occurrences of a non-empty `p`
/// (`str::split`).
pub open spec fn split_spec(s: Seq<char>, p: Seq<char>) -> Seq<Seq<char>>
    decreases s.len(),
{
    if p.len() == 0 {
        seq![s]
    } else {
        match find(s, p) {
            Some(i) => {
                proof {
                    lemma_find_result(s, p);
                }
                seq![s.take(i as int)] + split_spec(s.skip((i + p.len()) as int), p)
            },
            None => seq![s],
        }
    }
}

/// One group of help text (`key: action`), split at the first colon:
/// the key, and the action with a leading space in place of its leading
/// whitespace. A group without a colon is all key when it holds a `/`
/// (as in the arrows pair), plain text otherwise.
pub open spec fn help_group_spec(part: Seq<char>) -> Seq<(HelpRole, Seq<char>)> {
    match find(part, ":"@) {
        Some(i) => seq![
            (HelpRole::Key, part.take(i as int)),
            (HelpRole::Text, " "@ + trim_start(part.skip(i + 1int))),
        ],
        None => if contains(part, "/"@) {
            seq![(HelpRole::Key, part)]
        } else {
            seq![(HelpRole::Text, part)]
        },
    }
}

/// The styled pieces of help text groups, each but the first preceded
/// by a wide gap.
pub open spec fn help_groups_spec(parts: Seq<Seq<char>>) -> Seq<(HelpRole, Seq<char>)>
    decreases parts.len(),
{
    if parts.len() == 0 {
        seq![]
    } else if parts.len() == 1 {
        help_group_spec(parts[0])
    } else {
        help_groups_spec(parts.drop_last()) + seq![(HelpRole::Plain, "   "@)] + help_group_spec(
            parts.last(),
        )
    }
}

/// The styled pieces of a help line: a left margin, then the groups
/// separated by double spaces in the text.
pub open spec fn help_text_spec(text: Seq<char>) -> Seq<(HelpRole, Seq<char>)> {
    seq![(HelpRole::Plain, "  "@)] + help_groups_spec(split_spec(text, "  "@))
}

/// The views of styled pieces.
pub open spec fn piece_views(v: Seq<(HelpRole, String)>) -> Seq<(HelpRole, Seq<char>)> {
    v.map_values(|x: (HelpRole, String)| (x.0, x.1@))
}

/// Appends the styled pieces of one help group.
fn help_group(part: &[char], out: &mut Vec<(HelpRole, String)>)
    ensures
        piece_views(final(out)@) == piece_views(old(out)@) + help_group_spec(part@),
{
    let colon = chars_of(":");
    let slash = chars_of("/");
    proof {
        lemma_find_result(part@, colon@);
        reveal_strlit(":");
        reveal_strlit(" ");
    }
    let ghost before = piece_views(out@);
    match find_chars(part, colon.as_slice()) {
        Some(i) => {
            let key = vstd::slice::slice_subrange(part, 0, i);
            let n = part.len();
            let rest = vstd::slice::slice_subrange(part, i + 1, n);
            let s = trim_start_index(rest);
            let action = vstd::slice::slice_subrange(rest, s, rest.len());
            let mut text: Vec<char> = Vec::new();
            text.push(' ');
            crate::text::extend_chars(&mut text, action);
            assert(key@ =~= part@.take(i as int));
            assert(rest@ =~= part@.skip(i + 1int));
            assert(text@ =~= " "@ + trim_start(part@.skip(i + 1int)));
            let k = string_of(key);
            let t = string_of(text.as_slice());
            out.push((HelpRole::Key, k));
            out.push((HelpRole::Text, t));
            assert(piece_views(out@) =~= before + seq![(HelpRole::Key, k@), (HelpRole::Text, t@)]);
        },
        None => {
            let k = string_of(part);
            if contains_chars(part, slash.as_slice()) {
                out.push((HelpRole::Key, k));
            } else {
                out.push((HelpRole::Text, k));
            }
            assert(piece_views(out@) =~= before + help_group_spec(part@));
        },
    }
}

/// The styled pieces of a help line (margin, key names, actions, gaps).
pub fn parse_help_text(text: &str) -> (r: Vec<(HelpRole, String)>)
    ensures
        piece_views(r@) == help_text_spec(text@),
{
    let v = chars_of(text);
    let sep = chars_of("  ");
    proof {
        reveal_strlit("  ");
    }
    let mut r: Vec<(HelpRole, String)> = Vec::new();
    r.push((HelpRole::Plain, String::from_str("  ")));
    let ghost head = piece_views(r@);
    assert(head =~= seq![(HelpRole::Plain, "  "@)]);
    let mut cur: &[char] = v.as_slice();
    let mut first = true;
    let ghost mut done: Seq<Seq<char>> = Seq::empty();
    assert(done + split_spec(v@, sep@) =~= split_spec(v@, sep@));
    assert(head + help_groups_spec(done) =~= head);
    loop
        invariant
            sep@ == "  "@,
            sep@.len() == 2,
            v@ == text@,
            head == seq![(HelpRole::Plain, "  "@)],
            split_spec(v@, sep@) == done + split_spec(cur@, sep@),
            first == (done.len() == 0),
            piece_views(r@) == head + help_groups_spec(done),
        decreases cur@.len(),
    {
        let ghost before = piece_views(r@);
        if !first {
            let gap = String::from_str("   ");
            r.push((HelpRole::Plain, gap));
            assert(piece_views(r@) =~= before + seq![(HelpRole::Plain, "   "@)]);
        }
        let ghost mid = piece_views(r@);
        match find_chars(cur, sep.as_slice()) {
            Some(i) => {
                proof {
                    lemma_find_result(cur@, sep@);
                }
                let n = cur.len();
                let m = sep.len();
                assert(i + m <= n);
                let part = vstd::slice::slice_subrange(cur, 0, i);
                let next = vstd::slice::slice_subrange(cur, i + m, n);
                help_group(part, &mut r);
                assert(part@ =~= cur@.take(i as int));
                assert(next@ =~= cur@.skip(i + 2int));
                proof {
                    let nd = done.push(part@);
                    assert(nd.drop_last() =~= done);
                    assert(nd.last() == part@);
                    assert(done + split_spec(cur@, sep@) =~= nd + split_spec(next@, sep@));
                    assert(piece_views(r@) =~= head + help_groups_spec(nd));
                    done = nd;
                }
                cur = next;
                first = false;
            },
            None => {
                help_group(cur, &mut r);
                proof {
                    let nd = done.push(cur@);
                    assert(nd.drop_last() =~= done);
                    assert(nd.last() == cur@);
                    assert(done + split_spec(cur@, sep@) =~= nd);
                    assert(piece_views(r@) =~= head + help_groups_spec(nd));
                    assert(nd == split_spec(text@, "  "@));
                    assert(piece_views(r@) == help_text_spec(text@));
                }
                return r;
            },
        }
    }
}

} // verus!
