//! Character-level text utilities with exact specifications.
//!
//! Text is handled as sequences of `char`. Each executable routine is
//! tied to a spec function that states its result directly; the spec
//! functions follow the documented behaviour of the corresponding
//! `str` operations (`trim`, `lines`, `contains`, `starts_with`,
//! `split_once`, `split_whitespace`, `replace`, ...).

use vstd::prelude::*;
use vstd::slice::slice_subrange;

verus! {

// ---------------------------------------------------------------------
// Specifications
// ---------------------------------------------------------------------

/// Unicode `White_Space`, the set used by `char::is_whitespace`.
pub open spec fn is_ws(c: char) -> bool {
    let u = c as u32;
    ||| u == 0x20
    ||| 0x09 <= u <= 0x0D
    ||| u == 0x85
    ||| u == 0xA0
    ||| u == 0x1680
    ||| 0x2000 <= u <= 0x200A
    ||| u == 0x2028
    ||| u == 0x2029
    ||| u == 0x202F
    ||| u == 0x205F
    ||| u == 0x3000
}

/// `s` without its leading whitespace.
pub open spec fn trim_start(s: Seq<char>) -> Seq<char>
    decreases s.len(),
{
    if s.len() > 0 && is_ws(s[0]) {
        trim_start(s.drop_first())
    } else {
        s
    }
}

/// `s` without its trailing whitespace.
pub open spec fn trim_end(s: Seq<char>) -> Seq<char>
    decreases s.len(),
{
    if s.len() > 0 && is_ws(s.last()) {
        trim_end(s.drop_last())
    } else {
        s
    }
}

/// `s` without leading and trailing whitespace.
pub open spec fn trim(s: Seq<char>) -> Seq<char> {
    trim_end(trim_start(s))
}

/// `s` begins with `p`.
pub open spec fn starts_with(s: Seq<char>, p: Seq<char>) -> bool {
    p.len() <= s.len() && s.subrange(0, p.len() as int) == p
}

/// `p` occurs in `s` at position `i`.
pub open spec fn occurs_at(s: Seq<char>, p: Seq<char>, i: int) -> bool {
    0 <= i && i + p.len() <= s.len() && s.subrange(i, i + p.len()) == p
}

/// Position of the first occurrence of `p` in `s`.
pub open spec fn find(s: Seq<char>, p: Seq<char>) -> Option<nat>
    decreases s.len(),
{
    if s.len() < p.len() {
        None
    } else if s.subrange(0, p.len() as int) == p {
        Some(0)
    } else if s.len() == 0 {
        None
    } else {
        match find(s.drop_first(), p) {
            Some(i) => Some(i + 1),
            None => None,
        }
    }
}

/// `p` occurs somewhere in `s`.
pub open spec fn contains(s: Seq<char>, p: Seq<char>) -> bool {
    find(s, p) is Some
}

/// `c` occurs in `s`.
pub open spec fn has_char(s: Seq<char>, c: char) -> bool {
    contains(s, seq![c])
}

/// ASCII lower-casing of one character.
pub open spec fn lower_char(c: char) -> char {
    if 'A' <= c <= 'Z' {
        ((c as u32) + 32) as char
    } else {
        c
    }
}

/// ASCII lower-casing, as `str::to_ascii_lowercase`.
pub open spec fn to_lower(s: Seq<char>) -> Seq<char> {
    s.map_values(|c: char| lower_char(c))
}


/// Line text without a carriage return that preceded its newline.
pub open spec fn strip_cr(l: Seq<char>) -> Seq<char> {
    if l.len() > 0 && l.last() == '\r' {
        l.drop_last()
    } else {
        l
    }
}

/// The lines of `s`, as `str::lines`: split at `\n`, a `\r` before the
/// `\n` dropped, no final empty line after a trailing newline.
pub open spec fn lines(s: Seq<char>) -> Seq<Seq<char>>
    decreases s.len(),
{
    if s.len() == 0 {
        seq![]
    } else {
        match find(s, seq!['\n']) {
            Some(i) => {
                proof {
                    lemma_find_result(s, seq!['\n']);
                }
                seq![strip_cr(s.take(i as int))] + lines(s.skip((i + 1) as int))
            },
            None => seq![s],
        }
    }
}

/// The parts before and after the first occurrence of `p`
/// (`str::split_once`).
pub open spec fn split_once(s: Seq<char>, p: Seq<char>) -> Option<(Seq<char>, Seq<char>)> {
    match find(s, p) {
        Some(i) => Some((s.take(i as int), s.skip((i + p.len()) as int))),
        None => None,
    }
}

/// The part of `s` before the first occurrence of `p`, or all of `s`
/// (`str::split(p).next()`).
pub open spec fn before_first(s: Seq<char>, p: Seq<char>) -> Seq<char> {
    match find(s, p) {
        Some(i) => s.take(i as int),
        None => s,
    }
}

/// The part of `s` after the last occurrence of `p`, or all of `s`
/// (`str::rsplit(p).next()` for a pattern that cannot overlap itself).
pub open spec fn after_last(s: Seq<char>, p: Seq<char>) -> Seq<char>
    decreases s.len(),
{
    if p.len() == 0 {
        s
    } else {
        match find(s, p) {
            Some(i) => {
                proof {
                    lemma_find_result(s, p);
                }
                after_last(s.skip((i + p.len()) as int), p)
            },
            None => s,
        }
    }
}

/// The second piece of `s` split at `p` (`str::split(p).nth(1)`).
pub open spec fn second_piece(s: Seq<char>, p: Seq<char>) -> Option<Seq<char>> {
    match split_once(s, p) {
        Some((_, rest)) => Some(before_first(rest, p)),
        None => None,
    }
}

/// `s` with its prefix `p` removed (`str::strip_prefix`).
pub open spec fn strip_prefix(s: Seq<char>, p: Seq<char>) -> Option<Seq<char>> {
    if starts_with(s, p) {
        Some(s.skip(p.len() as int))
    } else {
        None
    }
}

/// Every occurrence of `p` in `s` replaced by `r`, scanning from the
/// left (`str::replace` for a non-empty pattern).
pub open spec fn replace(s: Seq<char>, p: Seq<char>, r: Seq<char>) -> Seq<char>
    decreases s.len(),
{
    if p.len() == 0 {
        s
    } else {
        match find(s, p) {
            Some(i) => {
                proof {
                    lemma_find_result(s, p);
                }
                s.take(i as int) + r + replace(s.skip((i + p.len()) as int), p, r)
            },
            None => s,
        }
    }
}


/// `s` without leading and trailing copies of `c` (`str::trim_matches`).
pub open spec fn trim_char(s: Seq<char>, c: char) -> Seq<char> {
    trim_char_end(trim_char_start(s, c), c)
}

/// `s` without leading copies of `c`.
pub open spec fn trim_char_start(s: Seq<char>, c: char) -> Seq<char>
    decreases s.len(),
{
    if s.len() > 0 && s[0] == c {
        trim_char_start(s.drop_first(), c)
    } else {
        s
    }
}

/// `s` without trailing copies of `c`.
pub open spec fn trim_char_end(s: Seq<char>, c: char) -> Seq<char>
    decreases s.len(),
{
    if s.len() > 0 && s.last() == c {
        trim_char_end(s.drop_last(), c)
    } else {
        s
    }
}

/// Length of the run of non-whitespace characters at the front of `s`.
pub open spec fn token_len(s: Seq<char>) -> nat
    decreases s.len(),
{
    if s.len() == 0 || is_ws(s[0]) {
        0
    } else {
        1 + token_len(s.drop_first())
    }
}

/// The whitespace-separated tokens of `s` (`str::split_whitespace`).
pub open spec fn tokens(s: Seq<char>) -> Seq<Seq<char>>
    decreases s.len(),
{
    let t = trim_start(s);
    proof {
        lemma_trim_start_suffix(s);
        lemma_token_len(t);
    }
    if t.len() == 0 {
        seq![]
    } else {
        let k = token_len(t);
        seq![t.take(k as int)] + tokens(t.skip(k as int))
    }
}

/// The first whitespace-separated token of `s`, if any.
pub open spec fn first_token(s: Seq<char>) -> Option<Seq<char>> {
    let ts = tokens(s);
    if ts.len() > 0 {
        Some(ts[0])
    } else {
        None
    }
}

/// The pieces joined with `sep` between them (`[String]::join`).
pub open spec fn join_with(ss: Seq<Seq<char>>, sep: Seq<char>) -> Seq<char>
    decreases ss.len(),
{
    if ss.len() == 0 {
        seq![]
    } else if ss.len() == 1 {
        ss[0]
    } else {
        join_with(ss.drop_last(), sep) + sep + ss.last()
    }
}

/// The views of a sequence of strings.
pub open spec fn string_views(v: Seq<String>) -> Seq<Seq<char>> {
    v.map_values(|x: String| x@)
}

/// The views of a sequence of character slices.
pub open spec fn views(v: Seq<&[char]>) -> Seq<Seq<char>> {
    v.map_values(|x: &[char]| x@)
}

// ---------------------------------------------------------------------
// Lemmas
// ---------------------------------------------------------------------

/// Relates `find` on a suffix to `find` on the whole sequence.
pub proof fn lemma_find_skip(s: Seq<char>, p: Seq<char>, i: int)
    requires
        0 <= i <= s.len(),
        forall|j: int| 0 <= j < i ==> !occurs_at(s, p, j),
    ensures
        find(s, p) == match find(s.skip(i), p) {
            Some(k) => Some((k + i) as nat),
            None => None::<nat>,
        },
    decreases i,
{
    if i > 0 {
        assert(!occurs_at(s, p, 0));
        if s.len() >= p.len() {
            assert(s.subrange(0, p.len() as int) != p);
        }
        let t = s.drop_first();
        assert forall|j: int| 0 <= j < i - 1 implies !occurs_at(t, p, j) by {
            assert(!occurs_at(s, p, j + 1));
            if j + p.len() <= t.len() {
                assert(t.subrange(j, j + p.len()) =~= s.subrange(j + 1, j + 1 + p.len()));
            }
        }
        lemma_find_skip(t, p, i - 1);
        assert(t.skip(i - 1) =~= s.skip(i));
    } else {
        assert(s.skip(0) =~= s);
    }
}

/// `find` is `Some(0)` when the pattern is at the front.
pub proof fn lemma_find_front(s: Seq<char>, p: Seq<char>)
    requires
        occurs_at(s, p, 0),
    ensures
        find(s, p) == Some(0nat),
{
}

/// `find` is `None` when there is no room for the pattern.
pub proof fn lemma_find_short(s: Seq<char>, p: Seq<char>)
    requires
        s.len() < p.len(),
    ensures
        find(s, p) is None,
{
}

/// What `find` returns, stated by positions.
pub proof fn lemma_find_result(s: Seq<char>, p: Seq<char>)
    ensures
        match find(s, p) {
            Some(i) => occurs_at(s, p, i as int) && forall|j: int|
                0 <= j < i ==> !occurs_at(s, p, j),
            None => forall|j: int| 0 <= j ==> !occurs_at(s, p, j),
        },
    decreases s.len(),
{
    if s.len() < p.len() {
    } else if s.subrange(0, p.len() as int) == p {
    } else if s.len() == 0 {
        assert(p.len() == 0);
        assert(s.subrange(0, 0) =~= p);
    } else {
        let t = s.drop_first();
        lemma_find_result(t, p);
        assert(!occurs_at(s, p, 0));
        assert forall|j: int| 1 <= j && j + p.len() <= s.len() implies (occurs_at(s, p, j)
            <==> occurs_at(t, p, j - 1)) by {
            assert(t.subrange(j - 1, j - 1 + p.len()) =~= s.subrange(j, j + p.len()));
        }
        match find(t, p) {
            Some(i) => {
                assert forall|j: int| 0 <= j < i + 1 implies !occurs_at(s, p, j) by {
                    if j >= 1 {
                        assert(!occurs_at(t, p, j - 1));
                    }
                }
            },
            None => {
                assert forall|j: int| 0 <= j implies !occurs_at(s, p, j) by {
                    if j >= 1 && j + p.len() <= s.len() {
                        assert(!occurs_at(t, p, j - 1));
                    }
                }
            },
        }
    }
}


/// `trim_start` removes a whitespace prefix.
pub proof fn lemma_trim_start_suffix(s: Seq<char>)
    ensures
        trim_start(s).len() <= s.len(),
        trim_start(s) == s.skip(s.len() - trim_start(s).len()),
        trim_start(s).len() > 0 ==> !is_ws(trim_start(s)[0]),
    decreases s.len(),
{
    if s.len() > 0 && is_ws(s[0]) {
        lemma_trim_start_suffix(s.drop_first());
        assert(s.drop_first().skip(s.drop_first().len() - trim_start(s).len()) =~= s.skip(
            s.len() - trim_start(s).len(),
        ));
    } else {
        assert(s.skip(0) =~= s);
    }
}

/// A token is a non-whitespace prefix.
pub proof fn lemma_token_len(s: Seq<char>)
    ensures
        token_len(s) <= s.len(),
        s.len() > 0 && !is_ws(s[0]) ==> token_len(s) > 0,
        forall|j: int| 0 <= j < token_len(s) ==> !is_ws(#[trigger] s[j]),
        token_len(s) < s.len() ==> is_ws(s[token_len(s) as int]),
    decreases s.len(),
{
    if s.len() == 0 || is_ws(s[0]) {
    } else {
        lemma_token_len(s.drop_first());
        assert forall|j: int| 0 <= j < token_len(s) implies !is_ws(#[trigger] s[j]) by {
            if j > 0 {
                assert(s[j] == s.drop_first()[j - 1]);
            }
        }
    }
}

// ---------------------------------------------------------------------
// Executable routines
// ---------------------------------------------------------------------

/// The characters of a string slice, in order.
pub fn chars_of(s: &str) -> (v: Vec<char>)
    ensures
        v@ == s@,
{
    let mut v: Vec<char> = Vec::new();
    for c in it: s.chars()
        invariant
            v@ == it.seq().take(it.index() as int),
    {
        v.push(c);
    }
    v
}

/// Appends one character to a string with `String::push`. The contract
/// claims what its documentation says: the character is added at the
/// end, the rest of the string is kept.
#[verifier::external_body]
pub(crate) fn push_char(s: &mut String, c: char)
    ensures
        final(s)@ == old(s)@.push(c),
{
    s.push(c);
}

/// A string holding the given characters.
pub fn string_of(v: &[char]) -> (s: String)
    ensures
        s@ == v@,
{
    let mut s = String::new();
    let mut i: usize = 0;
    while i < v.len()
        invariant
            i <= v@.len(),
            s@ == v@.take(i as int),
        decreases v@.len() - i,
    {
        push_char(&mut s, v[i]);
        assert(v@.take(i as int).push(v@[i as int]) =~= v@.take(i + 1));
        i = i + 1;
    }
    assert(v@.take(v@.len() as int) =~= v@);
    s
}

/// Whether `c` is Unicode whitespace (`char::is_whitespace`).
pub fn is_whitespace(c: char) -> (b: bool)
    ensures
        b == is_ws(c),
{
    let u = c as u32;
    u == 0x20 || (0x09 <= u && u <= 0x0D) || u == 0x85 || u == 0xA0 || u == 0x1680 || (0x2000
        <= u && u <= 0x200A) || u == 0x2028 || u == 0x2029 || u == 0x202F || u == 0x205F || u
        == 0x3000
}

/// Index of the first non-whitespace character (or the length).
pub fn trim_start_index(s: &[char]) -> (i: usize)
    ensures
        i <= s@.len(),
        trim_start(s@) == s@.skip(i as int),
{
    let mut i: usize = 0;
    assert(s@.skip(0) =~= s@);
    while i < s.len() && is_whitespace(s[i])
        invariant
            i <= s@.len(),
            trim_start(s@) == trim_start(s@.skip(i as int)),
        decreases s@.len() - i,
    {
        assert(s@.skip(i as int).drop_first() =~= s@.skip(i + 1));
        i = i + 1;
    }
    i
}

/// Index just past the last non-whitespace character of `s[start..]`.
pub fn trim_end_index(s: &[char], start: usize) -> (j: usize)
    requires
        start <= s@.len(),
    ensures
        start <= j <= s@.len(),
        trim_end(s@.skip(start as int)) == s@.subrange(start as int, j as int),
{
    let mut j: usize = s.len();
    assert(s@.subrange(start as int, s@.len() as int) =~= s@.skip(start as int));
    while j > start && is_whitespace(s[j - 1])
        invariant
            start <= j <= s@.len(),
            trim_end(s@.skip(start as int)) == trim_end(s@.subrange(start as int, j as int)),
        decreases j,
    {
        assert(s@.subrange(start as int, j as int).drop_last() =~= s@.subrange(
            start as int,
            j - 1,
        ));
        j = j - 1;
    }
    j
}

/// `s` without leading and trailing whitespace (`str::trim`).
pub fn trim_chars(s: &[char]) -> (t: &[char])
    ensures
        t@ == trim(s@),
{
    let i = trim_start_index(s);
    let j = trim_end_index(s, i);
    slice_subrange(s, i, j)
}

/// Whether `s` begins with `p` (`str::starts_with`).
pub fn starts_with_chars(s: &[char], p: &[char]) -> (b: bool)
    ensures
        b == starts_with(s@, p@),
{
    if p.len() > s.len() {
        return false;
    }
    let mut i: usize = 0;
    while i < p.len()
        invariant
            p@.len() <= s@.len(),
            i <= p@.len(),
            forall|k: int| 0 <= k < i ==> s@[k] == p@[k],
        decreases p@.len() - i,
    {
        if s[i] != p[i] {
            assert(s@.subrange(0, p@.len() as int)[i as int] != p@[i as int]);
            return false;
        }
        i = i + 1;
    }
    assert(s@.subrange(0, p@.len() as int) =~= p@);
    true
}

/// Whether `p` occurs in `s` at position `i`.
pub fn occurs_at_exec(s: &[char], p: &[char], i: usize) -> (b: bool)
    ensures
        b == occurs_at(s@, p@, i as int),
{
    if i > s.len() || p.len() > s.len() - i {
        return false;
    }
    let mut k: usize = 0;
    while k < p.len()
        invariant
            i + p@.len() <= s@.len(),
            s@.len() <= usize::MAX,
            k <= p@.len(),
            forall|m: int| 0 <= m < k ==> s@[i + m] == p@[m],
        decreases p@.len() - k,
    {
        let idx: usize = i + k;
        if s[idx] != p[k] {
            assert(s@.subrange(i as int, i + p@.len())[k as int] != p@[k as int]);
            return false;
        }
        k = k + 1;
    }
    assert(s@.subrange(i as int, i + p@.len()) =~= p@);
    true
}

/// Position of the first occurrence of `p` in `s` (`str::find`).
pub fn find_chars(s: &[char], p: &[char]) -> (r: Option<usize>)
    ensures
        r matches Some(i) ==> find(s@, p@) == Some(i as nat),
        r is None ==> find(s@, p@) is None,
{
    if p.len() > s.len() {
        proof {
            lemma_find_short(s@, p@);
        }
        return None;
    }
    let last: usize = s.len() - p.len();
    let mut i: usize = 0;
    loop
        invariant
            i <= last,
            last + p@.len() == s@.len(),
            forall|j: int| 0 <= j < i ==> !occurs_at(s@, p@, j),
        ensures
            forall|j: int| 0 <= j <= last ==> !occurs_at(s@, p@, j),
        decreases last - i,
    {
        if occurs_at_exec(s, p, i) {
            proof {
                lemma_find_skip(s@, p@, i as int);
                assert(s@.skip(i as int).subrange(0, p@.len() as int) =~= s@.subrange(
                    i as int,
                    i + p@.len(),
                ));
                lemma_find_front(s@.skip(i as int), p@);
            }
            return Some(i);
        }
        if i == last {
            break;
        }
        i = i + 1;
    }
    proof {
        lemma_find_result(s@, p@);
        if find(s@, p@) is Some {
            let k = find(s@, p@)->0;
            assert(!occurs_at(s@, p@, k as int));
        }
    }
    None
}

/// Whether `p` occurs in `s` (`str::contains`).
pub fn contains_chars(s: &[char], p: &[char]) -> (b: bool)
    ensures
        b == contains(s@, p@),
{
    find_chars(s, p).is_some()
}


/// A one-character pattern.
pub fn single(c: char) -> (v: Vec<char>)
    ensures
        v@ == seq![c],
{
    let mut v: Vec<char> = Vec::new();
    v.push(c);
    v
}

/// The lines of `s` (`str::lines`).
pub fn split_lines(s: &[char]) -> (res: Vec<&[char]>)
    ensures
        views(res@) == lines(s@),
{
    let mut res: Vec<&[char]> = Vec::new();
    let nl = single('\n');
    let mut start: usize = 0;
    assert(s@.skip(0) =~= s@);
    assert(views(res@) =~= Seq::<Seq<char>>::empty());
    assert(views(res@) + lines(s@) =~= lines(s@));
    while start < s.len()
        invariant
            start <= s@.len(),
            nl@ == seq!['\n'],
            lines(s@) == views(res@) + lines(s@.skip(start as int)),
        decreases s@.len() - start,
    {
        let rest = slice_subrange(s, start, s.len());
        assert(rest@ =~= s@.skip(start as int));
        match find_chars(rest, nl.as_slice()) {
            Some(i) => {
                proof {
                    lemma_find_result(rest@, nl@);
                }
                let mut end: usize = start + i;
                if i > 0 && s[end - 1] == '\r' {
                    end = end - 1;
                }
                let line = slice_subrange(s, start, end);
                assert(line@ =~= strip_cr(rest@.take(i as int)));
                assert(rest@.skip(i + 1) =~= s@.skip(start + i + 1));
                let ghost before = res@;
                res.push(line);
                assert(views(res@) =~= views(before).push(line@));
                assert(views(before) + lines(rest@) =~= views(res@) + lines(
                    s@.skip(start + i + 1),
                ));
                start = start + i + 1;
            },
            None => {
                let ghost before = res@;
                res.push(rest);
                assert(views(res@) =~= views(before).push(rest@));
                assert(s@.skip(s@.len() as int) =~= Seq::<char>::empty());
                assert(views(before) + lines(rest@) =~= views(res@) + lines(
                    s@.skip(s@.len() as int),
                ));
                start = s.len();
            },
        }
    }
    assert(s@.skip(start as int).len() == 0);
    assert(views(res@) + seq![] =~= views(res@));
    res
}


/// The parts around the first occurrence of `p` (`str::split_once`).
pub fn split_once_chars<'a>(s: &'a [char], p: &[char]) -> (r: Option<(&'a [char], &'a [char])>)
    ensures
        match r {
            Some((a, b)) => split_once(s@, p@) == Some((a@, b@)),
            None => split_once(s@, p@) is None,
        },
{
    match find_chars(s, p) {
        Some(i) => {
            proof {
                lemma_find_result(s@, p@);
                assert(occurs_at(s@, p@, i as int));
            }
            let a = slice_subrange(s, 0, i);
            let n = s.len();
            let b = slice_subrange(s, i + p.len(), n);
            assert(a@ =~= s@.take(i as int));
            assert(b@ =~= s@.skip(i + p@.len()));
            Some((a, b))
        },
        None => None,
    }
}

/// The part before the first occurrence of `p` (`str::split(p).next()`).
pub fn before_first_chars<'a>(s: &'a [char], p: &[char]) -> (r: &'a [char])
    ensures
        r@ == before_first(s@, p@),
{
    match find_chars(s, p) {
        Some(i) => {
            proof {
                lemma_find_result(s@, p@);
            }
            let a = slice_subrange(s, 0, i);
            assert(a@ =~= s@.take(i as int));
            a
        },
        None => s,
    }
}

/// The part after the last occurrence of `p` (`str::rsplit(p).next()`).
pub fn after_last_chars<'a>(s: &'a [char], p: &[char]) -> (r: &'a [char])
    requires
        p@.len() > 0,
    ensures
        r@ == after_last(s@, p@),
{
    let mut cur = s;
    loop
        invariant
            p@.len() > 0,
            after_last(s@, p@) == after_last(cur@, p@),
        decreases cur@.len(),
    {
        match find_chars(cur, p) {
            Some(i) => {
                proof {
                    lemma_find_result(cur@, p@);
                    assert(occurs_at(cur@, p@, i as int));
                }
                let n = cur.len();
                let next = slice_subrange(cur, i + p.len(), n);
                assert(next@ =~= cur@.skip(i + p@.len()));
                cur = next;
            },
            None => {
                return cur;
            },
        }
    }
}

/// The second piece of `s` split at `p` (`str::split(p).nth(1)`).
pub fn second_piece_chars<'a>(s: &'a [char], p: &[char]) -> (r: Option<&'a [char]>)
    ensures
        match r {
            Some(x) => second_piece(s@, p@) == Some(x@),
            None => second_piece(s@, p@) is None,
        },
{
    match split_once_chars(s, p) {
        Some((_, rest)) => Some(before_first_chars(rest, p)),
        None => None,
    }
}

/// `s` without the prefix `p` (`str::strip_prefix`).
pub fn strip_prefix_chars<'a>(s: &'a [char], p: &[char]) -> (r: Option<&'a [char]>)
    ensures
        match r {
            Some(x) => strip_prefix(s@, p@) == Some(x@),
            None => strip_prefix(s@, p@) is None,
        },
{
    if starts_with_chars(s, p) {
        let rest = slice_subrange(s, p.len(), s.len());
        assert(rest@ =~= s@.skip(p@.len() as int));
        Some(rest)
    } else {
        None
    }
}

/// `s` with every occurrence of `p` replaced by `r` (`str::replace`).
pub fn replace_chars(s: &[char], p: &[char], r: &[char]) -> (out: Vec<char>)
    requires
        p@.len() > 0,
    ensures
        out@ == replace(s@, p@, r@),
{
    let mut out: Vec<char> = Vec::new();
    let mut cur = s;
    loop
        invariant
            p@.len() > 0,
            replace(s@, p@, r@) == out@ + replace(cur@, p@, r@),
        decreases cur@.len(),
    {
        match find_chars(cur, p) {
            Some(i) => {
                proof {
                    lemma_find_result(cur@, p@);
                    assert(occurs_at(cur@, p@, i as int));
                }
                let head = slice_subrange(cur, 0, i);
                let n = cur.len();
                let next = slice_subrange(cur, i + p.len(), n);
                let ghost before = out@;
                extend_chars(&mut out, head);
                extend_chars(&mut out, r);
                assert(next@ =~= cur@.skip(i + p@.len()));
                assert(head@ =~= cur@.take(i as int));
                assert(before + (head@ + r@ + replace(next@, p@, r@)) =~= out@ + replace(
                    next@,
                    p@,
                    r@,
                ));
                cur = next;
            },
            None => {
                extend_chars(&mut out, cur);
                return out;
            },
        }
    }
}

/// Appends the characters of `v` to `out`.
pub fn extend_chars(out: &mut Vec<char>, v: &[char])
    ensures
        final(out)@ == old(out)@ + v@,
{
    let mut i: usize = 0;
    while i < v.len()
        invariant
            i <= v@.len(),
            out@ == old(out)@ + v@.take(i as int),
        decreases v@.len() - i,
    {
        out.push(v[i]);
        assert(old(out)@ + v@.take(i + 1) =~= (old(out)@ + v@.take(i as int)).push(v@[i as int]));
        i = i + 1;
    }
    assert(v@.take(v@.len() as int) =~= v@);
}


/// Appends the characters of a string slice.
pub fn extend_str(out: &mut Vec<char>, s: &str)
    ensures
        final(out)@ == old(out)@ + s@,
{
    let v = chars_of(s);
    extend_chars(out, v.as_slice());
}

/// `s` without leading and trailing copies of `c` (`str::trim_matches`).
pub fn trim_char_chars(s: &[char], c: char) -> (t: &[char])
    ensures
        t@ == trim_char(s@, c),
{
    let mut i: usize = 0;
    assert(s@.skip(0) =~= s@);
    while i < s.len() && s[i] == c
        invariant
            i <= s@.len(),
            trim_char_start(s@, c) == trim_char_start(s@.skip(i as int), c),
        decreases s@.len() - i,
    {
        assert(s@.skip(i as int).drop_first() =~= s@.skip(i + 1));
        i = i + 1;
    }
    let mut j: usize = s.len();
    assert(s@.subrange(i as int, s@.len() as int) =~= s@.skip(i as int));
    while j > i && s[j - 1] == c
        invariant
            i <= j <= s@.len(),
            trim_char_end(s@.skip(i as int), c) == trim_char_end(s@.subrange(i as int, j as int), c),
        decreases j,
    {
        assert(s@.subrange(i as int, j as int).drop_last() =~= s@.subrange(i as int, j - 1));
        j = j - 1;
    }
    slice_subrange(s, i, j)
}

/// Length of the non-whitespace run at the front of `s[start..]`.
fn token_end(s: &[char], start: usize) -> (e: usize)
    requires
        start <= s@.len(),
    ensures
        start <= e <= s@.len(),
        e - start == token_len(s@.skip(start as int)),
{
    let mut e: usize = start;
    while e < s.len() && !is_whitespace(s[e])
        invariant
            start <= e <= s@.len(),
            token_len(s@.skip(start as int)) == (e - start) + token_len(s@.skip(e as int)),
        decreases s@.len() - e,
    {
        assert(s@.skip(e as int).drop_first() =~= s@.skip(e + 1));
        e = e + 1;
    }
    e
}

/// The whitespace-separated tokens of `s` (`str::split_whitespace`).
pub fn tokens_of(s: &[char]) -> (res: Vec<&[char]>)
    ensures
        views(res@) == tokens(s@),
{
    let mut res: Vec<&[char]> = Vec::new();
    let mut cur = s;
    assert(views(res@) + tokens(s@) =~= tokens(s@));
    loop
        invariant
            tokens(s@) == views(res@) + tokens(cur@),
        decreases cur@.len(),
    {
        let i = trim_start_index(cur);
        let t = slice_subrange(cur, i, cur.len());
        assert(t@ =~= trim_start(cur@));
        proof {
            lemma_trim_start_suffix(cur@);
            lemma_token_len(t@);
        }
        if i == cur.len() {
            assert(views(res@) + seq![] =~= views(res@));
            return res;
        }
        let e = token_end(cur, i);
        assert(cur@.skip(i as int) =~= t@);
        let tok = slice_subrange(cur, i, e);
        let next = slice_subrange(cur, e, cur.len());
        assert(tok@ =~= t@.take(token_len(t@) as int));
        assert(next@ =~= t@.skip(token_len(t@) as int));
        let ghost before = res@;
        res.push(tok);
        assert(views(res@) =~= views(before).push(tok@));
        assert(views(before) + tokens(cur@) =~= views(res@) + tokens(next@));
        cur = next;
    }
}

/// ASCII lower-casing (`str::to_ascii_lowercase`).
pub fn to_lower_chars(s: &[char]) -> (t: Vec<char>)
    ensures
        t@ == to_lower(s@),
{
    let mut t: Vec<char> = Vec::new();
    let mut i: usize = 0;
    while i < s.len()
        invariant
            i <= s@.len(),
            t@ =~= to_lower(s@.take(i as int)),
        decreases s@.len() - i,
    {
        let c = s[i];
        let d = if 'A' <= c && c <= 'Z' {
            char_from_u32_lower(c)
        } else {
            c
        };
        t.push(d);
        assert(s@.take(i + 1) =~= s@.take(i as int).push(c));
        i = i + 1;
    }
    assert(s@.take(s@.len() as int) =~= s@);
    t
}

/// The lower-case letter for an upper-case ASCII letter.
fn char_from_u32_lower(c: char) -> (d: char)
    requires
        'A' <= c <= 'Z',
    ensures
        d == lower_char(c),
{
    let u: u32 = (c as u32) + 32;
    let b: u8 = u as u8;
    b as char
}

/// The strings joined with `sep` between them (`[String]::join`).
pub fn join_strings(ss: &[String], sep: &str) -> (out: String)
    ensures
        out@ == join_with(string_views(ss@), sep@),
{
    let mut v: Vec<char> = Vec::new();
    let ghost sv = string_views(ss@);
    let mut k: usize = 0;
    assert(sv.take(0) =~= Seq::<Seq<char>>::empty());
    while k < ss.len()
        invariant
            sv == string_views(ss@),
            k <= ss@.len(),
            v@ == join_with(sv.take(k as int), sep@),
        decreases ss@.len() - k,
    {
        if k > 0 {
            extend_str(&mut v, sep);
        }
        extend_str(&mut v, ss[k].as_str());
        assert(sv.take(k + 1).drop_last() =~= sv.take(k as int));
        assert(sv.take(k + 1).last() == ss@[k as int]@);
        if k == 0 {
            assert(v@ =~= join_with(sv.take(1), sep@));
        }
        k = k + 1;
    }
    assert(sv.take(ss@.len() as int) =~= sv);
    string_of(v.as_slice())
}

} // verus!
