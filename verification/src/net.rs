//! IPv4 addresses and decimal numbers in text form.

use vstd::prelude::*;
use crate::text::{chars_of, find, find_chars, lemma_find_result, occurs_at, single, views};

verus! {

/// An IPv4 address as its four octets.
#[derive(Clone, Copy, Debug, PartialEq, Eq, Structural)]
pub struct Ipv4 {
    pub a: u8,
    pub b: u8,
    pub c: u8,
    pub d: u8,
}

impl Ipv4 {
    /// The address `a.b.c.d`.
    pub fn new(a: u8, b: u8, c: u8, d: u8) -> (ip: Ipv4)
        ensures
            ip == (Ipv4 { a, b, c, d }),
    {
        Ipv4 { a, b, c, d }
    }

    /// `0.0.0.0`.
    pub fn unspecified() -> (ip: Ipv4)
        ensures
            ip == (Ipv4 { a: 0, b: 0, c: 0, d: 0 }),
    {
        Ipv4 { a: 0, b: 0, c: 0, d: 0 }
    }

    /// The address as a big-endian 32-bit number.
    pub open spec fn bits(self) -> int {
        self.a * 0x1000000 + self.b * 0x10000 + self.c * 0x100 + self.d
    }

    /// The address as a big-endian 32-bit number (`u32::from(Ipv4Addr)`).
    pub fn to_u32(&self) -> (v: u32)
        ensures
            v == self.bits(),
    {
        (self.a as u32) * 0x1000000 + (self.b as u32) * 0x10000 + (self.c as u32) * 0x100 + (
        self.d as u32)
    }

    /// The octets in order.
    pub fn octets(&self) -> (o: [u8; 4])
        ensures
            o@ == seq![self.a, self.b, self.c, self.d],
    {
        let o = [self.a, self.b, self.c, self.d];
        assert(o@ =~= seq![self.a, self.b, self.c, self.d]);
        o
    }
}

/// The decimal digit character for `d < 10`.
pub open spec fn digit_char(d: nat) -> char {
    (d + 48) as char
}

/// Decimal text of a natural number, without leading zeros.
pub open spec fn dec(n: nat) -> Seq<char>
    decreases n,
{
    if n < 10 {
        seq![digit_char(n)]
    } else {
        dec(n / 10).push(digit_char(n % 10))
    }
}

/// Dotted-quad text of an address (`Ipv4Addr`'s `Display`).
pub open spec fn ip_text(ip: Ipv4) -> Seq<char> {
    dec(ip.a as nat) + seq!['.'] + dec(ip.b as nat) + seq!['.'] + dec(ip.c as nat) + seq!['.']
        + dec(ip.d as nat)
}

/// Whether `c` is an ASCII digit.
pub open spec fn is_digit(c: char) -> bool {
    '0' <= c <= '9'
}

/// Value of a digit character.
pub open spec fn digit_val(c: char) -> nat {
    ((c as u32) - 48) as nat
}

/// Value of a string of decimal digits.
pub open spec fn digits_value(s: Seq<char>) -> nat
    decreases s.len(),
{
    if s.len() == 0 {
        0
    } else {
        digits_value(s.drop_last()) * 10 + digit_val(s.last())
    }
}

/// All characters are ASCII digits.
pub open spec fn all_digits(s: Seq<char>) -> bool {
    forall|i: int| 0 <= i < s.len() ==> is_digit(#[trigger] s[i])
}

/// The pieces of `s` between occurrences of `c` (`str::split(c)`).
pub open spec fn pieces(s: Seq<char>, c: char) -> Seq<Seq<char>>
    decreases s.len(),
{
    match find(s, seq![c]) {
        Some(i) => {
            proof {
                lemma_find_result(s, seq![c]);
            }
            seq![s.take(i as int)] + pieces(s.skip((i + 1) as int), c)
        },
        None => seq![s],
    }
}

/// An octet field as `Ipv4Addr`'s parser accepts it: one to three
/// digits, no leading zero unless the field is `0`, value at most 255.
pub open spec fn octet_ok(t: Seq<char>) -> bool {
    &&& 1 <= t.len() <= 3
    &&& all_digits(t)
    &&& (t.len() == 1 || t[0] != '0')
    &&& digits_value(t) <= 255
}

/// The address that `s` denotes (`str::parse::<Ipv4Addr>`).
pub open spec fn parse_ipv4(s: Seq<char>) -> Option<Ipv4> {
    let p = pieces(s, '.');
    if p.len() == 4 && octet_ok(p[0]) && octet_ok(p[1]) && octet_ok(p[2]) && octet_ok(p[3]) {
        Some(
            Ipv4 {
                a: digits_value(p[0]) as u8,
                b: digits_value(p[1]) as u8,
                c: digits_value(p[2]) as u8,
                d: digits_value(p[3]) as u8,
            },
        )
    } else {
        None
    }
}

/// The number that `s` denotes as a `u32` (`str::parse::<u32>`): an
/// optional `+`, then one or more digits, value below 2^32.
pub open spec fn parse_u32(s: Seq<char>) -> Option<u32> {
    let t = if s.len() > 0 && s[0] == '+' {
        s.drop_first()
    } else {
        s
    };
    if t.len() > 0 && all_digits(t) && digits_value(t) <= u32::MAX {
        Some(digits_value(t) as u32)
    } else {
        None
    }
}

/// Appends the decimal text of `n`.
pub fn push_dec(out: &mut Vec<char>, n: u64)
    ensures
        final(out)@ == old(out)@ + dec(n as nat),
    decreases n,
{
    if n >= 10 {
        push_dec(out, n / 10);
    }
    let d: u8 = (n % 10) as u8;
    let c: char = (48u8 + d) as char;
    assert(c == digit_char((n % 10) as nat));
    out.push(c);
    if n >= 10 {
        assert(old(out)@ + dec(n as nat) =~= old(out)@ + dec((n / 10) as nat) + seq![c]);
    } else {
        assert(old(out)@ + dec(n as nat) =~= old(out)@.push(c));
    }
}

/// Appends the dotted-quad text of `ip`.
pub fn push_ip(out: &mut Vec<char>, ip: Ipv4)
    ensures
        final(out)@ == old(out)@ + ip_text(ip),
{
    push_dec(out, ip.a as u64);
    out.push('.');
    push_dec(out, ip.b as u64);
    out.push('.');
    push_dec(out, ip.c as u64);
    out.push('.');
    push_dec(out, ip.d as u64);
    assert(out@ =~= old(out)@ + ip_text(ip));
}

/// Dotted-quad text of `ip`.
pub fn ip_chars(ip: Ipv4) -> (v: Vec<char>)
    ensures
        v@ == ip_text(ip),
{
    let mut v: Vec<char> = Vec::new();
    push_ip(&mut v, ip);
    assert(v@ =~= ip_text(ip));
    v
}

/// Value of a run of digits, if it is at most `limit`.
fn digits_value_upto(t: &[char], limit: u64) -> (r: Option<u64>)
    requires
        all_digits(t@),
        limit <= u32::MAX,
    ensures
        match r {
            Some(v) => v == digits_value(t@) && v <= limit,
            None => digits_value(t@) > limit,
        },
{
    let mut v: u64 = 0;
    let mut i: usize = 0;
    assert(t@.take(0) =~= Seq::<char>::empty());
    while i < t.len()
        invariant
            all_digits(t@),
            limit <= u32::MAX,
            i <= t@.len(),
            v == digits_value(t@.take(i as int)),
            v <= limit,
        decreases t@.len() - i,
    {
        assert(is_digit(t@[i as int]));
        let d: u64 = ((t[i] as u32) - 48) as u64;
        assert(t@.take(i + 1).drop_last() =~= t@.take(i as int));
        let nv: u64 = v * 10 + d;
        if nv > limit {
            proof {
                lemma_digits_prefix_mono(t@, i + 1);
            }
            return None;
        }
        v = nv;
        i = i + 1;
    }
    assert(t@.take(t@.len() as int) =~= t@);
    Some(v)
}

/// The value of a digit string is at least that of any prefix.
proof fn lemma_digits_prefix_mono(t: Seq<char>, k: int)
    requires
        0 <= k <= t.len(),
        all_digits(t),
    ensures
        digits_value(t) >= digits_value(t.take(k)),
    decreases t.len() - k,
{
    if k < t.len() {
        lemma_digits_prefix_mono(t, k + 1);
        assert(t.take(k + 1).drop_last() =~= t.take(k));
        assert(digits_value(t.take(k + 1)) == digits_value(t.take(k)) * 10 + digit_val(
            t.take(k + 1).last(),
        ));
    } else {
        assert(t.take(k) =~= t);
    }
}

/// Whether all characters are ASCII digits.
pub fn all_digits_exec(t: &[char]) -> (b: bool)
    ensures
        b == all_digits(t@),
{
    let mut i: usize = 0;
    while i < t.len()
        invariant
            i <= t@.len(),
            forall|k: int| 0 <= k < i ==> is_digit(#[trigger] t@[k]),
        decreases t@.len() - i,
    {
        if !('0' <= t[i] && t[i] <= '9') {
            assert(!is_digit(t@[i as int]));
            return false;
        }
        i = i + 1;
    }
    true
}

/// The pieces of `s` between occurrences of `c` (`str::split(c)`).
pub fn pieces_of(s: &[char], c: char) -> (res: Vec<&[char]>)
    ensures
        views(res@) == pieces(s@, c),
{
    let sep = single(c);
    let mut res: Vec<&[char]> = Vec::new();
    let mut cur = s;
    assert(views(res@) + pieces(s@, c) =~= pieces(s@, c));
    loop
        invariant
            sep@ == seq![c],
            pieces(s@, c) == views(res@) + pieces(cur@, c),
        decreases cur@.len(),
    {
        match find_chars(cur, sep.as_slice()) {
            Some(i) => {
                proof {
                    lemma_find_result(cur@, sep@);
                    assert(occurs_at(cur@, sep@, i as int));
                }
                let n = cur.len();
                let head = vstd::slice::slice_subrange(cur, 0, i);
                let next = vstd::slice::slice_subrange(cur, i + 1, n);
                assert(head@ =~= cur@.take(i as int));
                assert(next@ =~= cur@.skip(i + 1));
                let ghost before = res@;
                res.push(head);
                assert(views(res@) =~= views(before).push(head@));
                assert(views(before) + pieces(cur@, c) =~= views(res@) + pieces(next@, c));
                cur = next;
            },
            None => {
                let ghost before = res@;
                res.push(cur);
                assert(views(res@) =~= views(before).push(cur@));
                assert(views(before) + pieces(cur@, c) =~= views(res@));
                return res;
            },
        }
    }
}

/// One octet field, if it is well formed.
fn parse_octet(t: &[char]) -> (r: Option<u8>)
    ensures
        match r {
            Some(v) => octet_ok(t@) && v == digits_value(t@),
            None => !octet_ok(t@),
        },
{
    if t.len() < 1 || t.len() > 3 || !all_digits_exec(t) {
        return None;
    }
    if t.len() > 1 && t[0] == '0' {
        return None;
    }
    match digits_value_upto(t, 255) {
        Some(v) => Some(v as u8),
        None => None,
    }
}

/// The address that `s` denotes (`str::parse::<Ipv4Addr>`).
pub fn parse_ipv4_chars(s: &[char]) -> (r: Option<Ipv4>)
    ensures
        r == parse_ipv4(s@),
{
    let p = pieces_of(s, '.');
    if p.len() != 4 {
        return None;
    }
    let a = parse_octet(p[0]);
    let b = parse_octet(p[1]);
    let c = parse_octet(p[2]);
    let d = parse_octet(p[3]);
    match (a, b, c, d) {
        (Some(a), Some(b), Some(c), Some(d)) => Some(Ipv4 { a, b, c, d }),
        _ => None,
    }
}

/// The address that `s` denotes (`str::parse::<Ipv4Addr>`).
pub fn parse_ipv4_str(s: &str) -> (r: Option<Ipv4>)
    ensures
        r == parse_ipv4(s@),
{
    let v = chars_of(s);
    parse_ipv4_chars(v.as_slice())
}

/// The number that `s` denotes (`str::parse::<u32>`).
pub fn parse_u32_chars(s: &[char]) -> (r: Option<u32>)
    ensures
        r == parse_u32(s@),
{
    let t = if s.len() > 0 && s[0] == '+' {
        let n = s.len();
        let t = vstd::slice::slice_subrange(s, 1, n);
        assert(t@ =~= s@.drop_first());
        t
    } else {
        s
    };
    if t.len() == 0 || !all_digits_exec(t) {
        return None;
    }
    match digits_value_upto(t, 0xFFFF_FFFF) {
        Some(v) => Some(v as u32),
        None => None,
    }
}

} // verus!
