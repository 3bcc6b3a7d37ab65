//! Laws of reading back what sharing writes: an address printed parses
//! to itself, and the anchor body without a WAN bypass reads back as
//! the interfaces and address it was made for.

use vstd::prelude::*;
use crate::firewall::{
    after_on, body_fold, body_step, contract_spec, dns_rdr_spec, empty_pf, expand_fold, expand_spec,
    expand_step, iface_after_on_spec, join_lines, macro_of, macro_step, macros_fold, nat_step,
    parse_pf_spec, rules_text, PfSpec,
};
use crate::main_laws::{
    lemma_contains_at, lemma_find_is, lemma_lacks_char, lemma_lines_of_join, lemma_not_prefix,
    lemma_trim_fixed, one_line,
};
use crate::net::{
    all_digits, dec, digit_char, digit_val, digits_value, ip_text, is_digit, octet_ok,
    parse_ipv4, pieces, Ipv4,
};
use crate::text::{
    after_last, contains, find, first_token, has_char, lines, starts_with, strip_prefix,
    token_len, tokens, is_ws, split_once, trim, trim_char, trim_char_end, trim_char_start, trim_end,
    trim_start, lemma_find_front, lemma_find_result, lemma_find_skip, occurs_at, replace,
};

verus! {

/// What the decimal text of a number is like: digits only, no leading
/// zero, one digit per power of ten, and read back it is the number.
pub proof fn lemma_dec_props(n: nat)
    ensures
        dec(n).len() >= 1,
        all_digits(dec(n)),
        digits_value(dec(n)) == n,
        n > 0 ==> dec(n)[0] != '0',
        n < 10 ==> dec(n).len() == 1,
        n < 100 ==> dec(n).len() <= 2,
        n < 1000 ==> dec(n).len() <= 3,
    decreases n,
{
    if n < 10 {
        let c = digit_char(n);
        assert(c as u32 == n + 48);
        assert(dec(n) =~= seq![c]);
        assert(seq![c].drop_last() =~= Seq::<char>::empty());
        assert(digits_value(Seq::<char>::empty()) == 0);
        assert(digit_val(c) == n);
        assert(digits_value(dec(n)) == digits_value(Seq::<char>::empty()) * 10 + digit_val(c));
    } else {
        let m = n / 10;
        let r = n % 10;
        lemma_dec_props(m);
        let c = digit_char(r);
        assert(c as u32 == r + 48);
        let s = dec(m).push(c);
        assert(dec(n) == s);
        assert(s.drop_last() =~= dec(m));
        assert(digit_val(c) == r);
        assert(s.last() == c);
        assert(digits_value(s) == digits_value(dec(m)) * 10 + digit_val(c));
        assert(m * 10 + r == n);
        assert(s[0] == dec(m)[0]);
        assert forall|i: int| 0 <= i < s.len() implies is_digit(#[trigger] s[i]) by {
            if i < dec(m).len() {
                assert(s[i] == dec(m)[i]);
            }
        }
    }
}

/// A text of digits holds no dot.
pub proof fn lemma_digits_no_dot(s: Seq<char>)
    requires
        all_digits(s),
    ensures
        forall|i: int| 0 <= i < s.len() ==> s[i] != '.',
{
    assert forall|i: int| 0 <= i < s.len() implies s[i] != '.' by {
        assert(is_digit(s[i]));
    }
}

/// Splitting at dots: a dot-free head comes off first.
pub proof fn lemma_pieces_head(x: Seq<char>, y: Seq<char>)
    requires
        forall|i: int| 0 <= i < x.len() ==> x[i] != '.',
    ensures
        pieces(x + seq!['.'] + y, '.') == seq![x] + pieces(y, '.'),
{
    let s = x + seq!['.'] + y;
    let d = seq!['.'];
    assert(s.subrange(x.len() as int, x.len() + 1int) =~= d);
    assert forall|j: int| 0 <= j < x.len() implies !occurs_at(s, d, j) by {
        if occurs_at(s, d, j) {
            assert(s.subrange(j, j + 1)[0] == s[j]);
        }
    }
    lemma_find_is(s, d, x.len() as int);
    assert(s.take(x.len() as int) =~= x);
    assert(s.skip(x.len() + 1int) =~= y);
}

/// A dot-free text is one piece.
pub proof fn lemma_pieces_last(x: Seq<char>)
    requires
        forall|i: int| 0 <= i < x.len() ==> x[i] != '.',
    ensures
        pieces(x, '.') == seq![x],
{
    let d = seq!['.'];
    lemma_find_result(x, d);
    match find(x, d) {
        Some(i) => {
            assert(x.subrange(i as int, i + 1int)[0] == x[i as int]);
        },
        None => {},
    }
}

/// The decimal text of an octet is a field the address parser accepts,
/// holding that octet.
pub proof fn lemma_octet_text(n: u8)
    ensures
        octet_ok(dec(n as nat)),
        digits_value(dec(n as nat)) == n,
        forall|i: int| 0 <= i < dec(n as nat).len() ==> dec(n as nat)[i] != '.',
{
    lemma_dec_props(n as nat);
    lemma_digits_no_dot(dec(n as nat));
}

/// An address printed as a dotted quad parses back to itself.
pub proof fn lemma_parse_ip_text(ip: Ipv4)
    ensures
        parse_ipv4(ip_text(ip)) == Some(ip),
{
    let a = dec(ip.a as nat);
    let b = dec(ip.b as nat);
    let c = dec(ip.c as nat);
    let d = dec(ip.d as nat);
    lemma_octet_text(ip.a);
    lemma_octet_text(ip.b);
    lemma_octet_text(ip.c);
    lemma_octet_text(ip.d);
    let dot = seq!['.'];
    let t3 = c + dot + d;
    let t2 = b + dot + t3;
    let t1 = a + dot + t2;
    assert(ip_text(ip) =~= t1);
    lemma_pieces_last(d);
    lemma_pieces_head(c, d);
    lemma_pieces_head(b, t3);
    lemma_pieces_head(a, t2);
    let p = pieces(ip_text(ip), '.');
    assert(p =~= seq![a, b, c, d]);
}


// ---------------------------------------------------------------------
// Replacing in concatenations
// ---------------------------------------------------------------------

/// No occurrence of `p` starts in `a`, so replacing leaves `a` alone.
pub proof fn lemma_replace_skip(a: Seq<char>, b: Seq<char>, p: Seq<char>, v: Seq<char>)
    requires
        p.len() > 0,
        forall|i: int| 0 <= i < a.len() ==> !occurs_at(a + b, p, i),
    ensures
        replace(a + b, p, v) == a + replace(b, p, v),
{
    let s = a + b;
    lemma_find_skip(s, p, a.len() as int);
    assert(s.skip(a.len() as int) =~= b);
    lemma_find_result(b, p);
    match find(b, p) {
        Some(k) => {
            let k = k as int;
            let i: int = k + a.len();
            assert(s.take(i as int) =~= a + b.take(k as int));
            assert(s.skip(i + p.len()) =~= b.skip(k + p.len()));
            assert(replace(s, p, v) == s.take(i as int) + v + replace(s.skip(i + p.len()), p, v));
            assert(replace(b, p, v) == b.take(k as int) + v + replace(b.skip(k + p.len()), p, v));
            assert(replace(s, p, v) =~= a + replace(b, p, v));
        },
        None => {
            assert(replace(s, p, v) == s);
            assert(replace(b, p, v) == b);
        },
    }
}

/// An occurrence at the front is replaced first.
pub proof fn lemma_replace_front(b: Seq<char>, p: Seq<char>, v: Seq<char>)
    requires
        p.len() > 0,
    ensures
        replace(p + b, p, v) == v + replace(b, p, v),
{
    let s = p + b;
    assert(s.subrange(0, p.len() as int) =~= p);
    lemma_find_front(s, p);
    assert(s.take(0) =~= Seq::<char>::empty());
    assert(s.skip(p.len() as int) =~= b);
    assert(replace(s, p, v) =~= v + replace(b, p, v));
}

/// Without an occurrence nothing is replaced.
pub proof fn lemma_replace_none(a: Seq<char>, p: Seq<char>, v: Seq<char>)
    requires
        forall|i: int| 0 <= i < a.len() ==> !occurs_at(a, p, i),
    ensures
        replace(a, p, v) == a,
{
    lemma_find_result(a, p);
}

/// Replacing in `x + y` is replacing in each when no occurrence spans
/// the boundary.
pub proof fn lemma_replace_split(x: Seq<char>, y: Seq<char>, p: Seq<char>, v: Seq<char>)
    requires
        p.len() > 0,
        forall|i: int|
            #![trigger occurs_at(x + y, p, i)]
            0 <= i < x.len() && x.len() < i + p.len() ==> !occurs_at(x + y, p, i),
    ensures
        replace(x + y, p, v) == replace(x, p, v) + replace(y, p, v),
    decreases x.len(),
{
    let s = x + y;
    lemma_find_result(x, p);
    match find(x, p) {
        Some(i) => {
            let i = i as int;
            assert forall|j: int| 0 <= j < i implies !occurs_at(s, p, j) by {
                if j + p.len() <= x.len() {
                    if occurs_at(s, p, j) {
                        assert(x.subrange(j, j + p.len()) =~= s.subrange(j, j + p.len()));
                        assert(occurs_at(x, p, j));
                    }
                } else {
                    assert(!occurs_at(x + y, p, j));
                }
            }
            assert(s.subrange(i as int, i + p.len()) =~= x.subrange(i as int, i + p.len()));
            lemma_find_is(s, p, i as int);
            let x2 = x.skip(i + p.len());
            assert forall|j: int|
                0 <= j < x2.len() && x2.len() < j + p.len() implies !#[trigger] occurs_at(x2 + y, p, j) by {
                let k = j + i + p.len();
                assert(k < x.len() && x.len() < k + p.len());
                assert(!occurs_at(x + y, p, k));
                if occurs_at(x2 + y, p, j) {
                    assert((x2 + y).subrange(j, j + p.len()) =~= s.subrange(k, k + p.len()));
                }
            }
            lemma_replace_split(x2, y, p, v);
            assert(s.take(i as int) =~= x.take(i as int));
            assert(s.skip(i + p.len()) =~= x2 + y);
            assert(replace(s, p, v) == s.take(i as int) + v + replace(s.skip(i + p.len()), p, v));
            assert(replace(x, p, v) == x.take(i as int) + v + replace(x2, p, v));
            assert(replace(s, p, v) =~= replace(x, p, v) + replace(y, p, v));
        },
        None => {
            assert forall|j: int| 0 <= j < x.len() implies !occurs_at(s, p, j) by {
                if j + p.len() <= x.len() {
                    if occurs_at(s, p, j) {
                        assert(x.subrange(j, j + p.len()) =~= s.subrange(j, j + p.len()));
                        assert(occurs_at(x, p, j));
                    }
                } else {
                    assert(!occurs_at(x + y, p, j));
                }
            }
            lemma_replace_skip(x, y, p, v);
            lemma_replace_none(x, p, v);
        },
    }
}

/// A pattern without a newline is replaced line by line in joined
/// lines.
pub proof fn lemma_replace_join(ls: Seq<Seq<char>>, p: Seq<char>, v: Seq<char>)
    requires
        p.len() > 0,
        forall|i: int| 0 <= i < p.len() ==> p[i] != '\n',
    ensures
        replace(join_lines(ls), p, v) == join_lines(ls.map_values(|l: Seq<char>| replace(l, p, v))),
    decreases ls.len(),
{
    let nl = seq!['\n'];
    if ls.len() == 0 {
        lemma_replace_none(join_lines(ls), p, v);
        assert(ls.map_values(|l: Seq<char>| replace(l, p, v)) =~= Seq::<Seq<char>>::empty());
    } else {
        let init = ls.drop_last();
        let last = ls.last();
        lemma_replace_join(init, p, v);
        let x = join_lines(init);
        assert(join_lines(ls) == x + last + nl);
        // No occurrence spans the end of `last`: it would hold the newline.
        assert forall|i: int|
            0 <= i < last.len() && last.len() < i + p.len() implies !#[trigger] occurs_at(
            last + nl,
            p,
            i,
        ) by {
            if occurs_at(last + nl, p, i) {
                let k = last.len() - i;
                assert((last + nl).subrange(i, i + p.len())[k] == (last + nl)[last.len() as int]);
            }
        }
        lemma_replace_split(last, nl, p, v);
        assert forall|i: int| 0 <= i < nl.len() implies !occurs_at(nl, p, i) by {
            if occurs_at(nl, p, i) {
                assert(nl.subrange(i, i + p.len())[0] == nl[i]);
            }
        }
        lemma_replace_none(nl, p, v);
        // Nor the end of the earlier lines, which is a newline too.
        if x.len() > 0 {
            lemma_join_ends_nl(init);
        }
        assert forall|i: int|
            0 <= i < x.len() && x.len() < i + p.len() implies !#[trigger] occurs_at(
            x + (last + nl),
            p,
            i,
        ) by {
            if occurs_at(x + (last + nl), p, i) {
                let k = x.len() - 1 - i;
                assert((x + (last + nl)).subrange(i, i + p.len())[k] == (x + (last + nl))[x.len() - 1]);
            }
        }
        assert(x + last + nl =~= x + (last + nl));
        lemma_replace_split(x, last + nl, p, v);
        let m = ls.map_values(|l: Seq<char>| replace(l, p, v));
        assert(m.drop_last() =~= init.map_values(|l: Seq<char>| replace(l, p, v)));
        assert(m.last() == replace(last, p, v));
        assert(join_lines(m) == join_lines(m.drop_last()) + m.last() + nl);
        assert(replace(join_lines(ls), p, v) =~= join_lines(m));
    }
}

/// Joined lines end in a newline.
pub proof fn lemma_join_ends_nl(ls: Seq<Seq<char>>)
    requires
        ls.len() > 0,
    ensures
        join_lines(ls).len() > 0,
        join_lines(ls).last() == '\n',
{
}

// ---------------------------------------------------------------------
// Folds over concatenated lines
// ---------------------------------------------------------------------

/// Folding the macro lines of `a + b` folds `a`, then `b`.
pub proof fn lemma_macros_fold_append(pf: PfSpec, a: Seq<Seq<char>>, b: Seq<Seq<char>>)
    ensures
        macros_fold(pf, a + b) == macros_fold(macros_fold(pf, a), b),
    decreases b.len(),
{
    if b.len() == 0 {
        assert(a + b =~= a);
    } else {
        assert((a + b).drop_last() =~= a + b.drop_last());
        assert((a + b).last() == b.last());
        lemma_macros_fold_append(pf, a, b.drop_last());
    }
}

/// Substituting along `a + b` substitutes along `a`, then `b`.
pub proof fn lemma_expand_fold_append(out: Seq<char>, a: Seq<Seq<char>>, b: Seq<Seq<char>>)
    ensures
        expand_fold(out, a + b) == expand_fold(expand_fold(out, a), b),
    decreases b.len(),
{
    if b.len() == 0 {
        assert(a + b =~= a);
    } else {
        assert((a + b).drop_last() =~= a + b.drop_last());
        assert((a + b).last() == b.last());
        lemma_expand_fold_append(out, a, b.drop_last());
    }
}

/// Reading the rule lines of `a + b` reads `a`, then `b`.
pub proof fn lemma_body_fold_append(pf: PfSpec, a: Seq<Seq<char>>, b: Seq<Seq<char>>)
    ensures
        body_fold(pf, a + b) == body_fold(body_fold(pf, a), b),
    decreases b.len(),
{
    if b.len() == 0 {
        assert(a + b =~= a);
    } else {
        assert((a + b).drop_last() =~= a + b.drop_last());
        assert((a + b).last() == b.last());
        lemma_body_fold_append(pf, a, b.drop_last());
    }
}


// ---------------------------------------------------------------------
// The anchor body as pieces
// ---------------------------------------------------------------------

/// A piece of a line of the anchor body: literal text, or one of the
/// two interface macros.
pub enum Piece {
    Lit(Seq<char>),
    Ext,
    Int,
}

/// A piece's text, with `e` for the external and `i` for the internal
/// interface.
pub open spec fn piece_text(p: Piece, e: Seq<char>, i: Seq<char>) -> Seq<char> {
    match p {
        Piece::Lit(t) => t,
        Piece::Ext => e,
        Piece::Int => i,
    }
}

/// The pieces' texts, in order.
pub open spec fn render(ps: Seq<Piece>, e: Seq<char>, i: Seq<char>) -> Seq<char>
    decreases ps.len(),
{
    if ps.len() == 0 {
        seq![]
    } else {
        piece_text(ps[0], e, i) + render(ps.drop_first(), e, i)
    }
}

/// The external interface macro as written in the body.
pub open spec fn ext_macro() -> Seq<char> {
    "$ext_if"@
}

/// The internal interface macro as written in the body.
pub open spec fn int_macro() -> Seq<char> {
    "$int_if"@
}

/// `s` holds no `$`.
pub open spec fn no_dollar(s: Seq<char>) -> bool {
    forall|k: int| 0 <= k < s.len() ==> s[k] != '$'
}

/// Every literal piece holds no `$`.
pub open spec fn plain_pieces(ps: Seq<Piece>) -> bool {
    forall|k: int| 0 <= k < ps.len() ==> (#[trigger] ps[k] matches Piece::Lit(t) ==> no_dollar(t))
}

/// Substituting the external interface into the written body.
pub proof fn lemma_render_subst_ext(ps: Seq<Piece>, vpn: Seq<char>)
    requires
        plain_pieces(ps),
    ensures
        replace(render(ps, ext_macro(), int_macro()), ext_macro(), vpn) == render(
            ps,
            vpn,
            int_macro(),
        ),
    decreases ps.len(),
{
    reveal_strlit("$ext_if");
    reveal_strlit("$int_if");
    let p = ext_macro();
    if ps.len() == 0 {
        lemma_replace_none(Seq::<char>::empty(), p, vpn);
    } else {
        let rest = ps.drop_first();
        assert(plain_pieces(rest)) by {
            assert forall|k: int| 0 <= k < rest.len() implies (#[trigger] rest[k] matches Piece::Lit(
                t,
            ) ==> no_dollar(t)) by {
                assert(rest[k] == ps[k + 1]);
            }
        }
        lemma_render_subst_ext(rest, vpn);
        let r = render(rest, ext_macro(), int_macro());
        assert(ps[0] matches Piece::Lit(t) ==> no_dollar(t));
        match ps[0] {
            Piece::Lit(t) => {
                assert forall|k: int| 0 <= k < t.len() implies !occurs_at(t + r, p, k) by {
                    if occurs_at(t + r, p, k) {
                        assert((t + r).subrange(k, k + p.len())[0] == (t + r)[k]);
                    }
                }
                lemma_replace_skip(t, r, p, vpn);
            },
            Piece::Ext => {
                lemma_replace_front(r, p, vpn);
            },
            Piece::Int => {
                let q = int_macro();
                assert forall|k: int| 0 <= k < q.len() implies !occurs_at(q + r, p, k) by {
                    if occurs_at(q + r, p, k) {
                        assert((q + r).subrange(k, k + p.len())[0] == (q + r)[k]);
                        assert((q + r).subrange(k, k + p.len())[1] == (q + r)[k + 1]);
                    }
                }
                lemma_replace_skip(q, r, p, vpn);
            },
        }
    }
}

/// Substituting the internal interface after the external one.
pub proof fn lemma_render_subst_int(ps: Seq<Piece>, vpn: Seq<char>, lan: Seq<char>)
    requires
        plain_pieces(ps),
        no_dollar(vpn),
    ensures
        replace(render(ps, vpn, int_macro()), int_macro(), lan) == render(ps, vpn, lan),
    decreases ps.len(),
{
    reveal_strlit("$int_if");
    let p = int_macro();
    if ps.len() == 0 {
        lemma_replace_none(Seq::<char>::empty(), p, lan);
    } else {
        let rest = ps.drop_first();
        assert(plain_pieces(rest)) by {
            assert forall|k: int| 0 <= k < rest.len() implies (#[trigger] rest[k] matches Piece::Lit(
                t,
            ) ==> no_dollar(t)) by {
                assert(rest[k] == ps[k + 1]);
            }
        }
        lemma_render_subst_int(rest, vpn, lan);
        let r = render(rest, vpn, int_macro());
        assert(ps[0] matches Piece::Lit(t) ==> no_dollar(t));
        match ps[0] {
            Piece::Lit(t) => {
                assert forall|k: int| 0 <= k < t.len() implies !occurs_at(t + r, p, k) by {
                    if occurs_at(t + r, p, k) {
                        assert((t + r).subrange(k, k + p.len())[0] == (t + r)[k]);
                    }
                }
                lemma_replace_skip(t, r, p, lan);
            },
            Piece::Ext => {
                assert forall|k: int| 0 <= k < vpn.len() implies !occurs_at(vpn + r, p, k) by {
                    if occurs_at(vpn + r, p, k) {
                        assert((vpn + r).subrange(k, k + p.len())[0] == (vpn + r)[k]);
                    }
                }
                lemma_replace_skip(vpn, r, p, lan);
            },
            Piece::Int => {
                lemma_replace_front(r, p, lan);
            },
        }
    }
}

/// An interface name: letters and digits.
pub open spec fn iface_name(s: Seq<char>) -> bool {
    s.len() > 0 && forall|k: int|
        0 <= k < s.len() ==> ('a' <= #[trigger] s[k] <= 'z' || 'A' <= s[k] <= 'Z' || '0' <= s[k]
            <= '9')
}

/// The lines of the anchor body without a WAN bypass, as pieces.
pub open spec fn body_pieces(vpn: Seq<char>, lan: Seq<char>, ip: Ipv4, mss: u16) -> Seq<Seq<Piece>> {
    seq![
        seq![Piece::Lit("# tunshare anchor body \u{2014} com.tunshare"@)],
        seq![Piece::Lit("# VPN interface: "@ + vpn)],
        seq![Piece::Lit("# LAN interface: "@ + lan)],
        seq![],
        seq![Piece::Lit("ext_if = \""@ + vpn + "\""@)],
        seq![Piece::Lit("int_if = \""@ + lan + "\""@)],
        seq![],
        seq![Piece::Lit("scrub in all no-df"@)],
        seq![
            Piece::Lit("scrub in on "@),
            Piece::Int,
            Piece::Lit(" inet proto tcp from "@),
            Piece::Int,
            Piece::Lit(":network to any no-df max-mss "@ + dec(mss as nat)),
        ],
        seq![
            Piece::Lit("scrub out on "@),
            Piece::Ext,
            Piece::Lit(" inet proto tcp from ("@),
            Piece::Ext,
            Piece::Lit(") to any max-mss "@ + dec(mss as nat)),
        ],
        seq![
            Piece::Lit("nat on "@),
            Piece::Ext,
            Piece::Lit(" inet from "@),
            Piece::Int,
            Piece::Lit(":network to any -> ("@),
            Piece::Ext,
            Piece::Lit(") static-port"@),
        ],
        seq![
            Piece::Lit("rdr on "@),
            Piece::Int,
            Piece::Lit(" inet proto udp from "@),
            Piece::Int,
            Piece::Lit(":network to any port 53 -> "@ + ip_text(ip)),
        ],
        seq![
            Piece::Lit("rdr on "@),
            Piece::Int,
            Piece::Lit(" inet proto tcp from "@),
            Piece::Int,
            Piece::Lit(":network to any port 53 -> "@ + ip_text(ip)),
        ],
        seq![],
        seq![Piece::Lit("pass quick on "@), Piece::Int, Piece::Lit(" all keep state"@)],
        seq![
            Piece::Lit("pass out quick on "@),
            Piece::Ext,
            Piece::Lit(" inet from ("@),
            Piece::Ext,
            Piece::Lit(") to any keep state"@),
        ],
    ]
}

/// The lines with `e` and `i` for the interfaces.
pub open spec fn body_lines(
    vpn: Seq<char>,
    lan: Seq<char>,
    ip: Ipv4,
    mss: u16,
    e: Seq<char>,
    i: Seq<char>,
) -> Seq<Seq<char>> {
    body_pieces(vpn, lan, ip, mss).map_values(|ps: Seq<Piece>| render(ps, e, i))
}

/// The first eight lines, whatever stands for the interfaces.
pub proof fn lemma_lines_head(vpn: Seq<char>, lan: Seq<char>, ip: Ipv4, mss: u16, e: Seq<char>, i: Seq<char>)
    ensures
        body_lines(vpn, lan, ip, mss, e, i).len() == 16,
        body_lines(vpn, lan, ip, mss, e, i)[0] == "# tunshare anchor body \u{2014} com.tunshare"@,
        body_lines(vpn, lan, ip, mss, e, i)[1] == "# VPN interface: "@ + vpn,
        body_lines(vpn, lan, ip, mss, e, i)[2] == "# LAN interface: "@ + lan,
        body_lines(vpn, lan, ip, mss, e, i)[3] == Seq::<char>::empty(),
        body_lines(vpn, lan, ip, mss, e, i)[4] == "ext_if = \""@ + vpn + "\""@,
        body_lines(vpn, lan, ip, mss, e, i)[5] == "int_if = \""@ + lan + "\""@,
        body_lines(vpn, lan, ip, mss, e, i)[6] == Seq::<char>::empty(),
        body_lines(vpn, lan, ip, mss, e, i)[7] == "scrub in all no-df"@,
{
    reveal_with_fuel(render, 2);
    let ls = body_lines(vpn, lan, ip, mss, e, i);
    let ps = body_pieces(vpn, lan, ip, mss);
    assert(ls[0] == render(ps[0], e, i));
    assert(ls[0] =~= "# tunshare anchor body \u{2014} com.tunshare"@);
    assert(ls[1] =~= "# VPN interface: "@ + vpn);
    assert(ls[2] =~= "# LAN interface: "@ + lan);
    assert(ls[3] =~= Seq::<char>::empty());
    assert(ls[4] =~= "ext_if = \""@ + vpn + "\""@);
    assert(ls[5] =~= "int_if = \""@ + lan + "\""@);
    assert(ls[6] =~= Seq::<char>::empty());
    assert(ls[7] =~= "scrub in all no-df"@);
}

/// The scrub and NAT lines.
pub proof fn lemma_lines_mid(vpn: Seq<char>, lan: Seq<char>, ip: Ipv4, mss: u16, e: Seq<char>, i: Seq<char>)
    ensures
        body_lines(vpn, lan, ip, mss, e, i)[8] == "scrub in on "@ + i + " inet proto tcp from "@ + i
            + ":network to any no-df max-mss "@ + dec(mss as nat),
        body_lines(vpn, lan, ip, mss, e, i)[9] == "scrub out on "@ + e + " inet proto tcp from ("@ + e
            + ") to any max-mss "@ + dec(mss as nat),
        body_lines(vpn, lan, ip, mss, e, i)[10] == "nat on "@ + e + " inet from "@ + i
            + ":network to any -> ("@ + e + ") static-port"@,
{
    reveal_with_fuel(render, 8);
    let ls = body_lines(vpn, lan, ip, mss, e, i);
    let d = dec(mss as nat);
    assert(ls[8] =~= "scrub in on "@ + i + " inet proto tcp from "@ + i
        + ":network to any no-df max-mss "@ + d);
    assert(ls[9] =~= "scrub out on "@ + e + " inet proto tcp from ("@ + e + ") to any max-mss "@ + d);
    assert(ls[10] =~= "nat on "@ + e + " inet from "@ + i + ":network to any -> ("@ + e
        + ") static-port"@);
}

/// The DNS redirect lines and the pass lines.
pub proof fn lemma_lines_tail(vpn: Seq<char>, lan: Seq<char>, ip: Ipv4, mss: u16, e: Seq<char>, i: Seq<char>)
    ensures
        body_lines(vpn, lan, ip, mss, e, i)[11] == "rdr on "@ + i + " inet proto udp from "@ + i
            + ":network to any port 53 -> "@ + ip_text(ip),
        body_lines(vpn, lan, ip, mss, e, i)[12] == "rdr on "@ + i + " inet proto tcp from "@ + i
            + ":network to any port 53 -> "@ + ip_text(ip),
        body_lines(vpn, lan, ip, mss, e, i)[13] == Seq::<char>::empty(),
        body_lines(vpn, lan, ip, mss, e, i)[14] == "pass quick on "@ + i + " all keep state"@,
        body_lines(vpn, lan, ip, mss, e, i)[15] == "pass out quick on "@ + e + " inet from ("@ + e
            + ") to any keep state"@,
{
    reveal_with_fuel(render, 8);
    let ls = body_lines(vpn, lan, ip, mss, e, i);
    let t = ip_text(ip);
    assert(ls[11] =~= "rdr on "@ + i + " inet proto udp from "@ + i + ":network to any port 53 -> "@
        + t);
    assert(ls[12] =~= "rdr on "@ + i + " inet proto tcp from "@ + i + ":network to any port 53 -> "@
        + t);
    assert(ls[13] =~= Seq::<char>::empty());
    assert(ls[14] =~= "pass quick on "@ + i + " all keep state"@);
    assert(ls[15] =~= "pass out quick on "@ + e + " inet from ("@ + e + ") to any keep state"@);
}

/// One more line joined.
pub proof fn lemma_join_step(ls: Seq<Seq<char>>, k: int)
    requires
        0 <= k < ls.len(),
    ensures
        join_lines(ls.take(k + 1)) == join_lines(ls.take(k)) + ls[k] + seq!['\n'],
{
    assert(ls.take(k + 1).drop_last() =~= ls.take(k));
    assert(ls.take(k + 1).last() == ls[k]);
}

/// How the body's literal chunks break at line ends and macros.
pub proof fn lemma_chunks_a()
    ensures
        "# tunshare anchor body \u{2014} com.tunshare\n# VPN interface: "@ == "# tunshare anchor body \u{2014} com.tunshare"@
            + seq!['\n'] + "# VPN interface: "@,
        "\n# LAN interface: "@ == seq!['\n'] + "# LAN interface: "@,
        "\n\next_if = \""@ == seq!['\n', '\n'] + "ext_if = \""@,
        "\"\nint_if = \""@ == "\""@ + seq!['\n'] + "int_if = \""@,
        "\"\n"@ == "\""@ + seq!['\n'],
        "\n"@ == seq!['\n'],
        "\n\n"@ == seq!['\n', '\n'],
{
    reveal_strlit("# tunshare anchor body \u{2014} com.tunshare\n# VPN interface: ");
    reveal_strlit("# tunshare anchor body \u{2014} com.tunshare");
    reveal_strlit("# VPN interface: ");
    reveal_strlit("\n# LAN interface: ");
    reveal_strlit("# LAN interface: ");
    reveal_strlit("\n\next_if = \"");
    reveal_strlit("ext_if = \"");
    reveal_strlit("\"\nint_if = \"");
    reveal_strlit("\"");
    reveal_strlit("int_if = \"");
    reveal_strlit("\"\n");
    reveal_strlit("\n");
    reveal_strlit("\n\n");
    assert("# tunshare anchor body \u{2014} com.tunshare\n# VPN interface: "@ =~= "# tunshare anchor body \u{2014} com.tunshare"@
        + seq!['\n'] + "# VPN interface: "@);
    assert("\n# LAN interface: "@ =~= seq!['\n'] + "# LAN interface: "@);
    assert("\n\next_if = \""@ =~= seq!['\n', '\n'] + "ext_if = \""@);
    assert("\"\nint_if = \""@ =~= "\""@ + seq!['\n'] + "int_if = \""@);
    assert("\"\n"@ =~= "\""@ + seq!['\n']);
    assert("\n"@ =~= seq!['\n']);
    assert("\n\n"@ =~= seq!['\n', '\n']);
}

/// The scrub chunks.
pub proof fn lemma_chunks_scrub()
    ensures
        "\nscrub in all no-df\nscrub in on $int_if inet proto tcp from $int_if:network "@ + "to any"@
            + " no-df max-mss "@ == seq!['\n'] + "scrub in all no-df"@ + seq!['\n'] + ("scrub in on "@
            + int_macro() + " inet proto tcp from "@ + int_macro() + ":network to any no-df max-mss "@),
        "\nscrub out on $ext_if inet proto tcp from ($ext_if) to any max-mss "@ == seq!['\n']
            + ("scrub out on "@ + ext_macro() + " inet proto tcp from ("@ + ext_macro()
            + ") to any max-mss "@),
{
    reveal_strlit("\nscrub in all no-df\nscrub in on $int_if inet proto tcp from $int_if:network ");
    reveal_strlit("to any");
    reveal_strlit(" no-df max-mss ");
    reveal_strlit("scrub in all no-df");
    reveal_strlit("scrub in on ");
    reveal_strlit(" inet proto tcp from ");
    reveal_strlit(":network to any no-df max-mss ");
    reveal_strlit("$int_if");
    reveal_strlit("$ext_if");
    reveal_strlit("\nscrub out on $ext_if inet proto tcp from ($ext_if) to any max-mss ");
    reveal_strlit("scrub out on ");
    reveal_strlit(" inet proto tcp from (");
    reveal_strlit(") to any max-mss ");
    assert("\nscrub in all no-df\nscrub in on $int_if inet proto tcp from $int_if:network "@ + "to any"@
        + " no-df max-mss "@ =~= seq!['\n'] + "scrub in all no-df"@ + seq!['\n'] + ("scrub in on "@
        + int_macro() + " inet proto tcp from "@ + int_macro() + ":network to any no-df max-mss "@));
    assert("\nscrub out on $ext_if inet proto tcp from ($ext_if) to any max-mss "@ =~= seq!['\n']
        + ("scrub out on "@ + ext_macro() + " inet proto tcp from ("@ + ext_macro()
        + ") to any max-mss "@));
}

/// The NAT and redirect chunks.
pub proof fn lemma_chunks_nat()
    ensures
        "nat on $ext_if inet from $int_if:network to any -> ($ext_if) static-port"@ == "nat on "@
            + ext_macro() + " inet from "@ + int_macro() + ":network to any -> ("@ + ext_macro()
            + ") static-port"@,
        "rdr on $int_if inet proto udp from $int_if:network to any port 53 -> "@ == "rdr on "@
            + int_macro() + " inet proto udp from "@ + int_macro() + ":network to any port 53 -> "@,
        "\nrdr on $int_if inet proto tcp from $int_if:network to any port 53 -> "@ == seq!['\n']
            + ("rdr on "@ + int_macro() + " inet proto tcp from "@ + int_macro()
            + ":network to any port 53 -> "@),
{
    reveal_strlit("nat on $ext_if inet from $int_if:network to any -> ($ext_if) static-port");
    reveal_strlit("nat on ");
    reveal_strlit(" inet from ");
    reveal_strlit(":network to any -> (");
    reveal_strlit(") static-port");
    reveal_strlit("$int_if");
    reveal_strlit("$ext_if");
    reveal_strlit("rdr on $int_if inet proto udp from $int_if:network to any port 53 -> ");
    reveal_strlit("rdr on ");
    reveal_strlit(" inet proto udp from ");
    reveal_strlit(":network to any port 53 -> ");
    reveal_strlit("\nrdr on $int_if inet proto tcp from $int_if:network to any port 53 -> ");
    reveal_strlit(" inet proto tcp from ");
    assert("nat on $ext_if inet from $int_if:network to any -> ($ext_if) static-port"@ =~= "nat on "@
        + ext_macro() + " inet from "@ + int_macro() + ":network to any -> ("@ + ext_macro()
        + ") static-port"@);
    assert("rdr on $int_if inet proto udp from $int_if:network to any port 53 -> "@ =~= "rdr on "@
        + int_macro() + " inet proto udp from "@ + int_macro() + ":network to any port 53 -> "@);
    assert("\nrdr on $int_if inet proto tcp from $int_if:network to any port 53 -> "@ =~= seq!['\n']
        + ("rdr on "@ + int_macro() + " inet proto tcp from "@ + int_macro()
        + ":network to any port 53 -> "@));
}

/// The pass chunk.
pub proof fn lemma_chunks_pass()
    ensures
        "pass quick on $int_if all keep state\npass out quick on $ext_if inet from ($ext_if) to any keep state\n"@
            == ("pass quick on "@ + int_macro() + " all keep state"@) + seq!['\n'] + ("pass out quick on "@
            + ext_macro() + " inet from ("@ + ext_macro() + ") to any keep state"@) + seq!['\n'],
{
    reveal_strlit("pass quick on $int_if all keep state\npass out quick on $ext_if inet from ($ext_if) to any keep state\n");
    reveal_strlit("pass quick on ");
    reveal_strlit(" all keep state");
    reveal_strlit("pass out quick on ");
    reveal_strlit(" inet from (");
    reveal_strlit(") to any keep state");
    reveal_strlit("$int_if");
    reveal_strlit("$ext_if");
    assert("pass quick on $int_if all keep state\npass out quick on $ext_if inet from ($ext_if) to any keep state\n"@
        =~= ("pass quick on "@ + int_macro() + " all keep state"@) + seq!['\n'] + ("pass out quick on "@
        + ext_macro() + " inet from ("@ + ext_macro() + ") to any keep state"@) + seq!['\n']);
}

// The body's text is built chunk by chunk; each step below relates the
// text so far to the lines joined so far.

pub proof fn step_first(c1: Seq<char>, vpn: Seq<char>, l0: Seq<char>, v: Seq<char>, l1: Seq<char>, p1: Seq<char>)
    requires
        c1 == l0 + seq!['\n'] + v,
        l1 == v + vpn,
        p1 == Seq::<char>::empty() + l0 + seq!['\n'],
    ensures
        c1 + vpn == p1 + l1,
{
    assert(c1 + vpn =~= p1 + l1);
}

pub proof fn step_line(t: Seq<char>, p: Seq<char>, l: Seq<char>, c: Seq<char>, w: Seq<char>, x: Seq<char>, p2: Seq<char>, l2: Seq<char>)
    requires
        t == p + l,
        c == seq!['\n'] + w,
        p2 == p + l + seq!['\n'],
        l2 == w + x,
    ensures
        t + c + x == p2 + l2,
{
    assert(t + c + x =~= p2 + l2);
}

pub proof fn step_blank(t: Seq<char>, p: Seq<char>, l: Seq<char>, c: Seq<char>, w: Seq<char>, x: Seq<char>, p2: Seq<char>, p3: Seq<char>)
    requires
        t == p + l,
        c == seq!['\n', '\n'] + w,
        p2 == p + l + seq!['\n'],
        p3 == p2 + Seq::<char>::empty() + seq!['\n'],
    ensures
        t + c + x == p3 + w + x,
{
    assert(t + c + x =~= p3 + w + x);
}

pub proof fn step_quote(t: Seq<char>, p: Seq<char>, w: Seq<char>, a: Seq<char>, c: Seq<char>, q: Seq<char>, y: Seq<char>, b: Seq<char>, l: Seq<char>, p2: Seq<char>)
    requires
        t == p + w + a,
        c == q + seq!['\n'] + y,
        l == w + a + q,
        p2 == p + l + seq!['\n'],
    ensures
        t + c + b == p2 + y + b,
{
    assert(t + c + b =~= p2 + y + b);
}

pub proof fn step_close(t: Seq<char>, p: Seq<char>, w: Seq<char>, a: Seq<char>, c: Seq<char>, q: Seq<char>, l: Seq<char>, p2: Seq<char>)
    requires
        t == p + w + a,
        c == q + seq!['\n'],
        l == w + a + q,
        p2 == p + l + seq!['\n'],
    ensures
        t + c + Seq::<char>::empty() + Seq::<char>::empty() == p2,
{
    assert(t + c + Seq::<char>::empty() + Seq::<char>::empty() =~= p2);
}

pub proof fn step_scrub(t: Seq<char>, p6: Seq<char>, c1: Seq<char>, c2: Seq<char>, c3: Seq<char>, s7: Seq<char>, z: Seq<char>, d: Seq<char>, p7: Seq<char>, p8: Seq<char>, l8: Seq<char>)
    requires
        t == p6,
        c1 + c2 + c3 == seq!['\n'] + s7 + seq!['\n'] + z,
        p7 == p6 + Seq::<char>::empty() + seq!['\n'],
        p8 == p7 + s7 + seq!['\n'],
        l8 == z + d,
    ensures
        t + c1 + c2 + c3 + d == p8 + l8,
{
    assert(t + c1 + c2 + c3 =~= t + (c1 + c2 + c3));
    assert(t + c1 + c2 + c3 + d =~= p8 + l8);
}

pub proof fn step_nat(t: Seq<char>, p: Seq<char>, l: Seq<char>, n: Seq<char>, c: Seq<char>, p2: Seq<char>)
    requires
        t == p + l,
        n == seq!['\n'],
        p2 == p + l + seq!['\n'],
    ensures
        t + n + c == p2 + c,
{
    assert(t + n + c =~= p2 + c);
}

pub proof fn step_rdr(t: Seq<char>, p: Seq<char>, l: Seq<char>, n: Seq<char>, c: Seq<char>, ip: Seq<char>, p2: Seq<char>)
    requires
        t == p + l,
        n == seq!['\n'],
        p2 == p + l + seq!['\n'],
    ensures
        t + n + Seq::<char>::empty() + c + ip == p2 + (c + ip),
{
    assert(t + n + Seq::<char>::empty() + c + ip =~= p2 + (c + ip));
}

pub proof fn step_last(t: Seq<char>, p12: Seq<char>, l12: Seq<char>, nn: Seq<char>, c: Seq<char>, l14: Seq<char>, l15: Seq<char>, p13: Seq<char>, p14: Seq<char>, p15: Seq<char>, p16: Seq<char>)
    requires
        t == p12 + l12,
        nn == seq!['\n', '\n'],
        c == l14 + seq!['\n'] + l15 + seq!['\n'],
        p13 == p12 + l12 + seq!['\n'],
        p14 == p13 + Seq::<char>::empty() + seq!['\n'],
        p15 == p14 + l14 + seq!['\n'],
        p16 == p15 + l15 + seq!['\n'],
    ensures
        t + nn + Seq::<char>::empty() + c == p16,
{
    assert(t + nn + Seq::<char>::empty() + c =~= p16);
}

/// The anchor body without a bypass is its lines, as written, joined.
#[verifier::spinoff_prover]
#[verifier::rlimit(80)]
pub proof fn lemma_body_text(vpn: Seq<char>, lan: Seq<char>, ip: Ipv4, mss: u16)
    ensures
        rules_text(vpn, lan, ip, mss, None) == join_lines(
            body_lines(vpn, lan, ip, mss, ext_macro(), int_macro()),
        ),
{
    let e = ext_macro();
    let i = int_macro();
    let ls = body_lines(vpn, lan, ip, mss, e, i);
    lemma_lines_head(vpn, lan, ip, mss, e, i);
    lemma_lines_mid(vpn, lan, ip, mss, e, i);
    lemma_lines_tail(vpn, lan, ip, mss, e, i);
    lemma_chunks_a();
    lemma_chunks_scrub();
    lemma_chunks_nat();
    lemma_chunks_pass();
    lemma_join_step(ls, 0);
    lemma_join_step(ls, 1);
    lemma_join_step(ls, 2);
    lemma_join_step(ls, 3);
    lemma_join_step(ls, 4);
    lemma_join_step(ls, 5);
    lemma_join_step(ls, 6);
    lemma_join_step(ls, 7);
    lemma_join_step(ls, 8);
    lemma_join_step(ls, 9);
    lemma_join_step(ls, 10);
    lemma_join_step(ls, 11);
    lemma_join_step(ls, 12);
    lemma_join_step(ls, 13);
    lemma_join_step(ls, 14);
    lemma_join_step(ls, 15);
    let d = dec(mss as nat);
    let t = ip_text(ip);
    let empty = Seq::<char>::empty();
    assert(ls.take(0) =~= Seq::<Seq<char>>::empty());
    assert(join_lines(ls.take(0)) == empty);
    let t1 = "# tunshare anchor body \u{2014} com.tunshare\n# VPN interface: "@ + vpn;
    step_first(
        "# tunshare anchor body \u{2014} com.tunshare\n# VPN interface: "@,
        vpn,
        ls[0],
        "# VPN interface: "@,
        ls[1],
        join_lines(ls.take(1)),
    );
    let t2 = t1 + "\n# LAN interface: "@ + lan;
    step_line(t1, join_lines(ls.take(1)), ls[1], "\n# LAN interface: "@, "# LAN interface: "@, lan, join_lines(ls.take(2)), ls[2]);
    let t3 = t2 + "\n\next_if = \""@ + vpn;
    step_blank(t2, join_lines(ls.take(2)), ls[2], "\n\next_if = \""@, "ext_if = \""@, vpn, join_lines(ls.take(3)), join_lines(ls.take(4)));
    let t4 = t3 + "\"\nint_if = \""@ + lan;
    step_quote(t3, join_lines(ls.take(4)), "ext_if = \""@, vpn, "\"\nint_if = \""@, "\""@, "int_if = \""@, lan, ls[4], join_lines(ls.take(5)));
    let t5 = t4 + "\"\n"@ + empty + empty;
    step_close(t4, join_lines(ls.take(5)), "int_if = \""@, lan, "\"\n"@, "\""@, ls[5], join_lines(ls.take(6)));
    let t6 = t5 + "\nscrub in all no-df\nscrub in on $int_if inet proto tcp from $int_if:network "@
        + "to any"@ + " no-df max-mss "@ + d;
    step_scrub(
        t5,
        join_lines(ls.take(6)),
        "\nscrub in all no-df\nscrub in on $int_if inet proto tcp from $int_if:network "@,
        "to any"@,
        " no-df max-mss "@,
        ls[7],
        "scrub in on "@ + i + " inet proto tcp from "@ + i + ":network to any no-df max-mss "@,
        d,
        join_lines(ls.take(7)),
        join_lines(ls.take(8)),
        ls[8],
    );
    let t7 = t6 + "\nscrub out on $ext_if inet proto tcp from ($ext_if) to any max-mss "@ + d;
    step_line(
        t6,
        join_lines(ls.take(8)),
        ls[8],
        "\nscrub out on $ext_if inet proto tcp from ($ext_if) to any max-mss "@,
        "scrub out on "@ + e + " inet proto tcp from ("@ + e + ") to any max-mss "@,
        d,
        join_lines(ls.take(9)),
        ls[9],
    );
    let c8 = "nat on $ext_if inet from $int_if:network to any -> ($ext_if) static-port"@;
    let t8 = t7 + "\n"@ + c8;
    step_nat(t7, join_lines(ls.take(9)), ls[9], "\n"@, c8, join_lines(ls.take(10)));
    let c9 = "rdr on $int_if inet proto udp from $int_if:network to any port 53 -> "@;
    let t9 = t8 + "\n"@ + empty + c9 + t;
    step_rdr(t8, join_lines(ls.take(10)), ls[10], "\n"@, c9, t, join_lines(ls.take(11)));
    let t10 = t9 + "\nrdr on $int_if inet proto tcp from $int_if:network to any port 53 -> "@ + t;
    step_line(
        t9,
        join_lines(ls.take(11)),
        ls[11],
        "\nrdr on $int_if inet proto tcp from $int_if:network to any port 53 -> "@,
        "rdr on "@ + i + " inet proto tcp from "@ + i + ":network to any port 53 -> "@,
        t,
        join_lines(ls.take(12)),
        ls[12],
    );
    let c11 = "pass quick on $int_if all keep state\npass out quick on $ext_if inet from ($ext_if) to any keep state\n"@;
    let t11 = t10 + "\n\n"@ + empty + c11;
    step_last(t10, join_lines(ls.take(12)), ls[12], "\n\n"@, c11, ls[14], ls[15], join_lines(ls.take(13)), join_lines(ls.take(14)), join_lines(ls.take(15)), join_lines(ls.take(16)));
    assert(ls.take(16) =~= ls);
    assert(rules_text(vpn, lan, ip, mss, None) == t11);
}


// ---------------------------------------------------------------------
// What characters the body's lines hold
// ---------------------------------------------------------------------

/// `s` does not hold `c`.
pub open spec fn lacks(s: Seq<char>, c: char) -> bool {
    forall|k: int| 0 <= k < s.len() ==> #[trigger] s[k] != c
}

/// `s` holds no whitespace.
pub open spec fn no_ws(s: Seq<char>) -> bool {
    forall|k: int| 0 <= k < s.len() ==> !is_ws(#[trigger] s[k])
}

/// What a concatenation lacks, each part lacks.
pub proof fn lemma_lacks_cat(a: Seq<char>, b: Seq<char>, c: char)
    requires
        lacks(a, c),
        lacks(b, c),
    ensures
        lacks(a + b, c),
{
    assert forall|k: int| 0 <= k < (a + b).len() implies #[trigger] (a + b)[k] != c by {
        if k >= a.len() {
            assert((a + b)[k] == b[k - a.len()]);
        }
    }
}

/// The characters an interface name lacks.
pub proof fn lemma_name_chars(n: Seq<char>)
    requires
        iface_name(n),
    ensures
        lacks(n, '\n'),
        lacks(n, '='),
        lacks(n, '$'),
        lacks(n, '_'),
        lacks(n, '-'),
        lacks(n, '"'),
        lacks(n, '\''),
        lacks(n, '!'),
        lacks(n, ')'),
        lacks(n, '('),
        no_ws(n),
{
    assert forall|k: int| 0 <= k < n.len() implies !is_ws(#[trigger] n[k]) by {
        assert('a' <= n[k] <= 'z' || 'A' <= n[k] <= 'Z' || '0' <= n[k] <= '9');
    }
}

/// The characters a run of digits and dots lacks.
pub proof fn lemma_digit_chars(s: Seq<char>)
    requires
        forall|k: int| 0 <= k < s.len() ==> is_digit(#[trigger] s[k]) || s[k] == '.',
    ensures
        lacks(s, '\n'),
        lacks(s, '='),
        lacks(s, '$'),
        lacks(s, '_'),
        lacks(s, '-'),
        lacks(s, '"'),
        lacks(s, '\''),
        lacks(s, '!'),
        lacks(s, ')'),
        lacks(s, '('),
        lacks(s, '/'),
        no_ws(s),
{
}

/// A number's text and an address's text hold digits and dots only.
pub proof fn lemma_number_chars(mss: u16, ip: Ipv4)
    ensures
        lacks(dec(mss as nat), '\n'),
        lacks(dec(mss as nat), '='),
        lacks(dec(mss as nat), '$'),
        lacks(dec(mss as nat), '_'),
        lacks(dec(mss as nat), '-'),
        dec(mss as nat).len() > 0,
        !is_ws(dec(mss as nat).last()),
        lacks(ip_text(ip), '\n'),
        lacks(ip_text(ip), '='),
        lacks(ip_text(ip), '$'),
        lacks(ip_text(ip), '_'),
        lacks(ip_text(ip), '-'),
        lacks(ip_text(ip), '"'),
        lacks(ip_text(ip), '\''),
        lacks(ip_text(ip), '!'),
        lacks(ip_text(ip), ')'),
        lacks(ip_text(ip), '('),
        lacks(ip_text(ip), '/'),
        no_ws(ip_text(ip)),
        ip_text(ip).len() > 0,
        !is_ws(ip_text(ip).last()),
{
    lemma_dec_props(mss as nat);
    lemma_dec_props(ip.a as nat);
    lemma_dec_props(ip.b as nat);
    lemma_dec_props(ip.c as nat);
    lemma_dec_props(ip.d as nat);
    let d = dec(mss as nat);
    assert forall|k: int| 0 <= k < d.len() implies is_digit(#[trigger] d[k]) || d[k] == '.' by {}
    lemma_digit_chars(d);
    assert(is_digit(d[d.len() - 1]));
    let t = ip_text(ip);
    assert forall|k: int| 0 <= k < t.len() implies is_digit(#[trigger] t[k]) || t[k] == '.' by {
        let a = dec(ip.a as nat);
        let b = dec(ip.b as nat);
        let c = dec(ip.c as nat);
        let e = dec(ip.d as nat);
        if k < a.len() {
            assert(t[k] == a[k]);
        } else if k < a.len() + 1 {
        } else if k < a.len() + 1 + b.len() {
            assert(t[k] == b[k - a.len() - 1]);
        } else if k < a.len() + 2 + b.len() {
        } else if k < a.len() + 2 + b.len() + c.len() {
            assert(t[k] == c[k - a.len() - 2 - b.len()]);
        } else if k < a.len() + 3 + b.len() + c.len() {
        } else {
            assert(t[k] == e[k - a.len() - 3 - b.len() - c.len()]);
        }
    }
    lemma_digit_chars(t);
    let e = dec(ip.d as nat);
    assert(t.last() == e.last());
    assert(is_digit(e[e.len() - 1]));
}

/// The literal pieces of the body: what they lack.
pub proof fn lemma_literal_chars()
    ensures
        lacks("# tunshare anchor body \u{2014} com.tunshare"@, '\n'),
        lacks("# tunshare anchor body \u{2014} com.tunshare"@, '='),
        lacks("# tunshare anchor body \u{2014} com.tunshare"@, '$'),
        lacks("# tunshare anchor body \u{2014} com.tunshare"@, '_'),
        lacks("# VPN interface: "@, '\n'),
        lacks("# VPN interface: "@, '='),
        lacks("# VPN interface: "@, '$'),
        lacks("# VPN interface: "@, '_'),
        lacks("# LAN interface: "@, '\n'),
        lacks("# LAN interface: "@, '='),
        lacks("# LAN interface: "@, '$'),
        lacks("# LAN interface: "@, '_'),
        lacks("ext_if = \""@, '\n'),
        lacks("ext_if = \""@, '$'),
        lacks("ext_if = \""@, '-'),
        lacks("int_if = \""@, '\n'),
        lacks("int_if = \""@, '$'),
        lacks("int_if = \""@, '-'),
        lacks("\""@, '\n'),
        lacks("\""@, '$'),
        lacks("\""@, '-'),
        lacks("scrub in all no-df"@, '\n'),
        lacks("scrub in all no-df"@, '='),
        lacks("scrub in all no-df"@, '$'),
        lacks("scrub in all no-df"@, '_'),
{
    reveal_strlit("# tunshare anchor body \u{2014} com.tunshare");
    reveal_strlit("# VPN interface: ");
    reveal_strlit("# LAN interface: ");
    reveal_strlit("ext_if = \"");
    reveal_strlit("int_if = \"");
    reveal_strlit("\"");
    reveal_strlit("scrub in all no-df");
}

/// The literal pieces of the rule lines: what they lack.
pub proof fn lemma_rule_literal_chars()
    ensures
        forall|c: char|
            c == '\n' || c == '=' || c == '$' || c == '_' ==> lacks("scrub in on "@, c) && lacks(
                " inet proto tcp from "@,
                c,
            ) && lacks(":network to any no-df max-mss "@, c) && lacks("scrub out on "@, c)
                && lacks(" inet proto tcp from ("@, c) && lacks(") to any max-mss "@, c) && lacks(
                "nat on "@,
                c,
            ) && lacks(" inet from "@, c) && lacks(":network to any -> ("@, c) && lacks(
                ") static-port"@,
                c,
            ) && lacks("rdr on "@, c) && lacks(" inet proto udp from "@, c) && lacks(
                ":network to any port 53 -> "@,
                c,
            ) && lacks("pass quick on "@, c) && lacks(" all keep state"@, c) && lacks(
                "pass out quick on "@,
                c,
            ) && lacks(" inet from ("@, c) && lacks(") to any keep state"@, c),
        lacks("rdr on "@, '-'),
        lacks(" inet proto udp from "@, '-'),
        lacks(" inet proto tcp from "@, '-'),
{
    reveal_strlit("scrub in on ");
    reveal_strlit(" inet proto tcp from ");
    reveal_strlit(":network to any no-df max-mss ");
    reveal_strlit("scrub out on ");
    reveal_strlit(" inet proto tcp from (");
    reveal_strlit(") to any max-mss ");
    reveal_strlit("nat on ");
    reveal_strlit(" inet from ");
    reveal_strlit(":network to any -> (");
    reveal_strlit(") static-port");
    reveal_strlit("rdr on ");
    reveal_strlit(" inet proto udp from ");
    reveal_strlit(":network to any port 53 -> ");
    reveal_strlit("pass quick on ");
    reveal_strlit(" all keep state");
    reveal_strlit("pass out quick on ");
    reveal_strlit(" inet from (");
    reveal_strlit(") to any keep state");
}

/// The macros as written lack newlines and `=`.
pub proof fn lemma_macro_chars()
    ensures
        lacks(ext_macro(), '\n'),
        lacks(ext_macro(), '='),
        lacks(int_macro(), '\n'),
        lacks(int_macro(), '='),
{
    reveal_strlit("$ext_if");
    reveal_strlit("$int_if");
}

/// The ends of the literal pieces at the ends of lines.
pub proof fn lemma_literal_ends()
    ensures
        "# tunshare anchor body \u{2014} com.tunshare"@.len() > 0,
        "# tunshare anchor body \u{2014} com.tunshare"@[0] == '#',
        !is_ws("# tunshare anchor body \u{2014} com.tunshare"@.last()),
        "# VPN interface: "@.len() > 0,
        "# VPN interface: "@[0] == '#',
        "# LAN interface: "@.len() > 0,
        "# LAN interface: "@[0] == '#',
        "ext_if = \""@.len() > 0,
        "ext_if = \""@[0] == 'e',
        "int_if = \""@.len() > 0,
        "int_if = \""@[0] == 'i',
        "\""@.len() == 1,
        "\""@[0] == '"',
        "scrub in all no-df"@.len() > 0,
        "scrub in all no-df"@[0] == 's',
        !is_ws("scrub in all no-df"@.last()),
        "scrub in on "@.len() > 0,
        "scrub in on "@[0] == 's',
        "scrub out on "@.len() > 0,
        "scrub out on "@[0] == 's',
        "nat on "@.len() == 7,
        "nat on "@[0] == 'n',
        ") static-port"@.len() > 0,
        !is_ws(") static-port"@.last()),
        "rdr on "@.len() == 7,
        "rdr on "@[0] == 'r',
        "pass quick on "@.len() > 0,
        "pass quick on "@[0] == 'p',
        " all keep state"@.len() > 0,
        !is_ws(" all keep state"@.last()),
        "pass out quick on "@.len() > 0,
        "pass out quick on "@[0] == 'p',
        ") to any keep state"@.len() > 0,
        !is_ws(") to any keep state"@.last()),
{
    reveal_strlit("# tunshare anchor body \u{2014} com.tunshare");
    reveal_strlit("# VPN interface: ");
    reveal_strlit("# LAN interface: ");
    reveal_strlit("ext_if = \"");
    reveal_strlit("int_if = \"");
    reveal_strlit("\"");
    reveal_strlit("scrub in all no-df");
    reveal_strlit("scrub in on ");
    reveal_strlit("scrub out on ");
    reveal_strlit("nat on ");
    reveal_strlit(") static-port");
    reveal_strlit("rdr on ");
    reveal_strlit("pass quick on ");
    reveal_strlit(" all keep state");
    reveal_strlit("pass out quick on ");
    reveal_strlit(") to any keep state");
}

/// The lines other than the two macro definitions lack `c`, when the
/// names and what stands for the interfaces lack it.
pub proof fn lemma_lines_lack(
    vpn: Seq<char>,
    lan: Seq<char>,
    ip: Ipv4,
    mss: u16,
    e: Seq<char>,
    i: Seq<char>,
    c: char,
)
    requires
        c == '\n' || c == '=' || c == '$' || c == '_',
        lacks(vpn, c),
        lacks(lan, c),
        lacks(e, c),
        lacks(i, c),
        lacks(dec(mss as nat), c),
        lacks(ip_text(ip), c),
    ensures
        forall|k: int|
            0 <= k < 16 && k != 4 && k != 5 ==> lacks(#[trigger] body_lines(vpn, lan, ip, mss, e, i)[k], c),
{
    lemma_lines_head(vpn, lan, ip, mss, e, i);
    lemma_lines_mid(vpn, lan, ip, mss, e, i);
    lemma_lines_tail(vpn, lan, ip, mss, e, i);
    lemma_literal_chars();
    lemma_rule_literal_chars();
    let ls = body_lines(vpn, lan, ip, mss, e, i);
    let d = dec(mss as nat);
    let t = ip_text(ip);
    assert(lacks(ls[1], c)) by {
        lemma_lacks_cat("# VPN interface: "@, vpn, c);
    }
    assert(lacks(ls[2], c)) by {
        lemma_lacks_cat("# LAN interface: "@, lan, c);
    }
    assert(lacks(ls[8], c)) by {
        lemma_lacks_cat("scrub in on "@, i, c);
        lemma_lacks_cat("scrub in on "@ + i, " inet proto tcp from "@, c);
        lemma_lacks_cat("scrub in on "@ + i + " inet proto tcp from "@, i, c);
        lemma_lacks_cat("scrub in on "@ + i + " inet proto tcp from "@ + i, ":network to any no-df max-mss "@, c);
        lemma_lacks_cat("scrub in on "@ + i + " inet proto tcp from "@ + i + ":network to any no-df max-mss "@, d, c);
    }
    assert(lacks(ls[9], c)) by {
        lemma_lacks_cat("scrub out on "@, e, c);
        lemma_lacks_cat("scrub out on "@ + e, " inet proto tcp from ("@, c);
        lemma_lacks_cat("scrub out on "@ + e + " inet proto tcp from ("@, e, c);
        lemma_lacks_cat("scrub out on "@ + e + " inet proto tcp from ("@ + e, ") to any max-mss "@, c);
        lemma_lacks_cat("scrub out on "@ + e + " inet proto tcp from ("@ + e + ") to any max-mss "@, d, c);
    }
    assert(lacks(ls[10], c)) by {
        lemma_lacks_cat("nat on "@, e, c);
        lemma_lacks_cat("nat on "@ + e, " inet from "@, c);
        lemma_lacks_cat("nat on "@ + e + " inet from "@, i, c);
        lemma_lacks_cat("nat on "@ + e + " inet from "@ + i, ":network to any -> ("@, c);
        lemma_lacks_cat("nat on "@ + e + " inet from "@ + i + ":network to any -> ("@, e, c);
        lemma_lacks_cat("nat on "@ + e + " inet from "@ + i + ":network to any -> ("@ + e, ") static-port"@, c);
    }
    assert(lacks(ls[11], c)) by {
        lemma_lacks_cat("rdr on "@, i, c);
        lemma_lacks_cat("rdr on "@ + i, " inet proto udp from "@, c);
        lemma_lacks_cat("rdr on "@ + i + " inet proto udp from "@, i, c);
        lemma_lacks_cat("rdr on "@ + i + " inet proto udp from "@ + i, ":network to any port 53 -> "@, c);
        lemma_lacks_cat("rdr on "@ + i + " inet proto udp from "@ + i + ":network to any port 53 -> "@, t, c);
    }
    assert(lacks(ls[12], c)) by {
        lemma_lacks_cat("rdr on "@, i, c);
        lemma_lacks_cat("rdr on "@ + i, " inet proto tcp from "@, c);
        lemma_lacks_cat("rdr on "@ + i + " inet proto tcp from "@, i, c);
        lemma_lacks_cat("rdr on "@ + i + " inet proto tcp from "@ + i, ":network to any port 53 -> "@, c);
        lemma_lacks_cat("rdr on "@ + i + " inet proto tcp from "@ + i + ":network to any port 53 -> "@, t, c);
    }
    assert(lacks(ls[14], c)) by {
        lemma_lacks_cat("pass quick on "@, i, c);
        lemma_lacks_cat("pass quick on "@ + i, " all keep state"@, c);
    }
    assert(lacks(ls[15], c)) by {
        lemma_lacks_cat("pass out quick on "@, e, c);
        lemma_lacks_cat("pass out quick on "@ + e, " inet from ("@, c);
        lemma_lacks_cat("pass out quick on "@ + e + " inet from ("@, e, c);
        lemma_lacks_cat("pass out quick on "@ + e + " inet from ("@ + e, ") to any keep state"@, c);
    }
    assert forall|k: int|
        0 <= k < 16 && k != 4 && k != 5 implies lacks(#[trigger] body_lines(vpn, lan, ip, mss, e, i)[k], c) by {
        if k == 0 || k == 3 || k == 6 || k == 7 || k == 13 {
        }
    }
}

/// Every line is a whole line and its own trim.
pub proof fn lemma_lines_clean(
    vpn: Seq<char>,
    lan: Seq<char>,
    ip: Ipv4,
    mss: u16,
    e: Seq<char>,
    i: Seq<char>,
)
    requires
        iface_name(vpn),
        iface_name(lan),
        lacks(e, '\n'),
        lacks(i, '\n'),
        e.len() > 0,
        !is_ws(e.last()),
        i.len() > 0,
    ensures
        forall|k: int|
            0 <= k < 16 ==> one_line(#[trigger] body_lines(vpn, lan, ip, mss, e, i)[k]) && trim(
                body_lines(vpn, lan, ip, mss, e, i)[k],
            ) == body_lines(vpn, lan, ip, mss, e, i)[k],
{
    lemma_name_chars(vpn);
    lemma_name_chars(lan);
    lemma_number_chars(mss, ip);
    lemma_lines_lack(vpn, lan, ip, mss, e, i, '\n');
    lemma_lines_head(vpn, lan, ip, mss, e, i);
    lemma_lines_mid(vpn, lan, ip, mss, e, i);
    lemma_lines_tail(vpn, lan, ip, mss, e, i);
    lemma_literal_chars();
    lemma_literal_ends();
    let ls = body_lines(vpn, lan, ip, mss, e, i);
    assert(lacks(ls[4], '\n')) by {
        lemma_lacks_cat("ext_if = \""@, vpn, '\n');
        lemma_lacks_cat("ext_if = \""@ + vpn, "\""@, '\n');
    }
    assert(lacks(ls[5], '\n')) by {
        lemma_lacks_cat("int_if = \""@, lan, '\n');
        lemma_lacks_cat("int_if = \""@ + lan, "\""@, '\n');
    }
    assert(is_ws('\r'));
    assert forall|k: int| 0 <= k < 16 implies one_line(#[trigger] body_lines(vpn, lan, ip, mss, e, i)[k])
        && trim(body_lines(vpn, lan, ip, mss, e, i)[k]) == body_lines(vpn, lan, ip, mss, e, i)[k] by {
        let l = ls[k];
        assert(lacks(l, '\n'));
        let d = dec(mss as nat);
        let t = ip_text(ip);
        if k == 1 {
            assert(l[0] == '#' && l.last() == vpn.last());
        } else if k == 2 {
            assert(l[0] == '#' && l.last() == lan.last());
        } else if k == 4 || k == 5 {
            assert(l.last() == '"');
        } else if k == 8 || k == 9 {
            assert(l.last() == d.last());
        } else if k == 11 || k == 12 {
            assert(l.last() == t.last());
        }
        assert(l.len() == 0 || (!is_ws(l[0]) && !is_ws(l.last())));
        lemma_trim_fixed(l);
    }
}

// ---------------------------------------------------------------------
// The macro definitions
// ---------------------------------------------------------------------

/// A line without `=` that is its own trim defines no macro.
pub proof fn lemma_no_macro(l: Seq<char>)
    requires
        trim(l) == l,
        lacks(l, '='),
    ensures
        macro_of(l) is None,
{
    reveal_strlit("=");
    lemma_lacks_char(l, "="@, 0);
    lemma_find_result(l, "="@);
}

/// `name = "value"` defines `name` as `value`.
pub proof fn lemma_macro_line(n: Seq<char>, v: Seq<char>)
    requires
        n.len() > 0,
        no_ws(n),
        lacks(n, '='),
        v.len() > 0,
        no_ws(v),
        lacks(v, '"'),
        lacks(v, '\''),
    ensures
        macro_of(n + " = \""@ + v + "\""@) == Some((n, v)),
{
    reveal_strlit(" = \"");
    reveal_strlit("\"");
    reveal_strlit("=");
    let l = n + " = \""@ + v + "\""@;
    let eq = "="@;
    // The line is its own trim.
    assert(l[0] == n[0]);
    assert(l.last() == '"');
    lemma_trim_fixed(l);
    // The first `=` follows the name and a space.
    let at = n.len() as int + 1;
    assert(l.subrange(at, at + 1) =~= eq);
    assert forall|j: int| 0 <= j < at implies !occurs_at(l, eq, j) by {
        if occurs_at(l, eq, j) {
            assert(l.subrange(j, j + 1)[0] == l[j]);
            if j < n.len() {
                assert(l[j] == n[j]);
            }
        }
    }
    lemma_find_is(l, eq, at);
    let name_part = l.take(at);
    let value_part = l.skip(at + 1);
    assert(name_part =~= n + seq![' ']);
    assert(value_part =~= seq![' ', '"'] + v + seq!['"']);
    assert(split_once(l, eq) == Some((name_part, value_part)));
    // The name, trimmed.
    assert(trim_start(name_part) == name_part);
    assert(name_part.drop_last() =~= n);
    assert(trim_end(n) == n);
    assert(trim_end(name_part) == trim_end(n));
    assert(trim(name_part) == n);
    // The value, trimmed and unquoted.
    let quoted = seq!['"'] + v + seq!['"'];
    assert(value_part.drop_first() =~= quoted);
    assert(trim_start(quoted) == quoted);
    assert(trim_start(value_part) == quoted);
    assert(trim_end(quoted) == quoted);
    assert(trim(value_part) == quoted);
    let vq = v + seq!['"'];
    assert(quoted.drop_first() =~= vq);
    assert(trim_char_start(vq, '"') == vq);
    assert(trim_char_start(quoted, '"') == vq);
    assert(vq.drop_last() =~= v);
    assert(trim_char_end(v, '"') == v);
    assert(trim_char_end(vq, '"') == v);
    assert(trim_char(quoted, '"') == v);
    assert(trim_char_start(v, '\'') == v);
    assert(trim_char_end(v, '\'') == v);
    assert(trim_char(v, '\'') == v);
}

/// Splitting `"ext_if = \""` and `"int_if = \""` at the name.
pub proof fn lemma_macro_literals()
    ensures
        "ext_if = \""@ == "ext_if"@ + " = \""@,
        "int_if = \""@ == "int_if"@ + " = \""@,
        "ext_if"@.len() > 0,
        no_ws("ext_if"@),
        lacks("ext_if"@, '='),
        lacks("ext_if"@, ' '),
        "int_if"@.len() > 0,
        no_ws("int_if"@),
        lacks("int_if"@, '='),
        lacks("int_if"@, ' '),
        seq!['$'] + "ext_if"@ == ext_macro(),
        seq!['$'] + "int_if"@ == int_macro(),
        "ext_if"@ != "int_if"@,
        "int_if"@ != "wan_if"@,
        "int_if"@ != "wan_gw"@,
        "ext_if"@ != "wan_if"@,
        "ext_if"@ != "wan_gw"@,
{
    reveal_strlit("ext_if = \"");
    reveal_strlit("int_if = \"");
    reveal_strlit("ext_if");
    reveal_strlit("int_if");
    reveal_strlit(" = \"");
    reveal_strlit("$ext_if");
    reveal_strlit("$int_if");
    reveal_strlit("wan_if");
    reveal_strlit("wan_gw");
    assert("ext_if = \""@ =~= "ext_if"@ + " = \""@);
    assert("int_if = \""@ =~= "int_if"@ + " = \""@);
    assert(seq!['$'] + "ext_if"@ =~= ext_macro());
    assert(seq!['$'] + "int_if"@ =~= int_macro());
    assert("ext_if"@[0] != "int_if"@[0]);
    assert("int_if"@[0] != "wan_if"@[0]);
    assert("int_if"@[0] != "wan_gw"@[0]);
    assert("ext_if"@[0] != "wan_if"@[0]);
    assert("ext_if"@[0] != "wan_gw"@[0]);
}

/// One more line of a fold over lines.
pub proof fn lemma_take_step<A>(ls: Seq<A>, k: int)
    requires
        0 <= k < ls.len(),
    ensures
        ls.take(k + 1).drop_last() == ls.take(k),
        ls.take(k + 1).last() == ls[k],
        ls.take(k + 1).len() == k + 1,
{
    assert(ls.take(k + 1).drop_last() =~= ls.take(k));
}

/// The body's macro lines define the two interfaces, and nothing else.
pub proof fn lemma_written_macros(vpn: Seq<char>, lan: Seq<char>, ip: Ipv4, mss: u16, pf: PfSpec, out: Seq<char>)
    requires
        iface_name(vpn),
        iface_name(lan),
        pf.vpn is None,
        pf.lan is None,
    ensures
        macros_fold(pf, body_lines(vpn, lan, ip, mss, ext_macro(), int_macro())) == (PfSpec {
            vpn: Some(vpn),
            lan: Some(lan),
            ..pf
        }),
        expand_fold(out, body_lines(vpn, lan, ip, mss, ext_macro(), int_macro())) == replace(
            replace(out, ext_macro(), vpn),
            int_macro(),
            lan,
        ),
{
    let e = ext_macro();
    let i = int_macro();
    let ls = body_lines(vpn, lan, ip, mss, e, i);
    lemma_name_chars(vpn);
    lemma_name_chars(lan);
    lemma_number_chars(mss, ip);
    lemma_macro_chars();
    lemma_lines_lack(vpn, lan, ip, mss, e, i, '=');
    reveal_strlit("$ext_if");
    reveal_strlit("$int_if");
    assert(e.last() == 'f');
    lemma_lines_clean(vpn, lan, ip, mss, e, i);
    lemma_lines_head(vpn, lan, ip, mss, e, i);
    lemma_macro_literals();
    lemma_macro_line("ext_if"@, vpn);
    lemma_macro_line("int_if"@, lan);
    assert(ls[4] == "ext_if"@ + " = \""@ + vpn + "\""@);
    assert(ls[5] == "int_if"@ + " = \""@ + lan + "\""@);
    lemma_lacks_char("ext_if"@, seq![' '], 0);
    lemma_lacks_char("int_if"@, seq![' '], 0);
    assert forall|k: int| 0 <= k < 16 && k != 4 && k != 5 implies macro_of(#[trigger] ls[k]) is None by {
        lemma_no_macro(ls[k]);
    }
    let pf1 = PfSpec { vpn: Some(vpn), ..pf };
    let pf2 = PfSpec { vpn: Some(vpn), lan: Some(lan), ..pf };
    let o1 = replace(out, e, vpn);
    let o2 = replace(o1, i, lan);
    assert(ls.take(0) =~= Seq::<Seq<char>>::empty());
    lemma_take_step(ls, 0);
    lemma_take_step(ls, 1);
    lemma_take_step(ls, 2);
    lemma_take_step(ls, 3);
    lemma_take_step(ls, 4);
    lemma_take_step(ls, 5);
    lemma_take_step(ls, 6);
    lemma_take_step(ls, 7);
    lemma_take_step(ls, 8);
    lemma_take_step(ls, 9);
    lemma_take_step(ls, 10);
    lemma_take_step(ls, 11);
    lemma_take_step(ls, 12);
    lemma_take_step(ls, 13);
    lemma_take_step(ls, 14);
    lemma_take_step(ls, 15);
    assert(macros_fold(pf, ls.take(0)) == pf);
    assert(expand_fold(out, ls.take(0)) == out);
    assert(macros_fold(pf, ls.take(1)) == pf);
    assert(expand_fold(out, ls.take(1)) == out);
    assert(macros_fold(pf, ls.take(2)) == pf);
    assert(expand_fold(out, ls.take(2)) == out);
    assert(macros_fold(pf, ls.take(3)) == pf);
    assert(expand_fold(out, ls.take(3)) == out);
    assert(macros_fold(pf, ls.take(4)) == pf);
    assert(expand_fold(out, ls.take(4)) == out);
    assert(macros_fold(pf, ls.take(5)) == pf1);
    assert(expand_fold(out, ls.take(5)) == o1);
    assert(macros_fold(pf, ls.take(6)) == pf2);
    assert(expand_fold(out, ls.take(6)) == o2);
    assert(macros_fold(pf, ls.take(7)) == pf2);
    assert(expand_fold(out, ls.take(7)) == o2);
    assert(macros_fold(pf, ls.take(8)) == pf2);
    assert(expand_fold(out, ls.take(8)) == o2);
    assert(macros_fold(pf, ls.take(9)) == pf2);
    assert(expand_fold(out, ls.take(9)) == o2);
    assert(macros_fold(pf, ls.take(10)) == pf2);
    assert(expand_fold(out, ls.take(10)) == o2);
    assert(macros_fold(pf, ls.take(11)) == pf2);
    assert(expand_fold(out, ls.take(11)) == o2);
    assert(macros_fold(pf, ls.take(12)) == pf2);
    assert(expand_fold(out, ls.take(12)) == o2);
    assert(macros_fold(pf, ls.take(13)) == pf2);
    assert(expand_fold(out, ls.take(13)) == o2);
    assert(macros_fold(pf, ls.take(14)) == pf2);
    assert(expand_fold(out, ls.take(14)) == o2);
    assert(macros_fold(pf, ls.take(15)) == pf2);
    assert(expand_fold(out, ls.take(15)) == o2);
    assert(macros_fold(pf, ls.take(16)) == pf2);
    assert(expand_fold(out, ls.take(16)) == o2);
    assert(ls.take(16) =~= ls);
}

// ---------------------------------------------------------------------
// Substituting the interfaces
// ---------------------------------------------------------------------

/// Every literal piece of every line lacks `$`.
pub proof fn lemma_pieces_plain(vpn: Seq<char>, lan: Seq<char>, ip: Ipv4, mss: u16)
    requires
        iface_name(vpn),
        iface_name(lan),
    ensures
        forall|k: int| 0 <= k < 16 ==> plain_pieces(#[trigger] body_pieces(vpn, lan, ip, mss)[k]),
{
    lemma_name_chars(vpn);
    lemma_name_chars(lan);
    lemma_number_chars(mss, ip);
    lemma_literal_chars();
    lemma_rule_literal_chars();
    let ps = body_pieces(vpn, lan, ip, mss);
    lemma_lacks_cat("# VPN interface: "@, vpn, '$');
    lemma_lacks_cat("# LAN interface: "@, lan, '$');
    lemma_lacks_cat("ext_if = \""@, vpn, '$');
    lemma_lacks_cat("ext_if = \""@ + vpn, "\""@, '$');
    lemma_lacks_cat("int_if = \""@, lan, '$');
    lemma_lacks_cat("int_if = \""@ + lan, "\""@, '$');
    lemma_lacks_cat(":network to any no-df max-mss "@, dec(mss as nat), '$');
    lemma_lacks_cat(") to any max-mss "@, dec(mss as nat), '$');
    lemma_lacks_cat(":network to any port 53 -> "@, ip_text(ip), '$');
    assert forall|k: int| 0 <= k < 16 implies plain_pieces(#[trigger] body_pieces(vpn, lan, ip, mss)[k]) by {
        let q = ps[k];
        assert forall|j: int| 0 <= j < q.len() implies (#[trigger] q[j] matches Piece::Lit(t) ==> no_dollar(
            t,
        )) by {
            if let Piece::Lit(t) = q[j] {
                assert(lacks(t, '$'));
            }
        }
    }
}

/// The body with both interfaces substituted is the expanded lines
/// joined.
pub proof fn lemma_expanded_text(vpn: Seq<char>, lan: Seq<char>, ip: Ipv4, mss: u16)
    requires
        iface_name(vpn),
        iface_name(lan),
    ensures
        replace(
            replace(join_lines(body_lines(vpn, lan, ip, mss, ext_macro(), int_macro())), ext_macro(), vpn),
            int_macro(),
            lan,
        ) == join_lines(body_lines(vpn, lan, ip, mss, vpn, lan)),
{
    let e = ext_macro();
    let i = int_macro();
    let ps = body_pieces(vpn, lan, ip, mss);
    let lw = body_lines(vpn, lan, ip, mss, e, i);
    let lx = body_lines(vpn, lan, ip, mss, vpn, i);
    let le = body_lines(vpn, lan, ip, mss, vpn, lan);
    lemma_pieces_plain(vpn, lan, ip, mss);
    lemma_macro_chars();
    lemma_name_chars(vpn);
    reveal_strlit("$ext_if");
    reveal_strlit("$int_if");
    lemma_replace_join(lw, e, vpn);
    let m1 = lw.map_values(|l: Seq<char>| replace(l, e, vpn));
    assert forall|k: int| 0 <= k < m1.len() implies #[trigger] m1[k] == lx[k] by {
        lemma_render_subst_ext(ps[k], vpn);
    }
    assert(m1 =~= lx);
    lemma_replace_join(lx, i, lan);
    let m2 = lx.map_values(|l: Seq<char>| replace(l, i, lan));
    assert forall|k: int| 0 <= k < m2.len() implies #[trigger] m2[k] == le[k] by {
        lemma_render_subst_int(ps[k], vpn, lan);
    }
    assert(m2 =~= le);
}

// ---------------------------------------------------------------------
// Reading the DNS redirect back
// ---------------------------------------------------------------------

/// The run of non-whitespace at the front of `x + y` is `x` when `y`
/// starts with whitespace or is empty.
pub proof fn lemma_token_len_cat(x: Seq<char>, y: Seq<char>)
    requires
        no_ws(x),
        y.len() == 0 || is_ws(y[0]),
    ensures
        token_len(x + y) == x.len(),
    decreases x.len(),
{
    if x.len() == 0 {
        assert(x + y =~= y);
    } else {
        assert((x + y)[0] == x[0]);
        assert((x + y).drop_first() =~= x.drop_first() + y);
        lemma_token_len_cat(x.drop_first(), y);
    }
}

/// The first token of a text that starts with one space and then a
/// whitespace-free word.
pub proof fn lemma_token_after_space(w: Seq<char>)
    requires
        w.len() > 0,
        no_ws(w),
    ensures
        first_token(seq![' '] + w) == Some(w),
{
    let s = seq![' '] + w;
    assert(s.drop_first() =~= w);
    assert(trim_start(w) == w);
    assert(trim_start(s) == w);
    lemma_token_len_cat(w, Seq::<char>::empty());
    assert(w + Seq::<char>::empty() =~= w);
    assert(w.take(w.len() as int) =~= w);
    assert(tokens(s)[0] == w);
}

/// What a DNS redirect of the body reads as: the LAN interface after
/// `on`, the address after the arrow.
pub proof fn lemma_rdr_rest(lan: Seq<char>, mid: Seq<char>, ip: Ipv4)
    requires
        iface_name(lan),
        mid.len() > 0,
        mid[0] == ' ',
        lacks(mid, '-'),
    ensures
        dns_rdr_spec("on "@ + lan + mid + lan + ":network to any port 53 -> "@ + ip_text(ip)) == Some(
            (lan, ip),
        ),
{
    reveal_strlit("on ");
    reveal_strlit(":network to any port 53 -> ");
    reveal_strlit("port");
    reveal_strlit("53");
    reveal_strlit("->");
    reveal_strlit("on");
    lemma_name_chars(lan);
    lemma_number_chars(0, ip);
    let t = ip_text(ip);
    let tail = ":network to any port 53 -> "@;
    let r = "on "@ + lan + mid + lan + tail + t;
    let base = 3int + lan.len() + mid.len() + lan.len();
    // `port` and `53` are there.
    assert(r.subrange(base + 16, base + 20) =~= "port"@);
    lemma_contains_at(r, "port"@, base + 16);
    assert(r.subrange(base + 21, base + 23) =~= "53"@);
    lemma_contains_at(r, "53"@, base + 21);
    // The tokens start with `on` and the interface.
    assert(trim_start(r) == r);
    assert(token_len(r.skip(2)) == 0);
    assert(r.drop_first().skip(1) =~= r.skip(2));
    assert(token_len(r.drop_first()) == 1);
    assert(token_len(r) == 2);
    let r2 = r.skip(2);
    let r3 = r.skip(3);
    assert(r2.drop_first() =~= r3);
    assert(r3[0] == lan[0]);
    assert(trim_start(r3) == r3);
    assert(trim_start(r2) == r3);
    assert(r3 =~= lan + (mid + lan + tail + t));
    lemma_token_len_cat(lan, mid + lan + tail + t);
    assert(r3.take(lan.len() as int) =~= lan);
    assert(tokens(r2)[0] == lan);
    assert(r.take(2) =~= "on"@);
    assert(tokens(r)[0] == "on"@);
    assert(tokens(r)[1] == lan);
    assert(iface_after_on_spec(r) == Some(lan));
    // After the only arrow comes a space and the address.
    let q = base + 24;
    let arrow = "->"@;
    assert(r.subrange(q, q + 2) =~= arrow);
    assert forall|j: int| 0 <= j < q implies !occurs_at(r, arrow, j) by {
        if occurs_at(r, arrow, j) {
            assert(r.subrange(j, j + 2)[0] == r[j]);
            assert(r[j] == '-');
            if j < 3 {
            } else if j < 3 + lan.len() {
                assert(r[j] == lan[j - 3]);
            } else if j < 3 + lan.len() + mid.len() {
                assert(r[j] == mid[j - 3 - lan.len()]);
            } else if j < base {
                assert(r[j] == lan[j - 3 - lan.len() - mid.len()]);
            } else {
                assert(r[j] == tail[j - base]);
            }
        }
    }
    lemma_find_is(r, arrow, q);
    let after = r.skip(q + 2);
    assert(after =~= seq![' '] + t);
    assert forall|j: int| 0 <= j < after.len() implies !occurs_at(after, arrow, j) by {
        if occurs_at(after, arrow, j) {
            assert(after.subrange(j, j + 2)[0] == after[j]);
            if j > 0 {
                assert(after[j] == t[j - 1]);
            }
        }
    }
    lemma_find_result(after, arrow);
    assert(after_last(after, arrow) == after);
    assert(after_last(r, arrow) == after);
    lemma_token_after_space(t);
    lemma_parse_ip_text(ip);
}

// ---------------------------------------------------------------------
// Reading the expanded body
// ---------------------------------------------------------------------

/// Literals that decide how a rule line is read.
pub proof fn lemma_rule_words()
    ensures
        "rdr "@.len() == 4,
        "rdr "@[0] == 'r',
        "nat on "@[0] == 'n',
        "rdr on "@ == "rdr "@ + "on "@,
        "tunshare_bypass"@.len() > 8,
        "tunshare_bypass"@[8] == '_',
        "route-to"@.len() > 5,
        "route-to"@[5] == '-',
        "to <tunshare_bypass>"@.len() > 12,
        "to <tunshare_bypass>"@[12] == '_',
        "to < tunshare_bypass >"@.len() > 13,
        "to < tunshare_bypass >"@[13] == '_',
        " inet proto udp from "@.len() > 0,
        " inet proto udp from "@[0] == ' ',
        " inet proto tcp from "@.len() > 0,
        " inet proto tcp from "@[0] == ' ',
        lacks(" inet proto udp from "@, '-'),
        lacks(" inet proto tcp from "@, '-'),
{
    reveal_strlit("rdr ");
    reveal_strlit("nat on ");
    reveal_strlit("rdr on ");
    reveal_strlit("on ");
    reveal_strlit("tunshare_bypass");
    reveal_strlit("route-to");
    reveal_strlit("to <tunshare_bypass>");
    reveal_strlit("to < tunshare_bypass >");
    reveal_strlit(" inet proto udp from ");
    reveal_strlit(" inet proto tcp from ");
    assert("rdr on "@ =~= "rdr "@ + "on "@);
}

/// A line that is neither a redirect nor a NAT rule, and names no route
/// to the bypass table, changes nothing.
pub proof fn lemma_plain_rule_line(pf: PfSpec, l: Seq<char>)
    requires
        trim(l) == l,
        l.len() == 0 || (l[0] != 'r' && l[0] != 'n'),
        lacks(l, '_') || lacks(l, '-'),
    ensures
        body_step(pf, l) == pf,
{
    lemma_rule_words();
    if l.len() > 0 {
        lemma_not_prefix(l, "rdr "@, 0);
        reveal_strlit("nat on ");
        lemma_not_prefix(l, "nat on "@, 0);
    }
    if lacks(l, '_') {
        lemma_lacks_char(l, "tunshare_bypass"@, 8);
    } else {
        lemma_lacks_char(l, "route-to"@, 5);
    }
}

/// The comment, macro, scrub and pass lines of the expanded body change
/// nothing.
pub proof fn lemma_plain_body_lines(vpn: Seq<char>, lan: Seq<char>, ip: Ipv4, mss: u16)
    requires
        iface_name(vpn),
        iface_name(lan),
    ensures
        forall|k: int, q: PfSpec|
            0 <= k < 16 && k != 10 && k != 11 && k != 12 ==> #[trigger] body_step(
                q,
                body_lines(vpn, lan, ip, mss, vpn, lan)[k],
            ) == q,
{
    let ls = body_lines(vpn, lan, ip, mss, vpn, lan);
    lemma_name_chars(vpn);
    lemma_name_chars(lan);
    lemma_number_chars(mss, ip);
    lemma_lines_clean(vpn, lan, ip, mss, vpn, lan);
    lemma_lines_lack(vpn, lan, ip, mss, vpn, lan, '_');
    lemma_lines_head(vpn, lan, ip, mss, vpn, lan);
    lemma_lines_mid(vpn, lan, ip, mss, vpn, lan);
    lemma_lines_tail(vpn, lan, ip, mss, vpn, lan);
    lemma_literal_chars();
    lemma_rule_literal_chars();
    lemma_literal_ends();
    assert forall|k: int, q: PfSpec|
        0 <= k < 16 && k != 10 && k != 11 && k != 12 implies #[trigger] body_step(q, ls[k]) == q by {
        let l = ls[k];
        if k == 1 || k == 2 {
            assert(l[0] == '#');
        } else if k == 4 {
            assert(l[0] == 'e');
        } else if k == 5 {
            assert(l[0] == 'i');
        } else if k == 8 || k == 9 {
            assert(l[0] == 's');
        } else if k == 14 || k == 15 {
            assert(l[0] == 'p');
        }
        lemma_plain_rule_line(q, l);
    }
}

/// The NAT line of the expanded body changes nothing once the VPN
/// interface is known.
pub proof fn lemma_nat_body_line(vpn: Seq<char>, lan: Seq<char>, ip: Ipv4, mss: u16)
    requires
        iface_name(vpn),
        iface_name(lan),
    ensures
        forall|q: PfSpec| q.vpn is Some ==> #[trigger] body_step(q, body_lines(vpn, lan, ip, mss, vpn, lan)[10]) == q,
{
    let ls = body_lines(vpn, lan, ip, mss, vpn, lan);
    lemma_name_chars(vpn);
    lemma_name_chars(lan);
    lemma_number_chars(mss, ip);
    lemma_lines_clean(vpn, lan, ip, mss, vpn, lan);
    lemma_lines_lack(vpn, lan, ip, mss, vpn, lan, '_');
    lemma_lines_mid(vpn, lan, ip, mss, vpn, lan);
    lemma_rule_words();
    let l = ls[10];
    reveal_strlit("nat on ");
    assert(l[0] == 'n');
    lemma_not_prefix(l, "rdr "@, 0);
    assert(l.subrange(0, 7) =~= "nat on "@);
    let rest = l.skip(7);
    assert(lacks(rest, '_')) by {
        assert forall|j: int| 0 <= j < rest.len() implies #[trigger] rest[j] != '_' by {
            assert(rest[j] == l[j + 7]);
        }
    }
    lemma_lacks_char(rest, "to <tunshare_bypass>"@, 12);
    lemma_lacks_char(rest, "to < tunshare_bypass >"@, 13);
    assert forall|q: PfSpec| q.vpn is Some implies #[trigger] body_step(q, ls[10]) == q by {
        assert(nat_step(q, rest) == q);
    }
}

/// The two DNS redirects of the expanded body set the LAN interface and
/// the address DNS goes to.
pub proof fn lemma_rdr_body_lines(vpn: Seq<char>, lan: Seq<char>, ip: Ipv4, mss: u16)
    requires
        iface_name(vpn),
        iface_name(lan),
    ensures
        forall|q: PfSpec| #[trigger] body_step(q, body_lines(vpn, lan, ip, mss, vpn, lan)[11]) == (PfSpec {
            lan: Some(lan),
            lan_ip: Some(ip),
            has_dns_rdr: true,
            ..q
        }),
        forall|q: PfSpec| #[trigger] body_step(q, body_lines(vpn, lan, ip, mss, vpn, lan)[12]) == (PfSpec {
            lan: Some(lan),
            lan_ip: Some(ip),
            has_dns_rdr: true,
            ..q
        }),
{
    let ls = body_lines(vpn, lan, ip, mss, vpn, lan);
    lemma_lines_tail(vpn, lan, ip, mss, vpn, lan);
    lemma_rule_words();
    let t = ip_text(ip);
    let tail = ":network to any port 53 -> "@;
    let mu = " inet proto udp from "@;
    let mt = " inet proto tcp from "@;
    assert(ls[11].subrange(0, 4) =~= "rdr "@);
    assert(ls[11].skip(4) =~= "on "@ + lan + mu + lan + tail + t);
    assert(ls[12].subrange(0, 4) =~= "rdr "@);
    assert(ls[12].skip(4) =~= "on "@ + lan + mt + lan + tail + t);
    lemma_rdr_rest(lan, mu, ip);
    lemma_rdr_rest(lan, mt, ip);
}

/// The expanded body's lines set the LAN interface, its address and the
/// DNS redirect; nothing else changes once the VPN interface is known.
pub proof fn lemma_expanded_body(vpn: Seq<char>, lan: Seq<char>, ip: Ipv4, mss: u16, pf: PfSpec)
    requires
        iface_name(vpn),
        iface_name(lan),
        pf.vpn is Some,
    ensures
        body_fold(pf, body_lines(vpn, lan, ip, mss, vpn, lan)) == (PfSpec {
            lan: Some(lan),
            lan_ip: Some(ip),
            has_dns_rdr: true,
            ..pf
        }),
{
    let ls = body_lines(vpn, lan, ip, mss, vpn, lan);
    lemma_lines_head(vpn, lan, ip, mss, vpn, lan);
    lemma_plain_body_lines(vpn, lan, ip, mss);
    lemma_nat_body_line(vpn, lan, ip, mss);
    lemma_rdr_body_lines(vpn, lan, ip, mss);
    let pf2 = PfSpec { lan: Some(lan), lan_ip: Some(ip), has_dns_rdr: true, ..pf };
    assert(ls.take(0) =~= Seq::<Seq<char>>::empty());
    lemma_take_step(ls, 0);
    lemma_take_step(ls, 1);
    lemma_take_step(ls, 2);
    lemma_take_step(ls, 3);
    lemma_take_step(ls, 4);
    lemma_take_step(ls, 5);
    lemma_take_step(ls, 6);
    lemma_take_step(ls, 7);
    lemma_take_step(ls, 8);
    lemma_take_step(ls, 9);
    lemma_take_step(ls, 10);
    lemma_take_step(ls, 11);
    lemma_take_step(ls, 12);
    lemma_take_step(ls, 13);
    lemma_take_step(ls, 14);
    lemma_take_step(ls, 15);
    assert(body_step(pf, ls[0]) == pf);
    assert(body_fold(pf, ls.take(0)) == pf);
    assert(body_fold(pf, ls.take(1)) == pf);
    assert(body_step(pf, ls[1]) == pf);
    assert(body_fold(pf, ls.take(2)) == pf);
    assert(body_step(pf, ls[2]) == pf);
    assert(body_fold(pf, ls.take(3)) == pf);
    assert(body_step(pf, ls[3]) == pf);
    assert(body_fold(pf, ls.take(4)) == pf);
    assert(body_step(pf, ls[4]) == pf);
    assert(body_fold(pf, ls.take(5)) == pf);
    assert(body_step(pf, ls[5]) == pf);
    assert(body_fold(pf, ls.take(6)) == pf);
    assert(body_step(pf, ls[6]) == pf);
    assert(body_fold(pf, ls.take(7)) == pf);
    assert(body_step(pf, ls[7]) == pf);
    assert(body_fold(pf, ls.take(8)) == pf);
    assert(body_step(pf, ls[8]) == pf);
    assert(body_fold(pf, ls.take(9)) == pf);
    assert(body_step(pf, ls[9]) == pf);
    assert(body_fold(pf, ls.take(10)) == pf);
    assert(body_step(pf, ls[10]) == pf);
    assert(body_fold(pf, ls.take(11)) == pf);
    assert(body_step(pf, ls[11]) == pf2);
    assert(body_fold(pf, ls.take(12)) == pf2);
    assert(body_step(pf2, ls[12]) == pf2);
    assert(body_fold(pf, ls.take(13)) == pf2);
    assert(body_step(pf2, ls[13]) == pf2);
    assert(body_fold(pf, ls.take(14)) == pf2);
    assert(body_step(pf2, ls[14]) == pf2);
    assert(body_fold(pf, ls.take(15)) == pf2);
    assert(body_step(pf2, ls[15]) == pf2);
    assert(body_fold(pf, ls.take(16)) == pf2);
    assert(ls.take(16) =~= ls);
}

/// The anchor body that sharing loads without a WAN bypass reads back
/// as what it was made for: the VPN interface, the LAN interface, the
/// LAN address that DNS is redirected to, and the redirect itself; and
/// it names no WAN interface or gateway, no NAT to the bypass table and
/// no `route-to` rule. Interface names are taken as `ifconfig` prints
/// them, letters and digits.
pub proof fn lemma_body_reads_back(vpn: Seq<char>, lan: Seq<char>, ip: Ipv4, mss: u16)
    requires
        iface_name(vpn),
        iface_name(lan),
    ensures
        parse_pf_spec(rules_text(vpn, lan, ip, mss, None)).vpn == Some(vpn),
        parse_pf_spec(rules_text(vpn, lan, ip, mss, None)).lan == Some(lan),
        parse_pf_spec(rules_text(vpn, lan, ip, mss, None)).lan_ip == Some(ip),
        parse_pf_spec(rules_text(vpn, lan, ip, mss, None)).has_dns_rdr,
        parse_pf_spec(rules_text(vpn, lan, ip, mss, None)).wan is None,
        parse_pf_spec(rules_text(vpn, lan, ip, mss, None)).wan_gw is None,
        !parse_pf_spec(rules_text(vpn, lan, ip, mss, None)).has_bypass_nat,
        !parse_pf_spec(rules_text(vpn, lan, ip, mss, None)).has_route_to,
{
    let t = rules_text(vpn, lan, ip, mss, None);
    let lw = body_lines(vpn, lan, ip, mss, ext_macro(), int_macro());
    let le = body_lines(vpn, lan, ip, mss, vpn, lan);
    lemma_body_text(vpn, lan, ip, mss);
    lemma_macro_chars();
    reveal_strlit("$ext_if");
    reveal_strlit("$int_if");
    assert(ext_macro().last() == 'f');
    lemma_lines_clean(vpn, lan, ip, mss, ext_macro(), int_macro());
    lemma_lines_of_join(lw);
    assert(lines(t) == lw);
    let pf0 = PfSpec { has_main_hooks: crate::firewall::main_hooks_present_spec(t), ..empty_pf() };
    lemma_written_macros(vpn, lan, ip, mss, pf0, t);
    let pf1 = PfSpec { vpn: Some(vpn), lan: Some(lan), ..pf0 };
    lemma_expanded_text(vpn, lan, ip, mss);
    assert(expand_spec(t) == join_lines(le));
    lemma_name_chars(vpn);
    lemma_lines_clean(vpn, lan, ip, mss, vpn, lan);
    lemma_lines_of_join(le);
    lemma_expanded_body(vpn, lan, ip, mss, pf1);
}

/// Once sharing has loaded its anchor body and merged MAIN, whatever
/// MAIN held before, the contract read back from the two says that
/// sharing is in place: the hooks are there and DNS is redirected to
/// the LAN address, on the interfaces it was loaded for.
pub proof fn lemma_loaded_contract(existing: Seq<char>, vpn: Seq<char>, lan: Seq<char>, ip: Ipv4, mss: u16)
    requires
        iface_name(vpn),
        iface_name(lan),
    ensures
        contract_spec(crate::firewall::firewall_merge_spec(existing), rules_text(vpn, lan, ip, mss, None)).has_main_hooks,
        contract_spec(crate::firewall::firewall_merge_spec(existing), rules_text(vpn, lan, ip, mss, None)).has_dns_rdr,
        contract_spec(crate::firewall::firewall_merge_spec(existing), rules_text(vpn, lan, ip, mss, None)).vpn == Some(vpn),
        contract_spec(crate::firewall::firewall_merge_spec(existing), rules_text(vpn, lan, ip, mss, None)).lan == Some(lan),
        contract_spec(crate::firewall::firewall_merge_spec(existing), rules_text(vpn, lan, ip, mss, None)).lan_ip == Some(ip),
{
    crate::main_laws::lemma_merged_main_has_hooks(existing);
    lemma_body_reads_back(vpn, lan, ip, mss);
}

} // verus!
