//! DNS servers from `scutil --dns` output: those of a VPN interface's
//! resolvers, and those of the primary resolver.

use vstd::prelude::*;
use crate::text::{
    chars_of, contains, contains_chars, extend_chars, extend_str, find, find_chars, lines,
    lemma_find_result, occurs_at, split_lines, starts_with, starts_with_chars, string_of, trim,
    trim_chars, views,
};

verus! {

/// Lexicographic order of texts by code point (the order of `String`).
pub open spec fn lex_lt(a: Seq<char>, b: Seq<char>) -> bool
    decreases a.len(),
{
    if b.len() == 0 {
        false
    } else if a.len() == 0 {
        true
    } else if a[0] != b[0] {
        a[0] < b[0]
    } else {
        lex_lt(a.drop_first(), b.drop_first())
    }
}

/// No text comes before itself.
pub proof fn lemma_lex_irreflexive(a: Seq<char>)
    ensures
        !lex_lt(a, a),
    decreases a.len(),
{
    if a.len() > 0 {
        lemma_lex_irreflexive(a.drop_first());
    }
}

/// The order is transitive.
pub proof fn lemma_lex_transitive(a: Seq<char>, b: Seq<char>, c: Seq<char>)
    requires
        lex_lt(a, b),
        lex_lt(b, c),
    ensures
        lex_lt(a, c),
    decreases a.len(),
{
    if a.len() > 0 && a[0] == b[0] && b[0] == c[0] {
        lemma_lex_transitive(a.drop_first(), b.drop_first(), c.drop_first());
    }
}

/// Two different texts are ordered one way or the other.
pub proof fn lemma_lex_total(a: Seq<char>, b: Seq<char>)
    requires
        a != b,
    ensures
        lex_lt(a, b) || lex_lt(b, a),
    decreases a.len(),
{
    if a.len() > 0 && b.len() > 0 && a[0] == b[0] {
        if a.drop_first() == b.drop_first() {
            assert(a =~= seq![a[0]] + a.drop_first());
            assert(b =~= seq![b[0]] + b.drop_first());
        }
        lemma_lex_total(a.drop_first(), b.drop_first());
    } else if a.len() == 0 && b.len() == 0 {
        assert(a =~= b);
    }
}

/// Strictly increasing: sorted and without repeats.
pub open spec fn strictly_sorted(v: Seq<Seq<char>>) -> bool {
    forall|i: int, j: int| #![trigger v[i], v[j]] 0 <= i < j < v.len() ==> lex_lt(v[i], v[j])
}

/// Whether `a` comes before `b`.
pub fn lex_less(a: &[char], b: &[char]) -> (r: bool)
    ensures
        r == lex_lt(a@, b@),
{
    let mut i: usize = 0;
    assert(a@.skip(0) =~= a@);
    assert(b@.skip(0) =~= b@);
    while i < a.len() && i < b.len() && a[i] == b[i]
        invariant
            i <= a@.len(),
            i <= b@.len(),
            lex_lt(a@, b@) == lex_lt(a@.skip(i as int), b@.skip(i as int)),
        decreases a@.len() - i,
    {
        assert(a@.skip(i as int).drop_first() =~= a@.skip(i + 1));
        assert(b@.skip(i as int).drop_first() =~= b@.skip(i + 1));
        i = i + 1;
    }
    if i == b.len() {
        return false;
    }
    if i == a.len() {
        return true;
    }
    assert(a@.skip(i as int)[0] == a@[i as int]);
    assert(b@.skip(i as int)[0] == b@[i as int]);
    a[i] < b[i]
}

/// The views of a list of character vectors.
pub open spec fn vec_views(v: Seq<Vec<char>>) -> Seq<Seq<char>> {
    v.map_values(|x: Vec<char>| x@)
}

/// Adds `x` to a strictly increasing list at its place, unless it is
/// there already.
fn insert_sorted(v: &mut Vec<Vec<char>>, x: Vec<char>)
    requires
        strictly_sorted(vec_views(old(v)@)),
    ensures
        strictly_sorted(vec_views(final(v)@)),
        forall|s: Seq<char>| #[trigger] vec_views(final(v)@).contains(s) <==> (vec_views(
            old(v)@,
        ).contains(s) || s == x@),
{
    let ghost ov = vec_views(v@);
    let mut p: usize = 0;
    while p < v.len() && lex_less(v[p].as_slice(), x.as_slice())
        invariant
            ov == vec_views(v@),
            strictly_sorted(ov),
            p <= v@.len(),
            forall|i: int| 0 <= i < p ==> lex_lt(#[trigger] ov[i], x@),
        decreases v@.len() - p,
    {
        assert(ov[p as int] == v@[p as int]@);
        p = p + 1;
    }
    if p < v.len() {
        assert(ov[p as int] == v@[p as int]@);
        let same = !lex_less(x.as_slice(), v[p].as_slice());
        if same {
            proof {
                if ov[p as int] != x@ {
                    lemma_lex_total(ov[p as int], x@);
                }
                assert forall|s: Seq<char>| #[trigger] ov.contains(s) <==> (ov.contains(s) || s
                    == x@) by {
                    if s == x@ {
                        assert(ov[p as int] == s);
                    }
                }
            }
            return ;
        }
    }
    proof {
        assert forall|j: int| p <= j < ov.len() implies lex_lt(x@, #[trigger] ov[j]) by {
            if j > p {
                assert(lex_lt(ov[p as int], ov[j]));
                lemma_lex_transitive(x@, ov[p as int], ov[j]);
            }
        }
    }
    v.insert(p, x);
    let ghost nv = vec_views(v@);
    assert(nv =~= ov.insert(p as int, x@));
    assert forall|i: int, j: int| #![trigger nv[i], nv[j]] 0 <= i < j < nv.len() implies lex_lt(
        nv[i],
        nv[j],
    ) by {
        if j < p {
            assert(nv[i] == ov[i] && nv[j] == ov[j]);
        } else if j == p {
            assert(nv[i] == ov[i]);
        } else if i < p {
            assert(nv[i] == ov[i] && nv[j] == ov[j - 1]);
            assert(lex_lt(ov[i], x@));
            assert(lex_lt(x@, ov[j - 1]));
            lemma_lex_transitive(ov[i], x@, ov[j - 1]);
        } else if i == p {
            assert(nv[j] == ov[j - 1]);
        } else {
            assert(nv[i] == ov[i - 1] && nv[j] == ov[j - 1]);
        }
    }
    assert forall|s: Seq<char>| #[trigger] nv.contains(s) <==> (ov.contains(s) || s == x@) by {
        if nv.contains(s) {
            let i = choose|i: int| 0 <= i < nv.len() && nv[i] == s;
            if i < p {
                assert(ov[i] == s);
            } else if i > p {
                assert(ov[i - 1] == s);
            }
        }
        if ov.contains(s) {
            let i = choose|i: int| 0 <= i < ov.len() && ov[i] == s;
            if i < p {
                assert(nv[i] == s);
            } else {
                assert(nv[i + 1] == s);
            }
        }
        if s == x@ {
            assert(nv[p as int] == s);
        }
    }
}

/// The server of a `nameserver[N] : address` line, if it is one.
pub open spec fn nameserver_of(t: Seq<char>) -> Option<Seq<char>> {
    if starts_with(t, "nameserver["@) {
        match find(t, " : "@) {
            Some(pos) => {
                let s = trim(t.skip(pos + 3int));
                if s.len() > 0 {
                    Some(s)
                } else {
                    None
                }
            },
            None => None,
        }
    } else {
        None
    }
}

/// The server named by a (trimmed) line, if it is a nameserver line.
fn nameserver_exec(t: &[char]) -> (r: Option<Vec<char>>)
    ensures
        match r {
            Some(s) => nameserver_of(t@) == Some(s@),
            None => nameserver_of(t@) is None,
        },
{
    let ns = chars_of("nameserver[");
    let sep = chars_of(" : ");
    proof {
        reveal_strlit(" : ");
        lemma_find_result(t@, sep@);
    }
    if !starts_with_chars(t, ns.as_slice()) {
        return None;
    }
    match find_chars(t, sep.as_slice()) {
        Some(pos) => {
            assert(occurs_at(t@, sep@, pos as int));
            let n = t.len();
            let m = sep.len();
            assert(pos + m <= n);
            let start = pos + m;
            let rest = vstd::slice::slice_subrange(t, start, n);
            assert(rest@ =~= t@.skip(pos + 3));
            let s = trim_chars(rest);
            if s.len() > 0 {
                let mut v: Vec<char> = Vec::new();
                extend_chars(&mut v, s);
                assert(v@ =~= s@);
                Some(v)
            } else {
                None
            }
        },
        None => None,
    }
}

/// The state of a scan for an interface's resolvers: servers of
/// finished relevant blocks, whether the current block is relevant, and
/// the current block's servers.
pub struct DnsScan {
    pub servers: Seq<Seq<char>>,
    pub relevant: bool,
    pub current: Seq<Seq<char>>,
}

/// One line of `scutil --dns` output.
pub open spec fn dns_step(st: DnsScan, line: Seq<char>, iface: Seq<char>) -> DnsScan {
    let t = trim(line);
    let st1 = if starts_with(t, "resolver #"@) {
        DnsScan {
            servers: if st.relevant {
                st.servers + st.current
            } else {
                st.servers
            },
            relevant: false,
            current: seq![],
        }
    } else {
        st
    };
    let rel = st1.relevant || (starts_with(t, "if_index"@) && contains(t, "("@ + iface + ")"@))
        || (starts_with(t, "interface"@) && contains(t, iface));
    DnsScan {
        servers: st1.servers,
        relevant: rel,
        current: match nameserver_of(t) {
            Some(s) => st1.current.push(s),
            None => st1.current,
        },
    }
}

/// The scan after the lines `ls`.
pub open spec fn dns_fold(ls: Seq<Seq<char>>, iface: Seq<char>) -> DnsScan
    decreases ls.len(),
{
    if ls.len() == 0 {
        DnsScan { servers: seq![], relevant: false, current: seq![] }
    } else {
        dns_step(dns_fold(ls.drop_last(), iface), ls.last(), iface)
    }
}

/// The servers of the resolvers of `iface`, in order found, repeats
/// included.
pub open spec fn vpn_servers_found(text: Seq<char>, iface: Seq<char>) -> Seq<Seq<char>> {
    let st = dns_fold(lines(text), iface);
    if st.relevant {
        st.servers + st.current
    } else {
        st.servers
    }
}

/// A line that starts a resolver block of `scutil --dns` output.
pub open spec fn is_resolver_header(l: Seq<char>) -> bool {
    starts_with(trim(l), "resolver #"@)
}

/// A line of a resolver block that ties the block to `iface`: an
/// `if_index : N (iface)` line or an `interface` line naming it.
pub open spec fn names_iface(l: Seq<char>, iface: Seq<char>) -> bool {
    let t = trim(l);
    (starts_with(t, "if_index"@) && contains(t, "("@ + iface + ")"@)) || (starts_with(
        t,
        "interface"@,
    ) && contains(t, iface))
}

/// Within a resolver block, the scan has collected every nameserver
/// seen so far in the block, and knows the block is the interface's as
/// soon as a line says so.
proof fn lemma_in_block(a: Seq<Seq<char>>, b: Seq<Seq<char>>, iface: Seq<char>, j: int)
    requires
        1 <= j <= b.len(),
        is_resolver_header(b[0]),
        forall|k: int| 1 <= k < j ==> !is_resolver_header(#[trigger] b[k]),
    ensures
        forall|k: int|
            0 <= k < j && #[trigger] nameserver_of(trim(b[k])) is Some ==> dns_fold(
                a + b.take(j),
                iface,
            ).current.contains(nameserver_of(trim(b[k]))->0),
        forall|k: int| 0 <= k < j && #[trigger] names_iface(b[k], iface) ==> dns_fold(a + b.take(j), iface).relevant,
    decreases j,
{
    let ls = a + b.take(j);
    assert(ls.drop_last() =~= a + b.take(j - 1));
    assert(ls.last() == b[j - 1]);
    let prev = dns_fold(a + b.take(j - 1), iface);
    let st = dns_fold(ls, iface);
    let t = trim(b[j - 1]);
    if j == 1 {
        assert(b.take(0) =~= Seq::<Seq<char>>::empty());
        assert(a + b.take(0) =~= a);
        assert(st.current == match nameserver_of(t) {
            Some(x) => Seq::<Seq<char>>::empty().push(x),
            None => Seq::<Seq<char>>::empty(),
        });
        assert forall|k: int|
            0 <= k < j && #[trigger] nameserver_of(trim(b[k])) is Some implies st.current.contains(
            nameserver_of(trim(b[k]))->0,
        ) by {
            assert(st.current[0] == nameserver_of(trim(b[k]))->0);
        }
    } else {
        lemma_in_block(a, b, iface, j - 1);
        assert(!is_resolver_header(b[j - 1]));
        assert forall|k: int|
            0 <= k < j && #[trigger] nameserver_of(trim(b[k])) is Some implies st.current.contains(
            nameserver_of(trim(b[k]))->0,
        ) by {
            let x = nameserver_of(trim(b[k]))->0;
            if k < j - 1 {
                let i = choose|i: int| 0 <= i < prev.current.len() && prev.current[i] == x;
                match nameserver_of(t) {
                    Some(y) => assert(st.current[i] == prev.current.push(y)[i]),
                    None => {},
                }
            } else {
                assert(st.current[st.current.len() - 1] == x);
            }
        }
    }
}

/// Servers found by a scan are still found after more lines.
proof fn lemma_servers_grow(ls: Seq<Seq<char>>, e: Seq<Seq<char>>, iface: Seq<char>)
    ensures
        forall|x: Seq<char>|
            dns_fold(ls, iface).servers.contains(x) ==> #[trigger] dns_fold(ls + e, iface).servers.contains(x),
    decreases e.len(),
{
    if e.len() == 0 {
        assert(ls + e =~= ls);
    } else {
        lemma_servers_grow(ls, e.drop_last(), iface);
        assert((ls + e).drop_last() =~= ls + e.drop_last());
        let prev = dns_fold(ls + e.drop_last(), iface);
        assert forall|x: Seq<char>|
            dns_fold(ls, iface).servers.contains(x) implies #[trigger] dns_fold(ls + e, iface).servers.contains(x) by {
            assert(prev.servers.contains(x));
            let i = choose|i: int| 0 <= i < prev.servers.len() && prev.servers[i] == x;
            assert((prev.servers + prev.current)[i] == x);
            assert(dns_fold(ls + e, iface) == dns_step(prev, e.last(), iface));
        }
    }
}

/// Every nameserver listed in a resolver block that belongs to `iface`
/// is among the servers found for it, wherever the block stands in the
/// output, the last block included: the block runs from its `resolver
/// #` line to the next one or to the end.
pub proof fn lemma_block_servers_found(
    text: Seq<char>,
    iface: Seq<char>,
    a: Seq<Seq<char>>,
    b: Seq<Seq<char>>,
    c: Seq<Seq<char>>,
)
    requires
        lines(text) == a + b + c,
        b.len() > 0,
        is_resolver_header(b[0]),
        forall|k: int| 1 <= k < b.len() ==> !is_resolver_header(#[trigger] b[k]),
        c.len() == 0 || is_resolver_header(c[0]),
        exists|k: int| 0 <= k < b.len() && #[trigger] names_iface(b[k], iface),
    ensures
        forall|k: int|
            0 <= k < b.len() && #[trigger] nameserver_of(trim(b[k])) is Some ==> vpn_servers_found(
                text,
                iface,
            ).contains(nameserver_of(trim(b[k]))->0),
{
    lemma_in_block(a, b, iface, b.len() as int);
    assert(b.take(b.len() as int) =~= b);
    let st = dns_fold(a + b, iface);
    let w = choose|k: int| 0 <= k < b.len() && #[trigger] names_iface(b[k], iface);
    assert(st.relevant);
    assert forall|k: int|
        0 <= k < b.len() && #[trigger] nameserver_of(trim(b[k])) is Some implies vpn_servers_found(
        text,
        iface,
    ).contains(nameserver_of(trim(b[k]))->0) by {
        let x = nameserver_of(trim(b[k]))->0;
        assert(st.current.contains(x));
        let i = choose|i: int| 0 <= i < st.current.len() && st.current[i] == x;
        if c.len() == 0 {
            assert(lines(text) =~= a + b);
            assert((st.servers + st.current)[st.servers.len() + i] == x);
        } else {
            let ls1 = (a + b).push(c[0]);
            assert(ls1.drop_last() =~= a + b);
            let st1 = dns_fold(ls1, iface);
            assert(st1.servers == st.servers + st.current);
            assert(st1.servers[st.servers.len() + i] == x);
            lemma_servers_grow(ls1, c.drop_first(), iface);
            assert(ls1 + c.drop_first() =~= lines(text));
            let fin = dns_fold(lines(text), iface);
            assert(fin.servers.contains(x));
            let q = choose|q: int| 0 <= q < fin.servers.len() && fin.servers[q] == x;
            assert((fin.servers + fin.current)[q] == x);
        }
    }
}

/// The DNS servers of the resolvers that belong to interface
/// `interface` (by `if_index : N (name)` or an `interface` line), sorted
/// and without repeats.
pub fn parse_dns_for_interface(output: &str, interface: &str) -> (r: Vec<String>)
    ensures
        strictly_sorted(crate::text::string_views(r@)),
        forall|s: Seq<char>|
            #[trigger] crate::text::string_views(r@).contains(s) <==> vpn_servers_found(
                output@,
                interface@,
            ).contains(s),
{
    let text = chars_of(output);
    let ls = split_lines(text.as_slice());
    let ghost lv = views(ls@);
    let resolver = chars_of("resolver #");
    let if_index = chars_of("if_index");
    let iface_kw = chars_of("interface");
    let iface = chars_of(interface);
    let mut paren: Vec<char> = Vec::new();
    extend_str(&mut paren, "(");
    extend_str(&mut paren, interface);
    extend_str(&mut paren, ")");
    let mut servers: Vec<Vec<char>> = Vec::new();
    let mut relevant = false;
    let mut current: Vec<Vec<char>> = Vec::new();
    let mut k: usize = 0;
    assert(lv.take(0) =~= Seq::<Seq<char>>::empty());
    assert(vec_views(servers@) =~= Seq::<Seq<char>>::empty());
    assert(vec_views(current@) =~= Seq::<Seq<char>>::empty());
    while k < ls.len()
        invariant
            lv == views(ls@),
            lv == lines(output@),
            k <= ls@.len(),
            resolver@ == "resolver #"@,
            if_index@ == "if_index"@,
            iface_kw@ == "interface"@,
            iface@ == interface@,
            paren@ == "("@ + interface@ + ")"@,
            dns_fold(lv.take(k as int), interface@) == (DnsScan {
                servers: vec_views(servers@),
                relevant,
                current: vec_views(current@),
            }),
        decreases ls@.len() - k,
    {
        let line = ls[k];
        assert(lv[k as int] == line@);
        assert(lv.take(k + 1).drop_last() =~= lv.take(k as int));
        assert(lv.take(k + 1).last() == line@);
        let t = trim_chars(line);
        if starts_with_chars(t, resolver.as_slice()) {
            if relevant {
                let ghost before = vec_views(servers@);
                let ghost cur = vec_views(current@);
                servers.append(&mut current);
                assert(vec_views(servers@) =~= before + cur);
            }
            relevant = false;
            current = Vec::new();
            assert(vec_views(current@) =~= Seq::<Seq<char>>::empty());
        }
        if starts_with_chars(t, if_index.as_slice()) && contains_chars(t, paren.as_slice()) {
            relevant = true;
        }
        if starts_with_chars(t, iface_kw.as_slice()) && contains_chars(t, iface.as_slice()) {
            relevant = true;
        }
        match nameserver_exec(t) {
            Some(s) => {
                let ghost before = vec_views(current@);
                current.push(s);
                assert(vec_views(current@) =~= before.push(s@));
            },
            None => {},
        }
        k = k + 1;
    }
    assert(lv.take(ls@.len() as int) =~= lv);
    if relevant {
        let ghost before = vec_views(servers@);
        let ghost cur = vec_views(current@);
        servers.append(&mut current);
        assert(vec_views(servers@) =~= before + cur);
    }
    let ghost found = vec_views(servers@);
    let mut sorted: Vec<Vec<char>> = Vec::new();
    let mut i: usize = 0;
    assert(vec_views(sorted@) =~= Seq::<Seq<char>>::empty());
    while i < servers.len()
        invariant
            found == vec_views(servers@),
            i <= servers@.len(),
            strictly_sorted(vec_views(sorted@)),
            forall|s: Seq<char>| #[trigger] vec_views(sorted@).contains(s) <==> found.take(
                i as int,
            ).contains(s),
        decreases servers@.len() - i,
    {
        let mut x: Vec<char> = Vec::new();
        extend_chars(&mut x, servers[i].as_slice());
        assert(x@ =~= found[i as int]);
        let ghost before = vec_views(sorted@);
        insert_sorted(&mut sorted, x);
        let ghost t1 = found.take(i + 1);
        let ghost t0 = found.take(i as int);
        assert(t1 =~= t0.push(found[i as int]));
        assert forall|s: Seq<char>| #[trigger] vec_views(sorted@).contains(s) <==> t1.contains(s) by {
            if t1.contains(s) {
                let j = choose|j: int| 0 <= j < t1.len() && t1[j] == s;
                if j < i {
                    assert(t0[j] == s);
                }
            }
            if t0.contains(s) {
                let j = choose|j: int| 0 <= j < t0.len() && t0[j] == s;
                assert(t1[j] == s);
            }
            if s == found[i as int] {
                assert(t1[i as int] == s);
            }
        }
        i = i + 1;
    }
    assert(found.take(servers@.len() as int) =~= found);
    let mut r: Vec<String> = Vec::new();
    let mut j: usize = 0;
    while j < sorted.len()
        invariant
            j <= sorted@.len(),
            crate::text::string_views(r@) == vec_views(sorted@).take(j as int),
        decreases sorted@.len() - j,
    {
        assert(vec_views(sorted@)[j as int] == sorted@[j as int]@);
        let ghost before = r@;
        let sj = string_of(sorted[j].as_slice());
        r.push(sj);
        assert(crate::text::string_views(r@) =~= crate::text::string_views(before).push(sj@));
        assert(crate::text::string_views(r@) =~= vec_views(sorted@).take(j + 1));
        j = j + 1;
    }
    assert(vec_views(sorted@).take(sorted@.len() as int) =~= vec_views(sorted@));
    r
}

/// The servers of the primary resolver (the `resolver #1` block) from
/// the lines `ls` on, `in_default` telling whether that block is open.
pub open spec fn default_scan(ls: Seq<Seq<char>>, in_default: bool) -> Seq<Seq<char>>
    decreases ls.len(),
{
    if ls.len() == 0 {
        seq![]
    } else {
        let t = trim(ls[0]);
        if !starts_with(t, "resolver #1"@) && starts_with(t, "resolver #"@) && in_default {
            seq![]
        } else {
            let d = in_default || starts_with(t, "resolver #1"@);
            (if d {
                match nameserver_of(t) {
                    Some(s) => seq![s],
                    None => seq![],
                }
            } else {
                seq![]
            }) + default_scan(ls.drop_first(), d)
        }
    }
}

/// The DNS servers of the primary resolver, in order.
pub fn parse_default_dns(output: &str) -> (r: Vec<String>)
    ensures
        crate::text::string_views(r@) == default_scan(lines(output@), false),
{
    let text = chars_of(output);
    let ls = split_lines(text.as_slice());
    let ghost lv = views(ls@);
    let first = chars_of("resolver #1");
    let resolver = chars_of("resolver #");
    let mut r: Vec<String> = Vec::new();
    let mut in_default = false;
    let mut k: usize = 0;
    assert(lv.skip(0) =~= lv);
    assert(crate::text::string_views(r@) =~= Seq::<Seq<char>>::empty());
    assert(Seq::<Seq<char>>::empty() + default_scan(lv, false) =~= default_scan(lv, false));
    while k < ls.len()
        invariant
            lv == views(ls@),
            lv == lines(output@),
            k <= ls@.len(),
            first@ == "resolver #1"@,
            resolver@ == "resolver #"@,
            default_scan(lv, false) == crate::text::string_views(r@) + default_scan(
                lv.skip(k as int),
                in_default,
            ),
        decreases ls@.len() - k,
    {
        let line = ls[k];
        assert(lv.skip(k as int)[0] == line@);
        assert(lv.skip(k as int).drop_first() =~= lv.skip(k + 1));
        let t = trim_chars(line);
        if starts_with_chars(t, first.as_slice()) {
            in_default = true;
        } else if starts_with_chars(t, resolver.as_slice()) && in_default {
            assert(default_scan(lv.skip(k as int), true) =~= Seq::<Seq<char>>::empty());
            assert(crate::text::string_views(r@) + Seq::<Seq<char>>::empty() =~= crate::text::string_views(r@));
            return r;
        }
        if in_default {
            match nameserver_exec(t) {
                Some(s) => {
                    let ghost before = crate::text::string_views(r@);
                    r.push(string_of(s.as_slice()));
                    assert(crate::text::string_views(r@) =~= before.push(s@));
                    assert(before + (seq![s@] + default_scan(lv.skip(k + 1), in_default)) =~= crate::text::string_views(r@) + default_scan(lv.skip(k + 1), in_default));
                },
                None => {
                    assert(Seq::<Seq<char>>::empty() + default_scan(lv.skip(k + 1), in_default) =~= default_scan(lv.skip(k + 1), in_default));
                },
            }
        } else {
            assert(Seq::<Seq<char>>::empty() + default_scan(lv.skip(k + 1), in_default) =~= default_scan(lv.skip(k + 1), in_default));
        }
        k = k + 1;
    }
    assert(crate::text::string_views(r@) + Seq::<Seq<char>>::empty() =~= crate::text::string_views(r@));
    r
}

} // verus!
