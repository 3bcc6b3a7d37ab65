//! Laws of the MAIN merge: merging twice is merging once, and the
//! merged ruleset keeps pf's section order.

use vstd::prelude::*;
use vstd::multiset::Multiset;
use crate::firewall::{
    bucket, buckets_spec, classify_spec, contract_spec, filter_hook_spec, firewall_merge_spec, hooks_lower,
    ignorable_line, is_filter_hook, is_tunshare_line_spec, join_lines, kept_in, line_has_spec,
    main_hooks_present_spec, main_hooks_spec, main_hooks_text, merge_main_spec, names_hook, order_main_spec,
    strip_lines, strip_main_spec,
    remaining_main_is_empty_spec, skip_line, MainSection,
};
use crate::text::{
    contains, find, has_char, lemma_find_result, lemma_trim_start_suffix, lines, lower_char,
    occurs_at, replace, starts_with, strip_cr, to_lower, trim, trim_end, trim_start, is_ws,
};

verus! {

/// `l` holds no newline.
pub open spec fn no_nl(l: Seq<char>) -> bool {
    forall|i: int| 0 <= i < l.len() ==> l[i] != '\n'
}

/// `l` is a whole line: no newline, and no carriage return at its end.
pub open spec fn one_line(l: Seq<char>) -> bool {
    no_nl(l) && !(l.len() > 0 && l.last() == '\r')
}

/// `find` is the first occurrence.
pub proof fn lemma_find_is(s: Seq<char>, p: Seq<char>, i: int)
    requires
        occurs_at(s, p, i),
        forall|j: int| 0 <= j < i ==> !occurs_at(s, p, j),
    ensures
        find(s, p) == Some(i as nat),
{
    lemma_find_result(s, p);
    match find(s, p) {
        Some(k) => {
            if (k as int) < i {
            } else if (k as int) > i {
            }
        },
        None => {},
    }
}

/// Joining concatenated line lists is concatenating the joins.
pub proof fn lemma_join_append(a: Seq<Seq<char>>, b: Seq<Seq<char>>)
    ensures
        join_lines(a + b) == join_lines(a) + join_lines(b),
    decreases b.len(),
{
    if b.len() == 0 {
        assert(a + b =~= a);
        assert(join_lines(a) + join_lines(b) =~= join_lines(a));
    } else {
        assert((a + b).drop_last() =~= a + b.drop_last());
        assert((a + b).last() == b.last());
        lemma_join_append(a, b.drop_last());
        assert(join_lines(a) + join_lines(b) =~= join_lines(a) + join_lines(b.drop_last())
            + b.last() + seq!['\n']);
    }
}

/// The lines of joined whole lines are those lines.
pub proof fn lemma_lines_of_join(ls: Seq<Seq<char>>)
    requires
        forall|k: int| 0 <= k < ls.len() ==> one_line(#[trigger] ls[k]),
    ensures
        lines(join_lines(ls)) == ls,
    decreases ls.len(),
{
    if ls.len() == 0 {
        assert(lines(join_lines(ls)) =~= ls);
    } else {
        let l = ls[0];
        let r = ls.drop_first();
        assert(ls =~= seq![l] + r);
        lemma_join_append(seq![l], r);
        assert(seq![l].drop_last() =~= Seq::<Seq<char>>::empty());
        assert(join_lines(Seq::<Seq<char>>::empty()) =~= Seq::<char>::empty());
        assert(seq![l].last() == l);
        assert(Seq::<char>::empty() + l =~= l);
        assert(join_lines(seq![l]) =~= l + seq!['\n']);
        let j = join_lines(r);
        let s = l + seq!['\n'] + j;
        assert(join_lines(ls) == s);
        let nl = seq!['\n'];
        assert(occurs_at(s, nl, l.len() as int)) by {
            assert(s.subrange(l.len() as int, l.len() + 1int) =~= nl);
        }
        assert forall|i: int| 0 <= i < l.len() implies !occurs_at(s, nl, i) by {
            assert(one_line(ls[0]));
            if occurs_at(s, nl, i) {
                assert(s.subrange(i, i + 1)[0] == s[i]);
            }
        }
        lemma_find_is(s, nl, l.len() as int);
        assert(s.take(l.len() as int) =~= l);
        assert(s.skip(l.len() + 1int) =~= j);
        assert(one_line(ls[0]));
        assert(strip_cr(l) == l);
        assert forall|k: int| 0 <= k < r.len() implies one_line(#[trigger] r[k]) by {
            assert(r[k] == ls[k + 1]);
        }
        lemma_lines_of_join(r);
        assert(lines(s) =~= seq![l] + r);
    }
}

/// No line of `lines(s)` holds a newline.
pub proof fn lemma_lines_no_nl(s: Seq<char>)
    ensures
        forall|k: int| 0 <= k < lines(s).len() ==> no_nl(#[trigger] lines(s)[k]),
    decreases s.len(),
{
    if s.len() > 0 {
        let nl = seq!['\n'];
        lemma_find_result(s, nl);
        match find(s, nl) {
            Some(i) => {
                lemma_lines_no_nl(s.skip((i + 1) as int));
                let head = strip_cr(s.take(i as int));
                assert forall|j: int| 0 <= j < head.len() implies head[j] != '\n' by {
                    assert(!occurs_at(s, nl, j));
                    if s[j] == '\n' {
                        assert(s.subrange(j, j + 1) =~= nl);
                    }
                }
                let rest = lines(s.skip((i + 1) as int));
                assert(lines(s) == seq![head] + rest);
                assert forall|k: int| 0 <= k < lines(s).len() implies no_nl(
                    #[trigger] lines(s)[k],
                ) by {
                    if k > 0 {
                        assert(lines(s)[k] == rest[k - 1]);
                    }
                }
            },
            None => {
                assert forall|j: int| 0 <= j < s.len() implies s[j] != '\n' by {
                    assert(!occurs_at(s, nl, j));
                    if s[j] == '\n' {
                        assert(s.subrange(j, j + 1) =~= nl);
                    }
                }
                assert(lines(s) == seq![s]);
            },
        }
    }
}

/// `trim_end` removes a whitespace suffix.
pub proof fn lemma_trim_end_prefix(s: Seq<char>)
    ensures
        trim_end(s).len() <= s.len(),
        trim_end(s) == s.take(trim_end(s).len() as int),
        trim_end(s).len() > 0 ==> !is_ws(trim_end(s).last()),
    decreases s.len(),
{
    if s.len() > 0 && is_ws(s.last()) {
        lemma_trim_end_prefix(s.drop_last());
        assert(s.drop_last().take(trim_end(s).len() as int) =~= s.take(trim_end(s).len() as int));
    } else {
        assert(s.take(s.len() as int) =~= s);
    }
}

/// A sequence without whitespace at either end is its own trim.
pub proof fn lemma_trim_fixed(t: Seq<char>)
    requires
        t.len() == 0 || (!is_ws(t[0]) && !is_ws(t.last())),
    ensures
        trim(t) == t,
{
    assert(trim_start(t) == t);
    assert(trim_end(t) == t);
}

/// What trimming gives: no whitespace at either end, no new newline,
/// and trimming again changes nothing.
pub proof fn lemma_trim_props(s: Seq<char>)
    ensures
        trim(s).len() > 0 ==> !is_ws(trim(s)[0]) && !is_ws(trim(s).last()),
        no_nl(s) ==> no_nl(trim(s)),
        trim(trim(s)) == trim(s),
        one_line(trim(s)) <== no_nl(s),
{
    lemma_trim_start_suffix(s);
    let t1 = trim_start(s);
    lemma_trim_end_prefix(t1);
    let t2 = trim_end(t1);
    if t2.len() > 0 {
        assert(t2[0] == t1[0]);
    }
    if no_nl(s) {
        assert forall|i: int| 0 <= i < t2.len() implies t2[i] != '\n' by {
            assert(t2[i] == t1[i]);
            assert(t1[i] == s[s.len() - t1.len() + i]);
        }
    }
    lemma_trim_fixed(t2);
    if t2.len() > 0 {
        assert(is_ws('\r'));
    }
}

// ---------------------------------------------------------------------
// Kept lines
// ---------------------------------------------------------------------

/// The trimmed lines of `ls` that the merge keeps in section `sec`.
pub open spec fn kept_lines(ls: Seq<Seq<char>>, sec: MainSection) -> Seq<Seq<char>>
    decreases ls.len(),
{
    if ls.len() == 0 {
        seq![]
    } else {
        let t = trim(ls.last());
        kept_lines(ls.drop_last(), sec) + if kept_in(t, sec) {
            seq![t]
        } else {
            seq![]
        }
    }
}

/// A section's text is its kept lines joined.
pub proof fn lemma_bucket_is_join(ls: Seq<Seq<char>>, sec: MainSection)
    ensures
        bucket(ls, sec) == join_lines(kept_lines(ls, sec)),
    decreases ls.len(),
{
    if ls.len() > 0 {
        lemma_bucket_is_join(ls.drop_last(), sec);
        let t = trim(ls.last());
        let k = kept_lines(ls.drop_last(), sec);
        if kept_in(t, sec) {
            assert((k + seq![t]).drop_last() =~= k);
        } else {
            assert(k + Seq::<Seq<char>>::empty() =~= k);
            assert(bucket(ls.drop_last(), sec) + Seq::<char>::empty() =~= bucket(
                ls.drop_last(),
                sec,
            ));
        }
    }
}

/// Keeping distributes over concatenation.
pub proof fn lemma_kept_append(a: Seq<Seq<char>>, b: Seq<Seq<char>>, sec: MainSection)
    ensures
        kept_lines(a + b, sec) == kept_lines(a, sec) + kept_lines(b, sec),
    decreases b.len(),
{
    if b.len() == 0 {
        assert(a + b =~= a);
        assert(kept_lines(a, sec) + kept_lines(b, sec) =~= kept_lines(a, sec));
    } else {
        assert((a + b).drop_last() =~= a + b.drop_last());
        assert((a + b).last() == b.last());
        lemma_kept_append(a, b.drop_last(), sec);
        let t = trim(b.last());
        let x: Seq<Seq<char>> = if kept_in(t, sec) {
            seq![t]
        } else {
            seq![]
        };
        assert(kept_lines(a, sec) + kept_lines(b.drop_last(), sec) + x =~= kept_lines(a, sec) + (
        kept_lines(b.drop_last(), sec) + x));
    }
}

/// What every kept line is: its own trim, kept in its section, and a
/// whole line when the input lines hold no newline.
pub proof fn lemma_kept_props(ls: Seq<Seq<char>>, sec: MainSection)
    ensures
        forall|k: int|
            0 <= k < kept_lines(ls, sec).len() ==> {
                let t = #[trigger] kept_lines(ls, sec)[k];
                trim(t) == t && kept_in(t, sec)
            },
        (forall|k: int| 0 <= k < ls.len() ==> no_nl(#[trigger] ls[k])) ==> forall|k: int|
            0 <= k < kept_lines(ls, sec).len() ==> one_line(#[trigger] kept_lines(ls, sec)[k]),
    decreases ls.len(),
{
    if ls.len() > 0 {
        lemma_kept_props(ls.drop_last(), sec);
        let t = trim(ls.last());
        lemma_trim_props(ls.last());
        let k0 = kept_lines(ls.drop_last(), sec);
        if (forall|k: int| 0 <= k < ls.len() ==> no_nl(#[trigger] ls[k])) {
            assert forall|k: int| 0 <= k < ls.drop_last().len() implies no_nl(
                #[trigger] ls.drop_last()[k],
            ) by {
                assert(ls.drop_last()[k] == ls[k]);
            }
            assert(no_nl(ls[ls.len() - 1]));
        }
        assert forall|k: int| 0 <= k < kept_lines(ls, sec).len() implies {
            let t = #[trigger] kept_lines(ls, sec)[k];
            trim(t) == t && kept_in(t, sec)
        } by {
            if k < k0.len() {
                assert(kept_lines(ls, sec)[k] == k0[k]);
            }
        }
        if (forall|k: int| 0 <= k < ls.len() ==> no_nl(#[trigger] ls[k])) {
            assert forall|k: int| 0 <= k < kept_lines(ls, sec).len() implies one_line(
                #[trigger] kept_lines(ls, sec)[k],
            ) by {
                if k < k0.len() {
                    assert(kept_lines(ls, sec)[k] == k0[k]);
                }
            }
        }
    }
}

/// Lines that are their own trim and kept in `s0` are kept exactly in
/// `s0`.
pub proof fn lemma_kept_of_clean(ls: Seq<Seq<char>>, s0: MainSection, sec: MainSection)
    requires
        forall|k: int|
            0 <= k < ls.len() ==> trim(#[trigger] ls[k]) == ls[k] && kept_in(ls[k], s0),
    ensures
        kept_lines(ls, sec) == if sec == s0 {
            ls
        } else {
            Seq::<Seq<char>>::empty()
        },
    decreases ls.len(),
{
    if ls.len() > 0 {
        assert forall|k: int| 0 <= k < ls.drop_last().len() implies trim(
            #[trigger] ls.drop_last()[k],
        ) == ls.drop_last()[k] && kept_in(ls.drop_last()[k], s0) by {
            assert(ls.drop_last()[k] == ls[k]);
        }
        lemma_kept_of_clean(ls.drop_last(), s0, sec);
        assert(trim(ls[ls.len() - 1]) == ls[ls.len() - 1]);
        if sec == s0 {
            assert(ls.drop_last() + seq![ls.last()] =~= ls);
        } else {
            assert(Seq::<Seq<char>>::empty() + Seq::<Seq<char>>::empty() =~= Seq::<
                Seq<char>,
            >::empty());
        }
    }
}

/// Lines of sharing's own are kept nowhere.
pub proof fn lemma_kept_of_own(ls: Seq<Seq<char>>, sec: MainSection)
    requires
        forall|k: int|
            0 <= k < ls.len() ==> trim(#[trigger] ls[k]) == ls[k] && is_tunshare_line_spec(ls[k]),
    ensures
        kept_lines(ls, sec) == Seq::<Seq<char>>::empty(),
    decreases ls.len(),
{
    if ls.len() > 0 {
        assert forall|k: int| 0 <= k < ls.drop_last().len() implies trim(
            #[trigger] ls.drop_last()[k],
        ) == ls.drop_last()[k] && is_tunshare_line_spec(ls.drop_last()[k]) by {
            assert(ls.drop_last()[k] == ls[k]);
        }
        lemma_kept_of_own(ls.drop_last(), sec);
        assert(trim(ls[ls.len() - 1]) == ls[ls.len() - 1]);
        assert(Seq::<Seq<char>>::empty() + Seq::<Seq<char>>::empty() =~= Seq::<
            Seq<char>,
        >::empty());
    }
}

// ---------------------------------------------------------------------
// The skip line and the hooks
// ---------------------------------------------------------------------

/// `s` does not start with `p` when they differ at `i`.
pub proof fn lemma_not_prefix(s: Seq<char>, p: Seq<char>, i: int)
    requires
        0 <= i < p.len(),
        i < s.len(),
        s[i] != p[i],
    ensures
        !starts_with(s, p),
{
    if starts_with(s, p) {
        assert(s.subrange(0, p.len() as int)[i] == s[i]);
    }
}

/// A literal line of sharing's own: a whole line, its own trim, and
/// recognised as sharing's.
proof fn lemma_own_literal(h: Seq<char>, pos: int)
    requires
        h.len() > 0,
        !is_ws(h[0]),
        !is_ws(h.last()),
        no_nl(h),
        !starts_with(h, "#"@),
        h != skip_line(),
        to_lower(h) == h,
        0 <= pos,
        pos + 12 <= h.len(),
        h.subrange(pos, pos + 12) == "com.tunshare"@,
    ensures
        one_line(h),
        trim(h) == h,
        is_tunshare_line_spec(h),
{
    lemma_trim_fixed(h);
    assert(is_ws('\r'));
    reveal_strlit("com.tunshare");
    assert(occurs_at(h, "com.tunshare"@, pos));
    lemma_find_result(h, "com.tunshare"@);
}

/// The skip line and each hook: whole lines, their own trim, sharing's
/// own, each in its pf section, and the hooks all different.
pub proof fn lemma_own_lines()
    ensures
        one_line(skip_line()),
        trim(skip_line()) == skip_line(),
        is_tunshare_line_spec(skip_line()),
        classify_spec(skip_line()) == MainSection::Options,
        forall|k: int|
            0 <= k < 8 ==> one_line(#[trigger] main_hooks_spec()[k]) && trim(main_hooks_spec()[k])
                == main_hooks_spec()[k] && is_tunshare_line_spec(main_hooks_spec()[k]),
        classify_spec(main_hooks_spec()[0]) == MainSection::Scrub,
        classify_spec(main_hooks_spec()[1]) == MainSection::Scrub,
        classify_spec(main_hooks_spec()[2]) == MainSection::Nat,
        classify_spec(main_hooks_spec()[3]) == MainSection::Nat,
        classify_spec(main_hooks_spec()[4]) == MainSection::Nat,
        classify_spec(main_hooks_spec()[5]) == MainSection::Nat,
        classify_spec(main_hooks_spec()[6]) == MainSection::Filter,
        classify_spec(main_hooks_spec()[7]) == MainSection::Filter,
        forall|k: int| 0 <= k < 8 ==> #[trigger] main_hooks_spec()[k] != skip_line(),
        forall|j: int, k: int|
            0 <= j < 8 && 0 <= k < 8 && j != k ==> #[trigger] main_hooks_spec()[j]
                != #[trigger] main_hooks_spec()[k],
{
    reveal_strlit("set ");
    reveal_strlit("scrub ");
    reveal_strlit("scrub-anchor ");
    reveal_strlit("dummynet");
    reveal_strlit("altq ");
    reveal_strlit("queue ");
    reveal_strlit("nat ");
    reveal_strlit("rdr ");
    reveal_strlit("binat ");
    reveal_strlit("nat-anchor ");
    reveal_strlit("rdr-anchor ");
    reveal_strlit("binat-anchor ");
    reveal_strlit("#");
    reveal_strlit("set skip on lo0");
    reveal_strlit("com.tunshare");
    let s = skip_line();
    assert(trim_start(s) == s);
    assert(trim_end(s) == s);
    assert(is_ws('\r'));
    assert(s.subrange(0, 4) =~= "set "@);
    assert(s.subrange(0, 1)[0] == s[0]);
    assert(!starts_with(s, "#"@));
    let h = main_hooks_spec();
    reveal_strlit("scrub-anchor \"com.tunshare\"");
    reveal_strlit("scrub-anchor \"com.tunshare/*\"");
    reveal_strlit("nat-anchor \"com.tunshare\"");
    reveal_strlit("nat-anchor \"com.tunshare/*\"");
    reveal_strlit("rdr-anchor \"com.tunshare\"");
    reveal_strlit("rdr-anchor \"com.tunshare/*\"");
    reveal_strlit("anchor \"com.tunshare\"");
    reveal_strlit("anchor \"com.tunshare/*\"");
    assert forall|k: int| 0 <= k < 8 implies one_line(#[trigger] main_hooks_spec()[k]) && trim(
        main_hooks_spec()[k],
    ) == main_hooks_spec()[k] && is_tunshare_line_spec(main_hooks_spec()[k]) by {
        let x = h[k];
        assert(to_lower(x) =~= x);
        assert(x[1] != s[1]);
        assert(x.subrange(0, 1)[0] == x[0]);
        assert(!starts_with(x, "#"@));
        let pos: int = if k < 2 {
            14
        } else if k < 6 {
            12
        } else {
            8
        };
        assert(x.subrange(pos, pos + 12) =~= "com.tunshare"@);
        lemma_own_literal(x, pos);
    }
    assert forall|k: int| 0 <= k < 8 implies #[trigger] main_hooks_spec()[k] != skip_line() by {
        assert(h[k][1] != s[1]);
    }
    assert forall|j: int, k: int| 0 <= j < 8 && 0 <= k < 8 && j != k implies #[trigger] main_hooks_spec()[j]
        != #[trigger] main_hooks_spec()[k] by {
        if h[j].len() == h[k].len() {
            assert(h[j][0] != h[k][0]);
        }
    }
    assert(h[0].subrange(0, 13) =~= "scrub-anchor "@);
    lemma_not_prefix(h[0], "set "@, 1);
    lemma_not_prefix(h[0], "scrub "@, 5);
    lemma_not_prefix(h[1], "set "@, 1);
    lemma_not_prefix(h[1], "scrub "@, 5);
    lemma_not_prefix(h[2], "set "@, 0);
    lemma_not_prefix(h[2], "scrub "@, 0);
    lemma_not_prefix(h[2], "scrub-anchor "@, 0);
    lemma_not_prefix(h[2], "dummynet"@, 0);
    lemma_not_prefix(h[2], "altq "@, 0);
    lemma_not_prefix(h[2], "queue "@, 0);
    lemma_not_prefix(h[2], "nat "@, 3);
    lemma_not_prefix(h[2], "rdr "@, 0);
    lemma_not_prefix(h[2], "binat "@, 0);
    lemma_not_prefix(h[3], "set "@, 0);
    lemma_not_prefix(h[3], "scrub "@, 0);
    lemma_not_prefix(h[3], "scrub-anchor "@, 0);
    lemma_not_prefix(h[3], "dummynet"@, 0);
    lemma_not_prefix(h[3], "altq "@, 0);
    lemma_not_prefix(h[3], "queue "@, 0);
    lemma_not_prefix(h[3], "nat "@, 3);
    lemma_not_prefix(h[3], "rdr "@, 0);
    lemma_not_prefix(h[3], "binat "@, 0);
    lemma_not_prefix(h[4], "set "@, 0);
    lemma_not_prefix(h[4], "scrub "@, 0);
    lemma_not_prefix(h[4], "scrub-anchor "@, 0);
    lemma_not_prefix(h[4], "dummynet"@, 0);
    lemma_not_prefix(h[4], "altq "@, 0);
    lemma_not_prefix(h[4], "queue "@, 0);
    lemma_not_prefix(h[4], "nat "@, 0);
    lemma_not_prefix(h[4], "rdr "@, 3);
    lemma_not_prefix(h[4], "binat "@, 0);
    lemma_not_prefix(h[4], "nat-anchor "@, 0);
    lemma_not_prefix(h[5], "set "@, 0);
    lemma_not_prefix(h[5], "scrub "@, 0);
    lemma_not_prefix(h[5], "scrub-anchor "@, 0);
    lemma_not_prefix(h[5], "dummynet"@, 0);
    lemma_not_prefix(h[5], "altq "@, 0);
    lemma_not_prefix(h[5], "queue "@, 0);
    lemma_not_prefix(h[5], "nat "@, 0);
    lemma_not_prefix(h[5], "rdr "@, 3);
    lemma_not_prefix(h[5], "binat "@, 0);
    lemma_not_prefix(h[5], "nat-anchor "@, 0);
    lemma_not_prefix(h[6], "set "@, 0);
    lemma_not_prefix(h[6], "scrub "@, 0);
    lemma_not_prefix(h[6], "scrub-anchor "@, 0);
    lemma_not_prefix(h[6], "dummynet"@, 0);
    lemma_not_prefix(h[6], "altq "@, 1);
    lemma_not_prefix(h[6], "queue "@, 0);
    lemma_not_prefix(h[6], "nat "@, 0);
    lemma_not_prefix(h[6], "rdr "@, 0);
    lemma_not_prefix(h[6], "binat "@, 0);
    lemma_not_prefix(h[6], "nat-anchor "@, 0);
    lemma_not_prefix(h[6], "rdr-anchor "@, 0);
    lemma_not_prefix(h[6], "binat-anchor "@, 0);
    lemma_not_prefix(h[7], "set "@, 0);
    lemma_not_prefix(h[7], "scrub "@, 0);
    lemma_not_prefix(h[7], "scrub-anchor "@, 0);
    lemma_not_prefix(h[7], "dummynet"@, 0);
    lemma_not_prefix(h[7], "altq "@, 1);
    lemma_not_prefix(h[7], "queue "@, 0);
    lemma_not_prefix(h[7], "nat "@, 0);
    lemma_not_prefix(h[7], "rdr "@, 0);
    lemma_not_prefix(h[7], "binat "@, 0);
    lemma_not_prefix(h[7], "nat-anchor "@, 0);
    lemma_not_prefix(h[7], "rdr-anchor "@, 0);
    lemma_not_prefix(h[7], "binat-anchor "@, 0);
    assert(h[1].subrange(0, 13) =~= "scrub-anchor "@);
    assert(h[2].subrange(0, 11) =~= "nat-anchor "@);
    assert(h[3].subrange(0, 11) =~= "nat-anchor "@);
    assert(h[4].subrange(0, 11) =~= "rdr-anchor "@);
    assert(h[5].subrange(0, 11) =~= "rdr-anchor "@);
}

// ---------------------------------------------------------------------
// The merged MAIN as lines
// ---------------------------------------------------------------------

/// The lines of a merged MAIN: the skip line, then each section's kept
/// lines, with the hooks after the scrub, queue and translation
/// sections.
pub open spec fn merged_lines(ls: Seq<Seq<char>>) -> Seq<Seq<char>> {
    let h = main_hooks_spec();
    seq![skip_line()] + kept_lines(ls, MainSection::Options) + kept_lines(ls, MainSection::Scrub)
        + h.subrange(0, 2) + kept_lines(ls, MainSection::Queue) + h.subrange(2, 6) + kept_lines(
        ls,
        MainSection::Nat,
    ) + h.subrange(6, 8) + kept_lines(ls, MainSection::Filter)
}

/// Every element of `a + b` meets `pred` when every element of `a` and
/// of `b` does.
pub proof fn lemma_forall_concat(a: Seq<Seq<char>>, b: Seq<Seq<char>>, pred: spec_fn(Seq<char>) -> bool)
    requires
        forall|k: int| 0 <= k < a.len() ==> pred(#[trigger] a[k]),
        forall|k: int| 0 <= k < b.len() ==> pred(#[trigger] b[k]),
    ensures
        forall|k: int| 0 <= k < (a + b).len() ==> pred(#[trigger] (a + b)[k]),
{
    assert forall|k: int| 0 <= k < (a + b).len() implies pred(#[trigger] (a + b)[k]) by {
        if k >= a.len() {
            assert((a + b)[k] == b[k - a.len()]);
        }
    }
}

/// The merged text is the merged lines joined.
pub proof fn lemma_merge_is_join(x: Seq<char>)
    ensures
        merge_main_spec(x) == join_lines(merged_lines(lines(x))),
{
    let ls = lines(x);
    let h = main_hooks_spec();
    let ko = kept_lines(ls, MainSection::Options);
    let ks = kept_lines(ls, MainSection::Scrub);
    let kq = kept_lines(ls, MainSection::Queue);
    let kn = kept_lines(ls, MainSection::Nat);
    let kf = kept_lines(ls, MainSection::Filter);
    lemma_bucket_is_join(ls, MainSection::Options);
    lemma_bucket_is_join(ls, MainSection::Scrub);
    lemma_bucket_is_join(ls, MainSection::Queue);
    lemma_bucket_is_join(ls, MainSection::Nat);
    lemma_bucket_is_join(ls, MainSection::Filter);
    let p1 = seq![skip_line()];
    assert(p1.drop_last() =~= Seq::<Seq<char>>::empty());
    assert(join_lines(Seq::<Seq<char>>::empty()) =~= Seq::<char>::empty());
    assert(join_lines(p1) =~= skip_line() + seq!['\n']);
    let p2 = p1 + ko;
    let p3 = p2 + ks;
    let p4 = p3 + h.subrange(0, 2);
    let p5 = p4 + kq;
    let p6 = p5 + h.subrange(2, 6);
    let p7 = p6 + kn;
    let p8 = p7 + h.subrange(6, 8);
    let p9 = p8 + kf;
    lemma_join_append(p1, ko);
    lemma_join_append(p2, ks);
    lemma_join_append(p3, h.subrange(0, 2));
    lemma_join_append(p4, kq);
    lemma_join_append(p5, h.subrange(2, 6));
    lemma_join_append(p6, kn);
    lemma_join_append(p7, h.subrange(6, 8));
    lemma_join_append(p8, kf);
    assert(merged_lines(ls) == p9);
    assert(merge_main_spec(x) =~= join_lines(p9));
}

/// The merged lines are whole lines.
pub proof fn lemma_merged_clean(ls: Seq<Seq<char>>)
    requires
        forall|k: int| 0 <= k < ls.len() ==> no_nl(#[trigger] ls[k]),
    ensures
        forall|k: int| 0 <= k < merged_lines(ls).len() ==> one_line(#[trigger] merged_lines(ls)[k]),
{
    let h = main_hooks_spec();
    lemma_own_lines();
    lemma_kept_props(ls, MainSection::Options);
    lemma_kept_props(ls, MainSection::Scrub);
    lemma_kept_props(ls, MainSection::Queue);
    lemma_kept_props(ls, MainSection::Nat);
    lemma_kept_props(ls, MainSection::Filter);
    let pred = |l: Seq<char>| one_line(l);
    let p1 = seq![skip_line()];
    let ko = kept_lines(ls, MainSection::Options);
    let ks = kept_lines(ls, MainSection::Scrub);
    let kq = kept_lines(ls, MainSection::Queue);
    let kn = kept_lines(ls, MainSection::Nat);
    let kf = kept_lines(ls, MainSection::Filter);
    let h1 = h.subrange(0, 2);
    let h2 = h.subrange(2, 6);
    let h3 = h.subrange(6, 8);
    assert forall|k: int| 0 <= k < h1.len() implies pred(#[trigger] h1[k]) by {
        assert(h1[k] == h[k]);
    }
    assert forall|k: int| 0 <= k < h2.len() implies pred(#[trigger] h2[k]) by {
        assert(h2[k] == h[k + 2]);
    }
    assert forall|k: int| 0 <= k < h3.len() implies pred(#[trigger] h3[k]) by {
        assert(h3[k] == h[k + 6]);
    }
    assert forall|k: int| 0 <= k < p1.len() implies pred(#[trigger] p1[k]) by {}
    assert forall|k: int| 0 <= k < ko.len() implies pred(#[trigger] ko[k]) by {}
    assert forall|k: int| 0 <= k < ks.len() implies pred(#[trigger] ks[k]) by {}
    assert forall|k: int| 0 <= k < kq.len() implies pred(#[trigger] kq[k]) by {}
    assert forall|k: int| 0 <= k < kn.len() implies pred(#[trigger] kn[k]) by {}
    assert forall|k: int| 0 <= k < kf.len() implies pred(#[trigger] kf[k]) by {}
    lemma_forall_concat(p1, ko, pred);
    lemma_forall_concat(p1 + ko, ks, pred);
    lemma_forall_concat(p1 + ko + ks, h1, pred);
    lemma_forall_concat(p1 + ko + ks + h1, kq, pred);
    lemma_forall_concat(p1 + ko + ks + h1 + kq, h2, pred);
    lemma_forall_concat(p1 + ko + ks + h1 + kq + h2, kn, pred);
    lemma_forall_concat(p1 + ko + ks + h1 + kq + h2 + kn, h3, pred);
    lemma_forall_concat(p1 + ko + ks + h1 + kq + h2 + kn + h3, kf, pred);
}

/// Sharing's own lines of the merge drop out again, the foreign ones
/// land in their sections again.
pub proof fn lemma_kept_of_merged(ls: Seq<Seq<char>>, sec: MainSection)
    ensures
        kept_lines(merged_lines(ls), sec) == kept_lines(ls, sec),
{
    let h = main_hooks_spec();
    lemma_own_lines();
    let p1 = seq![skip_line()];
    let ko = kept_lines(ls, MainSection::Options);
    let ks = kept_lines(ls, MainSection::Scrub);
    let kq = kept_lines(ls, MainSection::Queue);
    let kn = kept_lines(ls, MainSection::Nat);
    let kf = kept_lines(ls, MainSection::Filter);
    let h1 = h.subrange(0, 2);
    let h2 = h.subrange(2, 6);
    let h3 = h.subrange(6, 8);
    assert forall|k: int| 0 <= k < p1.len() implies trim(#[trigger] p1[k]) == p1[k]
        && is_tunshare_line_spec(p1[k]) by {}
    assert forall|k: int| 0 <= k < h1.len() implies trim(#[trigger] h1[k]) == h1[k]
        && is_tunshare_line_spec(h1[k]) by {
        assert(h1[k] == h[k]);
    }
    assert forall|k: int| 0 <= k < h2.len() implies trim(#[trigger] h2[k]) == h2[k]
        && is_tunshare_line_spec(h2[k]) by {
        assert(h2[k] == h[k + 2]);
    }
    assert forall|k: int| 0 <= k < h3.len() implies trim(#[trigger] h3[k]) == h3[k]
        && is_tunshare_line_spec(h3[k]) by {
        assert(h3[k] == h[k + 6]);
    }
    lemma_kept_of_own(p1, sec);
    lemma_kept_of_own(h1, sec);
    lemma_kept_of_own(h2, sec);
    lemma_kept_of_own(h3, sec);
    lemma_kept_props(ls, MainSection::Options);
    lemma_kept_props(ls, MainSection::Scrub);
    lemma_kept_props(ls, MainSection::Queue);
    lemma_kept_props(ls, MainSection::Nat);
    lemma_kept_props(ls, MainSection::Filter);
    lemma_kept_of_clean(ko, MainSection::Options, sec);
    lemma_kept_of_clean(ks, MainSection::Scrub, sec);
    lemma_kept_of_clean(kq, MainSection::Queue, sec);
    lemma_kept_of_clean(kn, MainSection::Nat, sec);
    lemma_kept_of_clean(kf, MainSection::Filter, sec);
    lemma_kept_append(p1, ko, sec);
    lemma_kept_append(p1 + ko, ks, sec);
    lemma_kept_append(p1 + ko + ks, h1, sec);
    lemma_kept_append(p1 + ko + ks + h1, kq, sec);
    lemma_kept_append(p1 + ko + ks + h1 + kq, h2, sec);
    lemma_kept_append(p1 + ko + ks + h1 + kq + h2, kn, sec);
    lemma_kept_append(p1 + ko + ks + h1 + kq + h2 + kn, h3, sec);
    lemma_kept_append(p1 + ko + ks + h1 + kq + h2 + kn + h3, kf, sec);
    let e = Seq::<Seq<char>>::empty();
    match sec {
        MainSection::Options => {
            assert(e + ko + e + e + e + e + e + e + e =~= ko);
        },
        MainSection::Scrub => {
            assert(e + e + ks + e + e + e + e + e + e =~= ks);
        },
        MainSection::Queue => {
            assert(e + e + e + e + kq + e + e + e + e =~= kq);
        },
        MainSection::Nat => {
            assert(e + e + e + e + e + e + kn + e + e =~= kn);
        },
        MainSection::Filter => {
            assert(e + e + e + e + e + e + e + e + kf =~= kf);
        },
    }
}

/// A kept line is among its section's kept lines.
pub proof fn lemma_kept_contains(ls: Seq<Seq<char>>, k: int, sec: MainSection)
    requires
        0 <= k < ls.len(),
        kept_in(trim(ls[k]), sec),
    ensures
        kept_lines(ls, sec).contains(trim(ls[k])),
    decreases ls.len(),
{
    let t = trim(ls[k]);
    let k0 = kept_lines(ls.drop_last(), sec);
    if k == ls.len() - 1 {
        assert(kept_lines(ls, sec)[k0.len() as int] == t);
    } else {
        assert(ls.drop_last()[k] == ls[k]);
        lemma_kept_contains(ls.drop_last(), k, sec);
        let i = choose|i: int| 0 <= i < k0.len() && k0[i] == t;
        assert(kept_lines(ls, sec)[i] == t);
    }
}

/// An element of `a` or `b` is an element of `a + b`.
pub proof fn lemma_contains_concat(a: Seq<Seq<char>>, b: Seq<Seq<char>>, x: Seq<char>)
    requires
        a.contains(x) || b.contains(x),
    ensures
        (a + b).contains(x),
{
    if a.contains(x) {
        let i = choose|i: int| 0 <= i < a.len() && a[i] == x;
        assert((a + b)[i] == x);
    } else {
        let i = choose|i: int| 0 <= i < b.len() && b[i] == x;
        assert((a + b)[a.len() + i] == x);
    }
}

/// The kept lines of every section are among the merged lines.
pub proof fn lemma_merged_contains(ls: Seq<Seq<char>>, sec: MainSection, t: Seq<char>)
    requires
        kept_lines(ls, sec).contains(t),
    ensures
        merged_lines(ls).contains(t),
{
    let h = main_hooks_spec();
    let p1 = seq![skip_line()];
    let ko = kept_lines(ls, MainSection::Options);
    let ks = kept_lines(ls, MainSection::Scrub);
    let kq = kept_lines(ls, MainSection::Queue);
    let kn = kept_lines(ls, MainSection::Nat);
    let kf = kept_lines(ls, MainSection::Filter);
    let h1 = h.subrange(0, 2);
    let h2 = h.subrange(2, 6);
    let h3 = h.subrange(6, 8);
    let q2 = p1 + ko;
    let q3 = q2 + ks;
    let q4 = q3 + h1;
    let q5 = q4 + kq;
    let q6 = q5 + h2;
    let q7 = q6 + kn;
    let q8 = q7 + h3;
    if sec == MainSection::Options {
        lemma_contains_concat(p1, ko, t);
    }
    if q2.contains(t) || sec == MainSection::Scrub {
        lemma_contains_concat(q2, ks, t);
    }
    if q3.contains(t) {
        lemma_contains_concat(q3, h1, t);
    }
    if q4.contains(t) || sec == MainSection::Queue {
        lemma_contains_concat(q4, kq, t);
    }
    if q5.contains(t) {
        lemma_contains_concat(q5, h2, t);
    }
    if q6.contains(t) || sec == MainSection::Nat {
        lemma_contains_concat(q6, kn, t);
    }
    if q7.contains(t) {
        lemma_contains_concat(q7, h3, t);
    }
    lemma_contains_concat(q8, kf, t);
    assert(merged_lines(ls) == q8 + kf);
}

/// MAIN merged twice is MAIN merged once: re-merging a merged MAIN
/// drops sharing's lines and puts the same hooks back, so the hooks
/// never pile up.
pub proof fn lemma_merge_main_idempotent(existing: Seq<char>)
    ensures
        firewall_merge_spec(firewall_merge_spec(existing)) == firewall_merge_spec(existing),
{
    lemma_own_lines();
    if remaining_main_is_empty_spec(existing) {
        let l = seq![skip_line()] + main_hooks_spec();
        assert forall|k: int| 0 <= k < l.len() implies one_line(#[trigger] l[k]) by {
            if k > 0 {
                assert(l[k] == main_hooks_spec()[k - 1]);
            }
        }
        lemma_lines_of_join(l);
        assert(lines(main_hooks_text()) == l);
        assert forall|k: int| 0 <= k < lines(main_hooks_text()).len() implies ignorable_line(
            trim(#[trigger] lines(main_hooks_text())[k]),
        ) by {
            if k > 0 {
                assert(l[k] == main_hooks_spec()[k - 1]);
            }
        }
    } else {
        let ls = lines(existing);
        let m = merge_main_spec(existing);
        lemma_lines_no_nl(existing);
        lemma_merge_is_join(existing);
        lemma_merged_clean(ls);
        lemma_lines_of_join(merged_lines(ls));
        assert(lines(m) == merged_lines(ls));
        lemma_kept_of_merged(ls, MainSection::Options);
        lemma_kept_of_merged(ls, MainSection::Scrub);
        lemma_kept_of_merged(ls, MainSection::Queue);
        lemma_kept_of_merged(ls, MainSection::Nat);
        lemma_kept_of_merged(ls, MainSection::Filter);
        lemma_bucket_is_join(ls, MainSection::Options);
        lemma_bucket_is_join(ls, MainSection::Scrub);
        lemma_bucket_is_join(ls, MainSection::Queue);
        lemma_bucket_is_join(ls, MainSection::Nat);
        lemma_bucket_is_join(ls, MainSection::Filter);
        lemma_bucket_is_join(lines(m), MainSection::Options);
        lemma_bucket_is_join(lines(m), MainSection::Scrub);
        lemma_bucket_is_join(lines(m), MainSection::Queue);
        lemma_bucket_is_join(lines(m), MainSection::Nat);
        lemma_bucket_is_join(lines(m), MainSection::Filter);
        assert(buckets_spec(m) == buckets_spec(existing));
        let k0 = choose|k: int| 0 <= k < ls.len() && !ignorable_line(trim(#[trigger] ls[k]));
        let t = trim(ls[k0]);
        lemma_trim_props(ls[k0]);
        let sec = classify_spec(t);
        assert(kept_in(t, sec));
        lemma_kept_contains(ls, k0, sec);
        lemma_merged_contains(ls, sec, t);
        let i = choose|i: int| 0 <= i < merged_lines(ls).len() && merged_lines(ls)[i] == t;
        assert(lines(m)[i] == t);
        assert(!ignorable_line(trim(lines(m)[i])));
        assert(!remaining_main_is_empty_spec(m));
    }
}

// ---------------------------------------------------------------------
// Section order
// ---------------------------------------------------------------------

/// Position of a section in pf's required order.
pub open spec fn section_rank(s: MainSection) -> int {
    match s {
        MainSection::Options => 0,
        MainSection::Scrub => 1,
        MainSection::Queue => 2,
        MainSection::Nat => 3,
        MainSection::Filter => 4,
    }
}

/// The lines' sections never go back: options, normalization,
/// queueing, translation, filtering.
pub open spec fn in_section_order(ls: Seq<Seq<char>>) -> bool {
    forall|i: int, j: int|
        #![trigger ls[i], ls[j]]
        0 <= i <= j < ls.len() ==> section_rank(classify_spec(ls[i])) <= section_rank(
            classify_spec(ls[j]),
        )
}

/// Every line of `ls` is in a section of rank at most `r`.
pub open spec fn ranks_at_most(ls: Seq<Seq<char>>, r: int) -> bool {
    forall|k: int| 0 <= k < ls.len() ==> section_rank(classify_spec(#[trigger] ls[k])) <= r
}

/// Every line of `ls` is in a section of rank `r`.
pub open spec fn ranks_are(ls: Seq<Seq<char>>, r: int) -> bool {
    forall|k: int| 0 <= k < ls.len() ==> section_rank(classify_spec(#[trigger] ls[k])) == r
}

/// Appending lines of one section, no earlier than any before them,
/// keeps the order.
pub proof fn lemma_order_concat(a: Seq<Seq<char>>, b: Seq<Seq<char>>, r: int)
    requires
        in_section_order(a),
        ranks_at_most(a, r),
        ranks_are(b, r),
    ensures
        in_section_order(a + b),
        ranks_at_most(a + b, r),
{
    let c = a + b;
    assert forall|i: int, j: int| 0 <= i <= j < c.len() implies section_rank(
        classify_spec(#[trigger] c[i]),
    ) <= section_rank(classify_spec(#[trigger] c[j])) by {
        if j < a.len() {
            assert(c[i] == a[i] && c[j] == a[j]);
        } else if i < a.len() {
            assert(c[i] == a[i] && c[j] == b[j - a.len()]);
        } else {
            assert(c[i] == b[i - a.len()] && c[j] == b[j - a.len()]);
        }
    }
    assert forall|k: int| 0 <= k < c.len() implies section_rank(classify_spec(#[trigger] c[k]))
        <= r by {
        if k >= a.len() {
            assert(c[k] == b[k - a.len()]);
        }
    }
}

/// A section's kept lines all classify into it.
pub proof fn lemma_kept_rank(ls: Seq<Seq<char>>, sec: MainSection)
    ensures
        ranks_are(kept_lines(ls, sec), section_rank(sec)),
{
    lemma_kept_props(ls, sec);
}

/// The hooks `from..to` are all of rank `r`.
proof fn lemma_hooks_rank(from: int, to: int, r: int)
    requires
        0 <= from <= to <= 8,
        forall|k: int| from <= k < to ==> section_rank(classify_spec(#[trigger] main_hooks_spec()[k])) == r,
    ensures
        ranks_are(main_hooks_spec().subrange(from, to), r),
{
    let hs = main_hooks_spec().subrange(from, to);
    assert forall|k: int| 0 <= k < hs.len() implies section_rank(classify_spec(#[trigger] hs[k]))
        == r by {
        assert(hs[k] == main_hooks_spec()[k + from]);
    }
}

/// The merged MAIN keeps pf's section order: options, normalization,
/// queueing, translation, filtering, the hooks included.
pub proof fn lemma_merge_main_section_order(existing: Seq<char>)
    ensures
        in_section_order(lines(firewall_merge_spec(existing))),
{
    lemma_own_lines();
    let h = main_hooks_spec();
    let p1 = seq![skip_line()];
    let h1 = h.subrange(0, 2);
    let h2 = h.subrange(2, 6);
    let h3 = h.subrange(6, 8);
    lemma_hooks_rank(0, 2, 1);
    lemma_hooks_rank(2, 6, 3);
    lemma_hooks_rank(6, 8, 4);
    assert(in_section_order(p1));
    assert(ranks_at_most(p1, 0));
    if remaining_main_is_empty_spec(existing) {
        let l = seq![skip_line()] + main_hooks_spec();
        assert forall|k: int| 0 <= k < l.len() implies one_line(#[trigger] l[k]) by {
            if k > 0 {
                assert(l[k] == main_hooks_spec()[k - 1]);
            }
        }
        lemma_lines_of_join(l);
        assert(l =~= p1 + h1 + h2 + h3);
        lemma_order_concat(p1, h1, 1);
        lemma_order_concat(p1 + h1, h2, 3);
        lemma_order_concat(p1 + h1 + h2, h3, 4);
    } else {
        let ls = lines(existing);
        lemma_lines_no_nl(existing);
        lemma_merge_is_join(existing);
        lemma_merged_clean(ls);
        lemma_lines_of_join(merged_lines(ls));
        let ko = kept_lines(ls, MainSection::Options);
        let ks = kept_lines(ls, MainSection::Scrub);
        let kq = kept_lines(ls, MainSection::Queue);
        let kn = kept_lines(ls, MainSection::Nat);
        let kf = kept_lines(ls, MainSection::Filter);
        lemma_kept_rank(ls, MainSection::Options);
        lemma_kept_rank(ls, MainSection::Scrub);
        lemma_kept_rank(ls, MainSection::Queue);
        lemma_kept_rank(ls, MainSection::Nat);
        lemma_kept_rank(ls, MainSection::Filter);
        lemma_order_concat(p1, ko, 0);
        lemma_order_concat(p1 + ko, ks, 1);
        lemma_order_concat(p1 + ko + ks, h1, 1);
        lemma_order_concat(p1 + ko + ks + h1, kq, 2);
        lemma_order_concat(p1 + ko + ks + h1 + kq, h2, 3);
        lemma_order_concat(p1 + ko + ks + h1 + kq + h2, kn, 3);
        lemma_order_concat(p1 + ko + ks + h1 + kq + h2 + kn, h3, 4);
        lemma_order_concat(p1 + ko + ks + h1 + kq + h2 + kn + h3, kf, 4);
    }
}

// ---------------------------------------------------------------------
// Each hook once
// ---------------------------------------------------------------------

/// How many lines of `ls` are `x`.
pub open spec fn count_of(ls: Seq<Seq<char>>, x: Seq<char>) -> nat
    decreases ls.len(),
{
    if ls.len() == 0 {
        0
    } else {
        count_of(ls.drop_last(), x) + if ls.last() == x {
            1nat
        } else {
            0nat
        }
    }
}

/// Counting distributes over concatenation.
pub proof fn lemma_count_append(a: Seq<Seq<char>>, b: Seq<Seq<char>>, x: Seq<char>)
    ensures
        count_of(a + b, x) == count_of(a, x) + count_of(b, x),
    decreases b.len(),
{
    if b.len() == 0 {
        assert(a + b =~= a);
    } else {
        assert((a + b).drop_last() =~= a + b.drop_last());
        lemma_count_append(a, b.drop_last(), x);
    }
}

/// No line is `x`: the count is zero.
pub proof fn lemma_count_none(ls: Seq<Seq<char>>, x: Seq<char>)
    requires
        forall|k: int| 0 <= k < ls.len() ==> #[trigger] ls[k] != x,
    ensures
        count_of(ls, x) == 0,
    decreases ls.len(),
{
    if ls.len() > 0 {
        assert forall|k: int| 0 <= k < ls.drop_last().len() implies #[trigger] ls.drop_last()[k]
            != x by {
            assert(ls.drop_last()[k] == ls[k]);
        }
        lemma_count_none(ls.drop_last(), x);
        assert(ls[ls.len() - 1] != x);
    }
}

/// One line is `x` and no other: the count is one.
pub proof fn lemma_count_one(ls: Seq<Seq<char>>, x: Seq<char>, i: int)
    requires
        0 <= i < ls.len(),
        ls[i] == x,
        forall|k: int| 0 <= k < ls.len() && k != i ==> #[trigger] ls[k] != x,
    ensures
        count_of(ls, x) == 1,
    decreases ls.len(),
{
    let init = ls.drop_last();
    if i == ls.len() - 1 {
        assert forall|k: int| 0 <= k < init.len() implies #[trigger] init[k] != x by {
            assert(init[k] == ls[k]);
        }
        lemma_count_none(init, x);
    } else {
        assert forall|k: int| 0 <= k < init.len() && k != i implies #[trigger] init[k] != x by {
            assert(init[k] == ls[k]);
        }
        assert(init[i] == ls[i]);
        lemma_count_one(init, x, i);
        assert(ls[ls.len() - 1] != x);
    }
}

/// A section's kept lines are never hooks.
proof fn lemma_kept_no_hook(ls: Seq<Seq<char>>, sec: MainSection, k: int)
    requires
        0 <= k < 8,
    ensures
        count_of(kept_lines(ls, sec), main_hooks_spec()[k]) == 0,
{
    lemma_own_lines();
    lemma_kept_props(ls, sec);
    let kl = kept_lines(ls, sec);
    assert forall|j: int| 0 <= j < kl.len() implies #[trigger] kl[j] != main_hooks_spec()[k] by {
        assert(trim(kl[j]) == kl[j] && kept_in(kl[j], sec));
    }
    lemma_count_none(kl, main_hooks_spec()[k]);
}

/// The hooks as three groups count each hook once.
proof fn lemma_hook_groups(k: int)
    requires
        0 <= k < 8,
    ensures
        count_of(main_hooks_spec().subrange(0, 2), main_hooks_spec()[k]) + count_of(
            main_hooks_spec().subrange(2, 6),
            main_hooks_spec()[k],
        ) + count_of(main_hooks_spec().subrange(6, 8), main_hooks_spec()[k]) == 1,
        count_of(seq![skip_line()], main_hooks_spec()[k]) == 0,
{
    lemma_own_lines();
    let h = main_hooks_spec();
    let x = h[k];
    assert(h =~= h.subrange(0, 2) + h.subrange(2, 6) + h.subrange(6, 8));
    lemma_count_append(h.subrange(0, 2), h.subrange(2, 6), x);
    lemma_count_append(h.subrange(0, 2) + h.subrange(2, 6), h.subrange(6, 8), x);
    lemma_count_one(h, x, k);
    assert(seq![skip_line()].drop_last() =~= Seq::<Seq<char>>::empty());
    assert(seq![skip_line()].last() == skip_line());
    assert(x != skip_line());
    assert(count_of(Seq::<Seq<char>>::empty(), x) == 0);
    assert(count_of(seq![skip_line()], x) == count_of(seq![skip_line()].drop_last(), x));
}

/// Every hook is in the merged MAIN exactly once, however often MAIN
/// was merged before.
pub proof fn lemma_merge_main_hooks_once(existing: Seq<char>)
    ensures
        forall|k: int|
            0 <= k < 8 ==> count_of(
                lines(firewall_merge_spec(existing)),
                #[trigger] main_hooks_spec()[k],
            ) == 1,
{
    lemma_own_lines();
    let h = main_hooks_spec();
    let p1 = seq![skip_line()];
    let h1 = h.subrange(0, 2);
    let h2 = h.subrange(2, 6);
    let h3 = h.subrange(6, 8);
    if remaining_main_is_empty_spec(existing) {
        let l = seq![skip_line()] + main_hooks_spec();
        assert forall|k: int| 0 <= k < l.len() implies one_line(#[trigger] l[k]) by {
            if k > 0 {
                assert(l[k] == main_hooks_spec()[k - 1]);
            }
        }
        lemma_lines_of_join(l);
        assert forall|k: int| 0 <= k < 8 implies count_of(
            lines(firewall_merge_spec(existing)),
            #[trigger] main_hooks_spec()[k],
        ) == 1 by {
            lemma_hook_groups(k);
            let x = h[k];
            assert(l =~= p1 + h1 + h2 + h3);
            lemma_count_append(p1, h1, x);
            lemma_count_append(p1 + h1, h2, x);
            lemma_count_append(p1 + h1 + h2, h3, x);
        }
    } else {
        let ls = lines(existing);
        lemma_lines_no_nl(existing);
        lemma_merge_is_join(existing);
        lemma_merged_clean(ls);
        lemma_lines_of_join(merged_lines(ls));
        let ko = kept_lines(ls, MainSection::Options);
        let ks = kept_lines(ls, MainSection::Scrub);
        let kq = kept_lines(ls, MainSection::Queue);
        let kn = kept_lines(ls, MainSection::Nat);
        let kf = kept_lines(ls, MainSection::Filter);
        assert forall|k: int| 0 <= k < 8 implies count_of(
            lines(firewall_merge_spec(existing)),
            #[trigger] main_hooks_spec()[k],
        ) == 1 by {
            let x = h[k];
            lemma_hook_groups(k);
            lemma_kept_no_hook(ls, MainSection::Options, k);
            lemma_kept_no_hook(ls, MainSection::Scrub, k);
            lemma_kept_no_hook(ls, MainSection::Queue, k);
            lemma_kept_no_hook(ls, MainSection::Nat, k);
            lemma_kept_no_hook(ls, MainSection::Filter, k);
            lemma_count_append(p1, ko, x);
            lemma_count_append(p1 + ko, ks, x);
            lemma_count_append(p1 + ko + ks, h1, x);
            lemma_count_append(p1 + ko + ks + h1, kq, x);
            lemma_count_append(p1 + ko + ks + h1 + kq, h2, x);
            lemma_count_append(p1 + ko + ks + h1 + kq + h2, kn, x);
            lemma_count_append(p1 + ko + ks + h1 + kq + h2 + kn, h3, x);
            lemma_count_append(p1 + ko + ks + h1 + kq + h2 + kn + h3, kf, x);
        }
    }
}

// ---------------------------------------------------------------------
// The merged MAIN passes the hooks test
// ---------------------------------------------------------------------

/// A single quote read as a double one.
pub open spec fn quote_fold(c: char) -> char {
    if c == '\'' {
        '"'
    } else {
        c
    }
}

/// How the hooks test reads a character: lower-cased, single quotes as
/// double.
pub open spec fn hook_fold(c: char) -> char {
    quote_fold(lower_char(c))
}

/// A line as the hooks test reads it.
pub open spec fn fold_line(l: Seq<char>) -> Seq<char> {
    l.map_values(|c: char| hook_fold(c))
}

/// Replacing single quotes by double ones maps each character.
proof fn lemma_replace_quote(s: Seq<char>)
    ensures
        replace(s, "'"@, "\""@) == s.map_values(|c: char| quote_fold(c)),
    decreases s.len(),
{
    reveal_strlit("'");
    reveal_strlit("\"");
    let p = "'"@;
    let r = "\""@;
    lemma_find_result(s, p);
    match find(s, p) {
        Some(i) => {
            let rest = s.skip(i + 1int);
            lemma_replace_quote(rest);
            assert forall|j: int| 0 <= j < i implies s[j] != '\'' by {
                if s[j] == '\'' {
                    assert(s.subrange(j, j + 1) =~= p);
                    assert(occurs_at(s, p, j));
                }
            }
            assert(s.subrange(i as int, i + 1int)[0] == s[i as int]);
            assert(s[i as int] == '\'');
            assert(s.take(i as int) + r + rest.map_values(|c: char| quote_fold(c))
                =~= s.map_values(|c: char| quote_fold(c)));
        },
        None => {
            assert forall|j: int| 0 <= j < s.len() implies s[j] != '\'' by {
                if s[j] == '\'' {
                    assert(s.subrange(j, j + 1) =~= p);
                    assert(occurs_at(s, p, j));
                }
            }
            assert(s =~= s.map_values(|c: char| quote_fold(c)));
        },
    }
}

/// The hooks test reads a text character by character.
proof fn lemma_hooks_lower_is_fold(t: Seq<char>)
    ensures
        hooks_lower(t) == fold_line(t),
{
    lemma_replace_quote(to_lower(t));
    assert(to_lower(t).map_values(|c: char| quote_fold(c)) =~= fold_line(t));
}

/// Folding joined lines is joining the folded lines.
proof fn lemma_fold_join(ls: Seq<Seq<char>>)
    ensures
        fold_line(join_lines(ls)) == join_lines(ls.map_values(|l: Seq<char>| fold_line(l))),
    decreases ls.len(),
{
    if ls.len() > 0 {
        lemma_fold_join(ls.drop_last());
        let f = ls.map_values(|l: Seq<char>| fold_line(l));
        assert(f.drop_last() =~= ls.drop_last().map_values(|l: Seq<char>| fold_line(l)));
        assert(f.last() == fold_line(ls.last()));
        assert(hook_fold('\n') == '\n');
        assert(fold_line(join_lines(ls)) =~= fold_line(join_lines(ls.drop_last())) + fold_line(
            ls.last(),
        ) + seq!['\n']);
    } else {
        assert(fold_line(join_lines(ls)) =~= join_lines(
            ls.map_values(|l: Seq<char>| fold_line(l)),
        ));
    }
}

/// Folding keeps a whole line whole: only a newline folds to a newline,
/// only a carriage return to a carriage return.
proof fn lemma_fold_one_line(l: Seq<char>)
    requires
        one_line(l),
    ensures
        one_line(fold_line(l)),
{
    assert forall|i: int| 0 <= i < fold_line(l).len() implies fold_line(l)[i] != '\n' by {
        assert(l[i] != '\n');
    }
    if l.len() > 0 {
        assert(fold_line(l).last() == hook_fold(l.last()));
    }
}

/// A line that holds `x` somewhere when `x` is counted in it.
proof fn lemma_count_witness(ls: Seq<Seq<char>>, x: Seq<char>)
    requires
        count_of(ls, x) > 0,
    ensures
        exists|i: int| 0 <= i < ls.len() && ls[i] == x,
{
    if forall|k: int| 0 <= k < ls.len() ==> #[trigger] ls[k] != x {
        lemma_count_none(ls, x);
    }
}

/// `p` occurs in `s` at `i`, so `s` contains it.
pub proof fn lemma_contains_at(s: Seq<char>, p: Seq<char>, i: int)
    requires
        occurs_at(s, p, i),
    ensures
        contains(s, p),
{
    lemma_find_result(s, p);
}

/// `s` lacks a character of `p`, so it does not contain `p`.
pub proof fn lemma_lacks_char(s: Seq<char>, p: Seq<char>, j: int)
    requires
        0 <= j < p.len(),
        forall|i: int| 0 <= i < s.len() ==> s[i] != p[j],
    ensures
        !contains(s, p),
{
    lemma_find_result(s, p);
    match find(s, p) {
        Some(i) => {
            assert(s.subrange(i as int, i + p.len() as int)[j] == s[i + j]);
        },
        None => {},
    }
}

/// What the hooks test sees in each hook line: its kind, the anchor,
/// `*` exactly in the nested form, and for the filter hooks no other
/// kind.
proof fn lemma_hook_names()
    ensures
        forall|k: int| 0 <= k < 8 ==> fold_line(#[trigger] main_hooks_spec()[k]) == main_hooks_spec()[k],
        names_hook(main_hooks_spec()[0], "scrub-anchor"@, false),
        names_hook(main_hooks_spec()[1], "scrub-anchor"@, true),
        names_hook(main_hooks_spec()[2], "nat-anchor"@, false),
        names_hook(main_hooks_spec()[3], "nat-anchor"@, true),
        names_hook(main_hooks_spec()[4], "rdr-anchor"@, false),
        names_hook(main_hooks_spec()[5], "rdr-anchor"@, true),
        is_filter_hook(main_hooks_spec()[6], false),
        is_filter_hook(main_hooks_spec()[7], true),
{
    let h = main_hooks_spec();
    reveal_strlit("scrub-anchor \"com.tunshare\"");
    reveal_strlit("scrub-anchor \"com.tunshare/*\"");
    reveal_strlit("nat-anchor \"com.tunshare\"");
    reveal_strlit("nat-anchor \"com.tunshare/*\"");
    reveal_strlit("rdr-anchor \"com.tunshare\"");
    reveal_strlit("rdr-anchor \"com.tunshare/*\"");
    reveal_strlit("anchor \"com.tunshare\"");
    reveal_strlit("anchor \"com.tunshare/*\"");
    reveal_strlit("scrub-anchor");
    reveal_strlit("nat-anchor");
    reveal_strlit("rdr-anchor");
    reveal_strlit("anchor");
    reveal_strlit("com.tunshare");
    assert forall|k: int| 0 <= k < 8 implies fold_line(#[trigger] main_hooks_spec()[k])
        == main_hooks_spec()[k] by {
        assert(fold_line(h[k]) =~= h[k]);
    }
    let star = seq!['*'];
    let anchor = "com.tunshare"@;
    // Kinds at the start of each line.
    assert(h[0].subrange(0, 12) =~= "scrub-anchor"@);
    lemma_contains_at(h[0], "scrub-anchor"@, 0);
    assert(h[1].subrange(0, 12) =~= "scrub-anchor"@);
    lemma_contains_at(h[1], "scrub-anchor"@, 0);
    assert(h[2].subrange(0, 10) =~= "nat-anchor"@);
    lemma_contains_at(h[2], "nat-anchor"@, 0);
    assert(h[3].subrange(0, 10) =~= "nat-anchor"@);
    lemma_contains_at(h[3], "nat-anchor"@, 0);
    assert(h[4].subrange(0, 10) =~= "rdr-anchor"@);
    lemma_contains_at(h[4], "rdr-anchor"@, 0);
    assert(h[5].subrange(0, 10) =~= "rdr-anchor"@);
    lemma_contains_at(h[5], "rdr-anchor"@, 0);
    assert(h[6].subrange(0, 6) =~= "anchor"@);
    lemma_contains_at(h[6], "anchor"@, 0);
    assert(h[7].subrange(0, 6) =~= "anchor"@);
    lemma_contains_at(h[7], "anchor"@, 0);
    // The anchor's name.
    assert(h[0].subrange(14, 26) =~= anchor);
    lemma_contains_at(h[0], anchor, 14);
    assert(h[1].subrange(14, 26) =~= anchor);
    lemma_contains_at(h[1], anchor, 14);
    assert(h[2].subrange(12, 24) =~= anchor);
    lemma_contains_at(h[2], anchor, 12);
    assert(h[3].subrange(12, 24) =~= anchor);
    lemma_contains_at(h[3], anchor, 12);
    assert(h[4].subrange(12, 24) =~= anchor);
    lemma_contains_at(h[4], anchor, 12);
    assert(h[5].subrange(12, 24) =~= anchor);
    lemma_contains_at(h[5], anchor, 12);
    assert(h[6].subrange(8, 20) =~= anchor);
    lemma_contains_at(h[6], anchor, 8);
    assert(h[7].subrange(8, 20) =~= anchor);
    lemma_contains_at(h[7], anchor, 8);
    // The nested forms end in `/*"`; the others hold no `*`.
    assert(h[1].subrange(27, 28) =~= star);
    lemma_contains_at(h[1], star, 27);
    assert(h[3].subrange(25, 26) =~= star);
    lemma_contains_at(h[3], star, 25);
    assert(h[5].subrange(25, 26) =~= star);
    lemma_contains_at(h[5], star, 25);
    assert(h[7].subrange(21, 22) =~= star);
    lemma_contains_at(h[7], star, 21);
    lemma_lacks_char(h[0], star, 0);
    lemma_lacks_char(h[2], star, 0);
    lemma_lacks_char(h[4], star, 0);
    lemma_lacks_char(h[6], star, 0);
    // The filter hooks name no other kind: they hold no `-`.
    lemma_lacks_char(h[6], "nat-anchor"@, 3);
    lemma_lacks_char(h[6], "rdr-anchor"@, 3);
    lemma_lacks_char(h[6], "scrub-anchor"@, 5);
    lemma_lacks_char(h[7], "nat-anchor"@, 3);
    lemma_lacks_char(h[7], "rdr-anchor"@, 3);
    lemma_lacks_char(h[7], "scrub-anchor"@, 5);
}

/// The merged MAIN as whole lines joined, each hook among them once.
proof fn lemma_merged_as_lines(existing: Seq<char>) -> (ls: Seq<Seq<char>>)
    ensures
        firewall_merge_spec(existing) == join_lines(ls),
        forall|k: int| 0 <= k < ls.len() ==> one_line(#[trigger] ls[k]),
        lines(firewall_merge_spec(existing)) == ls,
        remaining_main_is_empty_spec(existing) ==> ls == seq![skip_line()] + main_hooks_spec(),
        !remaining_main_is_empty_spec(existing) ==> ls == merged_lines(lines(existing)),
{
    lemma_own_lines();
    if remaining_main_is_empty_spec(existing) {
        let l = seq![skip_line()] + main_hooks_spec();
        assert forall|k: int| 0 <= k < l.len() implies one_line(#[trigger] l[k]) by {
            if k > 0 {
                assert(l[k] == main_hooks_spec()[k - 1]);
            }
        }
        lemma_lines_of_join(l);
        l
    } else {
        let ls = lines(existing);
        lemma_lines_no_nl(existing);
        lemma_merge_is_join(existing);
        lemma_merged_clean(ls);
        lemma_lines_of_join(merged_lines(ls));
        merged_lines(ls)
    }
}

/// A MAIN that [`crate::firewall::Firewall::merge_main`] produced, from
/// any MAIN before, passes the test that live inspection makes on
/// MAIN: all eight hooks are there. So once sharing has merged MAIN,
/// the contract read back from pf reports the hooks present.
pub proof fn lemma_merged_main_has_hooks(existing: Seq<char>)
    ensures
        main_hooks_present_spec(firewall_merge_spec(existing)),
        forall|body: Seq<char>| #[trigger] contract_spec(firewall_merge_spec(existing), body).has_main_hooks,
{
    let t = firewall_merge_spec(existing);
    let ls = lemma_merged_as_lines(existing);
    let folded = ls.map_values(|l: Seq<char>| fold_line(l));
    lemma_hooks_lower_is_fold(t);
    lemma_fold_join(ls);
    assert forall|k: int| 0 <= k < folded.len() implies one_line(#[trigger] folded[k]) by {
        lemma_fold_one_line(ls[k]);
    }
    lemma_lines_of_join(folded);
    let lower = hooks_lower(t);
    assert(lines(lower) == folded);
    lemma_merge_main_hooks_once(existing);
    lemma_hook_names();
    lemma_own_lines();
    let h = main_hooks_spec();
    assert forall|k: int| 0 <= k < 8 implies exists|i: int|
        0 <= i < lines(lower).len() && #[trigger] lines(lower)[i] == #[trigger] main_hooks_spec()[k]
            && trim(lines(lower)[i]) == main_hooks_spec()[k] by {
        assert(count_of(ls, h[k]) == 1);
        lemma_count_witness(ls, h[k]);
        let i = choose|i: int| 0 <= i < ls.len() && ls[i] == h[k];
        assert(folded[i] == fold_line(h[k]));
        assert(lines(lower)[i] == h[k]);
    }
    assert(line_has_spec(lower, "scrub-anchor"@, false)) by {
        let i = choose|i: int| 0 <= i < lines(lower).len() && #[trigger] lines(lower)[i] == h[0]
            && trim(lines(lower)[i]) == h[0];
    }
    assert(line_has_spec(lower, "scrub-anchor"@, true)) by {
        let i = choose|i: int| 0 <= i < lines(lower).len() && #[trigger] lines(lower)[i] == h[1]
            && trim(lines(lower)[i]) == h[1];
    }
    assert(line_has_spec(lower, "nat-anchor"@, false)) by {
        let i = choose|i: int| 0 <= i < lines(lower).len() && #[trigger] lines(lower)[i] == h[2]
            && trim(lines(lower)[i]) == h[2];
    }
    assert(line_has_spec(lower, "nat-anchor"@, true)) by {
        let i = choose|i: int| 0 <= i < lines(lower).len() && #[trigger] lines(lower)[i] == h[3]
            && trim(lines(lower)[i]) == h[3];
    }
    assert(line_has_spec(lower, "rdr-anchor"@, false)) by {
        let i = choose|i: int| 0 <= i < lines(lower).len() && #[trigger] lines(lower)[i] == h[4]
            && trim(lines(lower)[i]) == h[4];
    }
    assert(line_has_spec(lower, "rdr-anchor"@, true)) by {
        let i = choose|i: int| 0 <= i < lines(lower).len() && #[trigger] lines(lower)[i] == h[5]
            && trim(lines(lower)[i]) == h[5];
    }
    assert(filter_hook_spec(lower, false)) by {
        let i = choose|i: int| 0 <= i < lines(lower).len() && #[trigger] lines(lower)[i] == h[6]
            && trim(lines(lower)[i]) == h[6];
    }
    assert(filter_hook_spec(lower, true)) by {
        let i = choose|i: int| 0 <= i < lines(lower).len() && #[trigger] lines(lower)[i] == h[7]
            && trim(lines(lower)[i]) == h[7];
    }
}

/// The lines of MAIN ordered without the hooks: the skip line, then the
/// kept lines of each section in pf's order.
pub open spec fn ordered_lines(ls: Seq<Seq<char>>) -> Seq<Seq<char>> {
    seq![skip_line()] + kept_lines(ls, MainSection::Options) + kept_lines(ls, MainSection::Scrub)
        + kept_lines(ls, MainSection::Queue) + kept_lines(ls, MainSection::Nat) + kept_lines(
        ls,
        MainSection::Filter,
    )
}

/// The ordered text is the ordered lines joined.
proof fn lemma_order_is_join(x: Seq<char>)
    ensures
        order_main_spec(x) == join_lines(ordered_lines(lines(x))),
{
    let ls = lines(x);
    let ko = kept_lines(ls, MainSection::Options);
    let ks = kept_lines(ls, MainSection::Scrub);
    let kq = kept_lines(ls, MainSection::Queue);
    let kn = kept_lines(ls, MainSection::Nat);
    let kf = kept_lines(ls, MainSection::Filter);
    lemma_bucket_is_join(ls, MainSection::Options);
    lemma_bucket_is_join(ls, MainSection::Scrub);
    lemma_bucket_is_join(ls, MainSection::Queue);
    lemma_bucket_is_join(ls, MainSection::Nat);
    lemma_bucket_is_join(ls, MainSection::Filter);
    let p1 = seq![skip_line()];
    assert(p1.drop_last() =~= Seq::<Seq<char>>::empty());
    assert(join_lines(Seq::<Seq<char>>::empty()) =~= Seq::<char>::empty());
    assert(join_lines(p1) =~= skip_line() + seq!['\n']);
    let p2 = p1 + ko;
    let p3 = p2 + ks;
    let p4 = p3 + kq;
    let p5 = p4 + kn;
    let p6 = p5 + kf;
    lemma_join_append(p1, ko);
    lemma_join_append(p2, ks);
    lemma_join_append(p3, kq);
    lemma_join_append(p4, kn);
    lemma_join_append(p5, kf);
    assert(ordered_lines(ls) == p6);
    assert(order_main_spec(x) =~= join_lines(p6));
}

/// MAIN ordered when sharing stops holds none of sharing's hooks or
/// other lines of its own: its first line is the skip line, and every
/// other line is a foreign line, trimmed, in pf's section order.
pub proof fn lemma_order_main_strips_own(existing: Seq<char>)
    ensures
        lines(order_main_spec(existing)) == ordered_lines(lines(existing)),
        lines(order_main_spec(existing))[0] == skip_line(),
        forall|k: int|
            0 < k < lines(order_main_spec(existing)).len() ==> !is_tunshare_line_spec(
                #[trigger] lines(order_main_spec(existing))[k],
            ),
{
    let ls = lines(existing);
    lemma_order_is_join(existing);
    lemma_lines_no_nl(existing);
    lemma_own_lines();
    lemma_kept_props(ls, MainSection::Options);
    lemma_kept_props(ls, MainSection::Scrub);
    lemma_kept_props(ls, MainSection::Queue);
    lemma_kept_props(ls, MainSection::Nat);
    lemma_kept_props(ls, MainSection::Filter);
    let pred = |l: Seq<char>| one_line(l) && !is_tunshare_line_spec(l);
    let p1 = seq![skip_line()];
    let ko = kept_lines(ls, MainSection::Options);
    let ks = kept_lines(ls, MainSection::Scrub);
    let kq = kept_lines(ls, MainSection::Queue);
    let kn = kept_lines(ls, MainSection::Nat);
    let kf = kept_lines(ls, MainSection::Filter);
    assert forall|k: int| 0 <= k < ko.len() implies pred(#[trigger] ko[k]) by {}
    assert forall|k: int| 0 <= k < ks.len() implies pred(#[trigger] ks[k]) by {}
    assert forall|k: int| 0 <= k < kq.len() implies pred(#[trigger] kq[k]) by {}
    assert forall|k: int| 0 <= k < kn.len() implies pred(#[trigger] kn[k]) by {}
    assert forall|k: int| 0 <= k < kf.len() implies pred(#[trigger] kf[k]) by {}
    lemma_forall_concat(ko, ks, pred);
    lemma_forall_concat(ko + ks, kq, pred);
    lemma_forall_concat(ko + ks + kq, kn, pred);
    lemma_forall_concat(ko + ks + kq + kn, kf, pred);
    let rest = ko + ks + kq + kn + kf;
    let ol = ordered_lines(ls);
    assert(ol =~= p1 + rest);
    assert forall|k: int| 0 <= k < ol.len() implies one_line(#[trigger] ol[k]) by {
        if k > 0 {
            assert(ol[k] == rest[k - 1]);
            assert(pred(rest[k - 1]));
        }
    }
    lemma_lines_of_join(ol);
    assert forall|k: int| 0 < k < ol.len() implies !is_tunshare_line_spec(#[trigger] ol[k]) by {
        assert(ol[k] == rest[k - 1]);
        assert(pred(rest[k - 1]));
    }
}

/// The lines of MAIN that a merge keeps, trimmed, in order: every line
/// that is neither blank nor one of sharing's own.
pub open spec fn foreign_lines(ls: Seq<Seq<char>>) -> Seq<Seq<char>>
    decreases ls.len(),
{
    if ls.len() == 0 {
        seq![]
    } else {
        let t = trim(ls.last());
        foreign_lines(ls.drop_last()) + if t.len() > 0 && !is_tunshare_line_spec(t) {
            seq![t]
        } else {
            seq![]
        }
    }
}

/// The kept lines of the five sections, together.
pub open spec fn sections_multiset(ls: Seq<Seq<char>>) -> Multiset<Seq<char>> {
    kept_lines(ls, MainSection::Options).to_multiset().add(
        kept_lines(ls, MainSection::Scrub).to_multiset(),
    ).add(kept_lines(ls, MainSection::Queue).to_multiset()).add(
        kept_lines(ls, MainSection::Nat).to_multiset(),
    ).add(kept_lines(ls, MainSection::Filter).to_multiset())
}

/// Every foreign line lands in exactly one section.
proof fn lemma_foreign_sections(ls: Seq<Seq<char>>)
    ensures
        foreign_lines(ls).to_multiset() == sections_multiset(ls),
    decreases ls.len(),
{
    broadcast use vstd::seq_lib::group_to_multiset_ensures, vstd::multiset::group_multiset_axioms;

    if ls.len() == 0 {
        assert(foreign_lines(ls).to_multiset() =~= sections_multiset(ls));
    } else {
        let d = ls.drop_last();
        lemma_foreign_sections(d);
        let t = trim(ls.last());
        let secs = seq![
            MainSection::Options,
            MainSection::Scrub,
            MainSection::Queue,
            MainSection::Nat,
            MainSection::Filter,
        ];
        assert forall|j: int| 0 <= j < 5 implies #[trigger] kept_lines(ls, secs[j]) == if kept_in(t, secs[j]) {
            kept_lines(d, secs[j]).push(t)
        } else {
            kept_lines(d, secs[j])
        } by {
            assert(kept_lines(d, secs[j]) + seq![t] =~= kept_lines(d, secs[j]).push(t));
            assert(kept_lines(d, secs[j]) + Seq::<Seq<char>>::empty() =~= kept_lines(d, secs[j]));
        }
        assert(foreign_lines(d) + seq![t] =~= foreign_lines(d).push(t));
        assert(foreign_lines(d) + Seq::<Seq<char>>::empty() =~= foreign_lines(d));
        assert(kept_lines(ls, MainSection::Options) == kept_lines(ls, secs[0]));
        assert(kept_lines(ls, MainSection::Scrub) == kept_lines(ls, secs[1]));
        assert(kept_lines(ls, MainSection::Queue) == kept_lines(ls, secs[2]));
        assert(kept_lines(ls, MainSection::Nat) == kept_lines(ls, secs[3]));
        assert(kept_lines(ls, MainSection::Filter) == kept_lines(ls, secs[4]));
        assert(foreign_lines(ls).to_multiset() =~= sections_multiset(ls));
    }
}

/// Merging loses no line and invents none: when anything foreign is
/// left in MAIN, the merged lines are, in some order, the skip line,
/// the hooks and every foreign line of MAIN, trimmed; otherwise they
/// are the skip line and the hooks alone.
pub proof fn lemma_merge_main_lossless(existing: Seq<char>)
    ensures
        !remaining_main_is_empty_spec(existing) ==> lines(firewall_merge_spec(existing)).to_multiset()
            == (seq![skip_line()] + main_hooks_spec() + foreign_lines(lines(existing))).to_multiset(),
        remaining_main_is_empty_spec(existing) ==> lines(firewall_merge_spec(existing)) == seq![
            skip_line(),
        ] + main_hooks_spec(),
{
    broadcast use vstd::seq_lib::group_to_multiset_ensures, vstd::multiset::group_multiset_axioms;

    let ls = lemma_merged_as_lines(existing);
    if !remaining_main_is_empty_spec(existing) {
        let l = lines(existing);
        assert(ls == merged_lines(l));
        let h = main_hooks_spec();
        let p1 = seq![skip_line()];
        let ko = kept_lines(l, MainSection::Options);
        let ks = kept_lines(l, MainSection::Scrub);
        let kq = kept_lines(l, MainSection::Queue);
        let kn = kept_lines(l, MainSection::Nat);
        let kf = kept_lines(l, MainSection::Filter);
        let h1 = h.subrange(0, 2);
        let h2 = h.subrange(2, 6);
        let h3 = h.subrange(6, 8);
        lemma_own_lines();
        assert(h =~= h1 + h2 + h3);
        lemma_foreign_sections(l);
        vstd::seq_lib::lemma_multiset_commutative(p1, ko);
        vstd::seq_lib::lemma_multiset_commutative(p1 + ko, ks);
        vstd::seq_lib::lemma_multiset_commutative(p1 + ko + ks, h1);
        vstd::seq_lib::lemma_multiset_commutative(p1 + ko + ks + h1, kq);
        vstd::seq_lib::lemma_multiset_commutative(p1 + ko + ks + h1 + kq, h2);
        vstd::seq_lib::lemma_multiset_commutative(p1 + ko + ks + h1 + kq + h2, kn);
        vstd::seq_lib::lemma_multiset_commutative(p1 + ko + ks + h1 + kq + h2 + kn, h3);
        vstd::seq_lib::lemma_multiset_commutative(p1 + ko + ks + h1 + kq + h2 + kn + h3, kf);
        vstd::seq_lib::lemma_multiset_commutative(h1, h2);
        vstd::seq_lib::lemma_multiset_commutative(h1 + h2, h3);
        vstd::seq_lib::lemma_multiset_commutative(p1, h);
        vstd::seq_lib::lemma_multiset_commutative(p1 + h, foreign_lines(l));
        assert(ls.to_multiset() =~= (p1 + h + foreign_lines(l)).to_multiset());
    }
}

/// The trimmed lines of MAIN that stay when sharing stops: all but
/// sharing's own lines and the skip line, in order.
pub open spec fn staying_lines(ls: Seq<Seq<char>>) -> Seq<Seq<char>> {
    ls.map_values(|l: Seq<char>| trim(l)).filter(
        |t: Seq<char>| !is_tunshare_line_spec(t) && t != skip_line(),
    )
}

/// The stripped text is the staying lines joined.
proof fn lemma_strip_join(ls: Seq<Seq<char>>)
    requires
        forall|k: int| 0 <= k < ls.len() ==> no_nl(#[trigger] ls[k]),
    ensures
        strip_lines(ls) == join_lines(staying_lines(ls)),
        forall|k: int| 0 <= k < staying_lines(ls).len() ==> one_line(#[trigger] staying_lines(ls)[k]),
    decreases ls.len(),
{
    reveal(Seq::filter);
    let pred = |t: Seq<char>| !is_tunshare_line_spec(t) && t != skip_line();
    let tr = |l: Seq<char>| trim(l);
    if ls.len() == 0 {
        assert(ls.map_values(tr) =~= Seq::<Seq<char>>::empty());
        assert(staying_lines(ls) =~= Seq::<Seq<char>>::empty());
    } else {
        let d = ls.drop_last();
        assert forall|k: int| 0 <= k < d.len() implies no_nl(#[trigger] d[k]) by {
            assert(d[k] == ls[k]);
        }
        lemma_strip_join(d);
        let t = trim(ls.last());
        assert(no_nl(ls[ls.len() - 1]));
        lemma_trim_props(ls.last());
        assert(is_tunshare_line_spec(ls.last()) == is_tunshare_line_spec(t));
        let mv = ls.map_values(tr);
        assert(mv.drop_last() =~= d.map_values(tr));
        assert(mv.last() == t);
        let sd = staying_lines(d);
        assert(mv.filter(pred) == if pred(t) { sd.push(t) } else { sd });
        assert(staying_lines(ls) == mv.filter(pred));
        if pred(t) {
            let st = sd.push(t);
            assert(st.drop_last() =~= sd);
            assert(join_lines(st) == join_lines(sd) + t + seq!['\n']);
            assert forall|k: int| 0 <= k < st.len() implies one_line(#[trigger] st[k]) by {
                if k < sd.len() {
                    assert(st[k] == sd[k]);
                }
            }
        } else {
            assert(strip_lines(ls) =~= strip_lines(d));
        }
    }
}

/// Stripping MAIN when sharing stops keeps every line that is neither
/// sharing's own nor the skip line, trimmed and in order, and nothing
/// else: the stripped lines are exactly those.
pub proof fn lemma_strip_keeps_foreign(existing: Seq<char>)
    ensures
        lines(strip_main_spec(existing)) == staying_lines(lines(existing)),
{
    lemma_lines_no_nl(existing);
    lemma_strip_join(lines(existing));
    lemma_lines_of_join(staying_lines(lines(existing)));
}

} // verus!
