//! Laws of reading back the anchor body with a WAN bypass: the body
//! reads back as the interfaces, the addresses, the WAN NAT and the
//! `route-to` rule it was made with.

use vstd::prelude::*;
use crate::firewall::{
    body_fold, body_step, contract_spec, expand_fold, expand_spec, join_lines, macro_of,
    macros_fold, main_hooks_text, nat_step, parse_pf_spec, route_to_spec, rules_text, empty_pf, PfSpec,
};
use crate::main_laws::{lemma_contains_at, lemma_find_is, lemma_lacks_char, lemma_lines_of_join, lemma_not_prefix, lemma_trim_fixed, one_line};
use crate::net::{dec, ip_text, Ipv4};
use crate::rules_laws::{
    iface_name, lacks, lemma_join_step, lemma_lacks_cat, lemma_literal_chars, lemma_literal_ends,
    lemma_macro_line, lemma_name_chars, lemma_no_macro, lemma_number_chars, lemma_parse_ip_text,
    lemma_plain_rule_line, lemma_rdr_rest, lemma_replace_front, lemma_replace_join,
    lemma_replace_skip, lemma_replace_none, lemma_rule_literal_chars, lemma_rule_words,
    lemma_take_step, lemma_token_len_cat, no_dollar, no_ws,
};
use crate::text::{
    before_first, contains, find, first_token, has_char, lines, occurs_at, replace, second_piece,
    tokens, trim, trim_start, is_ws, lemma_find_result,
};

verus! {

// ---------------------------------------------------------------------
// The anchor body over four macros
// ---------------------------------------------------------------------

/// A piece of a line of the anchor body: literal text, or the macro in
/// a slot (external, internal, WAN interface, WAN gateway).
pub enum Slot {
    Lit(Seq<char>),
    Mac(int),
}

/// A piece's text, with `vals` for the macros.
pub open spec fn slot_text(p: Slot, vals: Seq<Seq<char>>) -> Seq<char> {
    match p {
        Slot::Lit(t) => t,
        Slot::Mac(j) => vals[j],
    }
}

/// The pieces' texts, in order.
pub open spec fn slot_render(ps: Seq<Slot>, vals: Seq<Seq<char>>) -> Seq<char>
    decreases ps.len(),
{
    if ps.len() == 0 {
        seq![]
    } else {
        slot_text(ps[0], vals) + slot_render(ps.drop_first(), vals)
    }
}

/// Literal pieces hold no `$`, and every macro names one of `n` slots.
pub open spec fn slotted(ps: Seq<Slot>, n: int) -> bool {
    forall|k: int|
        0 <= k < ps.len() ==> match #[trigger] ps[k] {
            Slot::Lit(t) => no_dollar(t),
            Slot::Mac(j) => 0 <= j < n,
        }
}

/// No occurrence of `m` starts inside `x`, whatever follows it.
pub open spec fn no_start(x: Seq<char>, m: Seq<char>) -> bool {
    forall|r: Seq<char>, k: int| 0 <= k < x.len() ==> !#[trigger] occurs_at(x + r, m, k)
}

/// Text without `$` holds no start of a `$` macro.
pub proof fn lemma_no_start_plain(x: Seq<char>, m: Seq<char>)
    requires
        no_dollar(x),
        m.len() > 0,
        m[0] == '$',
    ensures
        no_start(x, m),
{
    assert forall|r: Seq<char>, k: int| 0 <= k < x.len() implies !#[trigger] occurs_at(x + r, m, k) by {
        if occurs_at(x + r, m, k) {
            assert((x + r).subrange(k, k + m.len())[0] == (x + r)[k]);
        }
    }
}

/// A macro holds no start of another macro of its length.
pub proof fn lemma_no_start_macro(a: Seq<char>, m: Seq<char>)
    requires
        a.len() == m.len(),
        a != m,
        no_dollar(a.drop_first()),
        m.len() > 0,
        m[0] == '$',
    ensures
        no_start(a, m),
{
    assert forall|r: Seq<char>, k: int| 0 <= k < a.len() implies !#[trigger] occurs_at(a + r, m, k) by {
        if occurs_at(a + r, m, k) {
            if k == 0 {
                assert((a + r).subrange(0, m.len() as int) =~= a);
            } else {
                assert((a + r).subrange(k, k + m.len())[0] == (a + r)[k]);
                assert(a[k] == a.drop_first()[k - 1]);
            }
        }
    }
}

/// Substituting the macro in slot `j`: where no other slot's text holds
/// the start of it, the rendered text has the value in its place.
pub proof fn lemma_slot_subst(ps: Seq<Slot>, vals: Seq<Seq<char>>, j: int, v: Seq<char>)
    requires
        slotted(ps, vals.len() as int),
        0 <= j < vals.len(),
        vals[j].len() > 0,
        vals[j][0] == '$',
        forall|l: int| 0 <= l < vals.len() && l != j ==> no_start(#[trigger] vals[l], vals[j]),
    ensures
        replace(slot_render(ps, vals), vals[j], v) == slot_render(ps, vals.update(j, v)),
    decreases ps.len(),
{
    let m = vals[j];
    let vals2 = vals.update(j, v);
    if ps.len() == 0 {
        lemma_replace_none(Seq::<char>::empty(), m, v);
    } else {
        let rest = ps.drop_first();
        assert(slotted(rest, vals.len() as int)) by {
            assert forall|k: int| 0 <= k < rest.len() implies match #[trigger] rest[k] {
                Slot::Lit(t) => no_dollar(t),
                Slot::Mac(j) => 0 <= j < vals.len(),
            } by {
                assert(rest[k] == ps[k + 1]);
            }
        }
        lemma_slot_subst(rest, vals, j, v);
        let r = slot_render(rest, vals);
        assert(match ps[0] {
            Slot::Lit(t) => no_dollar(t),
            Slot::Mac(j) => 0 <= j < vals.len(),
        });
        match ps[0] {
            Slot::Lit(t) => {
                lemma_no_start_plain(t, m);
                assert forall|k: int| 0 <= k < t.len() implies !occurs_at(t + r, m, k) by {
                    assert(!occurs_at(t + r, m, k));
                }
                lemma_replace_skip(t, r, m, v);
            },
            Slot::Mac(l) => {
                if l == j {
                    lemma_replace_front(r, m, v);
                } else {
                    let x = vals[l];
                    assert(no_start(x, m));
                    assert forall|k: int| 0 <= k < x.len() implies !occurs_at(x + r, m, k) by {
                        assert(!occurs_at(x + r, m, k));
                    }
                    lemma_replace_skip(x, r, m, v);
                    assert(vals2[l] == x);
                }
            },
        }
    }
}

/// The WAN interface macro as written in the body.
pub open spec fn wan_macro() -> Seq<char> {
    "$wan_if"@
}

/// The WAN gateway macro as written in the body.
pub open spec fn gw_macro() -> Seq<char> {
    "$wan_gw"@
}

/// The macros as written, by slot.
pub open spec fn written() -> Seq<Seq<char>> {
    seq!["$ext_if"@, "$int_if"@, wan_macro(), gw_macro()]
}

/// The lines of the anchor body with a WAN bypass, as pieces.
pub open spec fn bypass_pieces_of(
    vpn: Seq<char>,
    lan: Seq<char>,
    ip: Ipv4,
    mss: u16,
    wan: Seq<char>,
    gw: Ipv4,
) -> Seq<Seq<Slot>> {
    seq![
        seq![Slot::Lit("# tunshare anchor body \u{2014} com.tunshare"@)],
        seq![Slot::Lit("# VPN interface: "@ + vpn)],
        seq![Slot::Lit("# LAN interface: "@ + lan)],
        seq![],
        seq![Slot::Lit("ext_if = \""@ + vpn + "\""@)],
        seq![Slot::Lit("int_if = \""@ + lan + "\""@)],
        seq![Slot::Lit("wan_if = \""@ + wan + "\""@)],
        seq![Slot::Lit("wan_gw = \""@ + ip_text(gw) + "\""@)],
        seq![Slot::Lit("table <tunshare_bypass> persist"@)],
        seq![],
        seq![Slot::Lit("scrub in all no-df"@)],
        seq![
            Slot::Lit("scrub in on "@),
            Slot::Mac(1),
            Slot::Lit(" inet proto tcp from "@),
            Slot::Mac(1),
            Slot::Lit(":network to ! <tunshare_bypass> no-df max-mss "@ + dec(mss as nat)),
        ],
        seq![
            Slot::Lit("scrub out on "@),
            Slot::Mac(0),
            Slot::Lit(" inet proto tcp from ("@),
            Slot::Mac(0),
            Slot::Lit(") to any max-mss "@ + dec(mss as nat)),
        ],
        seq![
            Slot::Lit("nat on "@),
            Slot::Mac(0),
            Slot::Lit(" inet from "@),
            Slot::Mac(1),
            Slot::Lit(":network to ! <tunshare_bypass> -> ("@),
            Slot::Mac(0),
            Slot::Lit(") static-port"@),
        ],
        seq![
            Slot::Lit("nat on "@),
            Slot::Mac(2),
            Slot::Lit(" inet from "@),
            Slot::Mac(1),
            Slot::Lit(":network to <tunshare_bypass> -> ("@),
            Slot::Mac(2),
            Slot::Lit(") static-port"@),
        ],
        seq![
            Slot::Lit("rdr on "@),
            Slot::Mac(1),
            Slot::Lit(" inet proto udp from "@),
            Slot::Mac(1),
            Slot::Lit(":network to any port 53 -> "@ + ip_text(ip)),
        ],
        seq![
            Slot::Lit("rdr on "@),
            Slot::Mac(1),
            Slot::Lit(" inet proto tcp from "@),
            Slot::Mac(1),
            Slot::Lit(":network to any port 53 -> "@ + ip_text(ip)),
        ],
        seq![],
        seq![
            Slot::Lit("pass in quick on "@),
            Slot::Mac(1),
            Slot::Lit(" route-to ("@),
            Slot::Mac(2),
            Slot::Lit(" "@),
            Slot::Mac(3),
            Slot::Lit(") inet from "@),
            Slot::Mac(1),
            Slot::Lit(":network to <tunshare_bypass> keep state"@),
        ],
        seq![
            Slot::Lit("pass out quick on "@),
            Slot::Mac(2),
            Slot::Lit(" inet from ("@),
            Slot::Mac(2),
            Slot::Lit(") to any keep state"@),
        ],
        seq![Slot::Lit("pass quick on "@), Slot::Mac(1), Slot::Lit(" all keep state"@)],
        seq![
            Slot::Lit("pass out quick on "@),
            Slot::Mac(0),
            Slot::Lit(" inet from ("@),
            Slot::Mac(0),
            Slot::Lit(") to any keep state"@),
        ],
    ]
}

/// The lines with `vals` for the macros.
pub open spec fn bypass_lines(
    vpn: Seq<char>,
    lan: Seq<char>,
    ip: Ipv4,
    mss: u16,
    wan: Seq<char>,
    gw: Ipv4,
    vals: Seq<Seq<char>>,
) -> Seq<Seq<char>> {
    bypass_pieces_of(vpn, lan, ip, mss, wan, gw).map_values(|ps: Seq<Slot>| slot_render(ps, vals))
}

/// The comment, macro and table lines, whatever stands for the macros.
pub proof fn lemma_bl_head(
    vpn: Seq<char>,
    lan: Seq<char>,
    ip: Ipv4,
    mss: u16,
    wan: Seq<char>,
    gw: Ipv4,
    vals: Seq<Seq<char>>,
)
    ensures
        bypass_lines(vpn, lan, ip, mss, wan, gw, vals).len() == 22,
        bypass_lines(vpn, lan, ip, mss, wan, gw, vals)[0] == "# tunshare anchor body \u{2014} com.tunshare"@,
        bypass_lines(vpn, lan, ip, mss, wan, gw, vals)[1] == "# VPN interface: "@ + vpn,
        bypass_lines(vpn, lan, ip, mss, wan, gw, vals)[2] == "# LAN interface: "@ + lan,
        bypass_lines(vpn, lan, ip, mss, wan, gw, vals)[3] == Seq::<char>::empty(),
        bypass_lines(vpn, lan, ip, mss, wan, gw, vals)[4] == "ext_if = \""@ + vpn + "\""@,
        bypass_lines(vpn, lan, ip, mss, wan, gw, vals)[5] == "int_if = \""@ + lan + "\""@,
        bypass_lines(vpn, lan, ip, mss, wan, gw, vals)[6] == "wan_if = \""@ + wan + "\""@,
        bypass_lines(vpn, lan, ip, mss, wan, gw, vals)[7] == "wan_gw = \""@ + ip_text(gw) + "\""@,
        bypass_lines(vpn, lan, ip, mss, wan, gw, vals)[8] == "table <tunshare_bypass> persist"@,
        bypass_lines(vpn, lan, ip, mss, wan, gw, vals)[9] == Seq::<char>::empty(),
        bypass_lines(vpn, lan, ip, mss, wan, gw, vals)[10] == "scrub in all no-df"@,
        bypass_lines(vpn, lan, ip, mss, wan, gw, vals)[17] == Seq::<char>::empty(),
{
    reveal_with_fuel(slot_render, 2);
    let ls = bypass_lines(vpn, lan, ip, mss, wan, gw, vals);
    assert(ls[0] =~= "# tunshare anchor body \u{2014} com.tunshare"@);
    assert(ls[1] =~= "# VPN interface: "@ + vpn);
    assert(ls[2] =~= "# LAN interface: "@ + lan);
    assert(ls[3] =~= Seq::<char>::empty());
    assert(ls[4] =~= "ext_if = \""@ + vpn + "\""@);
    assert(ls[5] =~= "int_if = \""@ + lan + "\""@);
    assert(ls[6] =~= "wan_if = \""@ + wan + "\""@);
    assert(ls[7] =~= "wan_gw = \""@ + ip_text(gw) + "\""@);
    assert(ls[8] =~= "table <tunshare_bypass> persist"@);
    assert(ls[9] =~= Seq::<char>::empty());
    assert(ls[10] =~= "scrub in all no-df"@);
    assert(ls[17] =~= Seq::<char>::empty());
}

/// The scrub and NAT lines.
pub proof fn lemma_bl_mid(
    vpn: Seq<char>,
    lan: Seq<char>,
    ip: Ipv4,
    mss: u16,
    wan: Seq<char>,
    gw: Ipv4,
    vals: Seq<Seq<char>>,
)
    ensures
        bypass_lines(vpn, lan, ip, mss, wan, gw, vals)[11] == "scrub in on "@ + vals[1]
            + " inet proto tcp from "@ + vals[1] + ":network to ! <tunshare_bypass> no-df max-mss "@
            + dec(mss as nat),
        bypass_lines(vpn, lan, ip, mss, wan, gw, vals)[12] == "scrub out on "@ + vals[0]
            + " inet proto tcp from ("@ + vals[0] + ") to any max-mss "@ + dec(mss as nat),
        bypass_lines(vpn, lan, ip, mss, wan, gw, vals)[13] == "nat on "@ + vals[0] + " inet from "@
            + vals[1] + ":network to ! <tunshare_bypass> -> ("@ + vals[0] + ") static-port"@,
        bypass_lines(vpn, lan, ip, mss, wan, gw, vals)[14] == "nat on "@ + vals[2] + " inet from "@
            + vals[1] + ":network to <tunshare_bypass> -> ("@ + vals[2] + ") static-port"@,
{
    reveal_with_fuel(slot_render, 8);
    let ls = bypass_lines(vpn, lan, ip, mss, wan, gw, vals);
    let d = dec(mss as nat);
    assert(ls[11] =~= "scrub in on "@ + vals[1] + " inet proto tcp from "@ + vals[1]
        + ":network to ! <tunshare_bypass> no-df max-mss "@ + d);
    assert(ls[12] =~= "scrub out on "@ + vals[0] + " inet proto tcp from ("@ + vals[0]
        + ") to any max-mss "@ + d);
    assert(ls[13] =~= "nat on "@ + vals[0] + " inet from "@ + vals[1]
        + ":network to ! <tunshare_bypass> -> ("@ + vals[0] + ") static-port"@);
    assert(ls[14] =~= "nat on "@ + vals[2] + " inet from "@ + vals[1]
        + ":network to <tunshare_bypass> -> ("@ + vals[2] + ") static-port"@);
}

/// The DNS redirects.
pub proof fn lemma_bl_rdr(
    vpn: Seq<char>,
    lan: Seq<char>,
    ip: Ipv4,
    mss: u16,
    wan: Seq<char>,
    gw: Ipv4,
    vals: Seq<Seq<char>>,
)
    ensures
        bypass_lines(vpn, lan, ip, mss, wan, gw, vals)[15] == "rdr on "@ + vals[1]
            + " inet proto udp from "@ + vals[1] + ":network to any port 53 -> "@ + ip_text(ip),
        bypass_lines(vpn, lan, ip, mss, wan, gw, vals)[16] == "rdr on "@ + vals[1]
            + " inet proto tcp from "@ + vals[1] + ":network to any port 53 -> "@ + ip_text(ip),
{
    reveal_with_fuel(slot_render, 6);
    let ls = bypass_lines(vpn, lan, ip, mss, wan, gw, vals);
    let t = ip_text(ip);
    assert(ls[15] =~= "rdr on "@ + vals[1] + " inet proto udp from "@ + vals[1]
        + ":network to any port 53 -> "@ + t);
    assert(ls[16] =~= "rdr on "@ + vals[1] + " inet proto tcp from "@ + vals[1]
        + ":network to any port 53 -> "@ + t);
}

/// The route-to line.
pub proof fn lemma_bl_route(
    vpn: Seq<char>,
    lan: Seq<char>,
    ip: Ipv4,
    mss: u16,
    wan: Seq<char>,
    gw: Ipv4,
    vals: Seq<Seq<char>>,
)
    ensures
        bypass_lines(vpn, lan, ip, mss, wan, gw, vals)[18] == "pass in quick on "@ + vals[1]
            + " route-to ("@ + vals[2] + " "@ + vals[3] + ") inet from "@ + vals[1]
            + ":network to <tunshare_bypass> keep state"@,
{
    reveal_with_fuel(slot_render, 10);
    let ls = bypass_lines(vpn, lan, ip, mss, wan, gw, vals);
    assert(ls[18] =~= "pass in quick on "@ + vals[1] + " route-to ("@ + vals[2] + " "@ + vals[3]
        + ") inet from "@ + vals[1] + ":network to <tunshare_bypass> keep state"@);
}

/// The pass lines.
pub proof fn lemma_bl_pass(
    vpn: Seq<char>,
    lan: Seq<char>,
    ip: Ipv4,
    mss: u16,
    wan: Seq<char>,
    gw: Ipv4,
    vals: Seq<Seq<char>>,
)
    ensures
        bypass_lines(vpn, lan, ip, mss, wan, gw, vals)[19] == "pass out quick on "@ + vals[2]
            + " inet from ("@ + vals[2] + ") to any keep state"@,
        bypass_lines(vpn, lan, ip, mss, wan, gw, vals)[20] == "pass quick on "@ + vals[1]
            + " all keep state"@,
        bypass_lines(vpn, lan, ip, mss, wan, gw, vals)[21] == "pass out quick on "@ + vals[0]
            + " inet from ("@ + vals[0] + ") to any keep state"@,
{
    reveal_with_fuel(slot_render, 6);
    let ls = bypass_lines(vpn, lan, ip, mss, wan, gw, vals);
    assert(ls[19] =~= "pass out quick on "@ + vals[2] + " inet from ("@ + vals[2]
        + ") to any keep state"@);
    assert(ls[20] =~= "pass quick on "@ + vals[1] + " all keep state"@);
    assert(ls[21] =~= "pass out quick on "@ + vals[0] + " inet from ("@ + vals[0]
        + ") to any keep state"@);
}

// ---------------------------------------------------------------------
// The text of the body
// ---------------------------------------------------------------------

/// How the bypass chunks of the body break at line ends and macros.
pub proof fn lemma_bypass_chunks_a()
    ensures
        "\"\nwan_gw = \""@ == "\""@ + seq!['\n'] + "wan_gw = \""@,
        "table <tunshare_bypass> persist\n"@ == "table <tunshare_bypass> persist"@ + seq!['\n'],
        "\nscrub in all no-df\nscrub in on $int_if inet proto tcp from $int_if:network "@
            + "to ! <tunshare_bypass>"@ + " no-df max-mss "@ == seq!['\n'] + "scrub in all no-df"@
            + seq!['\n'] + ("scrub in on "@ + "$int_if"@ + " inet proto tcp from "@ + "$int_if"@
            + ":network to ! <tunshare_bypass> no-df max-mss "@),
{
    reveal_strlit("\"\nwan_gw = \"");
    reveal_strlit("\"");
    reveal_strlit("wan_gw = \"");
    reveal_strlit("table <tunshare_bypass> persist\n");
    reveal_strlit("table <tunshare_bypass> persist");
    reveal_strlit("\nscrub in all no-df\nscrub in on $int_if inet proto tcp from $int_if:network ");
    reveal_strlit("to ! <tunshare_bypass>");
    reveal_strlit(" no-df max-mss ");
    reveal_strlit("scrub in all no-df");
    reveal_strlit("scrub in on ");
    reveal_strlit("$int_if");
    reveal_strlit(" inet proto tcp from ");
    reveal_strlit(":network to ! <tunshare_bypass> no-df max-mss ");
    assert("\"\nwan_gw = \""@ =~= "\""@ + seq!['\n'] + "wan_gw = \""@);
    assert("table <tunshare_bypass> persist\n"@ =~= "table <tunshare_bypass> persist"@ + seq!['\n']);
    assert("\nscrub in all no-df\nscrub in on $int_if inet proto tcp from $int_if:network "@
        + "to ! <tunshare_bypass>"@ + " no-df max-mss "@ =~= seq!['\n'] + "scrub in all no-df"@
        + seq!['\n'] + ("scrub in on "@ + "$int_if"@ + " inet proto tcp from "@ + "$int_if"@
        + ":network to ! <tunshare_bypass> no-df max-mss "@));
}

/// The NAT chunks of the body with a bypass.
pub proof fn lemma_bypass_chunks_nat()
    ensures
        "nat on $ext_if inet from $int_if:network to ! <tunshare_bypass> -> ($ext_if) static-port"@
            == "nat on "@ + "$ext_if"@ + " inet from "@ + "$int_if"@
            + ":network to ! <tunshare_bypass> -> ("@ + "$ext_if"@ + ") static-port"@,
        "nat on $wan_if inet from $int_if:network to <tunshare_bypass> -> ($wan_if) static-port\n"@
            == ("nat on "@ + wan_macro() + " inet from "@ + "$int_if"@
            + ":network to <tunshare_bypass> -> ("@ + wan_macro() + ") static-port"@) + seq!['\n'],
{
    reveal_strlit("nat on $ext_if inet from $int_if:network to ! <tunshare_bypass> -> ($ext_if) static-port");
    reveal_strlit("nat on $wan_if inet from $int_if:network to <tunshare_bypass> -> ($wan_if) static-port\n");
    reveal_strlit("nat on ");
    reveal_strlit(" inet from ");
    reveal_strlit(":network to ! <tunshare_bypass> -> (");
    reveal_strlit(":network to <tunshare_bypass> -> (");
    reveal_strlit(") static-port");
    reveal_strlit("$int_if");
    reveal_strlit("$ext_if");
    reveal_strlit("$wan_if");
    assert("nat on $ext_if inet from $int_if:network to ! <tunshare_bypass> -> ($ext_if) static-port"@
        =~= "nat on "@ + "$ext_if"@ + " inet from "@ + "$int_if"@
        + ":network to ! <tunshare_bypass> -> ("@ + "$ext_if"@ + ") static-port"@);
    assert("nat on $wan_if inet from $int_if:network to <tunshare_bypass> -> ($wan_if) static-port\n"@
        =~= ("nat on "@ + wan_macro() + " inet from "@ + "$int_if"@
        + ":network to <tunshare_bypass> -> ("@ + wan_macro() + ") static-port"@) + seq!['\n']);
}

/// The WAN filter chunk of the body.
pub proof fn lemma_bypass_chunks_filter()
    ensures
        "pass in quick on $int_if route-to ($wan_if $wan_gw) inet from $int_if:network to <tunshare_bypass> keep state\npass out quick on $wan_if inet from ($wan_if) to any keep state\n"@
            == ("pass in quick on "@ + "$int_if"@ + " route-to ("@ + wan_macro() + " "@ + gw_macro()
            + ") inet from "@ + "$int_if"@ + ":network to <tunshare_bypass> keep state"@) + seq!['\n']
            + ("pass out quick on "@ + wan_macro() + " inet from ("@ + wan_macro()
            + ") to any keep state"@) + seq!['\n'],
{
    reveal_strlit("pass in quick on $int_if route-to ($wan_if $wan_gw) inet from $int_if:network to <tunshare_bypass> keep state\npass out quick on $wan_if inet from ($wan_if) to any keep state\n");
    reveal_strlit("pass in quick on ");
    reveal_strlit(" route-to (");
    reveal_strlit(" ");
    reveal_strlit(") inet from ");
    reveal_strlit(":network to <tunshare_bypass> keep state");
    reveal_strlit("pass out quick on ");
    reveal_strlit(" inet from (");
    reveal_strlit(") to any keep state");
    reveal_strlit("$int_if");
    reveal_strlit("$wan_if");
    reveal_strlit("$wan_gw");
    assert("pass in quick on $int_if route-to ($wan_if $wan_gw) inet from $int_if:network to <tunshare_bypass> keep state\npass out quick on $wan_if inet from ($wan_if) to any keep state\n"@
        =~= ("pass in quick on "@ + "$int_if"@ + " route-to ("@ + wan_macro() + " "@ + gw_macro()
        + ") inet from "@ + "$int_if"@ + ":network to <tunshare_bypass> keep state"@) + seq!['\n']
        + ("pass out quick on "@ + wan_macro() + " inet from ("@ + wan_macro()
        + ") to any keep state"@) + seq!['\n']);
}

// The body's text is built chunk by chunk; each step relates the text
// so far to the lines joined so far.

pub proof fn step_eol(t: Seq<char>, p: Seq<char>, w: Seq<char>, a: Seq<char>, c: Seq<char>, q: Seq<char>, l: Seq<char>, p2: Seq<char>)
    requires
        t == p + w + a,
        c == q + seq!['\n'],
        l == w + a + q,
        p2 == p + l + seq!['\n'],
    ensures
        t + c == p2,
{
    assert(t + c =~= p2);
}

pub proof fn step_wan(p: Seq<char>, wm: Seq<char>, a1: Seq<char>, wan: Seq<char>, c2: Seq<char>, a2: Seq<char>, g: Seq<char>, c3: Seq<char>, q: Seq<char>, l6: Seq<char>, l7: Seq<char>, p7: Seq<char>, p8: Seq<char>)
    requires
        wm == a1 + wan + c2 + g + c3,
        c2 == q + seq!['\n'] + a2,
        c3 == q + seq!['\n'],
        l6 == a1 + wan + q,
        l7 == a2 + g + q,
        p7 == p + l6 + seq!['\n'],
        p8 == p7 + l7 + seq!['\n'],
    ensures
        p + wm == p8,
{
    assert(p + wm =~= p8);
}

pub proof fn step_table(t: Seq<char>, p: Seq<char>, tl: Seq<char>, l: Seq<char>, p2: Seq<char>)
    requires
        t == p,
        tl == l + seq!['\n'],
        p2 == p + l + seq!['\n'],
    ensures
        t + tl == p2,
{
    assert(t + tl =~= p2);
}

pub proof fn step_two_nats(t: Seq<char>, p: Seq<char>, l: Seq<char>, n: Seq<char>, en: Seq<char>, l14: Seq<char>, c: Seq<char>, ip: Seq<char>, p14: Seq<char>, p15: Seq<char>)
    requires
        t == p + l,
        n == seq!['\n'],
        p14 == p + l + seq!['\n'],
        en == l14 + seq!['\n'],
        p15 == p14 + l14 + seq!['\n'],
    ensures
        t + n + en + c + ip == p15 + (c + ip),
{
    assert(t + n + en + c + ip =~= p15 + (c + ip));
}

pub proof fn step_filters(t: Seq<char>, p16: Seq<char>, l16: Seq<char>, nn: Seq<char>, ef: Seq<char>, c: Seq<char>, l18: Seq<char>, l19: Seq<char>, l20: Seq<char>, l21: Seq<char>, p17: Seq<char>, p18: Seq<char>, p19: Seq<char>, p20: Seq<char>, p21: Seq<char>, p22: Seq<char>)
    requires
        t == p16 + l16,
        nn == seq!['\n', '\n'],
        ef == l18 + seq!['\n'] + l19 + seq!['\n'],
        c == l20 + seq!['\n'] + l21 + seq!['\n'],
        p17 == p16 + l16 + seq!['\n'],
        p18 == p17 + Seq::<char>::empty() + seq!['\n'],
        p19 == p18 + l18 + seq!['\n'],
        p20 == p19 + l19 + seq!['\n'],
        p21 == p20 + l20 + seq!['\n'],
        p22 == p21 + l21 + seq!['\n'],
    ensures
        t + nn + ef + c == p22,
{
    assert(t + nn + ef + c =~= p22);
}

/// The anchor body with a WAN bypass is its lines, as written, joined.
#[verifier::spinoff_prover]
#[verifier::rlimit(100)]
pub proof fn lemma_bypass_text(vpn: Seq<char>, lan: Seq<char>, ip: Ipv4, mss: u16, wan: Seq<char>, gw: Ipv4)
    ensures
        rules_text(vpn, lan, ip, mss, Some((wan, gw))) == join_lines(
            bypass_lines(vpn, lan, ip, mss, wan, gw, written()),
        ),
{
    let vals = written();
    let e = "$ext_if"@;
    let i = "$int_if"@;
    let ls = bypass_lines(vpn, lan, ip, mss, wan, gw, vals);
    assert(vals[0] == e && vals[1] == i && vals[2] == wan_macro() && vals[3] == gw_macro());
    lemma_bl_head(vpn, lan, ip, mss, wan, gw, vals);
    lemma_bl_mid(vpn, lan, ip, mss, wan, gw, vals);
    lemma_bl_rdr(vpn, lan, ip, mss, wan, gw, vals);
    lemma_bl_route(vpn, lan, ip, mss, wan, gw, vals);
    lemma_bl_pass(vpn, lan, ip, mss, wan, gw, vals);
    crate::rules_laws::lemma_chunks_a();
    crate::rules_laws::lemma_chunks_scrub();
    crate::rules_laws::lemma_chunks_nat();
    crate::rules_laws::lemma_chunks_pass();
    lemma_bypass_chunks_a();
    lemma_bypass_chunks_nat();
    lemma_bypass_chunks_filter();
    lemma_join_step(ls, 0);
    lemma_join_step(ls, 1);
    lemma_join_step(ls, 2);
    lemma_join_step(ls, 3);
    lemma_join_step(ls, 4);
    lemma_join_step(ls, 5);
    lemma_join_step(ls, 6);
    lemma_join_step(ls, 7);
    lemma_join_step(ls, 8);
    lemma_join_step(ls, 9);
    lemma_join_step(ls, 10);
    lemma_join_step(ls, 11);
    lemma_join_step(ls, 12);
    lemma_join_step(ls, 13);
    lemma_join_step(ls, 14);
    lemma_join_step(ls, 15);
    lemma_join_step(ls, 16);
    lemma_join_step(ls, 17);
    lemma_join_step(ls, 18);
    lemma_join_step(ls, 19);
    lemma_join_step(ls, 20);
    lemma_join_step(ls, 21);
    let d = dec(mss as nat);
    let t = ip_text(ip);
    let g = ip_text(gw);
    assert(ls.take(0) =~= Seq::<Seq<char>>::empty());
    assert(join_lines(ls.take(0)) == Seq::<char>::empty());
    let t1 = "# tunshare anchor body \u{2014} com.tunshare\n# VPN interface: "@ + vpn;
    crate::rules_laws::step_first(
        "# tunshare anchor body \u{2014} com.tunshare\n# VPN interface: "@,
        vpn,
        ls[0],
        "# VPN interface: "@,
        ls[1],
        join_lines(ls.take(1)),
    );
    let t2 = t1 + "\n# LAN interface: "@ + lan;
    crate::rules_laws::step_line(t1, join_lines(ls.take(1)), ls[1], "\n# LAN interface: "@, "# LAN interface: "@, lan, join_lines(ls.take(2)), ls[2]);
    let t3 = t2 + "\n\next_if = \""@ + vpn;
    crate::rules_laws::step_blank(t2, join_lines(ls.take(2)), ls[2], "\n\next_if = \""@, "ext_if = \""@, vpn, join_lines(ls.take(3)), join_lines(ls.take(4)));
    let t4 = t3 + "\"\nint_if = \""@ + lan;
    crate::rules_laws::step_quote(t3, join_lines(ls.take(4)), "ext_if = \""@, vpn, "\"\nint_if = \""@, "\""@, "int_if = \""@, lan, ls[4], join_lines(ls.take(5)));
    let t5 = t4 + "\"\n"@;
    step_eol(t4, join_lines(ls.take(5)), "int_if = \""@, lan, "\"\n"@, "\""@, ls[5], join_lines(ls.take(6)));
    let wm = "wan_if = \""@ + wan + "\"\nwan_gw = \""@ + g + "\"\n"@;
    let t6 = t5 + wm;
    step_wan(join_lines(ls.take(6)), wm, "wan_if = \""@, wan, "\"\nwan_gw = \""@, "wan_gw = \""@, g, "\"\n"@, "\""@, ls[6], ls[7], join_lines(ls.take(7)), join_lines(ls.take(8)));
    let tl = "table <tunshare_bypass> persist\n"@;
    let t7 = t6 + tl;
    step_table(t6, join_lines(ls.take(8)), tl, ls[8], join_lines(ls.take(9)));
    let c1 = "\nscrub in all no-df\nscrub in on $int_if inet proto tcp from $int_if:network "@;
    let c2 = "to ! <tunshare_bypass>"@;
    let c3 = " no-df max-mss "@;
    let t8 = t7 + c1 + c2 + c3 + d;
    crate::rules_laws::step_scrub(
        t7,
        join_lines(ls.take(9)),
        c1,
        c2,
        c3,
        ls[10],
        "scrub in on "@ + i + " inet proto tcp from "@ + i + ":network to ! <tunshare_bypass> no-df max-mss "@,
        d,
        join_lines(ls.take(10)),
        join_lines(ls.take(11)),
        ls[11],
    );
    let t9 = t8 + "\nscrub out on $ext_if inet proto tcp from ($ext_if) to any max-mss "@ + d;
    crate::rules_laws::step_line(
        t8,
        join_lines(ls.take(11)),
        ls[11],
        "\nscrub out on $ext_if inet proto tcp from ($ext_if) to any max-mss "@,
        "scrub out on "@ + e + " inet proto tcp from ("@ + e + ") to any max-mss "@,
        d,
        join_lines(ls.take(12)),
        ls[12],
    );
    let vn = "nat on $ext_if inet from $int_if:network to ! <tunshare_bypass> -> ($ext_if) static-port"@;
    let t10 = t9 + "\n"@ + vn;
    crate::rules_laws::step_nat(t9, join_lines(ls.take(12)), ls[12], "\n"@, vn, join_lines(ls.take(13)));
    let en = "nat on $wan_if inet from $int_if:network to <tunshare_bypass> -> ($wan_if) static-port\n"@;
    let c9 = "rdr on $int_if inet proto udp from $int_if:network to any port 53 -> "@;
    let t11 = t10 + "\n"@ + en + c9 + t;
    step_two_nats(t10, join_lines(ls.take(13)), ls[13], "\n"@, en, ls[14], c9, t, join_lines(ls.take(14)), join_lines(ls.take(15)));
    let t12 = t11 + "\nrdr on $int_if inet proto tcp from $int_if:network to any port 53 -> "@ + t;
    crate::rules_laws::step_line(
        t11,
        join_lines(ls.take(15)),
        ls[15],
        "\nrdr on $int_if inet proto tcp from $int_if:network to any port 53 -> "@,
        "rdr on "@ + i + " inet proto tcp from "@ + i + ":network to any port 53 -> "@,
        t,
        join_lines(ls.take(16)),
        ls[16],
    );
    let ef = "pass in quick on $int_if route-to ($wan_if $wan_gw) inet from $int_if:network to <tunshare_bypass> keep state\npass out quick on $wan_if inet from ($wan_if) to any keep state\n"@;
    let c11 = "pass quick on $int_if all keep state\npass out quick on $ext_if inet from ($ext_if) to any keep state\n"@;
    let t13 = t12 + "\n\n"@ + ef + c11;
    step_filters(t12, join_lines(ls.take(16)), ls[16], "\n\n"@, ef, c11, ls[18], ls[19], ls[20], ls[21], join_lines(ls.take(17)), join_lines(ls.take(18)), join_lines(ls.take(19)), join_lines(ls.take(20)), join_lines(ls.take(21)), join_lines(ls.take(22)));
    assert(ls.take(22) =~= ls);
    assert(rules_text(vpn, lan, ip, mss, Some((wan, gw))) == t13);
}

// ---------------------------------------------------------------------
// What characters the bypass lines hold
// ---------------------------------------------------------------------

/// The literal pieces that only the bypass body has: what they lack.
pub proof fn lemma_bypass_literal_chars()
    ensures
        forall|c: char|
            c == '\n' || c == '=' || c == '$' ==> lacks("table <tunshare_bypass> persist"@, c) && lacks(
                ":network to ! <tunshare_bypass> no-df max-mss "@,
                c,
            ) && lacks(":network to ! <tunshare_bypass> -> ("@, c) && lacks(
                ":network to <tunshare_bypass> -> ("@,
                c,
            ) && lacks("pass in quick on "@, c) && lacks(" route-to ("@, c) && lacks(" "@, c)
                && lacks(") inet from "@, c) && lacks(":network to <tunshare_bypass> keep state"@, c),
        lacks("wan_if = \""@, '\n'),
        lacks("wan_if = \""@, '$'),
        lacks("wan_if = \""@, '-'),
        lacks("wan_gw = \""@, '\n'),
        lacks("wan_gw = \""@, '$'),
        lacks("wan_gw = \""@, '-'),
        lacks("table <tunshare_bypass> persist"@, '-'),
{
    reveal_strlit("table <tunshare_bypass> persist");
    reveal_strlit(":network to ! <tunshare_bypass> no-df max-mss ");
    reveal_strlit(":network to ! <tunshare_bypass> -> (");
    reveal_strlit(":network to <tunshare_bypass> -> (");
    reveal_strlit("pass in quick on ");
    reveal_strlit(" route-to (");
    reveal_strlit(" ");
    reveal_strlit(") inet from ");
    reveal_strlit(":network to <tunshare_bypass> keep state");
    reveal_strlit("wan_if = \"");
    reveal_strlit("wan_gw = \"");
}

/// The ends of the literal pieces of the bypass lines.
pub proof fn lemma_bypass_literal_ends()
    ensures
        "wan_if = \""@.len() > 0,
        "wan_if = \""@[0] == 'w',
        "wan_gw = \""@.len() > 0,
        "wan_gw = \""@[0] == 'w',
        "table <tunshare_bypass> persist"@.len() > 0,
        "table <tunshare_bypass> persist"@[0] == 't',
        !is_ws("table <tunshare_bypass> persist"@.last()),
        "pass in quick on "@.len() > 0,
        "pass in quick on "@[0] == 'p',
        ":network to <tunshare_bypass> keep state"@.len() > 0,
        !is_ws(":network to <tunshare_bypass> keep state"@.last()),
{
    reveal_strlit("wan_if = \"");
    reveal_strlit("wan_gw = \"");
    reveal_strlit("table <tunshare_bypass> persist");
    reveal_strlit("pass in quick on ");
    reveal_strlit(":network to <tunshare_bypass> keep state");
}

/// The rule lines lack `c` when what stands for the macros, the
/// numbers and the names lack it.
#[verifier::spinoff_prover]
#[verifier::rlimit(60)]
pub proof fn lemma_bl_lack(
    vpn: Seq<char>,
    lan: Seq<char>,
    ip: Ipv4,
    mss: u16,
    wan: Seq<char>,
    gw: Ipv4,
    vals: Seq<Seq<char>>,
    c: char,
)
    requires
        c == '\n' || c == '=' || c == '$',
        vals.len() == 4,
        lacks(vpn, c),
        lacks(lan, c),
        lacks(vals[0], c),
        lacks(vals[1], c),
        lacks(vals[2], c),
        lacks(vals[3], c),
        lacks(dec(mss as nat), c),
        lacks(ip_text(ip), c),
    ensures
        forall|k: int|
            0 <= k < 22 && !(4 <= k <= 7) ==> lacks(
                #[trigger] bypass_lines(vpn, lan, ip, mss, wan, gw, vals)[k],
                c,
            ),
{
    lemma_bl_head(vpn, lan, ip, mss, wan, gw, vals);
    lemma_bl_mid(vpn, lan, ip, mss, wan, gw, vals);
    lemma_bl_rdr(vpn, lan, ip, mss, wan, gw, vals);
    lemma_bl_route(vpn, lan, ip, mss, wan, gw, vals);
    lemma_bl_pass(vpn, lan, ip, mss, wan, gw, vals);
    lemma_literal_chars();
    lemma_rule_literal_chars();
    lemma_bypass_literal_chars();
    let ls = bypass_lines(vpn, lan, ip, mss, wan, gw, vals);
    let d = dec(mss as nat);
    let t = ip_text(ip);
    let e = vals[0];
    let i = vals[1];
    let w = vals[2];
    let g = vals[3];
    assert(lacks(ls[1], c)) by {
        lemma_lacks_cat("# VPN interface: "@, vpn, c);
    }
    assert(lacks(ls[2], c)) by {
        lemma_lacks_cat("# LAN interface: "@, lan, c);
    }
    assert(lacks(ls[11], c)) by {
        lemma_lacks_cat("scrub in on "@, i, c);
        lemma_lacks_cat("scrub in on "@ + i, " inet proto tcp from "@, c);
        lemma_lacks_cat("scrub in on "@ + i + " inet proto tcp from "@, i, c);
        lemma_lacks_cat("scrub in on "@ + i + " inet proto tcp from "@ + i, ":network to ! <tunshare_bypass> no-df max-mss "@, c);
        lemma_lacks_cat("scrub in on "@ + i + " inet proto tcp from "@ + i + ":network to ! <tunshare_bypass> no-df max-mss "@, d, c);
    }
    assert(lacks(ls[12], c)) by {
        lemma_lacks_cat("scrub out on "@, e, c);
        lemma_lacks_cat("scrub out on "@ + e, " inet proto tcp from ("@, c);
        lemma_lacks_cat("scrub out on "@ + e + " inet proto tcp from ("@, e, c);
        lemma_lacks_cat("scrub out on "@ + e + " inet proto tcp from ("@ + e, ") to any max-mss "@, c);
        lemma_lacks_cat("scrub out on "@ + e + " inet proto tcp from ("@ + e + ") to any max-mss "@, d, c);
    }
    assert(lacks(ls[13], c)) by {
        lemma_lacks_cat("nat on "@, e, c);
        lemma_lacks_cat("nat on "@ + e, " inet from "@, c);
        lemma_lacks_cat("nat on "@ + e + " inet from "@, i, c);
        lemma_lacks_cat("nat on "@ + e + " inet from "@ + i, ":network to ! <tunshare_bypass> -> ("@, c);
        lemma_lacks_cat("nat on "@ + e + " inet from "@ + i + ":network to ! <tunshare_bypass> -> ("@, e, c);
        lemma_lacks_cat("nat on "@ + e + " inet from "@ + i + ":network to ! <tunshare_bypass> -> ("@ + e, ") static-port"@, c);
    }
    assert(lacks(ls[14], c)) by {
        lemma_lacks_cat("nat on "@, w, c);
        lemma_lacks_cat("nat on "@ + w, " inet from "@, c);
        lemma_lacks_cat("nat on "@ + w + " inet from "@, i, c);
        lemma_lacks_cat("nat on "@ + w + " inet from "@ + i, ":network to <tunshare_bypass> -> ("@, c);
        lemma_lacks_cat("nat on "@ + w + " inet from "@ + i + ":network to <tunshare_bypass> -> ("@, w, c);
        lemma_lacks_cat("nat on "@ + w + " inet from "@ + i + ":network to <tunshare_bypass> -> ("@ + w, ") static-port"@, c);
    }
    assert(lacks(ls[15], c)) by {
        lemma_lacks_cat("rdr on "@, i, c);
        lemma_lacks_cat("rdr on "@ + i, " inet proto udp from "@, c);
        lemma_lacks_cat("rdr on "@ + i + " inet proto udp from "@, i, c);
        lemma_lacks_cat("rdr on "@ + i + " inet proto udp from "@ + i, ":network to any port 53 -> "@, c);
        lemma_lacks_cat("rdr on "@ + i + " inet proto udp from "@ + i + ":network to any port 53 -> "@, t, c);
    }
    assert(lacks(ls[16], c)) by {
        lemma_lacks_cat("rdr on "@, i, c);
        lemma_lacks_cat("rdr on "@ + i, " inet proto tcp from "@, c);
        lemma_lacks_cat("rdr on "@ + i + " inet proto tcp from "@, i, c);
        lemma_lacks_cat("rdr on "@ + i + " inet proto tcp from "@ + i, ":network to any port 53 -> "@, c);
        lemma_lacks_cat("rdr on "@ + i + " inet proto tcp from "@ + i + ":network to any port 53 -> "@, t, c);
    }
    assert(lacks(ls[18], c)) by {
        lemma_lacks_cat("pass in quick on "@, i, c);
        lemma_lacks_cat("pass in quick on "@ + i, " route-to ("@, c);
        lemma_lacks_cat("pass in quick on "@ + i + " route-to ("@, w, c);
        lemma_lacks_cat("pass in quick on "@ + i + " route-to ("@ + w, " "@, c);
        lemma_lacks_cat("pass in quick on "@ + i + " route-to ("@ + w + " "@, g, c);
        lemma_lacks_cat("pass in quick on "@ + i + " route-to ("@ + w + " "@ + g, ") inet from "@, c);
        lemma_lacks_cat("pass in quick on "@ + i + " route-to ("@ + w + " "@ + g + ") inet from "@, i, c);
        lemma_lacks_cat("pass in quick on "@ + i + " route-to ("@ + w + " "@ + g + ") inet from "@ + i, ":network to <tunshare_bypass> keep state"@, c);
    }
    assert(lacks(ls[19], c)) by {
        lemma_lacks_cat("pass out quick on "@, w, c);
        lemma_lacks_cat("pass out quick on "@ + w, " inet from ("@, c);
        lemma_lacks_cat("pass out quick on "@ + w + " inet from ("@, w, c);
        lemma_lacks_cat("pass out quick on "@ + w + " inet from ("@ + w, ") to any keep state"@, c);
    }
    assert(lacks(ls[20], c)) by {
        lemma_lacks_cat("pass quick on "@, i, c);
        lemma_lacks_cat("pass quick on "@ + i, " all keep state"@, c);
    }
    assert(lacks(ls[21], c)) by {
        lemma_lacks_cat("pass out quick on "@, e, c);
        lemma_lacks_cat("pass out quick on "@ + e, " inet from ("@, c);
        lemma_lacks_cat("pass out quick on "@ + e + " inet from ("@, e, c);
        lemma_lacks_cat("pass out quick on "@ + e + " inet from ("@ + e, ") to any keep state"@, c);
    }
    assert forall|k: int|
        0 <= k < 22 && !(4 <= k <= 7) implies lacks(#[trigger] bypass_lines(vpn, lan, ip, mss, wan, gw, vals)[k], c) by {
        if k == 0 || k == 3 || k == 8 || k == 9 || k == 10 || k == 17 {
        }
    }
}

/// Every bypass line is a whole line and its own trim.
#[verifier::spinoff_prover]
#[verifier::rlimit(60)]
pub proof fn lemma_bl_clean(
    vpn: Seq<char>,
    lan: Seq<char>,
    ip: Ipv4,
    mss: u16,
    wan: Seq<char>,
    gw: Ipv4,
    vals: Seq<Seq<char>>,
)
    requires
        iface_name(vpn),
        iface_name(lan),
        iface_name(wan),
        vals.len() == 4,
        lacks(vals[0], '\n'),
        lacks(vals[1], '\n'),
        lacks(vals[2], '\n'),
        lacks(vals[3], '\n'),
    ensures
        forall|k: int|
            0 <= k < 22 ==> one_line(#[trigger] bypass_lines(vpn, lan, ip, mss, wan, gw, vals)[k])
                && trim(bypass_lines(vpn, lan, ip, mss, wan, gw, vals)[k]) == bypass_lines(
                vpn,
                lan,
                ip,
                mss,
                wan,
                gw,
                vals,
            )[k],
{
    lemma_name_chars(vpn);
    lemma_name_chars(lan);
    lemma_name_chars(wan);
    lemma_number_chars(mss, ip);
    lemma_number_chars(0, gw);
    lemma_bl_lack(vpn, lan, ip, mss, wan, gw, vals, '\n');
    lemma_bl_head(vpn, lan, ip, mss, wan, gw, vals);
    lemma_bl_mid(vpn, lan, ip, mss, wan, gw, vals);
    lemma_bl_rdr(vpn, lan, ip, mss, wan, gw, vals);
    lemma_bl_route(vpn, lan, ip, mss, wan, gw, vals);
    lemma_bl_pass(vpn, lan, ip, mss, wan, gw, vals);
    lemma_literal_chars();
    lemma_literal_ends();
    lemma_bypass_literal_chars();
    lemma_bypass_literal_ends();
    let ls = bypass_lines(vpn, lan, ip, mss, wan, gw, vals);
    let g = ip_text(gw);
    assert(lacks(ls[4], '\n')) by {
        lemma_lacks_cat("ext_if = \""@, vpn, '\n');
        lemma_lacks_cat("ext_if = \""@ + vpn, "\""@, '\n');
    }
    assert(lacks(ls[5], '\n')) by {
        lemma_lacks_cat("int_if = \""@, lan, '\n');
        lemma_lacks_cat("int_if = \""@ + lan, "\""@, '\n');
    }
    assert(lacks(ls[6], '\n')) by {
        lemma_lacks_cat("wan_if = \""@, wan, '\n');
        lemma_lacks_cat("wan_if = \""@ + wan, "\""@, '\n');
    }
    assert(lacks(ls[7], '\n')) by {
        lemma_lacks_cat("wan_gw = \""@, g, '\n');
        lemma_lacks_cat("wan_gw = \""@ + g, "\""@, '\n');
    }
    assert(is_ws('\r'));
    assert forall|k: int| 0 <= k < 22 implies one_line(#[trigger] bypass_lines(vpn, lan, ip, mss, wan, gw, vals)[k])
        && trim(bypass_lines(vpn, lan, ip, mss, wan, gw, vals)[k]) == bypass_lines(vpn, lan, ip, mss, wan, gw, vals)[k] by {
        let l = ls[k];
        assert(lacks(l, '\n'));
        let d = dec(mss as nat);
        let t = ip_text(ip);
        if k == 1 {
            assert(l[0] == '#' && l.last() == vpn.last());
        } else if k == 2 {
            assert(l[0] == '#' && l.last() == lan.last());
        } else if 4 <= k <= 7 {
            assert(l.last() == '"');
        } else if k == 11 || k == 12 {
            assert(l.last() == d.last());
        } else if k == 15 || k == 16 {
            assert(l.last() == t.last());
        }
        assert(l.len() == 0 || (!is_ws(l[0]) && !is_ws(l.last())));
        lemma_trim_fixed(l);
    }
}

// ---------------------------------------------------------------------
// The macro definitions
// ---------------------------------------------------------------------

/// Splitting the WAN macro definitions at the name.
pub proof fn lemma_wan_macro_literals()
    ensures
        "wan_if = \""@ == "wan_if"@ + " = \""@,
        "wan_gw = \""@ == "wan_gw"@ + " = \""@,
        "wan_if"@.len() > 0,
        no_ws("wan_if"@),
        lacks("wan_if"@, '='),
        "wan_gw"@.len() > 0,
        no_ws("wan_gw"@),
        lacks("wan_gw"@, '='),
        !has_char("wan_if"@, ' '),
        !has_char("wan_gw"@, ' '),
        seq!['$'] + "wan_if"@ == wan_macro(),
        seq!['$'] + "wan_gw"@ == gw_macro(),
        "wan_if"@ != "wan_gw"@,
{
    reveal_strlit("wan_if = \"");
    reveal_strlit("wan_gw = \"");
    reveal_strlit("wan_if");
    reveal_strlit("wan_gw");
    reveal_strlit(" = \"");
    reveal_strlit("$wan_if");
    reveal_strlit("$wan_gw");
    assert("wan_if = \""@ =~= "wan_if"@ + " = \""@);
    assert("wan_gw = \""@ =~= "wan_gw"@ + " = \""@);
    assert(seq!['$'] + "wan_if"@ =~= wan_macro());
    assert(seq!['$'] + "wan_gw"@ =~= gw_macro());
    assert("wan_if"@[4] != "wan_gw"@[4]);
    lemma_lacks_char("wan_if"@, seq![' '], 0);
    lemma_lacks_char("wan_gw"@, seq![' '], 0);
}

/// What each line of the written body defines.
#[verifier::spinoff_prover]
#[verifier::rlimit(60)]
pub proof fn lemma_bypass_macro_lines(vpn: Seq<char>, lan: Seq<char>, ip: Ipv4, mss: u16, wan: Seq<char>, gw: Ipv4)
    requires
        iface_name(vpn),
        iface_name(lan),
        iface_name(wan),
    ensures
        macro_of(bypass_lines(vpn, lan, ip, mss, wan, gw, written())[4]) == Some(("ext_if"@, vpn)),
        macro_of(bypass_lines(vpn, lan, ip, mss, wan, gw, written())[5]) == Some(("int_if"@, lan)),
        macro_of(bypass_lines(vpn, lan, ip, mss, wan, gw, written())[6]) == Some(("wan_if"@, wan)),
        macro_of(bypass_lines(vpn, lan, ip, mss, wan, gw, written())[7]) == Some(
            ("wan_gw"@, ip_text(gw)),
        ),
        forall|k: int|
            0 <= k < 22 && !(4 <= k <= 7) ==> macro_of(
                #[trigger] bypass_lines(vpn, lan, ip, mss, wan, gw, written())[k],
            ) is None,
{
    let vals = written();
    let ls = bypass_lines(vpn, lan, ip, mss, wan, gw, vals);
    lemma_name_chars(vpn);
    lemma_name_chars(lan);
    lemma_name_chars(wan);
    lemma_number_chars(mss, ip);
    lemma_number_chars(0, gw);
    reveal_strlit("$ext_if");
    reveal_strlit("$int_if");
    reveal_strlit("$wan_if");
    reveal_strlit("$wan_gw");
    assert(lacks(vals[0], '=') && lacks(vals[1], '=') && lacks(vals[2], '=') && lacks(vals[3], '='));
    assert(lacks(vals[0], '\n') && lacks(vals[1], '\n') && lacks(vals[2], '\n') && lacks(vals[3], '\n'));
    lemma_bl_lack(vpn, lan, ip, mss, wan, gw, vals, '=');
    lemma_bl_clean(vpn, lan, ip, mss, wan, gw, vals);
    lemma_bl_head(vpn, lan, ip, mss, wan, gw, vals);
    crate::rules_laws::lemma_macro_literals();
    lemma_wan_macro_literals();
    lemma_macro_line("ext_if"@, vpn);
    lemma_macro_line("int_if"@, lan);
    lemma_macro_line("wan_if"@, wan);
    lemma_macro_line("wan_gw"@, ip_text(gw));
    assert(ls[4] == "ext_if"@ + " = \""@ + vpn + "\""@);
    assert(ls[5] == "int_if"@ + " = \""@ + lan + "\""@);
    assert(ls[6] == "wan_if"@ + " = \""@ + wan + "\""@);
    assert(ls[7] == "wan_gw"@ + " = \""@ + ip_text(gw) + "\""@);
    assert forall|k: int| 0 <= k < 22 && !(4 <= k <= 7) implies macro_of(#[trigger] ls[k]) is None by {
        lemma_no_macro(ls[k]);
    }
}

/// The macro lines of the written body define the four macros, and
/// nothing else.
#[verifier::spinoff_prover]
#[verifier::rlimit(60)]
pub proof fn lemma_bypass_macros(vpn: Seq<char>, lan: Seq<char>, ip: Ipv4, mss: u16, wan: Seq<char>, gw: Ipv4, pf: PfSpec)
    requires
        iface_name(vpn),
        iface_name(lan),
        iface_name(wan),
        pf.vpn is None,
        pf.lan is None,
        pf.wan is None,
        pf.wan_gw is None,
    ensures
        macros_fold(pf, bypass_lines(vpn, lan, ip, mss, wan, gw, written())) == (PfSpec {
            vpn: Some(vpn),
            lan: Some(lan),
            wan: Some(wan),
            wan_gw: Some(gw),
            ..pf
        }),
{
    let ls = bypass_lines(vpn, lan, ip, mss, wan, gw, written());
    lemma_bypass_macro_lines(vpn, lan, ip, mss, wan, gw);
    lemma_bl_head(vpn, lan, ip, mss, wan, gw, written());
    crate::rules_laws::lemma_macro_literals();
    lemma_wan_macro_literals();
    lemma_name_chars(vpn);
    lemma_name_chars(lan);
    lemma_name_chars(wan);
    lemma_lacks_char("ext_if"@, seq![' '], 0);
    lemma_lacks_char("int_if"@, seq![' '], 0);
    lemma_parse_ip_text(gw);
    lemma_number_chars(0, gw);
    let pf1 = PfSpec { vpn: Some(vpn), ..pf };
    let pf2 = PfSpec { lan: Some(lan), ..pf1 };
    let pf3 = PfSpec { wan: Some(wan), ..pf2 };
    let pf4 = PfSpec { wan_gw: Some(gw), ..pf3 };
    assert(ls.take(0) =~= Seq::<Seq<char>>::empty());
    lemma_take_step(ls, 0);
    lemma_take_step(ls, 1);
    lemma_take_step(ls, 2);
    lemma_take_step(ls, 3);
    lemma_take_step(ls, 4);
    lemma_take_step(ls, 5);
    lemma_take_step(ls, 6);
    lemma_take_step(ls, 7);
    lemma_take_step(ls, 8);
    lemma_take_step(ls, 9);
    lemma_take_step(ls, 10);
    lemma_take_step(ls, 11);
    lemma_take_step(ls, 12);
    lemma_take_step(ls, 13);
    lemma_take_step(ls, 14);
    lemma_take_step(ls, 15);
    lemma_take_step(ls, 16);
    lemma_take_step(ls, 17);
    lemma_take_step(ls, 18);
    lemma_take_step(ls, 19);
    lemma_take_step(ls, 20);
    lemma_take_step(ls, 21);
    assert(macros_fold(pf, ls.take(0)) == pf);
    assert(macros_fold(pf, ls.take(1)) == pf);
    assert(macros_fold(pf, ls.take(2)) == pf);
    assert(macros_fold(pf, ls.take(3)) == pf);
    assert(macros_fold(pf, ls.take(4)) == pf);
    assert(macros_fold(pf, ls.take(5)) == pf1);
    assert(macros_fold(pf, ls.take(6)) == pf2);
    assert(macros_fold(pf, ls.take(7)) == pf3);
    assert(macros_fold(pf, ls.take(8)) == pf4);
    assert(macros_fold(pf, ls.take(9)) == pf4);
    assert(macros_fold(pf, ls.take(10)) == pf4);
    assert(macros_fold(pf, ls.take(11)) == pf4);
    assert(macros_fold(pf, ls.take(12)) == pf4);
    assert(macros_fold(pf, ls.take(13)) == pf4);
    assert(macros_fold(pf, ls.take(14)) == pf4);
    assert(macros_fold(pf, ls.take(15)) == pf4);
    assert(macros_fold(pf, ls.take(16)) == pf4);
    assert(macros_fold(pf, ls.take(17)) == pf4);
    assert(macros_fold(pf, ls.take(18)) == pf4);
    assert(macros_fold(pf, ls.take(19)) == pf4);
    assert(macros_fold(pf, ls.take(20)) == pf4);
    assert(macros_fold(pf, ls.take(21)) == pf4);
    assert(macros_fold(pf, ls.take(22)) == pf4);
    assert(ls.take(22) =~= ls);
}

/// The macro lines of the written body substitute the four macros, in
/// the order they are defined.
#[verifier::spinoff_prover]
#[verifier::rlimit(60)]
pub proof fn lemma_bypass_expand(vpn: Seq<char>, lan: Seq<char>, ip: Ipv4, mss: u16, wan: Seq<char>, gw: Ipv4, out: Seq<char>)
    requires
        iface_name(vpn),
        iface_name(lan),
        iface_name(wan),
    ensures
        expand_fold(out, bypass_lines(vpn, lan, ip, mss, wan, gw, written())) == replace(
            replace(replace(replace(out, "$ext_if"@, vpn), "$int_if"@, lan), wan_macro(), wan),
            gw_macro(),
            ip_text(gw),
        ),
{
    let ls = bypass_lines(vpn, lan, ip, mss, wan, gw, written());
    lemma_bypass_macro_lines(vpn, lan, ip, mss, wan, gw);
    crate::rules_laws::lemma_macro_literals();
    lemma_wan_macro_literals();
    lemma_name_chars(vpn);
    lemma_name_chars(lan);
    lemma_name_chars(wan);
    lemma_lacks_char("ext_if"@, seq![' '], 0);
    lemma_lacks_char("int_if"@, seq![' '], 0);
    lemma_number_chars(0, gw);
    let o1 = replace(out, "$ext_if"@, vpn);
    let o2 = replace(o1, "$int_if"@, lan);
    let o3 = replace(o2, wan_macro(), wan);
    let o4 = replace(o3, gw_macro(), ip_text(gw));
    assert(ls.take(0) =~= Seq::<Seq<char>>::empty());
    lemma_take_step(ls, 0);
    lemma_take_step(ls, 1);
    lemma_take_step(ls, 2);
    lemma_take_step(ls, 3);
    lemma_take_step(ls, 4);
    lemma_take_step(ls, 5);
    lemma_take_step(ls, 6);
    lemma_take_step(ls, 7);
    lemma_take_step(ls, 8);
    lemma_take_step(ls, 9);
    lemma_take_step(ls, 10);
    lemma_take_step(ls, 11);
    lemma_take_step(ls, 12);
    lemma_take_step(ls, 13);
    lemma_take_step(ls, 14);
    lemma_take_step(ls, 15);
    lemma_take_step(ls, 16);
    lemma_take_step(ls, 17);
    lemma_take_step(ls, 18);
    lemma_take_step(ls, 19);
    lemma_take_step(ls, 20);
    lemma_take_step(ls, 21);
    assert(expand_fold(out, ls.take(0)) == out);
    assert(expand_fold(out, ls.take(1)) == out);
    assert(expand_fold(out, ls.take(2)) == out);
    assert(expand_fold(out, ls.take(3)) == out);
    assert(expand_fold(out, ls.take(4)) == out);
    assert(expand_fold(out, ls.take(5)) == o1);
    assert(expand_fold(out, ls.take(6)) == o2);
    assert(expand_fold(out, ls.take(7)) == o3);
    assert(expand_fold(out, ls.take(8)) == o4);
    assert(expand_fold(out, ls.take(9)) == o4);
    assert(expand_fold(out, ls.take(10)) == o4);
    assert(expand_fold(out, ls.take(11)) == o4);
    assert(expand_fold(out, ls.take(12)) == o4);
    assert(expand_fold(out, ls.take(13)) == o4);
    assert(expand_fold(out, ls.take(14)) == o4);
    assert(expand_fold(out, ls.take(15)) == o4);
    assert(expand_fold(out, ls.take(16)) == o4);
    assert(expand_fold(out, ls.take(17)) == o4);
    assert(expand_fold(out, ls.take(18)) == o4);
    assert(expand_fold(out, ls.take(19)) == o4);
    assert(expand_fold(out, ls.take(20)) == o4);
    assert(expand_fold(out, ls.take(21)) == o4);
    assert(expand_fold(out, ls.take(22)) == o4);
    assert(ls.take(22) =~= ls);
}

// ---------------------------------------------------------------------
// Substituting the macros
// ---------------------------------------------------------------------

/// Every line's pieces are literal text without `$` or one of the four
/// macros.
#[verifier::spinoff_prover]
#[verifier::rlimit(60)]
pub proof fn lemma_bypass_slotted(vpn: Seq<char>, lan: Seq<char>, ip: Ipv4, mss: u16, wan: Seq<char>, gw: Ipv4)
    requires
        iface_name(vpn),
        iface_name(lan),
        iface_name(wan),
    ensures
        forall|k: int| 0 <= k < 22 ==> slotted(#[trigger] bypass_pieces_of(vpn, lan, ip, mss, wan, gw)[k], 4),
{
    lemma_name_chars(vpn);
    lemma_name_chars(lan);
    lemma_name_chars(wan);
    lemma_number_chars(mss, ip);
    lemma_number_chars(0, gw);
    lemma_literal_chars();
    lemma_rule_literal_chars();
    lemma_bypass_literal_chars();
    let ps = bypass_pieces_of(vpn, lan, ip, mss, wan, gw);
    lemma_lacks_cat("# VPN interface: "@, vpn, '$');
    lemma_lacks_cat("# LAN interface: "@, lan, '$');
    lemma_lacks_cat("ext_if = \""@, vpn, '$');
    lemma_lacks_cat("ext_if = \""@ + vpn, "\""@, '$');
    lemma_lacks_cat("int_if = \""@, lan, '$');
    lemma_lacks_cat("int_if = \""@ + lan, "\""@, '$');
    lemma_lacks_cat("wan_if = \""@, wan, '$');
    lemma_lacks_cat("wan_if = \""@ + wan, "\""@, '$');
    lemma_lacks_cat("wan_gw = \""@, ip_text(gw), '$');
    lemma_lacks_cat("wan_gw = \""@ + ip_text(gw), "\""@, '$');
    lemma_lacks_cat(":network to ! <tunshare_bypass> no-df max-mss "@, dec(mss as nat), '$');
    lemma_lacks_cat(") to any max-mss "@, dec(mss as nat), '$');
    lemma_lacks_cat(":network to any port 53 -> "@, ip_text(ip), '$');
    assert forall|k: int| 0 <= k < 22 implies slotted(#[trigger] bypass_pieces_of(vpn, lan, ip, mss, wan, gw)[k], 4) by {
        let q = ps[k];
        assert forall|j: int| 0 <= j < q.len() implies match #[trigger] q[j] {
            Slot::Lit(t) => no_dollar(t),
            Slot::Mac(m) => 0 <= m < 4,
        } by {
            if let Slot::Lit(t) = q[j] {
                assert(lacks(t, '$'));
            }
        }
    }
}

/// The four macros as written: one `$` each, at the front, all
/// different and of one length.
pub proof fn lemma_written_macros_shape()
    ensures
        written().len() == 4,
        forall|j: int| 0 <= j < 4 ==> (#[trigger] written()[j]).len() == 7 && written()[j][0] == '$'
            && no_dollar(written()[j].drop_first()) && lacks(written()[j], '\n'),
        forall|j: int, l: int| 0 <= j < 4 && 0 <= l < 4 && j != l ==> #[trigger] written()[j] != #[trigger] written()[l],
{
    reveal_strlit("$ext_if");
    reveal_strlit("$int_if");
    reveal_strlit("$wan_if");
    reveal_strlit("$wan_gw");
    let w = written();
    assert(w[0][1] != w[1][1] && w[0][1] != w[2][1] && w[0][1] != w[3][1]);
    assert(w[1][1] != w[2][1] && w[1][1] != w[3][1]);
    assert(w[2][5] != w[3][5]);
}

/// One substitution step over all the lines: the macro in slot `j` is
/// replaced by `v` in every line.
pub proof fn lemma_bypass_subst_step(
    vpn: Seq<char>,
    lan: Seq<char>,
    ip: Ipv4,
    mss: u16,
    wan: Seq<char>,
    gw: Ipv4,
    vals: Seq<Seq<char>>,
    j: int,
    v: Seq<char>,
)
    requires
        iface_name(vpn),
        iface_name(lan),
        iface_name(wan),
        vals.len() == 4,
        0 <= j < 4,
        vals[j].len() > 0,
        vals[j][0] == '$',
        lacks(vals[j], '\n'),
        forall|l: int| 0 <= l < 4 && l != j ==> no_start(#[trigger] vals[l], vals[j]),
    ensures
        replace(join_lines(bypass_lines(vpn, lan, ip, mss, wan, gw, vals)), vals[j], v) == join_lines(
            bypass_lines(vpn, lan, ip, mss, wan, gw, vals.update(j, v)),
        ),
{
    let ps = bypass_pieces_of(vpn, lan, ip, mss, wan, gw);
    let ls = bypass_lines(vpn, lan, ip, mss, wan, gw, vals);
    let ls2 = bypass_lines(vpn, lan, ip, mss, wan, gw, vals.update(j, v));
    let m = vals[j];
    lemma_bypass_slotted(vpn, lan, ip, mss, wan, gw);
    assert forall|i: int| 0 <= i < m.len() implies m[i] != '\n' by {
        assert(lacks(m, '\n'));
    }
    lemma_replace_join(ls, m, v);
    let m1 = ls.map_values(|l: Seq<char>| replace(l, m, v));
    assert forall|k: int| 0 <= k < m1.len() implies #[trigger] m1[k] == ls2[k] by {
        lemma_slot_subst(ps[k], vals, j, v);
    }
    assert(m1 =~= ls2);
}

/// The written body with all four macros substituted is the lines with
/// the values in their place, joined.
pub proof fn lemma_bypass_expanded_text(vpn: Seq<char>, lan: Seq<char>, ip: Ipv4, mss: u16, wan: Seq<char>, gw: Ipv4)
    requires
        iface_name(vpn),
        iface_name(lan),
        iface_name(wan),
    ensures
        replace(
            replace(
                replace(
                    replace(join_lines(bypass_lines(vpn, lan, ip, mss, wan, gw, written())), "$ext_if"@, vpn),
                    "$int_if"@,
                    lan,
                ),
                wan_macro(),
                wan,
            ),
            gw_macro(),
            ip_text(gw),
        ) == join_lines(bypass_lines(vpn, lan, ip, mss, wan, gw, seq![vpn, lan, wan, ip_text(gw)])),
{
    let w = written();
    let g = ip_text(gw);
    lemma_written_macros_shape();
    lemma_name_chars(vpn);
    lemma_name_chars(lan);
    lemma_name_chars(wan);
    lemma_number_chars(0, gw);
    let v1 = w.update(0, vpn);
    let v2 = v1.update(1, lan);
    let v3 = v2.update(2, wan);
    let v4 = v3.update(3, g);
    // Substituting the external interface.
    assert forall|l: int| 0 <= l < 4 && l != 0 implies no_start(#[trigger] w[l], w[0]) by {
        lemma_no_start_macro(w[l], w[0]);
    }
    lemma_bypass_subst_step(vpn, lan, ip, mss, wan, gw, w, 0, vpn);
    // The internal interface.
    assert forall|l: int| 0 <= l < 4 && l != 1 implies no_start(#[trigger] v1[l], v1[1]) by {
        if l == 0 {
            lemma_no_start_plain(vpn, w[1]);
        } else {
            lemma_no_start_macro(w[l], w[1]);
        }
    }
    lemma_bypass_subst_step(vpn, lan, ip, mss, wan, gw, v1, 1, lan);
    // The WAN interface.
    assert forall|l: int| 0 <= l < 4 && l != 2 implies no_start(#[trigger] v2[l], v2[2]) by {
        if l == 0 {
            lemma_no_start_plain(vpn, w[2]);
        } else if l == 1 {
            lemma_no_start_plain(lan, w[2]);
        } else {
            lemma_no_start_macro(w[l], w[2]);
        }
    }
    lemma_bypass_subst_step(vpn, lan, ip, mss, wan, gw, v2, 2, wan);
    // The WAN gateway.
    assert forall|l: int| 0 <= l < 4 && l != 3 implies no_start(#[trigger] v3[l], v3[3]) by {
        if l == 0 {
            lemma_no_start_plain(vpn, w[3]);
        } else if l == 1 {
            lemma_no_start_plain(lan, w[3]);
        } else {
            lemma_no_start_plain(wan, w[3]);
        }
    }
    lemma_bypass_subst_step(vpn, lan, ip, mss, wan, gw, v3, 3, g);
    assert(v4 =~= seq![vpn, lan, wan, g]);
}

// ---------------------------------------------------------------------
// Reading the expanded body
// ---------------------------------------------------------------------

/// The values that stand for the four macros once expanded.
pub open spec fn expanded_vals(vpn: Seq<char>, lan: Seq<char>, wan: Seq<char>, gw: Ipv4) -> Seq<Seq<char>> {
    seq![vpn, lan, wan, ip_text(gw)]
}

/// Every `-` in `s` is followed by something other than `t`.
pub open spec fn dash_ok(s: Seq<char>) -> bool {
    forall|i: int| 0 <= i < s.len() && #[trigger] s[i] == '-' ==> i + 1 < s.len() && s[i + 1] != 't'
}

/// Joining keeps it fine.
pub proof fn lemma_dash_ok_cat(a: Seq<char>, b: Seq<char>)
    requires
        dash_ok(a),
        dash_ok(b),
    ensures
        dash_ok(a + b),
{
    assert forall|i: int| 0 <= i < (a + b).len() && #[trigger] (a + b)[i] == '-' implies i + 1 < (a + b).len()
        && (a + b)[i + 1] != 't' by {
        if i < a.len() {
            assert(a[i] == '-');
        } else {
            assert(b[i - a.len()] == '-');
        }
    }
}

/// Such a text names no `route-to`.
pub proof fn lemma_dash_ok_no_route(s: Seq<char>)
    requires
        dash_ok(s),
    ensures
        !contains(s, "route-to"@),
{
    reveal_strlit("route-to");
    let p = "route-to"@;
    lemma_find_result(s, p);
    match find(s, p) {
        Some(i) => {
            let i = i as int;
            assert(s.subrange(i, i + 8)[5] == s[i + 5]);
            assert(s.subrange(i, i + 8)[6] == s[i + 6]);
        },
        None => {},
    }
}

/// The inbound scrub literal of the bypass body is fine.
pub proof fn lemma_scrub_literal_dash()
    ensures
        dash_ok(":network to ! <tunshare_bypass> no-df max-mss "@),
{
    reveal_strlit(":network to ! <tunshare_bypass> no-df max-mss ");
    let s = ":network to ! <tunshare_bypass> no-df max-mss "@;
    assert forall|i: int| 0 <= i < s.len() && #[trigger] s[i] == '-' implies i + 1 < s.len() && s[i + 1] != 't' by {
        assert(i == 34 || i == 41);
    }
}

/// The inbound scrub line of the expanded body changes nothing.
#[verifier::spinoff_prover]
#[verifier::rlimit(60)]
pub proof fn lemma_scrub_line(vpn: Seq<char>, lan: Seq<char>, ip: Ipv4, mss: u16, wan: Seq<char>, gw: Ipv4)
    requires
        iface_name(vpn),
        iface_name(lan),
        iface_name(wan),
    ensures
        forall|q: PfSpec| #[trigger] body_step(q, bypass_lines(vpn, lan, ip, mss, wan, gw, expanded_vals(vpn, lan, wan, gw))[11]) == q,
{
    let vs = expanded_vals(vpn, lan, wan, gw);
    let ls = bypass_lines(vpn, lan, ip, mss, wan, gw, vs);
    lemma_name_chars(vpn);
    lemma_name_chars(lan);
    lemma_name_chars(wan);
    lemma_number_chars(mss, ip);
    lemma_number_chars(0, gw);
    lemma_bl_mid(vpn, lan, ip, mss, wan, gw, vs);
    lemma_bl_clean(vpn, lan, ip, mss, wan, gw, vs);
    lemma_rule_literal_chars();
    lemma_literal_ends();
    lemma_rule_words();
    reveal_strlit("scrub in on ");
    reveal_strlit(" inet proto tcp from ");
    let l = ls[11];
    let d = dec(mss as nat);
    lemma_scrub_literal_dash();
    assert(lacks("scrub in on "@, '-'));
    assert(lacks(" inet proto tcp from "@, '-'));
    lemma_dash_ok_cat("scrub in on "@, lan);
    lemma_dash_ok_cat("scrub in on "@ + lan, " inet proto tcp from "@);
    lemma_dash_ok_cat("scrub in on "@ + lan + " inet proto tcp from "@, lan);
    lemma_dash_ok_cat("scrub in on "@ + lan + " inet proto tcp from "@ + lan, ":network to ! <tunshare_bypass> no-df max-mss "@);
    lemma_dash_ok_cat("scrub in on "@ + lan + " inet proto tcp from "@ + lan + ":network to ! <tunshare_bypass> no-df max-mss "@, d);
    lemma_dash_ok_no_route(l);
    assert(l[0] == 's');
    lemma_not_prefix(l, "rdr "@, 0);
    reveal_strlit("nat on ");
    lemma_not_prefix(l, "nat on "@, 0);
}

/// The lines of the expanded body that are not rules of sharing's
/// bypass, NAT or redirects change nothing.
#[verifier::spinoff_prover]
#[verifier::rlimit(60)]
pub proof fn lemma_bypass_plain_lines(vpn: Seq<char>, lan: Seq<char>, ip: Ipv4, mss: u16, wan: Seq<char>, gw: Ipv4)
    requires
        iface_name(vpn),
        iface_name(lan),
        iface_name(wan),
    ensures
        forall|k: int, q: PfSpec|
            (0 <= k <= 12 || k == 17 || 19 <= k <= 21) ==> #[trigger] body_step(
                q,
                bypass_lines(vpn, lan, ip, mss, wan, gw, expanded_vals(vpn, lan, wan, gw))[k],
            ) == q,
{
    let vs = expanded_vals(vpn, lan, wan, gw);
    let ls = bypass_lines(vpn, lan, ip, mss, wan, gw, vs);
    let g = ip_text(gw);
    lemma_name_chars(vpn);
    lemma_name_chars(lan);
    lemma_name_chars(wan);
    lemma_number_chars(mss, ip);
    lemma_number_chars(0, gw);
    lemma_bl_head(vpn, lan, ip, mss, wan, gw, vs);
    lemma_bl_mid(vpn, lan, ip, mss, wan, gw, vs);
    lemma_bl_pass(vpn, lan, ip, mss, wan, gw, vs);
    lemma_bl_clean(vpn, lan, ip, mss, wan, gw, vs);
    lemma_literal_chars();
    lemma_rule_literal_chars();
    lemma_literal_ends();
    lemma_bypass_literal_chars();
    lemma_bypass_literal_ends();
    lemma_scrub_line(vpn, lan, ip, mss, wan, gw);
    assert(lacks(ls[1], '_')) by {
        lemma_lacks_cat("# VPN interface: "@, vpn, '_');
    }
    assert(lacks(ls[2], '_')) by {
        lemma_lacks_cat("# LAN interface: "@, lan, '_');
    }
    assert(lacks(ls[4], '-')) by {
        lemma_lacks_cat("ext_if = \""@, vpn, '-');
        lemma_lacks_cat("ext_if = \""@ + vpn, "\""@, '-');
    }
    assert(lacks(ls[5], '-')) by {
        lemma_lacks_cat("int_if = \""@, lan, '-');
        lemma_lacks_cat("int_if = \""@ + lan, "\""@, '-');
    }
    assert(lacks(ls[6], '-')) by {
        lemma_lacks_cat("wan_if = \""@, wan, '-');
        lemma_lacks_cat("wan_if = \""@ + wan, "\""@, '-');
    }
    assert(lacks(ls[7], '-')) by {
        lemma_lacks_cat("wan_gw = \""@, g, '-');
        lemma_lacks_cat("wan_gw = \""@ + g, "\""@, '-');
    }
    let d = dec(mss as nat);
    assert(lacks(ls[12], '_')) by {
        lemma_lacks_cat("scrub out on "@, vpn, '_');
        lemma_lacks_cat("scrub out on "@ + vpn, " inet proto tcp from ("@, '_');
        lemma_lacks_cat("scrub out on "@ + vpn + " inet proto tcp from ("@, vpn, '_');
        lemma_lacks_cat("scrub out on "@ + vpn + " inet proto tcp from ("@ + vpn, ") to any max-mss "@, '_');
        lemma_lacks_cat("scrub out on "@ + vpn + " inet proto tcp from ("@ + vpn + ") to any max-mss "@, d, '_');
    }
    assert(lacks(ls[19], '_')) by {
        lemma_lacks_cat("pass out quick on "@, wan, '_');
        lemma_lacks_cat("pass out quick on "@ + wan, " inet from ("@, '_');
        lemma_lacks_cat("pass out quick on "@ + wan + " inet from ("@, wan, '_');
        lemma_lacks_cat("pass out quick on "@ + wan + " inet from ("@ + wan, ") to any keep state"@, '_');
    }
    assert(lacks(ls[20], '_')) by {
        lemma_lacks_cat("pass quick on "@, lan, '_');
        lemma_lacks_cat("pass quick on "@ + lan, " all keep state"@, '_');
    }
    assert(lacks(ls[21], '_')) by {
        lemma_lacks_cat("pass out quick on "@, vpn, '_');
        lemma_lacks_cat("pass out quick on "@ + vpn, " inet from ("@, '_');
        lemma_lacks_cat("pass out quick on "@ + vpn + " inet from ("@, vpn, '_');
        lemma_lacks_cat("pass out quick on "@ + vpn + " inet from ("@ + vpn, ") to any keep state"@, '_');
    }
    assert forall|k: int, q: PfSpec|
        (0 <= k <= 12 || k == 17 || 19 <= k <= 21) implies #[trigger] body_step(q, ls[k]) == q by {
        if k != 11 {
            let l = ls[k];
            if k == 1 || k == 2 {
                assert(l[0] == '#');
            } else if k == 4 {
                assert(l[0] == 'e');
            } else if k == 5 {
                assert(l[0] == 'i');
            } else if k == 6 || k == 7 {
                assert(l[0] == 'w');
            } else if k == 8 {
                assert(l[0] == 't');
            } else if k == 12 {
                assert(l[0] == 's');
            } else if 19 <= k <= 21 {
                assert(l[0] == 'p');
            }
            lemma_plain_rule_line(q, l);
        }
    }
}

/// The first token of a word followed by whitespace is the word.
pub proof fn lemma_first_word(w: Seq<char>, y: Seq<char>)
    requires
        w.len() > 0,
        no_ws(w),
        y.len() > 0,
        is_ws(y[0]),
    ensures
        first_token(w + y) == Some(w),
{
    let s = w + y;
    assert(s[0] == w[0]);
    assert(trim_start(s) == s);
    lemma_token_len_cat(w, y);
    assert(s.take(w.len() as int) =~= w);
    assert(tokens(s)[0] == w);
}

/// Literals of the NAT lines: what they lack and where the bypass table
/// is named.
pub proof fn lemma_nat_literals()
    ensures
        " inet from "@.len() == 11,
        " inet from "@[0] == ' ',
        lacks(" inet from "@, '!'),
        lacks(":network to <tunshare_bypass> -> ("@, '!'),
        lacks(") static-port"@, '!'),
        ":network to <tunshare_bypass> -> ("@.subrange(9, 29) == "to <tunshare_bypass>"@,
        ":network to ! <tunshare_bypass> -> ("@.subrange(9, 31) == "to ! <tunshare_bypass>"@,
        "to ! <tunshare_bypass>"@.len() == 22,
        "to ! <tunshare_bypass>"@[3] == '!',
        "to ! <"@.len() == 6,
        "to ! <"@[3] == '!',
        "to <tunshare_bypass>"@.len() == 20,
        "nat on "@.len() == 7,
        ":network to <tunshare_bypass> -> ("@.len() == 34,
        ":network to ! <tunshare_bypass> -> ("@.len() == 36,
{
    reveal_strlit(" inet from ");
    reveal_strlit(":network to <tunshare_bypass> -> (");
    reveal_strlit(":network to ! <tunshare_bypass> -> (");
    reveal_strlit(") static-port");
    reveal_strlit("to <tunshare_bypass>");
    reveal_strlit("to ! <tunshare_bypass>");
    reveal_strlit("to ! <");
    reveal_strlit("nat on ");
    assert(":network to <tunshare_bypass> -> ("@.subrange(9, 29) =~= "to <tunshare_bypass>"@);
    assert(":network to ! <tunshare_bypass> -> ("@.subrange(9, 31) =~= "to ! <tunshare_bypass>"@);
}

/// The NAT line of the VPN interface changes nothing once the VPN
/// interface is known.
#[verifier::spinoff_prover]
#[verifier::rlimit(60)]
pub proof fn lemma_vpn_nat_line(vpn: Seq<char>, lan: Seq<char>, ip: Ipv4, mss: u16, wan: Seq<char>, gw: Ipv4)
    requires
        iface_name(vpn),
        iface_name(lan),
        iface_name(wan),
    ensures
        forall|q: PfSpec| q.vpn is Some ==> #[trigger] body_step(q, bypass_lines(vpn, lan, ip, mss, wan, gw, expanded_vals(vpn, lan, wan, gw))[13]) == q,
{
    let vs = expanded_vals(vpn, lan, wan, gw);
    let ls = bypass_lines(vpn, lan, ip, mss, wan, gw, vs);
    lemma_name_chars(vpn);
    lemma_name_chars(lan);
    lemma_name_chars(wan);
    lemma_number_chars(0, gw);
    lemma_bl_mid(vpn, lan, ip, mss, wan, gw, vs);
    lemma_bl_clean(vpn, lan, ip, mss, wan, gw, vs);
    lemma_nat_literals();
    lemma_rule_words();
    reveal_strlit("nat on ");
    let l = ls[13];
    let mid = ":network to ! <tunshare_bypass> -> ("@;
    let rest = vpn + " inet from "@ + lan + mid + vpn + ") static-port"@;
    assert(l[0] == 'n');
    lemma_not_prefix(l, "rdr "@, 0);
    assert(l.subrange(0, 7) =~= "nat on "@);
    assert(l.skip(7) =~= rest);
    assert(rest =~= vpn + (" inet from "@ + lan + mid + vpn + ") static-port"@));
    lemma_first_word(vpn, " inet from "@ + lan + mid + vpn + ") static-port"@);
    let at: int = vpn.len() + 11int + lan.len() + 9int;
    assert(rest.subrange(at, at + 22) =~= mid.subrange(9, 31));
    lemma_contains_at(rest, "to ! <tunshare_bypass>"@, at);
    assert forall|q: PfSpec| q.vpn is Some implies #[trigger] body_step(q, ls[13]) == q by {
        assert(nat_step(q, rest) == q);
    }
}

/// The NAT line of the WAN interface reports the WAN NAT and the WAN
/// interface.
#[verifier::spinoff_prover]
#[verifier::rlimit(60)]
pub proof fn lemma_wan_nat_line(vpn: Seq<char>, lan: Seq<char>, ip: Ipv4, mss: u16, wan: Seq<char>, gw: Ipv4)
    requires
        iface_name(vpn),
        iface_name(lan),
        iface_name(wan),
    ensures
        forall|q: PfSpec| #[trigger] body_step(q, bypass_lines(vpn, lan, ip, mss, wan, gw, expanded_vals(vpn, lan, wan, gw))[14]) == (PfSpec {
            has_bypass_nat: true,
            wan: Some(wan),
            ..q
        }),
{
    let vs = expanded_vals(vpn, lan, wan, gw);
    let ls = bypass_lines(vpn, lan, ip, mss, wan, gw, vs);
    lemma_name_chars(vpn);
    lemma_name_chars(lan);
    lemma_name_chars(wan);
    lemma_number_chars(0, gw);
    lemma_bl_mid(vpn, lan, ip, mss, wan, gw, vs);
    lemma_bl_clean(vpn, lan, ip, mss, wan, gw, vs);
    lemma_nat_literals();
    lemma_rule_words();
    reveal_strlit("nat on ");
    let l = ls[14];
    let mid = ":network to <tunshare_bypass> -> ("@;
    let rest = wan + " inet from "@ + lan + mid + wan + ") static-port"@;
    assert(l[0] == 'n');
    lemma_not_prefix(l, "rdr "@, 0);
    assert(l.subrange(0, 7) =~= "nat on "@);
    assert(l.skip(7) =~= rest);
    assert(rest =~= wan + (" inet from "@ + lan + mid + wan + ") static-port"@));
    lemma_first_word(wan, " inet from "@ + lan + mid + wan + ") static-port"@);
    let at: int = wan.len() + 11int + lan.len() + 9int;
    assert(rest.subrange(at, at + 20) =~= mid.subrange(9, 29));
    lemma_contains_at(rest, "to <tunshare_bypass>"@, at);
    lemma_lacks_cat(wan, " inet from "@, '!');
    lemma_lacks_cat(wan + " inet from "@, lan, '!');
    lemma_lacks_cat(wan + " inet from "@ + lan, mid, '!');
    lemma_lacks_cat(wan + " inet from "@ + lan + mid, wan, '!');
    lemma_lacks_cat(wan + " inet from "@ + lan + mid + wan, ") static-port"@, '!');
    lemma_lacks_char(rest, "to ! <tunshare_bypass>"@, 3);
    lemma_lacks_char(rest, "to ! <"@, 3);
}

/// The two DNS redirects of the expanded body set the LAN interface and
/// the address DNS goes to.
#[verifier::spinoff_prover]
#[verifier::rlimit(60)]
pub proof fn lemma_bypass_rdr_lines(vpn: Seq<char>, lan: Seq<char>, ip: Ipv4, mss: u16, wan: Seq<char>, gw: Ipv4)
    requires
        iface_name(vpn),
        iface_name(lan),
        iface_name(wan),
    ensures
        forall|q: PfSpec| #[trigger] body_step(q, bypass_lines(vpn, lan, ip, mss, wan, gw, expanded_vals(vpn, lan, wan, gw))[15]) == (PfSpec {
            lan: Some(lan),
            lan_ip: Some(ip),
            has_dns_rdr: true,
            ..q
        }),
        forall|q: PfSpec| #[trigger] body_step(q, bypass_lines(vpn, lan, ip, mss, wan, gw, expanded_vals(vpn, lan, wan, gw))[16]) == (PfSpec {
            lan: Some(lan),
            lan_ip: Some(ip),
            has_dns_rdr: true,
            ..q
        }),
{
    let vs = expanded_vals(vpn, lan, wan, gw);
    let ls = bypass_lines(vpn, lan, ip, mss, wan, gw, vs);
    lemma_name_chars(vpn);
    lemma_name_chars(lan);
    lemma_name_chars(wan);
    lemma_number_chars(0, gw);
    lemma_bl_rdr(vpn, lan, ip, mss, wan, gw, vs);
    lemma_bl_clean(vpn, lan, ip, mss, wan, gw, vs);
    lemma_rule_words();
    let t = ip_text(ip);
    let tail = ":network to any port 53 -> "@;
    let mu = " inet proto udp from "@;
    let mt = " inet proto tcp from "@;
    assert(ls[15].subrange(0, 4) =~= "rdr "@);
    assert(ls[15].skip(4) =~= "on "@ + lan + mu + lan + tail + t);
    assert(ls[16].subrange(0, 4) =~= "rdr "@);
    assert(ls[16].skip(4) =~= "on "@ + lan + mt + lan + tail + t);
    lemma_rdr_rest(lan, mu, ip);
    lemma_rdr_rest(lan, mt, ip);
}

/// Literals of the route-to line.
pub proof fn lemma_route_literals()
    ensures
        " route-to ("@.len() == 11,
        " route-to ("@.subrange(1, 9) == "route-to"@,
        " route-to ("@[9] == ' ',
        " route-to ("@[10] == '(',
        forall|k: int| 0 <= k < 6 ==> #[trigger] " route-to ("@[k] != '-',
        "route-to"@.len() == 8,
        "route-to"@[5] == '-',
        "("@.len() == 1,
        "("@[0] == '(',
        ")"@.len() == 1,
        ")"@[0] == ')',
        " "@ == seq![' '],
        ") inet from "@[0] == ')',
        lacks(") inet from "@, '-'),
        lacks(") inet from "@, '('),
        lacks(":network to <tunshare_bypass> keep state"@, '-'),
        lacks(":network to <tunshare_bypass> keep state"@, '('),
        lacks("pass in quick on "@, '-'),
        ":network to <tunshare_bypass> keep state"@.subrange(13, 28) == "tunshare_bypass"@,
        ":network to <tunshare_bypass> keep state"@.len() == 40,
        "tunshare_bypass"@.len() == 15,
        "pass in quick on "@.len() == 17,
{
    reveal_strlit(" route-to (");
    reveal_strlit("route-to");
    reveal_strlit("(");
    reveal_strlit(")");
    reveal_strlit(" ");
    reveal_strlit(") inet from ");
    reveal_strlit(":network to <tunshare_bypass> keep state");
    reveal_strlit("tunshare_bypass");
    reveal_strlit("pass in quick on ");
    assert(" route-to ("@.subrange(1, 9) =~= "route-to"@);
    assert(" "@ =~= seq![' ']);
    assert(":network to <tunshare_bypass> keep state"@.subrange(13, 28) =~= "tunshare_bypass"@);
}

/// The tokens of two words with one space between them.
pub proof fn lemma_two_tokens(a: Seq<char>, b: Seq<char>)
    requires
        a.len() > 0,
        no_ws(a),
        b.len() > 0,
        no_ws(b),
    ensures
        tokens(a + seq![' '] + b) == seq![a, b],
{
    let s = a + seq![' '] + b;
    assert(s[0] == a[0]);
    assert(trim_start(s) == s);
    assert(s =~= a + (seq![' '] + b));
    lemma_token_len_cat(a, seq![' '] + b);
    assert(s.take(a.len() as int) =~= a);
    let r = s.skip(a.len() as int);
    assert(r =~= seq![' '] + b);
    assert(r.drop_first() =~= b);
    assert(trim_start(b) == b);
    assert(trim_start(r) == b);
    lemma_token_len_cat(b, Seq::<char>::empty());
    assert(b + Seq::<char>::empty() =~= b);
    assert(b.take(b.len() as int) =~= b);
    assert(b.skip(b.len() as int) =~= Seq::<char>::empty());
    assert(tokens(Seq::<char>::empty()) =~= Seq::<Seq<char>>::empty());
    assert(tokens(r) =~= seq![b]);
    assert(tokens(s) =~= seq![a, b]);
}

/// The route-to line of the expanded body reports the route and the
/// WAN interface and gateway it goes through.
#[verifier::spinoff_prover]
#[verifier::rlimit(60)]
pub proof fn lemma_route_line(vpn: Seq<char>, lan: Seq<char>, ip: Ipv4, mss: u16, wan: Seq<char>, gw: Ipv4)
    requires
        iface_name(vpn),
        iface_name(lan),
        iface_name(wan),
    ensures
        forall|q: PfSpec| #[trigger] body_step(q, bypass_lines(vpn, lan, ip, mss, wan, gw, expanded_vals(vpn, lan, wan, gw))[18]) == (PfSpec {
            has_route_to: true,
            wan: Some(wan),
            wan_gw: Some(gw),
            ..q
        }),
{
    let vs = expanded_vals(vpn, lan, wan, gw);
    let ls = bypass_lines(vpn, lan, ip, mss, wan, gw, vs);
    let g = ip_text(gw);
    lemma_name_chars(vpn);
    lemma_name_chars(lan);
    lemma_name_chars(wan);
    lemma_number_chars(0, gw);
    lemma_bl_route(vpn, lan, ip, mss, wan, gw, vs);
    lemma_bl_clean(vpn, lan, ip, mss, wan, gw, vs);
    lemma_route_literals();
    lemma_bypass_literal_ends();
    lemma_rule_words();
    let a = "pass in quick on "@;
    let b = " route-to ("@;
    let d = ") inet from "@;
    let e = ":network to <tunshare_bypass> keep state"@;
    let l = ls[18];
    assert(l == a + lan + b + wan + " "@ + g + d + lan + e);
    // Not a redirect, not a NAT rule.
    assert(l[0] == 'p');
    lemma_not_prefix(l, "rdr "@, 0);
    reveal_strlit("nat on ");
    lemma_not_prefix(l, "nat on "@, 0);
    // The bypass table is named.
    let tb: int = a.len() + lan.len() + 11int + wan.len() + 1int + g.len() + 12int + lan.len() + 13int;
    reveal_strlit(") inet from ");
    assert(d.len() == 12);
    assert(l.subrange(tb, tb + 15) =~= e.subrange(13, 28));
    lemma_contains_at(l, "tunshare_bypass"@, tb);
    // The first `route-to` follows the LAN interface.
    let p = "route-to"@;
    let q0: int = a.len() + lan.len() + 1int;
    assert(l.subrange(q0, q0 + 8) =~= b.subrange(1, 9));
    assert forall|j: int| 0 <= j < q0 implies !occurs_at(l, p, j) by {
        if occurs_at(l, p, j) {
            assert(l.subrange(j, j + 8)[5] == l[j + 5]);
            if j + 5 < a.len() {
                assert(l[j + 5] == a[j + 5]);
            } else if j + 5 < a.len() + lan.len() {
                assert(l[j + 5] == lan[j + 5 - a.len()]);
            } else {
                assert(l[j + 5] == b[j + 5 - a.len() - lan.len()]);
            }
        }
    }
    lemma_find_is(l, p, q0);
    lemma_contains_at(l, p, q0);
    // After it: ` (`, then the WAN interface, a space, the gateway.
    let rest = l.skip(q0 + 8);
    let rest2 = wan + " "@ + g + d + lan + e;
    assert(rest =~= seq![' ', '('] + rest2);
    lemma_lacks_cat(wan, " "@, '-');
    lemma_lacks_cat(wan + " "@, g, '-');
    lemma_lacks_cat(wan + " "@ + g, d, '-');
    lemma_lacks_cat(wan + " "@ + g + d, lan, '-');
    lemma_lacks_cat(wan + " "@ + g + d + lan, e, '-');
    lemma_lacks_cat(seq![' ', '('], rest2, '-');
    lemma_lacks_char(rest, p, 5);
    lemma_find_result(rest, p);
    assert(before_first(rest, p) == rest);
    let paren = "("@;
    assert(rest.subrange(1, 2) =~= paren);
    assert(!occurs_at(rest, paren, 0)) by {
        assert(rest.subrange(0, 1)[0] == rest[0]);
    }
    lemma_find_is(rest, paren, 1);
    assert(rest.skip(2) =~= rest2);
    lemma_lacks_cat(wan, " "@, '(');
    lemma_lacks_cat(wan + " "@, g, '(');
    lemma_lacks_cat(wan + " "@ + g, d, '(');
    lemma_lacks_cat(wan + " "@ + g + d, lan, '(');
    lemma_lacks_cat(wan + " "@ + g + d + lan, e, '(');
    lemma_lacks_char(rest2, paren, 0);
    lemma_find_result(rest2, paren);
    assert(second_piece(rest, paren) == Some(rest2));
    assert(second_piece(l, p) == Some(rest));
    // Up to the closing parenthesis.
    let close = ")"@;
    let x = wan + seq![' '] + g;
    let cp: int = wan.len() + 1int + g.len();
    assert(rest2.subrange(cp, cp + 1) =~= close);
    assert forall|j: int| 0 <= j < cp implies !occurs_at(rest2, close, j) by {
        if occurs_at(rest2, close, j) {
            assert(rest2.subrange(j, j + 1)[0] == rest2[j]);
            if j < wan.len() {
                assert(rest2[j] == wan[j]);
            } else if j > wan.len() {
                assert(rest2[j] == g[j - wan.len() - 1]);
            }
        }
    }
    lemma_find_is(rest2, close, cp);
    assert(rest2.take(cp) =~= x);
    assert(before_first(rest2, close) == x);
    assert(x[0] == wan[0]);
    assert(x.last() == g.last());
    lemma_trim_fixed(x);
    lemma_two_tokens(wan, g);
    lemma_parse_ip_text(gw);
    assert(route_to_spec(l) == Some((wan, gw)));
}

/// The expanded body's lines with a bypass set the LAN interface, its
/// address, the DNS redirect, the WAN NAT, the route and the WAN hop;
/// nothing else changes once the VPN interface is known.
#[verifier::spinoff_prover]
#[verifier::rlimit(60)]
pub proof fn lemma_bypass_body(vpn: Seq<char>, lan: Seq<char>, ip: Ipv4, mss: u16, wan: Seq<char>, gw: Ipv4, pf: PfSpec)
    requires
        iface_name(vpn),
        iface_name(lan),
        iface_name(wan),
        pf.vpn is Some,
    ensures
        body_fold(pf, bypass_lines(vpn, lan, ip, mss, wan, gw, expanded_vals(vpn, lan, wan, gw))) == (PfSpec {
            lan: Some(lan),
            lan_ip: Some(ip),
            has_dns_rdr: true,
            has_bypass_nat: true,
            has_route_to: true,
            wan: Some(wan),
            wan_gw: Some(gw),
            ..pf
        }),
{
    let ls = bypass_lines(vpn, lan, ip, mss, wan, gw, expanded_vals(vpn, lan, wan, gw));
    lemma_bl_head(vpn, lan, ip, mss, wan, gw, expanded_vals(vpn, lan, wan, gw));
    lemma_bypass_plain_lines(vpn, lan, ip, mss, wan, gw);
    lemma_vpn_nat_line(vpn, lan, ip, mss, wan, gw);
    lemma_wan_nat_line(vpn, lan, ip, mss, wan, gw);
    lemma_bypass_rdr_lines(vpn, lan, ip, mss, wan, gw);
    lemma_route_line(vpn, lan, ip, mss, wan, gw);
    let p14 = PfSpec { has_bypass_nat: true, wan: Some(wan), ..pf };
    let p15 = PfSpec { lan: Some(lan), lan_ip: Some(ip), has_dns_rdr: true, ..p14 };
    let p18 = PfSpec { has_route_to: true, wan: Some(wan), wan_gw: Some(gw), ..p15 };
    assert(ls.take(0) =~= Seq::<Seq<char>>::empty());
    lemma_take_step(ls, 0);
    lemma_take_step(ls, 1);
    lemma_take_step(ls, 2);
    lemma_take_step(ls, 3);
    lemma_take_step(ls, 4);
    lemma_take_step(ls, 5);
    lemma_take_step(ls, 6);
    lemma_take_step(ls, 7);
    lemma_take_step(ls, 8);
    lemma_take_step(ls, 9);
    lemma_take_step(ls, 10);
    lemma_take_step(ls, 11);
    lemma_take_step(ls, 12);
    lemma_take_step(ls, 13);
    lemma_take_step(ls, 14);
    lemma_take_step(ls, 15);
    lemma_take_step(ls, 16);
    lemma_take_step(ls, 17);
    lemma_take_step(ls, 18);
    lemma_take_step(ls, 19);
    lemma_take_step(ls, 20);
    lemma_take_step(ls, 21);
    assert(body_fold(pf, ls.take(0)) == pf);
    assert(body_step(pf, ls[0]) == pf);
    assert(body_fold(pf, ls.take(1)) == pf);
    assert(body_step(pf, ls[1]) == pf);
    assert(body_fold(pf, ls.take(2)) == pf);
    assert(body_step(pf, ls[2]) == pf);
    assert(body_fold(pf, ls.take(3)) == pf);
    assert(body_step(pf, ls[3]) == pf);
    assert(body_fold(pf, ls.take(4)) == pf);
    assert(body_step(pf, ls[4]) == pf);
    assert(body_fold(pf, ls.take(5)) == pf);
    assert(body_step(pf, ls[5]) == pf);
    assert(body_fold(pf, ls.take(6)) == pf);
    assert(body_step(pf, ls[6]) == pf);
    assert(body_fold(pf, ls.take(7)) == pf);
    assert(body_step(pf, ls[7]) == pf);
    assert(body_fold(pf, ls.take(8)) == pf);
    assert(body_step(pf, ls[8]) == pf);
    assert(body_fold(pf, ls.take(9)) == pf);
    assert(body_step(pf, ls[9]) == pf);
    assert(body_fold(pf, ls.take(10)) == pf);
    assert(body_step(pf, ls[10]) == pf);
    assert(body_fold(pf, ls.take(11)) == pf);
    assert(body_step(pf, ls[11]) == pf);
    assert(body_fold(pf, ls.take(12)) == pf);
    assert(body_step(pf, ls[12]) == pf);
    assert(body_fold(pf, ls.take(13)) == pf);
    assert(body_step(pf, ls[13]) == pf);
    assert(body_fold(pf, ls.take(14)) == pf);
    assert(body_step(pf, ls[14]) == p14);
    assert(body_fold(pf, ls.take(15)) == p14);
    assert(body_step(p14, ls[15]) == p15);
    assert(body_fold(pf, ls.take(16)) == p15);
    assert(body_step(p15, ls[16]) == p15);
    assert(body_fold(pf, ls.take(17)) == p15);
    assert(body_step(p15, ls[17]) == p15);
    assert(body_fold(pf, ls.take(18)) == p15);
    assert(body_step(p15, ls[18]) == p18);
    assert(body_fold(pf, ls.take(19)) == p18);
    assert(body_step(p18, ls[19]) == p18);
    assert(body_fold(pf, ls.take(20)) == p18);
    assert(body_step(p18, ls[20]) == p18);
    assert(body_fold(pf, ls.take(21)) == p18);
    assert(body_step(p18, ls[21]) == p18);
    assert(body_fold(pf, ls.take(22)) == p18);
    assert(ls.take(22) =~= ls);
}

// ---------------------------------------------------------------------
// The laws
// ---------------------------------------------------------------------

/// The anchor body that sharing loads with a WAN bypass reads back as
/// what it was made for: the VPN and LAN interfaces, the LAN address
/// that DNS is redirected to and the redirect, the WAN interface and
/// gateway, the NAT to the bypass table and the `route-to` rule.
/// Interface names are taken as `ifconfig` prints them, letters and
/// digits.
pub proof fn lemma_bypass_body_reads_back(vpn: Seq<char>, lan: Seq<char>, ip: Ipv4, mss: u16, wan: Seq<char>, gw: Ipv4)
    requires
        iface_name(vpn),
        iface_name(lan),
        iface_name(wan),
    ensures
        parse_pf_spec(rules_text(vpn, lan, ip, mss, Some((wan, gw)))).vpn == Some(vpn),
        parse_pf_spec(rules_text(vpn, lan, ip, mss, Some((wan, gw)))).lan == Some(lan),
        parse_pf_spec(rules_text(vpn, lan, ip, mss, Some((wan, gw)))).lan_ip == Some(ip),
        parse_pf_spec(rules_text(vpn, lan, ip, mss, Some((wan, gw)))).has_dns_rdr,
        parse_pf_spec(rules_text(vpn, lan, ip, mss, Some((wan, gw)))).wan == Some(wan),
        parse_pf_spec(rules_text(vpn, lan, ip, mss, Some((wan, gw)))).wan_gw == Some(gw),
        parse_pf_spec(rules_text(vpn, lan, ip, mss, Some((wan, gw)))).has_bypass_nat,
        parse_pf_spec(rules_text(vpn, lan, ip, mss, Some((wan, gw)))).has_route_to,
{
    let t = rules_text(vpn, lan, ip, mss, Some((wan, gw)));
    let lw = bypass_lines(vpn, lan, ip, mss, wan, gw, written());
    let vs = expanded_vals(vpn, lan, wan, gw);
    let le = bypass_lines(vpn, lan, ip, mss, wan, gw, vs);
    lemma_bypass_text(vpn, lan, ip, mss, wan, gw);
    lemma_written_macros_shape();
    lemma_bl_clean(vpn, lan, ip, mss, wan, gw, written());
    lemma_lines_of_join(lw);
    assert(lines(t) == lw);
    let pf0 = PfSpec { has_main_hooks: crate::firewall::main_hooks_present_spec(t), ..empty_pf() };
    lemma_bypass_macros(vpn, lan, ip, mss, wan, gw, pf0);
    let pf1 = PfSpec { vpn: Some(vpn), lan: Some(lan), wan: Some(wan), wan_gw: Some(gw), ..pf0 };
    lemma_bypass_expand(vpn, lan, ip, mss, wan, gw, t);
    lemma_bypass_expanded_text(vpn, lan, ip, mss, wan, gw);
    assert(expand_spec(t) == join_lines(le));
    lemma_name_chars(vpn);
    lemma_name_chars(lan);
    lemma_name_chars(wan);
    lemma_number_chars(0, gw);
    lemma_bl_clean(vpn, lan, ip, mss, wan, gw, vs);
    lemma_lines_of_join(le);
    lemma_bypass_body(vpn, lan, ip, mss, wan, gw, pf1);
}

/// Once sharing has loaded its anchor body with a WAN bypass and merged
/// MAIN, whatever MAIN held before, the contract read back from the two
/// says that the bypass is in place: the hooks, the DNS redirect, the
/// NAT to the bypass table and the `route-to` rule are there, on the
/// interfaces and through the gateway it was loaded for.
pub proof fn lemma_bypass_loaded_contract(
    existing: Seq<char>,
    vpn: Seq<char>,
    lan: Seq<char>,
    ip: Ipv4,
    mss: u16,
    wan: Seq<char>,
    gw: Ipv4,
)
    requires
        iface_name(vpn),
        iface_name(lan),
        iface_name(wan),
    ensures
        contract_spec(crate::firewall::firewall_merge_spec(existing), rules_text(vpn, lan, ip, mss, Some((wan, gw)))).has_main_hooks,
        contract_spec(crate::firewall::firewall_merge_spec(existing), rules_text(vpn, lan, ip, mss, Some((wan, gw)))).has_dns_rdr,
        contract_spec(crate::firewall::firewall_merge_spec(existing), rules_text(vpn, lan, ip, mss, Some((wan, gw)))).has_bypass_nat,
        contract_spec(crate::firewall::firewall_merge_spec(existing), rules_text(vpn, lan, ip, mss, Some((wan, gw)))).has_route_to,
        contract_spec(crate::firewall::firewall_merge_spec(existing), rules_text(vpn, lan, ip, mss, Some((wan, gw)))).wan == Some(wan),
        contract_spec(crate::firewall::firewall_merge_spec(existing), rules_text(vpn, lan, ip, mss, Some((wan, gw)))).wan_gw == Some(gw),
        contract_spec(crate::firewall::firewall_merge_spec(existing), rules_text(vpn, lan, ip, mss, Some((wan, gw)))).lan_ip == Some(ip),
{
    crate::main_laws::lemma_merged_main_has_hooks(existing);
    lemma_bypass_body_reads_back(vpn, lan, ip, mss, wan, gw);
}

/// The MAIN hooks that sharing generates, read together with the anchor
/// body it generates, with or without a WAN bypass, give the contract
/// that the body was made for: hooks and DNS redirect in place, the
/// VPN and LAN interfaces and the LAN address, and the WAN interface,
/// gateway, NAT to the bypass table and `route-to` rule exactly when a
/// bypass was asked for. So bypass is reported in place exactly when it
/// was loaded.
pub proof fn lemma_generated_contract(
    vpn: Seq<char>,
    lan: Seq<char>,
    ip: Ipv4,
    mss: u16,
    bypass: Option<(Seq<char>, Ipv4)>,
)
    requires
        iface_name(vpn),
        iface_name(lan),
        bypass matches Some((w, _)) ==> iface_name(w),
    ensures
        contract_spec(main_hooks_text(), rules_text(vpn, lan, ip, mss, bypass)).has_main_hooks,
        contract_spec(main_hooks_text(), rules_text(vpn, lan, ip, mss, bypass)).has_dns_rdr,
        contract_spec(main_hooks_text(), rules_text(vpn, lan, ip, mss, bypass)).vpn == Some(vpn),
        contract_spec(main_hooks_text(), rules_text(vpn, lan, ip, mss, bypass)).lan == Some(lan),
        contract_spec(main_hooks_text(), rules_text(vpn, lan, ip, mss, bypass)).lan_ip == Some(ip),
        contract_spec(main_hooks_text(), rules_text(vpn, lan, ip, mss, bypass)).has_bypass_nat == bypass is Some,
        contract_spec(main_hooks_text(), rules_text(vpn, lan, ip, mss, bypass)).has_route_to == bypass is Some,
        contract_spec(main_hooks_text(), rules_text(vpn, lan, ip, mss, bypass)).wan == match bypass {
            Some((w, _)) => Some(w),
            None => None::<Seq<char>>,
        },
        contract_spec(main_hooks_text(), rules_text(vpn, lan, ip, mss, bypass)).wan_gw == match bypass {
            Some((_, g)) => Some(g),
            None => None::<Ipv4>,
        },
{
    let empty = Seq::<char>::empty();
    assert(lines(empty) =~= Seq::<Seq<char>>::empty());
    assert(crate::firewall::remaining_main_is_empty_spec(empty));
    assert(crate::firewall::firewall_merge_spec(empty) == main_hooks_text());
    crate::main_laws::lemma_merged_main_has_hooks(empty);
    match bypass {
        Some((w, g)) => lemma_bypass_body_reads_back(vpn, lan, ip, mss, w, g),
        None => crate::rules_laws::lemma_body_reads_back(vpn, lan, ip, mss),
    }
}

} // verus!
