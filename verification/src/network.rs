//! Network interfaces from `ifconfig -a` and hardware port names from
//! `networksetup -listallhardwareports`, and the choice of VPN and LAN
//! candidates among them.

use vstd::prelude::*;
use crate::text::{
    chars_of, contains, contains_chars, find, find_chars, lines, lemma_find_result, split_lines,
    starts_with, starts_with_chars, string_of, tokens, tokens_of, trim, trim_chars, views,
};

verus! {

/// A network interface as `ifconfig` shows it.
#[derive(Debug, Clone)]
pub struct InterfaceInfo {
    pub name: String,
    pub ipv4_address: Option<String>,
    pub description: Option<String>,
    pub is_up: bool,
    /// Whether the header line lists the point-to-point flag.
    pub is_point_to_point: bool,
}

/// The contents of an [`InterfaceInfo`] as plain values.
pub struct IfaceSpec {
    pub name: Seq<char>,
    pub ipv4_address: Option<Seq<char>>,
    pub description: Option<Seq<char>>,
    pub is_up: bool,
    pub is_point_to_point: bool,
}

/// The text of an optional string.
pub open spec fn opt_text(o: Option<String>) -> Option<Seq<char>> {
    match o {
        Some(s) => Some(s@),
        None => None,
    }
}

impl InterfaceInfo {
    /// The interface as plain values.
    pub open spec fn spec(&self) -> IfaceSpec {
        IfaceSpec {
            name: self.name@,
            ipv4_address: opt_text(self.ipv4_address),
            description: opt_text(self.description),
            is_up: self.is_up,
            is_point_to_point: self.is_point_to_point,
        }
    }
}

/// The plain values of a list of interfaces.
pub open spec fn iface_specs(v: Seq<InterfaceInfo>) -> Seq<IfaceSpec> {
    v.map_values(|i: InterfaceInfo| i.spec())
}

/// A line that starts an interface block: not indented and holding a
/// colon.
pub open spec fn header_line(line: Seq<char>) -> bool {
    !starts_with(line, "\t"@) && !starts_with(line, " "@) && contains(line, ":"@)
}

/// The interface that a header line starts.
pub open spec fn header_iface(line: Seq<char>) -> IfaceSpec {
    IfaceSpec {
        name: match find(line, ":"@) {
            Some(i) => line.take(i as int),
            None => line,
        },
        ipv4_address: None,
        description: None,
        is_up: contains(line, "<UP"@),
        is_point_to_point: contains(line, "POINTOPOINT"@),
    }
}

/// The address of an `inet` line inside a block, if it is one.
pub open spec fn inet_of(line: Seq<char>) -> Option<Seq<char>> {
    let t = trim(line);
    if starts_with(t, "inet "@) && tokens(t).len() >= 2 {
        Some(tokens(t)[1])
    } else {
        None
    }
}

/// The finished interfaces and the one being read, after `ls`.
pub open spec fn scan_ifaces(ls: Seq<Seq<char>>) -> (Seq<IfaceSpec>, Option<IfaceSpec>)
    decreases ls.len(),
{
    if ls.len() == 0 {
        (seq![], None)
    } else {
        let (done, cur) = scan_ifaces(ls.drop_last());
        let line = ls.last();
        if header_line(line) {
            (
                match cur {
                    Some(c) => done.push(c),
                    None => done,
                },
                Some(header_iface(line)),
            )
        } else {
            match cur {
                Some(c) => match inet_of(line) {
                    Some(a) => (done, Some(IfaceSpec { ipv4_address: Some(a), ..c })),
                    None => (done, Some(c)),
                },
                None => (done, None),
            }
        }
    }
}

/// The interfaces of `ifconfig -a` output, in order.
pub open spec fn interfaces_spec(text: Seq<char>) -> Seq<IfaceSpec> {
    let (done, cur) = scan_ifaces(lines(text));
    match cur {
        Some(c) => done.push(c),
        None => done,
    }
}

/// An interface as plain values built from slices.
fn iface_from_header(line: &[char]) -> (i: InterfaceInfo)
    ensures
        i.spec() == header_iface(line@),
{
    let colon = chars_of(":");
    let up = chars_of("<UP");
    let p2p = chars_of("POINTOPOINT");
    proof {
        lemma_find_result(line@, colon@);
    }
    let name = match find_chars(line, colon.as_slice()) {
        Some(i) => vstd::slice::slice_subrange(line, 0, i),
        None => line,
    };
    proof {
        if find(line@, colon@) is Some {
            lemma_find_result(line@, colon@);
            assert(name@ =~= line@.take(find(line@, colon@)->0 as int));
        }
    }
    InterfaceInfo {
        name: string_of(name),
        ipv4_address: None,
        description: None,
        is_up: contains_chars(line, up.as_slice()),
        is_point_to_point: contains_chars(line, p2p.as_slice()),
    }
}

/// The interfaces of `ifconfig -a` output, in order.
pub fn parse_interfaces(output: &str) -> (v: Vec<InterfaceInfo>)
    ensures
        iface_specs(v@) == interfaces_spec(output@),
{
    let text = chars_of(output);
    let ls = split_lines(text.as_slice());
    let ghost lv = views(ls@);
    let tab = chars_of("\t");
    let space = chars_of(" ");
    let colon = chars_of(":");
    let inet = chars_of("inet ");
    let mut done: Vec<InterfaceInfo> = Vec::new();
    let mut cur: Option<InterfaceInfo> = None;
    let mut k: usize = 0;
    assert(lv.take(0) =~= Seq::<Seq<char>>::empty());
    while k < ls.len()
        invariant
            lv == views(ls@),
            lv == lines(output@),
            k <= ls@.len(),
            tab@ == "\t"@,
            space@ == " "@,
            colon@ == ":"@,
            inet@ == "inet "@,
            (iface_specs(done@), match cur {
                Some(c) => Some(c.spec()),
                None => None,
            }) == scan_ifaces(lv.take(k as int)),
        decreases ls@.len() - k,
    {
        let line = ls[k];
        assert(lv[k as int] == line@);
        assert(lv.take(k + 1).drop_last() =~= lv.take(k as int));
        assert(lv.take(k + 1).last() == line@);
        let is_header = !starts_with_chars(line, tab.as_slice()) && !starts_with_chars(
            line,
            space.as_slice(),
        ) && contains_chars(line, colon.as_slice());
        if is_header {
            let ghost before = done@;
            match cur {
                Some(c) => {
                    done.push(c);
                    assert(iface_specs(done@) =~= iface_specs(before).push(c.spec()));
                },
                None => {},
            }
            cur = Some(iface_from_header(line));
        } else {
            match cur {
                Some(mut c) => {
                    let t = trim_chars(line);
                    if starts_with_chars(t, inet.as_slice()) {
                        let parts = tokens_of(t);
                        if parts.len() >= 2 {
                            c.ipv4_address = Some(string_of(parts[1]));
                        }
                    }
                    cur = Some(c);
                },
                None => {
                    cur = None;
                },
            }
        }
        k = k + 1;
    }
    assert(lv.take(ls@.len() as int) =~= lv);
    match cur {
        Some(c) => {
            let ghost before = done@;
            done.push(c);
            assert(iface_specs(done@) =~= iface_specs(before).push(c.spec()));
        },
        None => {},
    }
    done
}

/// The (device, hardware port) pairs of `networksetup
/// -listallhardwareports` output, in order; a `Device:` line pairs with
/// the latest unpaired `Hardware Port:` line.
pub open spec fn scan_ports(ls: Seq<Seq<char>>) -> (Seq<(Seq<char>, Seq<char>)>, Option<Seq<char>>)
    decreases ls.len(),
{
    if ls.len() == 0 {
        (seq![], None)
    } else {
        let (pairs, pending) = scan_ports(ls.drop_last());
        let t = trim(ls.last());
        if starts_with(t, "Hardware Port:"@) {
            (pairs, Some(trim(t.skip(14))))
        } else if starts_with(t, "Device:"@) {
            match pending {
                Some(port) => (pairs.push((trim(t.skip(7)), port)), None),
                None => (pairs, None),
            }
        } else {
            (pairs, pending)
        }
    }
}

/// The (device, hardware port) pairs of the output.
pub open spec fn ports_spec(text: Seq<char>) -> Seq<(Seq<char>, Seq<char>)> {
    scan_ports(lines(text)).0
}

/// The views of (device, port) string pairs.
pub open spec fn pair_views(v: Seq<(String, String)>) -> Seq<(Seq<char>, Seq<char>)> {
    v.map_values(|p: (String, String)| (p.0@, p.1@))
}

/// The port name of `device`: the last pair that names it.
pub open spec fn port_of(pairs: Seq<(Seq<char>, Seq<char>)>, device: Seq<char>) -> Option<Seq<char>>
    decreases pairs.len(),
{
    if pairs.len() == 0 {
        None
    } else if pairs.last().0 == device {
        Some(pairs.last().1)
    } else {
        port_of(pairs.drop_last(), device)
    }
}

/// The (device, hardware port) pairs of `networksetup
/// -listallhardwareports` output, in order. A device named twice takes
/// its last port (see [`hardware_port_for`]).
pub fn parse_hardware_ports(output: &str) -> (v: Vec<(String, String)>)
    ensures
        pair_views(v@) == ports_spec(output@),
{
    let text = chars_of(output);
    let ls = split_lines(text.as_slice());
    let ghost lv = views(ls@);
    let hw = chars_of("Hardware Port:");
    let dev = chars_of("Device:");
    proof {
        reveal_strlit("Hardware Port:");
        reveal_strlit("Device:");
    }
    let mut pairs: Vec<(String, String)> = Vec::new();
    let mut pending: Option<Vec<char>> = None;
    let mut k: usize = 0;
    assert(lv.take(0) =~= Seq::<Seq<char>>::empty());
    while k < ls.len()
        invariant
            lv == views(ls@),
            lv == lines(output@),
            k <= ls@.len(),
            hw@ == "Hardware Port:"@,
            dev@ == "Device:"@,
            hw@.len() == 14,
            dev@.len() == 7,
            (pair_views(pairs@), match pending {
                Some(p) => Some(p@),
                None => None,
            }) == scan_ports(lv.take(k as int)),
        decreases ls@.len() - k,
    {
        let line = ls[k];
        assert(lv[k as int] == line@);
        assert(lv.take(k + 1).drop_last() =~= lv.take(k as int));
        assert(lv.take(k + 1).last() == line@);
        let t = trim_chars(line);
        if starts_with_chars(t, hw.as_slice()) {
            let rest = vstd::slice::slice_subrange(t, 14, t.len());
            assert(rest@ =~= t@.skip(14));
            let name = trim_chars(rest);
            let mut pv: Vec<char> = Vec::new();
            crate::text::extend_chars(&mut pv, name);
            assert(pv@ =~= name@);
            pending = Some(pv);
        } else if starts_with_chars(t, dev.as_slice()) {
            match pending {
                Some(p) => {
                    let rest = vstd::slice::slice_subrange(t, 7, t.len());
                    assert(rest@ =~= t@.skip(7));
                    let device = trim_chars(rest);
                    let ghost before = pairs@;
                    pairs.push((string_of(device), string_of(p.as_slice())));
                    assert(pair_views(pairs@) =~= pair_views(before).push((device@, p@)));
                },
                None => {},
            }
            pending = None;
        }
        k = k + 1;
    }
    assert(lv.take(ls@.len() as int) =~= lv);
    pairs
}

/// The hardware port name of `device` from parsed pairs: the last pair
/// that names it.
pub fn hardware_port_for(pairs: &Vec<(String, String)>, device: &str) -> (r: Option<String>)
    ensures
        opt_text(r) == port_of(pair_views(pairs@), device@),
{
    let ghost pv = pair_views(pairs@);
    let d = chars_of(device);
    let mut i: usize = pairs.len();
    assert(pv.take(pairs@.len() as int) =~= pv);
    while i > 0
        invariant
            i <= pairs@.len(),
            pv == pair_views(pairs@),
            d@ == device@,
            port_of(pv, device@) == port_of(pv.take(i as int), device@),
        decreases i,
    {
        let dv = chars_of(pairs[i - 1].0.as_str());
        let same = dv.len() == d.len() && starts_with_chars(dv.as_slice(), d.as_slice());
        proof {
            assert(pv.take(i as int).last() == pv[i - 1]);
            assert(pv[i - 1] == (pairs@[i - 1].0@, pairs@[i - 1].1@));
            if dv@.len() == d@.len() {
                assert(dv@.subrange(0, d@.len() as int) =~= dv@);
            }
            assert(pv.take(i as int).drop_last() =~= pv.take(i - 1));
        }
        if same {
            return Some(pairs[i - 1].1.clone());
        }
        i = i - 1;
    }
    None
}

/// A VPN candidate: a `utun` interface that is up, point-to-point and
/// has an address.
pub open spec fn vpn_candidate(i: IfaceSpec) -> bool {
    starts_with(i.name, "utun"@) && i.is_up && i.is_point_to_point && i.ipv4_address is Some
}

/// A LAN candidate: an `en` interface that is up and has an address.
pub open spec fn lan_candidate(i: IfaceSpec) -> bool {
    starts_with(i.name, "en"@) && i.is_up && i.ipv4_address is Some
}

/// The VPN candidates among `v`, in order.
pub open spec fn vpn_filter(v: Seq<IfaceSpec>) -> Seq<IfaceSpec>
    decreases v.len(),
{
    if v.len() == 0 {
        seq![]
    } else {
        vpn_filter(v.drop_last()) + if vpn_candidate(v.last()) {
            seq![v.last()]
        } else {
            seq![]
        }
    }
}

/// The LAN candidates among `v`, in order, each described by its
/// hardware port name when there is one.
pub open spec fn lan_filter(v: Seq<IfaceSpec>, ports: Seq<(Seq<char>, Seq<char>)>) -> Seq<IfaceSpec>
    decreases v.len(),
{
    if v.len() == 0 {
        seq![]
    } else {
        let i = v.last();
        lan_filter(v.drop_last(), ports) + if lan_candidate(i) {
            seq![
                match port_of(ports, i.name) {
                    Some(d) => IfaceSpec { description: Some(d), ..i },
                    None => i,
                },
            ]
        } else {
            seq![]
        }
    }
}

/// The VPN interfaces among parsed ones: `utun`, up, point-to-point,
/// with an address.
pub fn select_vpn_interfaces(v: Vec<InterfaceInfo>) -> (r: Vec<InterfaceInfo>)
    ensures
        iface_specs(r@) == vpn_filter(iface_specs(v@)),
{
    let ghost vs = iface_specs(v@);
    let utun = chars_of("utun");
    let mut r: Vec<InterfaceInfo> = Vec::new();
    let mut k: usize = 0;
    assert(vs.take(0) =~= Seq::<IfaceSpec>::empty());
    while k < v.len()
        invariant
            vs == iface_specs(v@),
            utun@ == "utun"@,
            k <= v@.len(),
            iface_specs(r@) == vpn_filter(vs.take(k as int)),
        decreases v@.len() - k,
    {
        let i = &v[k];
        let name = chars_of(i.name.as_str());
        assert(vs.take(k + 1).drop_last() =~= vs.take(k as int));
        assert(vs.take(k + 1).last() == i.spec());
        if starts_with_chars(name.as_slice(), utun.as_slice()) && i.is_up && i.is_point_to_point
            && i.ipv4_address.is_some() {
            let ghost before = r@;
            let c = InterfaceInfo {
                name: string_of(name.as_slice()),
                ipv4_address: clone_opt(&i.ipv4_address),
                description: clone_opt(&i.description),
                is_up: i.is_up,
                is_point_to_point: i.is_point_to_point,
            };
            r.push(c);
            assert(iface_specs(r@) =~= iface_specs(before).push(i.spec()));
        }
        k = k + 1;
    }
    assert(vs.take(v@.len() as int) =~= vs);
    r
}

/// The LAN interfaces among parsed ones: `en`, up, with an address,
/// each described by its hardware port name when there is one.
pub fn select_lan_interfaces(v: Vec<InterfaceInfo>, ports: &Vec<(String, String)>) -> (r: Vec<
    InterfaceInfo,
>)
    ensures
        iface_specs(r@) == lan_filter(iface_specs(v@), pair_views(ports@)),
{
    let ghost vs = iface_specs(v@);
    let en = chars_of("en");
    let mut r: Vec<InterfaceInfo> = Vec::new();
    let mut k: usize = 0;
    assert(vs.take(0) =~= Seq::<IfaceSpec>::empty());
    while k < v.len()
        invariant
            vs == iface_specs(v@),
            en@ == "en"@,
            k <= v@.len(),
            iface_specs(r@) == lan_filter(vs.take(k as int), pair_views(ports@)),
        decreases v@.len() - k,
    {
        let i = &v[k];
        let name = chars_of(i.name.as_str());
        assert(vs.take(k + 1).drop_last() =~= vs.take(k as int));
        assert(vs.take(k + 1).last() == i.spec());
        if starts_with_chars(name.as_slice(), en.as_slice()) && i.is_up && i.ipv4_address.is_some() {
            let ghost before = r@;
            let desc = match hardware_port_for(ports, i.name.as_str()) {
                Some(d) => Some(d),
                None => clone_opt(&i.description),
            };
            let c = InterfaceInfo {
                name: string_of(name.as_slice()),
                ipv4_address: clone_opt(&i.ipv4_address),
                description: desc,
                is_up: i.is_up,
                is_point_to_point: i.is_point_to_point,
            };
            r.push(c);
            assert(iface_specs(r@) =~= iface_specs(before).push(c.spec()));
        }
        k = k + 1;
    }
    assert(vs.take(v@.len() as int) =~= vs);
    r
}

/// A copy of an optional string.
pub fn clone_opt(o: &Option<String>) -> (r: Option<String>)
    ensures
        opt_text(r) == opt_text(*o),
{
    match o {
        Some(s) => {
            let v = chars_of(s.as_str());
            Some(string_of(v.as_slice()))
        },
        None => None,
    }
}

/// Every interface selected as a VPN is one of those given, a `utun`
/// interface that is up, point-to-point and has an IPv4 address; and
/// every such interface given is selected.
pub proof fn lemma_vpn_selection(v: Seq<IfaceSpec>)
    ensures
        forall|i: int|
            0 <= i < vpn_filter(v).len() ==> {
                let x = #[trigger] vpn_filter(v)[i];
                &&& starts_with(x.name, "utun"@)
                &&& x.is_up
                &&& x.is_point_to_point
                &&& x.ipv4_address is Some
                &&& v.contains(x)
            },
        forall|j: int|
            0 <= j < v.len() && starts_with(#[trigger] v[j].name, "utun"@) && v[j].is_up
                && v[j].is_point_to_point && v[j].ipv4_address is Some ==> vpn_filter(v).contains(v[j]),
    decreases v.len(),
{
    if v.len() > 0 {
        let d = v.drop_last();
        lemma_vpn_selection(d);
        let f = vpn_filter(d);
        let x = v.last();
        let add = if vpn_candidate(x) { seq![x] } else { Seq::<IfaceSpec>::empty() };
        assert(vpn_filter(v) == f + add);
        assert forall|i: int| 0 <= i < vpn_filter(v).len() implies {
            let y = #[trigger] vpn_filter(v)[i];
            &&& starts_with(y.name, "utun"@)
            &&& y.is_up
            &&& y.is_point_to_point
            &&& y.ipv4_address is Some
            &&& v.contains(y)
        } by {
            if i < f.len() {
                assert(vpn_filter(v)[i] == f[i]);
                let k = choose|k: int| 0 <= k < d.len() && d[k] == f[i];
                assert(v[k] == d[k]);
            } else {
                assert(vpn_filter(v)[i] == x);
                assert(v[v.len() - 1] == x);
            }
        }
        assert forall|j: int|
            0 <= j < v.len() && starts_with(#[trigger] v[j].name, "utun"@) && v[j].is_up
                && v[j].is_point_to_point && v[j].ipv4_address is Some implies vpn_filter(v).contains(v[j]) by {
            if j < d.len() {
                assert(v[j] == d[j]);
                let k = choose|k: int| 0 <= k < f.len() && f[k] == d[j];
                assert(vpn_filter(v)[k] == f[k]);
            } else {
                assert(v[j] == x);
                assert(vpn_filter(v)[f.len() as int] == x);
            }
        }
    }
}

} // verus!
