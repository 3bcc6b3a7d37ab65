//! NAT-PMP (RFC 6886) port mapping: the mapping table, request
//! handling, response encoding and the pf rules of the mappings.
//!
//! The server loop (socket, timers, pfctl) runs outside this module; it
//! hands each event to the functions here and carries out what they
//! return.

use vstd::prelude::*;
use crate::net::{
    dec, ip_text, parse_ipv4, parse_ipv4_chars, parse_u32, parse_u32_chars, push_dec, push_ip, Ipv4,
};
use crate::text::{
    chars_of, extend_str, lines, split_lines, split_once, split_once_chars, starts_with,
    starts_with_chars, string_of, tokens, tokens_of, trim, trim_chars, views,
};

verus! {

/// UDP port of the NAT-PMP service.
pub const NATPMP_PORT: u16 = 5351;

/// RFC 6886: a response's opcode is the request's opcode plus 128.
pub const RESPONSE_FLAG: u8 = 128;

/// The pf anchor that holds the mapping rules.
pub const PF_ANCHOR_NAME: &'static str = "com.tunshare/natpmp";

/// Longest lifetime granted to a mapping, in seconds.
pub const MAX_LIFETIME: u32 = 7200;

/// Lowest external port handed out.
pub const MIN_ALLOWED_PORT: u16 = 1024;

/// Transport protocol of a mapping.
#[derive(Clone, Copy, Debug, PartialEq, Eq, Structural)]
pub enum Protocol {
    Udp,
    Tcp,
}

/// pf's name of a protocol.
pub open spec fn protocol_text(p: Protocol) -> Seq<char> {
    match p {
        Protocol::Udp => "udp"@,
        Protocol::Tcp => "tcp"@,
    }
}

impl Protocol {
    /// pf's name of the protocol.
    pub fn name(&self) -> (s: &'static str)
        ensures
            s@ == protocol_text(*self),
    {
        match self {
            Protocol::Udp => "udp",
            Protocol::Tcp => "tcp",
        }
    }
}

/// What identifies a mapping: protocol and external port.
#[derive(Clone, Copy, Debug, PartialEq, Eq, Structural)]
pub struct MappingKey {
    pub protocol: Protocol,
    pub external_port: u16,
}

/// One port mapping. `created_at` is the second (on the server's clock)
/// at which it was made or last renewed.
#[derive(Clone, Copy, Debug, PartialEq, Eq, Structural)]
pub struct Mapping {
    pub internal_ip: Ipv4,
    pub internal_port: u16,
    pub external_port: u16,
    pub protocol: Protocol,
    pub lifetime_secs: u32,
    pub created_at: u64,
}

/// The key of a mapping.
pub open spec fn key_of(m: Mapping) -> MappingKey {
    MappingKey { protocol: m.protocol, external_port: m.external_port }
}

/// The mapping has outlived its lifetime at second `now`.
pub open spec fn expired_at(m: Mapping, now: u64) -> bool {
    (if now >= m.created_at {
        now - m.created_at
    } else {
        0
    }) >= m.lifetime_secs
}

impl Mapping {
    /// Whether the mapping has outlived its lifetime at second `now`.
    pub fn is_expired(&self, now: u64) -> (b: bool)
        ensures
            b == expired_at(*self, now),
    {
        let elapsed: u64 = if now >= self.created_at {
            now - self.created_at
        } else {
            0
        };
        elapsed >= self.lifetime_secs as u64
    }
}

// ---------------------------------------------------------------------
// The mapping table
// ---------------------------------------------------------------------

/// No two entries share a key.
pub open spec fn keys_unique(s: Seq<Mapping>) -> bool {
    forall|i: int, j: int|
        #![trigger s[i], s[j]]
        0 <= i < s.len() && 0 <= j < s.len() && i != j ==> key_of(s[i]) != key_of(s[j])
}

/// The entry with key `k`, searching from the newest.
pub open spec fn lookup(s: Seq<Mapping>, k: MappingKey) -> Option<Mapping>
    decreases s.len(),
{
    if s.len() == 0 {
        None
    } else if key_of(s.last()) == k {
        Some(s.last())
    } else {
        lookup(s.drop_last(), k)
    }
}

/// The entries as a map from key to mapping.
pub open spec fn table_map(s: Seq<Mapping>) -> Map<MappingKey, Mapping> {
    Map::new(|k: MappingKey| lookup(s, k) is Some, |k: MappingKey| lookup(s, k)->0)
}

/// What a removal pass drops.
#[derive(Clone, Copy, Debug)]
pub enum DropRule {
    /// Every mapping of a client.
    Client(Ipv4),
    /// A client's mappings of one internal port and protocol.
    ClientPort(Ipv4, u16, Protocol),
    /// Every mapping expired at the given second.
    ExpiredAt(u64),
}

/// `d` drops `m`.
pub open spec fn drops(d: DropRule, m: Mapping) -> bool {
    match d {
        DropRule::Client(ip) => m.internal_ip == ip,
        DropRule::ClientPort(ip, port, proto) => m.internal_ip == ip && m.internal_port == port
            && m.protocol == proto,
        DropRule::ExpiredAt(now) => expired_at(m, now),
    }
}

/// The entries that `d` keeps, in order.
pub open spec fn keep(s: Seq<Mapping>, d: DropRule) -> Seq<Mapping>
    decreases s.len(),
{
    if s.len() == 0 {
        seq![]
    } else {
        keep(s.drop_last(), d) + if drops(d, s.last()) {
            seq![]
        } else {
            seq![s.last()]
        }
    }
}

/// The map without what `d` drops.
pub open spec fn map_without(m: Map<MappingKey, Mapping>, d: DropRule) -> Map<MappingKey, Mapping> {
    Map::new(|k: MappingKey| m.contains_key(k) && !drops(d, m[k]), |k: MappingKey| m[k])
}

/// `d` drops some mapping of `m`.
pub open spec fn drops_any(m: Map<MappingKey, Mapping>, d: DropRule) -> bool {
    exists|k: MappingKey| m.contains_key(k) && drops(d, #[trigger] m[k])
}

/// What `lookup` finds in a table without duplicate keys.
pub proof fn lemma_lookup(s: Seq<Mapping>, k: MappingKey)
    requires
        keys_unique(s),
    ensures
        lookup(s, k) is None <==> (forall|i: int| 0 <= i < s.len() ==> key_of(#[trigger] s[i]) != k),
        forall|i: int| 0 <= i < s.len() && key_of(#[trigger] s[i]) == k ==> lookup(s, k) == Some(s[i]),
    decreases s.len(),
{
    if s.len() > 0 {
        let init = s.drop_last();
        assert(keys_unique(init)) by {
            assert forall|i: int, j: int| 0 <= i < init.len() && 0 <= j < init.len() && i != j
                implies key_of(#[trigger] init[i]) != key_of(#[trigger] init[j]) by {
                assert(init[i] == s[i] && init[j] == s[j]);
            }
        }
        lemma_lookup(init, k);
        if key_of(s.last()) == k {
            assert forall|i: int| 0 <= i < s.len() && key_of(#[trigger] s[i]) == k implies lookup(
                s,
                k,
            ) == Some(s[i]) by {
                if i != s.len() - 1 {
                    assert(key_of(s[i]) != key_of(s[s.len() - 1]));
                }
            }
        } else {
            assert forall|i: int| 0 <= i < s.len() && key_of(#[trigger] s[i]) == k implies lookup(
                s,
                k,
            ) == Some(s[i]) by {
                assert(i != s.len() - 1);
                assert(init[i] == s[i]);
            }
            if lookup(s, k) is None {
                assert forall|i: int| 0 <= i < s.len() implies key_of(#[trigger] s[i]) != k by {
                    if i < s.len() - 1 {
                        assert(init[i] == s[i]);
                    }
                }
            } else {
                let i = choose|i: int| 0 <= i < init.len() && key_of(#[trigger] init[i]) == k;
                assert(s[i] == init[i]);
            }
        }
    }
}

/// Adding an entry with a new key: the map gains that key.
pub proof fn lemma_push(s: Seq<Mapping>, m: Mapping)
    requires
        keys_unique(s),
        forall|i: int| 0 <= i < s.len() ==> key_of(#[trigger] s[i]) != key_of(m),
    ensures
        keys_unique(s.push(m)),
        table_map(s.push(m)) == table_map(s).insert(key_of(m), m),
{
    let t = s.push(m);
    assert forall|i: int, j: int| 0 <= i < t.len() && 0 <= j < t.len() && i != j implies key_of(
        #[trigger] t[i],
    ) != key_of(#[trigger] t[j]) by {
        if i < s.len() && j < s.len() {
            assert(t[i] == s[i] && t[j] == s[j]);
        } else if i < s.len() {
            assert(t[i] == s[i]);
        } else {
            assert(t[j] == s[j]);
        }
    }
    assert(t.drop_last() =~= s);
    assert(table_map(t) =~= table_map(s).insert(key_of(m), m));
}

/// Replacing an entry by one with the same key: the key's value changes.
pub proof fn lemma_update(s: Seq<Mapping>, i: int, m: Mapping)
    requires
        keys_unique(s),
        0 <= i < s.len(),
        key_of(s[i]) == key_of(m),
    ensures
        keys_unique(s.update(i, m)),
        table_map(s.update(i, m)) == table_map(s).insert(key_of(m), m),
{
    let t = s.update(i, m);
    assert forall|a: int, b: int| 0 <= a < t.len() && 0 <= b < t.len() && a != b implies key_of(
        #[trigger] t[a],
    ) != key_of(#[trigger] t[b]) by {
        assert(key_of(t[a]) == key_of(s[a]));
        assert(key_of(t[b]) == key_of(s[b]));
    }
    assert forall|k: MappingKey| #[trigger] lookup(t, k) == if k == key_of(m) {
        Some(m)
    } else {
        lookup(s, k)
    } by {
        lemma_lookup(s, k);
        lemma_lookup(t, k);
        if k == key_of(m) {
            assert(t[i] == m);
        } else if lookup(s, k) is Some {
            let j = choose|j: int| 0 <= j < s.len() && key_of(#[trigger] s[j]) == k;
            assert(j != i);
            assert(t[j] == s[j]);
        } else {
            assert forall|j: int| 0 <= j < t.len() implies key_of(#[trigger] t[j]) != k by {
                if j != i {
                    assert(t[j] == s[j]);
                }
            }
        }
    }
    assert(table_map(t) =~= table_map(s).insert(key_of(m), m));
}

/// Removing the entry at `i`: the map loses its key.
pub proof fn lemma_remove(s: Seq<Mapping>, i: int)
    requires
        keys_unique(s),
        0 <= i < s.len(),
    ensures
        keys_unique(s.remove(i)),
        table_map(s.remove(i)) == table_map(s).remove(key_of(s[i])),
{
    let t = s.remove(i);
    let ki = key_of(s[i]);
    assert forall|a: int| 0 <= a < t.len() implies #[trigger] t[a] == if a < i {
        s[a]
    } else {
        s[a + 1]
    } by {}
    assert forall|a: int, b: int| 0 <= a < t.len() && 0 <= b < t.len() && a != b implies key_of(
        #[trigger] t[a],
    ) != key_of(#[trigger] t[b]) by {
        let sa = if a < i { a } else { a + 1 };
        let sb = if b < i { b } else { b + 1 };
        assert(t[a] == s[sa] && t[b] == s[sb]);
    }
    assert forall|k: MappingKey| #[trigger] lookup(t, k) == if k == ki {
        None
    } else {
        lookup(s, k)
    } by {
        lemma_lookup(s, k);
        lemma_lookup(t, k);
        if k == ki {
            assert forall|a: int| 0 <= a < t.len() implies key_of(#[trigger] t[a]) != k by {
                let sa = if a < i { a } else { a + 1 };
                assert(t[a] == s[sa]);
            }
        } else if lookup(s, k) is Some {
            let j = choose|j: int| 0 <= j < s.len() && key_of(#[trigger] s[j]) == k;
            assert(j != i);
            let tj = if j < i { j } else { j - 1 };
            assert(t[tj] == s[j]);
        } else {
            assert forall|a: int| 0 <= a < t.len() implies key_of(#[trigger] t[a]) != k by {
                let sa = if a < i { a } else { a + 1 };
                assert(t[a] == s[sa]);
            }
        }
    }
    assert(table_map(t) =~= table_map(s).remove(ki));
}

/// Every kept entry is an entry.
pub proof fn lemma_keep_from(s: Seq<Mapping>, d: DropRule)
    ensures
        keep(s, d).len() <= s.len(),
        forall|j: int|
            0 <= j < keep(s, d).len() ==> exists|i: int|
                0 <= i < s.len() && s[i] == #[trigger] keep(s, d)[j],
    decreases s.len(),
{
    if s.len() > 0 {
        let init = s.drop_last();
        lemma_keep_from(init, d);
        let k0 = keep(init, d);
        assert forall|j: int| 0 <= j < keep(s, d).len() implies exists|i: int|
            0 <= i < s.len() && s[i] == #[trigger] keep(s, d)[j] by {
            if j < k0.len() {
                assert(keep(s, d)[j] == k0[j]);
                let i = choose|i: int| 0 <= i < init.len() && init[i] == #[trigger] k0[j];
                assert(s[i] == init[i]);
            } else {
                assert(keep(s, d)[j] == s.last());
                assert(s[s.len() - 1] == s.last());
            }
        }
    }
}

/// Dropping entries: the map loses exactly the dropped mappings.
pub proof fn lemma_keep(s: Seq<Mapping>, d: DropRule)
    requires
        keys_unique(s),
    ensures
        keys_unique(keep(s, d)),
        forall|k: MappingKey| #[trigger] lookup(keep(s, d), k) == match lookup(s, k) {
            Some(m) => if drops(d, m) {
                None
            } else {
                Some(m)
            },
            None => None,
        },
        keep(s, d).len() == s.len() <==> forall|i: int| 0 <= i < s.len() ==> !drops(d, #[trigger] s[i]),
    decreases s.len(),
{
    if s.len() > 0 {
        let init = s.drop_last();
        let last = s.last();
        assert(keys_unique(init)) by {
            assert forall|i: int, j: int| 0 <= i < init.len() && 0 <= j < init.len() && i != j
                implies key_of(#[trigger] init[i]) != key_of(#[trigger] init[j]) by {
                assert(init[i] == s[i] && init[j] == s[j]);
            }
        }
        lemma_keep(init, d);
        lemma_keep_from(init, d);
        let k0 = keep(init, d);
        assert forall|i: int| 0 <= i < init.len() implies key_of(#[trigger] init[i]) != key_of(
            last,
        ) by {
            assert(init[i] == s[i]);
            assert(s[s.len() - 1] == last);
        }
        if !drops(d, last) {
            let t = k0.push(last);
            assert(keep(s, d) =~= t);
            assert forall|a: int, b: int| 0 <= a < t.len() && 0 <= b < t.len() && a != b implies key_of(
                #[trigger] t[a],
            ) != key_of(#[trigger] t[b]) by {
                if a < k0.len() && b < k0.len() {
                    assert(t[a] == k0[a] && t[b] == k0[b]);
                } else if a < k0.len() {
                    assert(t[a] == k0[a]);
                    let i = choose|i: int| 0 <= i < init.len() && init[i] == #[trigger] k0[a];
                } else {
                    assert(t[b] == k0[b]);
                    let i = choose|i: int| 0 <= i < init.len() && init[i] == #[trigger] k0[b];
                }
            }
        } else {
            assert(keep(s, d) =~= k0);
        }
        assert forall|k: MappingKey| #[trigger] lookup(keep(s, d), k) == match lookup(s, k) {
            Some(m) => if drops(d, m) {
                None
            } else {
                Some(m)
            },
            None => None,
        } by {
            lemma_lookup(init, k);
            if !drops(d, last) {
                assert(keep(s, d).drop_last() =~= k0);
                assert(keep(s, d).last() == last);
            }
            if key_of(last) == k {
                assert(lookup(init, k) is None);
                assert(lookup(k0, k) is None);
            }
        }
        if keep(s, d).len() == s.len() {
            assert(!drops(d, last));
            assert forall|i: int| 0 <= i < s.len() implies !drops(d, #[trigger] s[i]) by {
                if i < init.len() {
                    assert(s[i] == init[i]);
                }
            }
        }
        if forall|i: int| 0 <= i < s.len() ==> !drops(d, #[trigger] s[i]) {
            assert(!drops(d, s[s.len() - 1]));
            assert forall|i: int| 0 <= i < init.len() implies !drops(d, #[trigger] init[i]) by {
                assert(s[i] == init[i]);
            }
        }
    }
}

/// Mappings between internal hosts and external ports, at most one per
/// protocol and external port.
pub struct MappingTable {
    entries: Vec<Mapping>,
}

impl MappingTable {
    /// The entries, oldest first.
    pub closed spec fn entries_seq(&self) -> Seq<Mapping> {
        self.entries@
    }

    /// No two entries share a key.
    #[verifier::type_invariant]
    closed spec fn inv(self) -> bool {
        keys_unique(self.entries@)
    }

    /// An empty table.
    pub fn new() -> (t: MappingTable)
        ensures
            t@ == Map::<MappingKey, Mapping>::empty(),
            t.entries_seq() == Seq::<Mapping>::empty(),
    {
        let t = MappingTable { entries: Vec::new() };
        assert(table_map(t.entries@) =~= Map::<MappingKey, Mapping>::empty());
        t
    }

    /// Number of mappings.
    pub fn len(&self) -> (n: usize)
        ensures
            n == self.entries_seq().len(),
            n == self@.len(),
    {
        proof {
            use_type_invariant(self);
            self.lemma_len();
        }
        self.entries.len()
    }

    /// The map's size is the number of entries.
    proof fn lemma_len(&self)
        requires
            keys_unique(self.entries@),
        ensures
            self@.len() == self.entries@.len(),
            self@.dom().finite(),
        decreases self.entries@.len(),
    {
        lemma_dom_len(self.entries@);
    }

    /// Whether there is no mapping.
    pub fn is_empty(&self) -> (b: bool)
        ensures
            b <==> self@.len() == 0,
            b <==> self.entries_seq().len() == 0,
    {
        self.len() == 0
    }

    /// Position of the entry with key `k`.
    fn position(&self, k: MappingKey) -> (r: Option<usize>)
        ensures
            match r {
                Some(i) => i < self.entries@.len() && key_of(self.entries@[i as int]) == k,
                None => forall|i: int| 0 <= i < self.entries@.len() ==> key_of(
                    #[trigger] self.entries@[i],
                ) != k,
            },
    {
        let mut i: usize = 0;
        while i < self.entries.len()
            invariant
                i <= self.entries@.len(),
                forall|j: int| 0 <= j < i ==> key_of(#[trigger] self.entries@[j]) != k,
            decreases self.entries@.len() - i,
        {
            let e = self.entries[i];
            if e.protocol == k.protocol && e.external_port == k.external_port {
                return Some(i);
            }
            i = i + 1;
        }
        None
    }

    /// The mapping with key `k`.
    pub fn get(&self, k: MappingKey) -> (r: Option<Mapping>)
        ensures
            r == (if self@.contains_key(k) {
                Some(self@[k])
            } else {
                None
            }),
    {
        proof {
            use_type_invariant(self);
            lemma_lookup(self.entries@, k);
        }
        match self.position(k) {
            Some(i) => Some(self.entries[i]),
            None => None,
        }
    }

    /// Whether there is a mapping with key `k`.
    pub fn contains_key(&self, k: MappingKey) -> (b: bool)
        ensures
            b == self@.contains_key(k),
    {
        self.get(k).is_some()
    }

    /// Adds `m`, replacing the mapping with the same key.
    pub fn insert(&mut self, m: Mapping)
        ensures
            final(self)@ == old(self)@.insert(key_of(m), m),
    {
        proof {
            use_type_invariant(&*self);
        }
        let pos = self.position(key_of_exec(&m));
        let mut entries: Vec<Mapping> = Vec::new();
        std::mem::swap(&mut entries, &mut self.entries);
        match pos {
            Some(i) => {
                proof {
                    lemma_update(entries@, i as int, m);
                }
                entries.set(i, m);
            },
            None => {
                proof {
                    lemma_push(entries@, m);
                }
                entries.push(m);
            },
        }
        self.entries = entries;
    }

    /// Removes the mapping with key `k`, if there is one.
    pub fn remove(&mut self, k: MappingKey) -> (removed: bool)
        ensures
            final(self)@ == old(self)@.remove(k),
            removed == old(self)@.contains_key(k),
    {
        proof {
            use_type_invariant(&*self);
            lemma_lookup(self.entries@, k);
        }
        match self.position(k) {
            Some(i) => {
                let mut entries: Vec<Mapping> = Vec::new();
                std::mem::swap(&mut entries, &mut self.entries);
                proof {
                    lemma_remove(entries@, i as int);
                }
                entries.remove(i);
                self.entries = entries;
                true
            },
            None => {
                assert(self@ =~= self@.remove(k));
                false
            },
        }
    }

    /// Removes every mapping that `d` drops; tells whether any went.
    pub fn remove_where(&mut self, d: DropRule) -> (removed: bool)
        ensures
            final(self)@ == map_without(old(self)@, d),
            removed == drops_any(old(self)@, d),
            final(self).entries_seq() == keep(old(self).entries_seq(), d),
    {
        proof {
            use_type_invariant(&*self);
        }
        let ghost s = self.entries@;
        let mut kept: Vec<Mapping> = Vec::new();
        let mut i: usize = 0;
        assert(s.take(0) =~= Seq::<Mapping>::empty());
        while i < self.entries.len()
            invariant
                s == self.entries@,
                i <= s.len(),
                kept@ == keep(s.take(i as int), d),
            decreases s.len() - i,
        {
            let e = self.entries[i];
            if !drops_exec(&d, &e) {
                kept.push(e);
            }
            assert(s.take(i + 1).drop_last() =~= s.take(i as int));
            assert(kept@ =~= keep(s.take(i + 1), d));
            i = i + 1;
        }
        assert(s.take(s.len() as int) =~= s);
        proof {
            lemma_keep(s, d);
        }
        let removed = kept.len() != self.entries.len();
        proof {
            if removed {
                let j = choose|j: int| 0 <= j < s.len() && drops(d, #[trigger] s[j]);
                lemma_lookup(s, key_of(s[j]));
                assert(table_map(s).contains_key(key_of(s[j])));
                assert(table_map(s)[key_of(s[j])] == s[j]);
                assert(drops(d, table_map(s)[key_of(s[j])]));
            } else {
                if drops_any(table_map(s), d) {
                    let k = choose|k: MappingKey| table_map(s).contains_key(k) && drops(d, #[trigger] table_map(s)[k]);
                    lemma_lookup(s, k);
                    let j = choose|j: int| 0 <= j < s.len() && key_of(#[trigger] s[j]) == k;
                    assert(table_map(s)[k] == s[j]);
                    assert(drops(d, s[j]));
                    assert(false);
                }
            }
        }
        self.entries = kept;
        assert(table_map(keep(s, d)) =~= map_without(table_map(s), d));
        removed
    }
}

/// The key of a mapping.
pub fn key_of_exec(m: &Mapping) -> (k: MappingKey)
    ensures
        k == key_of(*m),
{
    MappingKey { protocol: m.protocol, external_port: m.external_port }
}

/// Whether `d` drops `m`.
pub fn drops_exec(d: &DropRule, m: &Mapping) -> (b: bool)
    ensures
        b == drops(*d, *m),
{
    match d {
        DropRule::Client(ip) => m.internal_ip == *ip,
        DropRule::ClientPort(ip, port, proto) => m.internal_ip == *ip && m.internal_port == *port
            && m.protocol == *proto,
        DropRule::ExpiredAt(now) => m.is_expired(*now),
    }
}

/// The map of a table without duplicate keys has one key per entry.
pub proof fn lemma_dom_len(s: Seq<Mapping>)
    requires
        keys_unique(s),
    ensures
        table_map(s).dom().finite(),
        table_map(s).len() == s.len(),
    decreases s.len(),
{
    if s.len() == 0 {
        assert(table_map(s).dom() =~= Set::<MappingKey>::empty());
    } else {
        let init = s.drop_last();
        assert(keys_unique(init)) by {
            assert forall|i: int, j: int| 0 <= i < init.len() && 0 <= j < init.len() && i != j
                implies key_of(#[trigger] init[i]) != key_of(#[trigger] init[j]) by {
                assert(init[i] == s[i] && init[j] == s[j]);
            }
        }
        lemma_dom_len(init);
        assert forall|i: int| 0 <= i < init.len() implies key_of(#[trigger] init[i]) != key_of(
            s.last(),
        ) by {
            assert(init[i] == s[i]);
            assert(s[s.len() - 1] == s.last());
        }
        lemma_push(init, s.last());
        assert(init.push(s.last()) =~= s);
        lemma_lookup(init, key_of(s.last()));
        assert(table_map(s).dom() =~= table_map(init).dom().insert(key_of(s.last())));
    }
}

impl View for MappingTable {
    type V = Map<MappingKey, Mapping>;

    open spec fn view(&self) -> Map<MappingKey, Mapping> {
        table_map(self.entries_seq())
    }
}

impl MappingTable {
    /// The entry at position `i`.
    pub fn entry(&self, i: usize) -> (m: Mapping)
        requires
            i < self.entries_seq().len(),
        ensures
            m == self.entries_seq()[i as int],
    {
        self.entries[i]
    }
}

// ---------------------------------------------------------------------
// Wire format
// ---------------------------------------------------------------------

/// Big-endian bytes of a 16-bit number.
pub open spec fn be16(x: u16) -> Seq<u8> {
    seq![(x / 256) as u8, (x % 256) as u8]
}

/// Big-endian bytes of a 32-bit number.
pub open spec fn be32(x: u32) -> Seq<u8> {
    seq![(x / 0x1000000) as u8, ((x / 0x10000) % 256) as u8, ((x / 256) % 256) as u8, (x % 256) as u8]
}

/// The 16-bit number of two big-endian bytes.
pub open spec fn be16_value(hi: u8, lo: u8) -> u16 {
    (hi * 256 + lo) as u16
}

/// The 32-bit number of four big-endian bytes.
pub open spec fn be32_value(a: u8, b: u8, c: u8, d: u8) -> u32 {
    (a * 0x1000000 + b * 0x10000 + c * 0x100 + d) as u32
}

/// Reply to opcode 0: success, seconds since start, external address.
pub open spec fn external_address_bytes(sssoe: u32, ip: Ipv4) -> Seq<u8> {
    seq![0u8, RESPONSE_FLAG] + be16(0) + be32(sssoe) + seq![ip.a, ip.b, ip.c, ip.d]
}

/// Reply to a mapping request: success, seconds since start, internal
/// and external port, granted lifetime.
pub open spec fn mapping_bytes(
    opcode: u8,
    sssoe: u32,
    internal_port: u16,
    external_port: u16,
    lifetime: u32,
) -> Seq<u8> {
    seq![0u8, opcode] + be16(0) + be32(sssoe) + be16(internal_port) + be16(external_port) + be32(
        lifetime,
    )
}

/// Error reply: the result code, and zero seconds since start.
pub open spec fn error_bytes(opcode: u8, result_code: u16) -> Seq<u8> {
    seq![0u8, opcode] + be16(result_code) + be32(0)
}

/// Appends the big-endian bytes of `x`.
fn push_be16(v: &mut Vec<u8>, x: u16)
    ensures
        final(v)@ == old(v)@ + be16(x),
{
    v.push((x / 256) as u8);
    v.push((x % 256) as u8);
    assert(v@ =~= old(v)@ + be16(x));
}

/// Appends the big-endian bytes of `x`.
fn push_be32(v: &mut Vec<u8>, x: u32)
    ensures
        final(v)@ == old(v)@ + be32(x),
{
    v.push((x / 0x1000000) as u8);
    v.push(((x / 0x10000) % 256) as u8);
    v.push(((x / 256) % 256) as u8);
    v.push((x % 256) as u8);
    assert(v@ =~= old(v)@ + be32(x));
}

/// Opcode 0 reply: the external address.
pub fn build_external_address_response(sssoe: u32, ip: Ipv4) -> (resp: Vec<u8>)
    ensures
        resp@ == external_address_bytes(sssoe, ip),
{
    let mut resp: Vec<u8> = Vec::new();
    resp.push(0);
    resp.push(RESPONSE_FLAG);
    push_be16(&mut resp, 0);
    push_be32(&mut resp, sssoe);
    resp.push(ip.a);
    resp.push(ip.b);
    resp.push(ip.c);
    resp.push(ip.d);
    assert(resp@ =~= external_address_bytes(sssoe, ip));
    resp
}

/// Reply to a mapping request (opcode 1 or 2).
pub fn build_mapping_response(
    opcode: u8,
    sssoe: u32,
    internal_port: u16,
    external_port: u16,
    lifetime: u32,
) -> (resp: Vec<u8>)
    ensures
        resp@ == mapping_bytes(opcode, sssoe, internal_port, external_port, lifetime),
{
    let mut resp: Vec<u8> = Vec::new();
    resp.push(0);
    resp.push(opcode);
    push_be16(&mut resp, 0);
    push_be32(&mut resp, sssoe);
    push_be16(&mut resp, internal_port);
    push_be16(&mut resp, external_port);
    push_be32(&mut resp, lifetime);
    assert(resp@ =~= mapping_bytes(opcode, sssoe, internal_port, external_port, lifetime));
    resp
}

/// An error reply.
pub fn build_error_response(opcode: u8, result_code: u16) -> (resp: Vec<u8>)
    ensures
        resp@ == error_bytes(opcode, result_code),
{
    let mut resp: Vec<u8> = Vec::new();
    resp.push(0);
    resp.push(opcode);
    push_be16(&mut resp, result_code);
    push_be32(&mut resp, 0);
    assert(resp@ =~= error_bytes(opcode, result_code));
    resp
}

// ---------------------------------------------------------------------
// Requests
// ---------------------------------------------------------------------

/// The key of protocol `p` and external port `port`.
pub open spec fn key(p: Protocol, port: u16) -> MappingKey {
    MappingKey { protocol: p, external_port: port }
}

/// `port` is the lowest allowed external port of `p` that is free.
pub open spec fn lowest_free(m: Map<MappingKey, Mapping>, p: Protocol, port: u16) -> bool {
    &&& MIN_ALLOWED_PORT <= port
    &&& !m.contains_key(key(p, port))
    &&& forall|q: u16| MIN_ALLOWED_PORT <= q < port ==> m.contains_key(#[trigger] key(p, q))
}

/// The lowest free allowed external port of `p`, if any is free.
pub open spec fn first_free_port(m: Map<MappingKey, Mapping>, p: Protocol) -> Option<u16> {
    if exists|port: u16| #[trigger] lowest_free(m, p, port) {
        Some(choose|port: u16| #[trigger] lowest_free(m, p, port))
    } else {
        None
    }
}

/// The lowest free allowed external port of `protocol`.
pub fn find_available_port(table: &MappingTable, protocol: Protocol) -> (r: Option<u16>)
    ensures
        r == first_free_port(table@, protocol),
{
    let mut port: u16 = MIN_ALLOWED_PORT;
    loop
        invariant
            MIN_ALLOWED_PORT <= port,
            forall|q: u16| MIN_ALLOWED_PORT <= q < port ==> table@.contains_key(#[trigger] key(protocol, q)),
        decreases 65535 - port,
    {
        if !table.contains_key(MappingKey { protocol, external_port: port }) {
            proof {
                assert(lowest_free(table@, protocol, port));
                let c = choose|c: u16| #[trigger] lowest_free(table@, protocol, c);
                if c < port {
                    assert(table@.contains_key(key(protocol, c)));
                } else if c > port {
                    assert(table@.contains_key(key(protocol, port)));
                }
            }
            return Some(port);
        }
        if port == 65535 {
            proof {
                if exists|c: u16| #[trigger] lowest_free(table@, protocol, c) {
                    let c = choose|c: u16| #[trigger] lowest_free(table@, protocol, c);
                    assert(table@.contains_key(key(protocol, c)));
                }
            }
            return None;
        }
        port = port + 1;
    }
}

/// What a request asks for and what the server grants.
pub struct NatPmpReply {
    /// The reply to send, if any.
    pub response: Option<Vec<u8>>,
    /// Whether the mappings changed so that the pf rules must be
    /// reloaded.
    pub reload: bool,
}

/// The bytes of an optional reply.
pub open spec fn reply_bytes(r: Option<Vec<u8>>) -> Option<Seq<u8>> {
    match r {
        Some(v) => Some(v@),
        None => None,
    }
}

/// The outcome of a request: reply, mappings after it, whether the
/// rules must be reloaded.
pub type Outcome = (Option<Seq<u8>>, Map<MappingKey, Mapping>, bool);

/// A mapping request once its external port is chosen: a lifetime of
/// zero deletes that port's mapping, any other maps it for at most
/// [`MAX_LIFETIME`] seconds.
pub open spec fn grant_spec(
    m: Map<MappingKey, Mapping>,
    client: Ipv4,
    proto: Protocol,
    internal_port: u16,
    external_port: u16,
    lifetime: u32,
    now: u64,
    rop: u8,
) -> Outcome {
    let sssoe = now as u32;
    if external_port < MIN_ALLOWED_PORT {
        (Some(error_bytes(rop, 2)), m, false)
    } else {
        let capped = if lifetime < MAX_LIFETIME {
            lifetime
        } else {
            MAX_LIFETIME
        };
        if capped == 0 {
            (
                Some(mapping_bytes(rop, sssoe, internal_port, external_port, 0)),
                m.remove(key(proto, external_port)),
                true,
            )
        } else {
            (
                Some(mapping_bytes(rop, sssoe, internal_port, external_port, capped)),
                m.insert(
                    key(proto, external_port),
                    Mapping {
                        internal_ip: client,
                        internal_port,
                        external_port,
                        protocol: proto,
                        lifetime_secs: capped,
                        created_at: now,
                    },
                ),
                true,
            )
        }
    }
}

/// A mapping request with lifetime `lifetime` for `internal_port`,
/// suggesting `suggested` as the external port.
pub open spec fn map_request_spec(
    m: Map<MappingKey, Mapping>,
    client: Ipv4,
    proto: Protocol,
    internal_port: u16,
    suggested: u16,
    lifetime: u32,
    now: u64,
    rop: u8,
) -> Outcome {
    let sssoe = now as u32;
    if lifetime == 0 && internal_port == 0 {
        let d = DropRule::Client(client);
        (Some(mapping_bytes(rop, sssoe, 0, 0, 0)), map_without(m, d), drops_any(m, d))
    } else if suggested >= MIN_ALLOWED_PORT {
        let k = key(proto, suggested);
        if !m.contains_key(k) || m[k].internal_ip == client {
            grant_spec(m, client, proto, internal_port, suggested, lifetime, now, rop)
        } else {
            match first_free_port(m, proto) {
                Some(p) => grant_spec(m, client, proto, internal_port, p, lifetime, now, rop),
                None => (Some(error_bytes(rop, 4)), m, false),
            }
        }
    } else if lifetime == 0 {
        let d = DropRule::ClientPort(client, internal_port, proto);
        (Some(mapping_bytes(rop, sssoe, internal_port, 0, 0)), map_without(m, d), drops_any(m, d))
    } else {
        match first_free_port(m, proto) {
            Some(p) => grant_spec(m, client, proto, internal_port, p, lifetime, now, rop),
            None => (Some(error_bytes(rop, 4)), m, false),
        }
    }
}

/// The outcome of one request from `client` (`None` for an IPv6
/// sender) at second `now` of the server's clock.
pub open spec fn handle_spec(
    data: Seq<u8>,
    client: Option<Ipv4>,
    external_ip: Ipv4,
    now: u64,
    m: Map<MappingKey, Mapping>,
) -> Outcome {
    if data.len() < 2 {
        (None, m, false)
    } else if data[0] != 0 {
        (Some(error_bytes(RESPONSE_FLAG, 1)), m, false)
    } else {
        let op = data[1];
        let rop = ((RESPONSE_FLAG + op) % 256) as u8;
        if op == 0 {
            (Some(external_address_bytes(now as u32, external_ip)), m, false)
        } else if op == 1 || op == 2 {
            if data.len() < 12 {
                (Some(error_bytes(rop, 2)), m, false)
            } else {
                match client {
                    None => (Some(error_bytes(rop, 2)), m, false),
                    Some(c) => map_request_spec(
                        m,
                        c,
                        if op == 1 {
                            Protocol::Udp
                        } else {
                            Protocol::Tcp
                        },
                        be16_value(data[4], data[5]),
                        be16_value(data[6], data[7]),
                        be32_value(data[8], data[9], data[10], data[11]),
                        now,
                        rop,
                    ),
                }
            }
        } else {
            (Some(error_bytes(rop, 5)), m, false)
        }
    }
}

/// Maps (or deletes) the chosen external port.
fn grant(
    table: &mut MappingTable,
    client: Ipv4,
    proto: Protocol,
    internal_port: u16,
    external_port: u16,
    lifetime: u32,
    now: u64,
    rop: u8,
) -> (reply: NatPmpReply)
    ensures
        (reply_bytes(reply.response), final(table)@, reply.reload) == grant_spec(
            old(table)@,
            client,
            proto,
            internal_port,
            external_port,
            lifetime,
            now,
            rop,
        ),
{
    let sssoe = now as u32;
    if external_port < MIN_ALLOWED_PORT {
        return NatPmpReply { response: Some(build_error_response(rop, 2)), reload: false };
    }
    let capped = if lifetime < MAX_LIFETIME {
        lifetime
    } else {
        MAX_LIFETIME
    };
    if capped == 0 {
        table.remove(MappingKey { protocol: proto, external_port });
        return NatPmpReply {
            response: Some(build_mapping_response(rop, sssoe, internal_port, external_port, 0)),
            reload: true,
        };
    }
    let m = Mapping {
        internal_ip: client,
        internal_port,
        external_port,
        protocol: proto,
        lifetime_secs: capped,
        created_at: now,
    };
    table.insert(m);
    NatPmpReply {
        response: Some(build_mapping_response(rop, sssoe, internal_port, external_port, capped)),
        reload: true,
    }
}

/// Handles one NAT-PMP request from `client` (`None` for an IPv6
/// sender) at second `now` since the server started: the reply to send
/// (none for a datagram shorter than two bytes) and whether the
/// mappings changed so that the pf rules must be reloaded.
///
/// The response opcode is the request's plus 128, modulo 256: an
/// opcode of 128 or above wraps round.
pub fn handle_request(
    data: &[u8],
    client: Option<Ipv4>,
    external_ip: Ipv4,
    now: u64,
    table: &mut MappingTable,
) -> (reply: NatPmpReply)
    ensures
        (reply_bytes(reply.response), final(table)@, reply.reload) == handle_spec(
            data@,
            client,
            external_ip,
            now,
            old(table)@,
        ),
{
    if data.len() < 2 {
        return NatPmpReply { response: None, reload: false };
    }
    if data[0] != 0 {
        return NatPmpReply { response: Some(build_error_response(RESPONSE_FLAG, 1)), reload: false };
    }
    let opcode = data[1];
    let sssoe = now as u32;
    let rop = RESPONSE_FLAG.wrapping_add(opcode);
    assert(rop == ((RESPONSE_FLAG + opcode) % 256) as u8);
    if opcode == 0 {
        return NatPmpReply {
            response: Some(build_external_address_response(sssoe, external_ip)),
            reload: false,
        };
    }
    if opcode != 1 && opcode != 2 {
        return NatPmpReply { response: Some(build_error_response(rop, 5)), reload: false };
    }
    if data.len() < 12 {
        return NatPmpReply { response: Some(build_error_response(rop, 2)), reload: false };
    }
    let protocol = if opcode == 1 {
        Protocol::Udp
    } else {
        Protocol::Tcp
    };
    let internal_port: u16 = (data[4] as u16) * 256 + (data[5] as u16);
    let suggested: u16 = (data[6] as u16) * 256 + (data[7] as u16);
    let lifetime: u32 = (data[8] as u32) * 0x1000000 + (data[9] as u32) * 0x10000 + (data[10] as u32)
        * 0x100 + (data[11] as u32);
    let c = match client {
        Some(c) => c,
        None => {
            return NatPmpReply { response: Some(build_error_response(rop, 2)), reload: false };
        },
    };
    if lifetime == 0 && internal_port == 0 {
        let removed = table.remove_where(DropRule::Client(c));
        return NatPmpReply {
            response: Some(build_mapping_response(rop, sssoe, 0, 0, 0)),
            reload: removed,
        };
    }
    if suggested >= MIN_ALLOWED_PORT {
        let owner = table.get(MappingKey { protocol, external_port: suggested });
        let free_or_own = match owner {
            None => true,
            Some(o) => o.internal_ip == c,
        };
        if free_or_own {
            return grant(table, c, protocol, internal_port, suggested, lifetime, now, rop);
        }
        return match find_available_port(table, protocol) {
            Some(p) => grant(table, c, protocol, internal_port, p, lifetime, now, rop),
            None => NatPmpReply { response: Some(build_error_response(rop, 4)), reload: false },
        };
    }
    if lifetime == 0 {
        let removed = table.remove_where(DropRule::ClientPort(c, internal_port, protocol));
        return NatPmpReply {
            response: Some(build_mapping_response(rop, sssoe, internal_port, 0, 0)),
            reload: removed,
        };
    }
    match find_available_port(table, protocol) {
        Some(p) => grant(table, c, protocol, internal_port, p, lifetime, now, rop),
        None => NatPmpReply { response: Some(build_error_response(rop, 4)), reload: false },
    }
}

// ---------------------------------------------------------------------
// Clients, rules, server events
// ---------------------------------------------------------------------

/// The network address and prefix length of `a.b.c.d/len` text.
pub open spec fn cidr_parts(lan: Seq<char>) -> Option<(Ipv4, u32)> {
    match split_once(lan, "/"@) {
        Some((n, p)) => match (parse_ipv4(n), parse_u32(p)) {
            (Some(ip), Some(len)) => Some((ip, len)),
            _ => None,
        },
        None => None,
    }
}

/// The netmask of a prefix length from 1 to 32 (0 for length 0).
pub open spec fn prefix_mask(len: u32) -> u32 {
    if len == 0 {
        0
    } else {
        0xFFFF_FFFFu32 << ((32 - len) as u32)
    }
}

/// `client` is an IPv4 host inside the network `lan` (`a.b.c.d/len`).
pub open spec fn lan_client_spec(client: Option<Ipv4>, lan: Seq<char>) -> bool {
    match client {
        None => false,
        Some(c) => match cidr_parts(lan) {
            None => false,
            Some((net, len)) => len <= 32 && ((c.bits() as u32) & prefix_mask(len)) == ((
            net.bits() as u32) & prefix_mask(len)),
        },
    }
}

/// Whether `client` (`None` for an IPv6 sender) is inside the network
/// `lan_network`, written `a.b.c.d/len`.
pub fn is_lan_client(client: Option<Ipv4>, lan_network: &str) -> (b: bool)
    ensures
        b == lan_client_spec(client, lan_network@),
{
    let c = match client {
        Some(c) => c,
        None => {
            return false;
        },
    };
    let v = chars_of(lan_network);
    let slash = chars_of("/");
    let (n, p) = match split_once_chars(v.as_slice(), slash.as_slice()) {
        Some(parts) => parts,
        None => {
            return false;
        },
    };
    let net = match parse_ipv4_chars(n) {
        Some(ip) => ip,
        None => {
            return false;
        },
    };
    let len = match parse_u32_chars(p) {
        Some(l) => l,
        None => {
            return false;
        },
    };
    if len > 32 {
        return false;
    }
    let mask: u32 = if len == 0 {
        0
    } else {
        0xFFFF_FFFFu32 << (32 - len)
    };
    (c.to_u32() & mask) == (net.to_u32() & mask)
}

/// The `/24` network of an address, as text.
pub open spec fn network_text(ip: Ipv4) -> Seq<char> {
    dec(ip.a as nat) + "."@ + dec(ip.b as nat) + "."@ + dec(ip.c as nat) + ".0/24"@
}

/// The redirect rule of a mapping.
pub open spec fn rdr_rule(ext_if: Seq<char>, m: Mapping) -> Seq<char> {
    "rdr pass on "@ + ext_if + " proto "@ + protocol_text(m.protocol) + " from any to any port "@
        + dec(m.external_port as nat) + " -> "@ + ip_text(m.internal_ip) + " port "@ + dec(
        m.internal_port as nat,
    ) + "\n"@
}

/// The pass rule of a mapping.
pub open spec fn pass_rule(ext_if: Seq<char>, m: Mapping) -> Seq<char> {
    "pass in quick on "@ + ext_if + " proto "@ + protocol_text(m.protocol) + " from any to "@
        + ip_text(m.internal_ip) + " port "@ + dec(m.internal_port as nat) + "\n"@
}

/// The two pf rules of a mapping: the redirect and the pass rule.
pub open spec fn mapping_rules(ext_if: Seq<char>, m: Mapping) -> Seq<char> {
    rdr_rule(ext_if, m) + pass_rule(ext_if, m)
}

/// The rules of all mappings, in table order.
pub open spec fn rules_of(ext_if: Seq<char>, s: Seq<Mapping>) -> Seq<char>
    decreases s.len(),
{
    if s.len() == 0 {
        seq![]
    } else {
        rules_of(ext_if, s.drop_last()) + mapping_rules(ext_if, s.last())
    }
}

/// Appends the redirect rule of one mapping.
fn push_rdr_rule(out: &mut Vec<char>, ext_if: &str, m: Mapping)
    ensures
        final(out)@ == old(out)@ + rdr_rule(ext_if@, m),
{
    let proto = m.protocol.name();
    extend_str(out, "rdr pass on ");
    extend_str(out, ext_if);
    extend_str(out, " proto ");
    extend_str(out, proto);
    extend_str(out, " from any to any port ");
    push_dec(out, m.external_port as u64);
    extend_str(out, " -> ");
    push_ip(out, m.internal_ip);
    extend_str(out, " port ");
    push_dec(out, m.internal_port as u64);
    extend_str(out, "\n");
    assert(out@ =~= old(out)@ + rdr_rule(ext_if@, m));
}

/// Appends the pass rule of one mapping.
fn push_pass_rule(out: &mut Vec<char>, ext_if: &str, m: Mapping)
    ensures
        final(out)@ == old(out)@ + pass_rule(ext_if@, m),
{
    let proto = m.protocol.name();
    extend_str(out, "pass in quick on ");
    extend_str(out, ext_if);
    extend_str(out, " proto ");
    extend_str(out, proto);
    extend_str(out, " from any to ");
    push_ip(out, m.internal_ip);
    extend_str(out, " port ");
    push_dec(out, m.internal_port as u64);
    extend_str(out, "\n");
    assert(out@ =~= old(out)@ + pass_rule(ext_if@, m));
}

/// Appends the rules of one mapping.
fn push_mapping_rules(out: &mut Vec<char>, ext_if: &str, m: Mapping)
    ensures
        final(out)@ == old(out)@ + mapping_rules(ext_if@, m),
{
    push_rdr_rule(out, ext_if, m);
    push_pass_rule(out, ext_if, m);
    assert(out@ =~= old(out)@ + mapping_rules(ext_if@, m));
}

/// The NAT-PMP anchor's rules for the current mappings; `None` when
/// there are none and the anchor is to be flushed instead.
pub fn reload_anchor_rules(ext_ifname: &str, table: &MappingTable) -> (r: Option<String>)
    ensures
        r is None <==> table@.len() == 0,
        r matches Some(t) ==> t@ == rules_of(ext_ifname@, table.entries_seq()),
{
    if table.is_empty() {
        return None;
    }
    let ghost s = table.entries_seq();
    let mut out: Vec<char> = Vec::new();
    let mut i: usize = 0;
    let n = table.len();
    assert(s.take(0) =~= Seq::<Mapping>::empty());
    while i < n
        invariant
            s == table.entries_seq(),
            n == s.len(),
            i <= n,
            out@ == rules_of(ext_ifname@, s.take(i as int)),
        decreases n - i,
    {
        push_mapping_rules(&mut out, ext_ifname, table.entry(i));
        assert(s.take(i + 1).drop_last() =~= s.take(i as int));
        i = i + 1;
    }
    assert(s.take(n as int) =~= s);
    Some(string_of(out.as_slice()))
}

/// The address on the first `inet` line of `ifconfig` output that has
/// one (`None` when that line's address does not parse).
pub open spec fn inet_addr(ls: Seq<Seq<char>>) -> Option<Ipv4>
    decreases ls.len(),
{
    if ls.len() == 0 {
        None
    } else {
        let t = trim(ls[0]);
        if starts_with(t, "inet "@) && tokens(t).len() >= 2 {
            parse_ipv4(tokens(t)[1])
        } else {
            inet_addr(ls.drop_first())
        }
    }
}

/// The IPv4 address of an interface, from its `ifconfig` output.
pub fn parse_interface_ip(stdout: &str) -> (r: Option<Ipv4>)
    ensures
        r == inet_addr(lines(stdout@)),
{
    let v = chars_of(stdout);
    let ls = split_lines(v.as_slice());
    let ghost lv = views(ls@);
    let inet = chars_of("inet ");
    let mut k: usize = 0;
    assert(lv.skip(0) =~= lv);
    while k < ls.len()
        invariant
            lv == views(ls@),
            lv == lines(stdout@),
            inet@ == "inet "@,
            k <= ls@.len(),
            inet_addr(lv) == inet_addr(lv.skip(k as int)),
        decreases ls@.len() - k,
    {
        let t = trim_chars(ls[k]);
        assert(lv.skip(k as int)[0] == ls@[k as int]@);
        if starts_with_chars(t, inet.as_slice()) {
            let parts = tokens_of(t);
            if parts.len() >= 2 {
                return parse_ipv4_chars(parts[1]);
            }
        }
        assert(lv.skip(k as int).drop_first() =~= lv.skip(k + 1));
        k = k + 1;
    }
    None
}

/// A NAT-PMP service for one external interface and one LAN network.
pub struct NatPmpServer {
    ext_ifname: String,
    lan_network: String,
}

impl NatPmpServer {
    /// The external interface.
    pub closed spec fn ext_view(&self) -> Seq<char> {
        self.ext_ifname@
    }

    /// The LAN network, as `a.b.c.d/len`.
    pub closed spec fn lan_view(&self) -> Seq<char> {
        self.lan_network@
    }

    /// A service mapping on `ext_ifname` for clients of `lan_network`.
    /// The LAN interface name is accepted for a later binding of the
    /// socket to it and not used yet.
    pub fn new(ext_ifname: &str, lan_ifname: &str, lan_network: &str) -> (s: NatPmpServer)
        ensures
            s.ext_view() == ext_ifname@,
            s.lan_view() == lan_network@,
    {
        NatPmpServer {
            ext_ifname: String::from_str(ext_ifname),
            lan_network: String::from_str(lan_network),
        }
    }

    /// The external interface.
    pub fn ext_ifname(&self) -> (r: &str)
        ensures
            r@ == self.ext_view(),
    {
        self.ext_ifname.as_str()
    }

    /// The LAN network.
    pub fn lan_network(&self) -> (r: &str)
        ensures
            r@ == self.lan_view(),
    {
        self.lan_network.as_str()
    }

    /// The `/24` network of a gateway address: `192.168.2.1` gives
    /// `192.168.2.0/24`.
    pub fn network_from_ip(ip: Ipv4) -> (s: String)
        ensures
            s@ == network_text(ip),
    {
        let mut v: Vec<char> = Vec::new();
        push_dec(&mut v, ip.a as u64);
        extend_str(&mut v, ".");
        push_dec(&mut v, ip.b as u64);
        extend_str(&mut v, ".");
        push_dec(&mut v, ip.c as u64);
        extend_str(&mut v, ".0/24");
        assert(v@ =~= network_text(ip));
        string_of(v.as_slice())
    }

    /// A datagram from `client`: ignored unless the sender is on the
    /// LAN, otherwise handled as a request.
    pub fn serve_packet(
        &self,
        data: &[u8],
        client: Option<Ipv4>,
        external_ip: Ipv4,
        now: u64,
        table: &mut MappingTable,
    ) -> (reply: NatPmpReply)
        ensures
            !lan_client_spec(client, self.lan_view()) ==> reply.response is None && !reply.reload
                && final(table)@ == old(table)@,
            lan_client_spec(client, self.lan_view()) ==> (
                reply_bytes(reply.response),
                final(table)@,
                reply.reload,
            ) == handle_spec(data@, client, external_ip, now, old(table)@),
    {
        if !is_lan_client(client, self.lan_network.as_str()) {
            return NatPmpReply { response: None, reload: false };
        }
        handle_request(data, client, external_ip, now, table)
    }

    /// The periodic expiry pass at second `now`: drops expired mappings
    /// and tells whether the rules must be reloaded.
    pub fn expire(table: &mut MappingTable, now: u64) -> (reload: bool)
        ensures
            final(table)@ == map_without(old(table)@, DropRule::ExpiredAt(now)),
            reload == drops_any(old(table)@, DropRule::ExpiredAt(now)),
    {
        table.remove_where(DropRule::ExpiredAt(now))
    }
}

} // verus!
