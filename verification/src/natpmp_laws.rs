//! Laws of NAT-PMP request handling.

use vstd::prelude::*;
use crate::natpmp::{
    drops, error_bytes, first_free_port, grant_spec, handle_spec, key, key_of, lowest_free,
    map_request_spec, map_without, mapping_bytes, DropRule, Mapping, MappingKey, Protocol,
    MAX_LIFETIME, MIN_ALLOWED_PORT, RESPONSE_FLAG, cidr_parts, lan_client_spec, network_text,
    prefix_mask,
};
use crate::net::{dec, digits_value, ip_text, parse_u32, Ipv4};
use crate::text::{occurs_at, split_once};

verus! {

/// Every mapping sits under its own key, on an allowed external port,
/// with a lifetime of one second up to [`MAX_LIFETIME`].
pub open spec fn valid_table(m: Map<MappingKey, Mapping>) -> bool {
    forall|k: MappingKey|
        #[trigger] m.contains_key(k) ==> key_of(m[k]) == k && m[k].external_port >= MIN_ALLOWED_PORT
            && 1 <= m[k].lifetime_secs <= MAX_LIFETIME
}

/// The mappings of clients other than `c` are the same in `a` and `b`.
pub open spec fn others_kept(a: Map<MappingKey, Mapping>, b: Map<MappingKey, Mapping>, c: Ipv4) -> bool {
    forall|k: MappingKey|
        #[trigger] a.contains_key(k) && a[k].internal_ip != c ==> b.contains_key(k) && b[k] == a[k]
}

/// Nothing that was not in `a` turns up in `b` except for client `c`.
pub open spec fn only_client_added(a: Map<MappingKey, Mapping>, b: Map<MappingKey, Mapping>, c: Ipv4) -> bool {
    forall|k: MappingKey|
        #[trigger] b.contains_key(k) && !(a.contains_key(k) && b[k] == a[k]) ==> b[k].internal_ip == c
}

/// The lowest free port is free and allowed.
pub proof fn lemma_first_free(m: Map<MappingKey, Mapping>, p: Protocol)
    ensures
        first_free_port(m, p) matches Some(port) ==> port >= MIN_ALLOWED_PORT && !m.contains_key(
            key(p, port),
        ),
{
    if exists|port: u16| #[trigger] lowest_free(m, p, port) {
        let port = choose|port: u16| #[trigger] lowest_free(m, p, port);
        assert(lowest_free(m, p, port));
    }
}

/// Dropping mappings keeps the table valid.
pub proof fn lemma_without_valid(m: Map<MappingKey, Mapping>, d: DropRule)
    requires
        valid_table(m),
    ensures
        valid_table(map_without(m, d)),
{
    assert forall|k: MappingKey| #[trigger] map_without(m, d).contains_key(k) implies key_of(
        map_without(m, d)[k],
    ) == k && map_without(m, d)[k].external_port >= MIN_ALLOWED_PORT && 1 <= map_without(
        m,
        d,
    )[k].lifetime_secs <= MAX_LIFETIME by {
        assert(m.contains_key(k));
    }
}

/// Granting keeps the table valid, never touches another client's
/// mapping and adds none for another client.
pub proof fn lemma_grant(
    m: Map<MappingKey, Mapping>,
    c: Ipv4,
    proto: Protocol,
    internal_port: u16,
    external_port: u16,
    lifetime: u32,
    now: u64,
    rop: u8,
)
    requires
        valid_table(m),
        !m.contains_key(key(proto, external_port)) || m[key(proto, external_port)].internal_ip == c,
    ensures
        valid_table(grant_spec(m, c, proto, internal_port, external_port, lifetime, now, rop).1),
        others_kept(m, grant_spec(m, c, proto, internal_port, external_port, lifetime, now, rop).1, c),
        only_client_added(m, grant_spec(m, c, proto, internal_port, external_port, lifetime, now, rop).1, c),
{
    let n = grant_spec(m, c, proto, internal_port, external_port, lifetime, now, rop).1;
    let kk = key(proto, external_port);
    assert forall|k: MappingKey| #[trigger] n.contains_key(k) implies key_of(n[k]) == k
        && n[k].external_port >= MIN_ALLOWED_PORT && 1 <= n[k].lifetime_secs <= MAX_LIFETIME by {
        if k != kk {
            assert(m.contains_key(k));
        }
    }
    assert forall|k: MappingKey| #[trigger] m.contains_key(k) && m[k].internal_ip != c implies n.contains_key(k)
        && n[k] == m[k] by {
        assert(k != kk);
    }
    assert forall|k: MappingKey| #[trigger] n.contains_key(k) && !(m.contains_key(k) && n[k] == m[k]) implies n[k].internal_ip == c by {
        if k != kk {
            assert(m.contains_key(k));
        }
    }
}

/// Handling a request keeps the table valid: every mapping stays on an
/// allowed external port with a lifetime of at most [`MAX_LIFETIME`].
/// And a request from one client never changes, removes or adds a
/// mapping of another client.
pub proof fn lemma_handle_keeps_table(
    data: Seq<u8>,
    client: Option<Ipv4>,
    external_ip: Ipv4,
    now: u64,
    m: Map<MappingKey, Mapping>,
)
    requires
        valid_table(m),
    ensures
        valid_table(handle_spec(data, client, external_ip, now, m).1),
        client matches Some(c) ==> others_kept(m, handle_spec(data, client, external_ip, now, m).1, c)
            && only_client_added(m, handle_spec(data, client, external_ip, now, m).1, c),
        client is None ==> handle_spec(data, client, external_ip, now, m).1 == m,
{
    if data.len() >= 2 && data[0] == 0 && (data[1] == 1 || data[1] == 2) && data.len() >= 12 {
        if let Some(c) = client {
            let op = data[1];
            let rop = ((RESPONSE_FLAG + op) % 256) as u8;
            let proto = if op == 1 {
                Protocol::Udp
            } else {
                Protocol::Tcp
            };
            let ip = crate::natpmp::be16_value(data[4], data[5]);
            let sg = crate::natpmp::be16_value(data[6], data[7]);
            let lt = crate::natpmp::be32_value(data[8], data[9], data[10], data[11]);
            lemma_first_free(m, proto);
            let n = map_request_spec(m, c, proto, ip, sg, lt, now, rop).1;
            if lt == 0 && ip == 0 {
                let d = DropRule::Client(c);
                lemma_without_valid(m, d);
                assert(others_kept(m, n, c));
                assert(only_client_added(m, n, c)) by {
                    assert forall|k: MappingKey| #[trigger] n.contains_key(k) && !(m.contains_key(k)
                        && n[k] == m[k]) implies n[k].internal_ip == c by {
                        assert(m.contains_key(k));
                    }
                }
            } else if sg >= MIN_ALLOWED_PORT {
                let k = key(proto, sg);
                if !m.contains_key(k) || m[k].internal_ip == c {
                    lemma_grant(m, c, proto, ip, sg, lt, now, rop);
                } else {
                    match first_free_port(m, proto) {
                        Some(p) => {
                            lemma_grant(m, c, proto, ip, p, lt, now, rop);
                        },
                        None => {},
                    }
                }
            } else if lt == 0 {
                let d = DropRule::ClientPort(c, ip, proto);
                lemma_without_valid(m, d);
                assert(only_client_added(m, n, c)) by {
                    assert forall|k: MappingKey| #[trigger] n.contains_key(k) && !(m.contains_key(k)
                        && n[k] == m[k]) implies n[k].internal_ip == c by {
                        assert(m.contains_key(k));
                    }
                }
            } else {
                match first_free_port(m, proto) {
                    Some(p) => {
                        lemma_grant(m, c, proto, ip, p, lt, now, rop);
                    },
                    None => {},
                }
            }
        }
    }
}

/// The protocol a mapping opcode asks for: 1 UDP, 2 TCP.
pub open spec fn proto_of(op: u8) -> Protocol {
    if op == 1 {
        Protocol::Udp
    } else {
        Protocol::Tcp
    }
}

/// A well-formed mapping request (version 0, opcode 1 or 2, twelve bytes
/// or more).
pub open spec fn is_map_request(data: Seq<u8>) -> bool {
    data.len() >= 12 && data[0] == 0 && (data[1] == 1 || data[1] == 2)
}

/// The internal port a mapping request names.
pub open spec fn req_internal(data: Seq<u8>) -> u16 {
    crate::natpmp::be16_value(data[4], data[5])
}

/// The external port a mapping request suggests.
pub open spec fn req_suggested(data: Seq<u8>) -> u16 {
    crate::natpmp::be16_value(data[6], data[7])
}

/// The lifetime a mapping request asks for.
pub open spec fn req_lifetime(data: Seq<u8>) -> u32 {
    crate::natpmp::be32_value(data[8], data[9], data[10], data[11])
}

/// A mapping request for a free allowed port, or one the client already
/// holds, is granted on that very port: the table then holds the
/// mapping with the lifetime capped at [`MAX_LIFETIME`], created now,
/// and the reply reports the port and that lifetime.
pub proof fn lemma_map_request_grants(
    data: Seq<u8>,
    c: Ipv4,
    external_ip: Ipv4,
    now: u64,
    m: Map<MappingKey, Mapping>,
)
    requires
        is_map_request(data),
        req_lifetime(data) > 0,
        req_suggested(data) >= MIN_ALLOWED_PORT,
        !m.contains_key(key(proto_of(data[1]), req_suggested(data))) || m[key(
            proto_of(data[1]),
            req_suggested(data),
        )].internal_ip == c,
    ensures
        ({
            let out = handle_spec(data, Some(c), external_ip, now, m);
            let capped = if req_lifetime(data) < MAX_LIFETIME {
                req_lifetime(data)
            } else {
                MAX_LIFETIME
            };
            &&& out.1.contains_key(key(proto_of(data[1]), req_suggested(data)))
            &&& out.1[key(proto_of(data[1]), req_suggested(data))] == (Mapping {
                internal_ip: c,
                internal_port: req_internal(data),
                external_port: req_suggested(data),
                protocol: proto_of(data[1]),
                lifetime_secs: capped,
                created_at: now,
            })
            &&& out.0 == Some(
                mapping_bytes(
                    ((RESPONSE_FLAG + data[1]) % 256) as u8,
                    now as u32,
                    req_internal(data),
                    req_suggested(data),
                    capped,
                ),
            )
            &&& out.2
        }),
{
}

/// A request with lifetime zero and internal port zero deletes all of
/// the client's mappings and nothing else: afterwards the client holds
/// none, every other mapping is as it was.
pub proof fn lemma_delete_all(
    data: Seq<u8>,
    c: Ipv4,
    external_ip: Ipv4,
    now: u64,
    m: Map<MappingKey, Mapping>,
)
    requires
        is_map_request(data),
        req_lifetime(data) == 0,
        req_internal(data) == 0,
    ensures
        forall|k: MappingKey| #[trigger] handle_spec(data, Some(c), external_ip, now, m).1.contains_key(k)
            ==> handle_spec(data, Some(c), external_ip, now, m).1[k].internal_ip != c,
        forall|k: MappingKey|
            m.contains_key(k) && #[trigger] m[k].internal_ip != c ==> handle_spec(
                data,
                Some(c),
                external_ip,
                now,
                m,
            ).1.contains_key(k) && handle_spec(data, Some(c), external_ip, now, m).1[k] == m[k],
{
}

/// A request with lifetime zero for an internal port, suggesting no
/// allowed external port, deletes the client's mappings of that port and
/// protocol and nothing else.
pub proof fn lemma_delete_port(
    data: Seq<u8>,
    c: Ipv4,
    external_ip: Ipv4,
    now: u64,
    m: Map<MappingKey, Mapping>,
)
    requires
        is_map_request(data),
        req_lifetime(data) == 0,
        req_internal(data) != 0,
        req_suggested(data) < MIN_ALLOWED_PORT,
    ensures
        forall|k: MappingKey| #[trigger] handle_spec(data, Some(c), external_ip, now, m).1.contains_key(k)
            ==> !(handle_spec(data, Some(c), external_ip, now, m).1[k].internal_ip == c
            && handle_spec(data, Some(c), external_ip, now, m).1[k].internal_port == req_internal(
            data,
        ) && handle_spec(data, Some(c), external_ip, now, m).1[k].protocol == proto_of(data[1])),
        forall|k: MappingKey|
            m.contains_key(k) && !(#[trigger] m[k].internal_ip == c && m[k].internal_port
                == req_internal(data) && m[k].protocol == proto_of(data[1])) ==> handle_spec(
                data,
                Some(c),
                external_ip,
                now,
                m,
            ).1.contains_key(k) && handle_spec(data, Some(c), external_ip, now, m).1[k] == m[k],
{
}

/// Expiry keeps the table valid and leaves no expired mapping.
pub proof fn lemma_expire_keeps_table(m: Map<MappingKey, Mapping>, now: u64)
    requires
        valid_table(m),
    ensures
        valid_table(map_without(m, DropRule::ExpiredAt(now))),
        forall|k: MappingKey|
            #[trigger] map_without(m, DropRule::ExpiredAt(now)).contains_key(k) ==> !drops(
                DropRule::ExpiredAt(now),
                map_without(m, DropRule::ExpiredAt(now))[k],
            ),
{
    lemma_without_valid(m, DropRule::ExpiredAt(now));
}

/// Every reply is a version-0 message of 8, 12 or 16 bytes; a request
/// of version 0 is answered with its opcode plus 128 (128 for any other
/// version); only a datagram shorter than two bytes goes unanswered.
pub proof fn lemma_reply_shape(
    data: Seq<u8>,
    client: Option<Ipv4>,
    external_ip: Ipv4,
    now: u64,
    m: Map<MappingKey, Mapping>,
)
    ensures
        handle_spec(data, client, external_ip, now, m).0 is Some <==> data.len() >= 2,
        handle_spec(data, client, external_ip, now, m).0 matches Some(r) ==> {
            &&& r.len() == 8 || r.len() == 12 || r.len() == 16
            &&& r[0] == 0
            &&& r[1] == if data[0] == 0 {
                ((RESPONSE_FLAG + data[1]) % 256) as u8
            } else {
                RESPONSE_FLAG
            }
        },
{
    if data.len() >= 2 && data[0] == 0 && (data[1] == 1 || data[1] == 2) && data.len() >= 12 {
        if let Some(c) = client {
            let op = data[1];
            let rop = ((RESPONSE_FLAG + op) % 256) as u8;
            let proto = if op == 1 {
                Protocol::Udp
            } else {
                Protocol::Tcp
            };
            let ip = crate::natpmp::be16_value(data[4], data[5]);
            let sg = crate::natpmp::be16_value(data[6], data[7]);
            let lt = crate::natpmp::be32_value(data[8], data[9], data[10], data[11]);
            let capped = if lt < MAX_LIFETIME {
                lt
            } else {
                MAX_LIFETIME
            };
            assert(forall|a: u16, b: u16, l: u32| (#[trigger] mapping_bytes(rop, now as u32, a, b, l)).len() == 16 && mapping_bytes(rop, now as u32, a, b, l)[0] == 0 && mapping_bytes(rop, now as u32, a, b, l)[1] == rop);
            assert(forall|code: u16| (#[trigger] error_bytes(rop, code)).len() == 8 && error_bytes(rop, code)[0] == 0 && error_bytes(rop, code)[1] == rop);
        }
    }
}

/// The gateway's `/24` network, read back, is the gateway's first three
/// octets with a zero host part and prefix length 24.
proof fn lemma_network_parts(gw: Ipv4)
    ensures
        cidr_parts(network_text(gw)) == Some((Ipv4 { d: 0, ..gw }, 24u32)),
{
    let g0 = Ipv4 { d: 0, ..gw };
    let t = ip_text(g0);
    let slash = "/"@;
    let tail = "24"@;
    reveal_strlit(".0/24");
    reveal_strlit(".");
    reveal_strlit("/");
    reveal_strlit("24");
    assert(dec(0) =~= seq!['0']);
    assert(network_text(gw) =~= t + slash + tail);
    crate::rules_laws::lemma_number_chars(0, g0);
    let s = network_text(gw);
    let at = t.len() as int;
    assert(s.subrange(at, at + 1) =~= slash);
    assert forall|j: int| 0 <= j < at implies !occurs_at(s, slash, j) by {
        if occurs_at(s, slash, j) {
            assert(s.subrange(j, j + 1)[0] == s[j]);
            assert(s[j] == t[j]);
        }
    }
    crate::main_laws::lemma_find_is(s, slash, at);
    assert(s.take(at) =~= t);
    assert(s.skip(at + 1) =~= tail);
    assert(split_once(s, slash) == Some((t, tail)));
    crate::rules_laws::lemma_parse_ip_text(g0);
    assert(tail.drop_last() =~= seq!['2']);
    assert(tail.drop_last().drop_last() =~= Seq::<char>::empty());
    assert(digits_value(tail.drop_last().drop_last()) == 0);
    assert(crate::net::digit_val('2') == 2);
    assert(crate::net::digit_val('4') == 4);
    assert(digits_value(tail.drop_last()) == 2);
    assert(tail.last() == '4');
    assert(digits_value(tail) == 24);
    assert(parse_u32(tail) == Some(24u32));
}

/// Three octets in base 256 are equal exactly when each is.
proof fn lemma_base256(a1: int, b1: int, c1: int, a2: int, b2: int, c2: int)
    requires
        0 <= a1 < 256,
        0 <= b1 < 256,
        0 <= c1 < 256,
        0 <= a2 < 256,
        0 <= b2 < 256,
        0 <= c2 < 256,
    ensures
        (a1 * 65536 + b1 * 256 + c1 == a2 * 65536 + b2 * 256 + c2) == (a1 == a2 && b1 == b2 && c1
            == c2),
{
}

/// An address with its host octet cleared: the address less its last
/// octet.
proof fn lemma_mask24(ip: Ipv4)
    ensures
        ((ip.bits() as u32) & prefix_mask(24)) == 256 * (ip.a * 65536 + ip.b * 256 + ip.c),
{
    let x: u32 = ip.bits() as u32;
    assert(ip.bits() == 256 * (ip.a * 65536 + ip.b * 256 + ip.c) + ip.d);
    assert(x == ip.bits());
    vstd::arithmetic::div_mod::lemma_fundamental_div_mod_converse(
        x as int,
        256,
        ip.a * 65536 + ip.b * 256 + ip.c,
        ip.d as int,
    );
    assert(0xFFFF_FFFFu32 << 8u32 == 0xFFFF_FF00u32) by (bit_vector);
    assert(prefix_mask(24) == 0xFFFF_FF00u32);
    assert(x & 0xFFFF_FF00u32 == x - x % 256) by (bit_vector);
}

/// A sender is a client on the LAN of a gateway exactly when it is an
/// IPv4 host whose first three octets are the gateway's: the network
/// that the server is given is the gateway's `/24`.
pub proof fn lemma_lan_of_gateway(gw: Ipv4, client: Option<Ipv4>)
    ensures
        lan_client_spec(client, network_text(gw)) == match client {
            Some(c) => c.a == gw.a && c.b == gw.b && c.c == gw.c,
            None => false,
        },
{
    lemma_network_parts(gw);
    if let Some(c) = client {
        let g0 = Ipv4 { d: 0, ..gw };
        lemma_mask24(c);
        lemma_mask24(g0);
        lemma_base256(c.a as int, c.b as int, c.c as int, gw.a as int, gw.b as int, gw.c as int);
    }
}

/// A request with lifetime zero for an internal port, suggesting an
/// allowed external port that is free or the client's own, deletes that
/// port's mapping and nothing else: afterwards no mapping sits on that
/// protocol and port, every other mapping is as it was, none is added,
/// and the reply reports the port with lifetime zero.
pub proof fn lemma_delete_suggested(
    data: Seq<u8>,
    c: Ipv4,
    external_ip: Ipv4,
    now: u64,
    m: Map<MappingKey, Mapping>,
)
    requires
        is_map_request(data),
        req_lifetime(data) == 0,
        req_internal(data) != 0,
        req_suggested(data) >= MIN_ALLOWED_PORT,
        !m.contains_key(key(proto_of(data[1]), req_suggested(data))) || m[key(
            proto_of(data[1]),
            req_suggested(data),
        )].internal_ip == c,
    ensures
        !handle_spec(data, Some(c), external_ip, now, m).1.contains_key(
            key(proto_of(data[1]), req_suggested(data)),
        ),
        forall|k: MappingKey|
            k != key(proto_of(data[1]), req_suggested(data)) ==> (#[trigger] handle_spec(
                data,
                Some(c),
                external_ip,
                now,
                m,
            ).1.contains_key(k) <==> m.contains_key(k)),
        forall|k: MappingKey|
            k != key(proto_of(data[1]), req_suggested(data)) && #[trigger] m.contains_key(k)
                ==> handle_spec(data, Some(c), external_ip, now, m).1[k] == m[k],
        handle_spec(data, Some(c), external_ip, now, m).0 == Some(
            mapping_bytes(
                ((RESPONSE_FLAG + data[1]) % 256) as u8,
                now as u32,
                req_internal(data),
                req_suggested(data),
                0,
            ),
        ),
{
}

} // verus!
