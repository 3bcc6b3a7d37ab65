# tunshare

A macOS terminal app that shares a VPN connection over the LAN: it
detects the VPN and LAN interfaces, turns on IP forwarding, loads pf NAT
rules into the `com.tunshare` anchor, and can run a DHCP server
(dnsmasq) and a NAT-PMP server for the devices behind it. Everything it
changes is put back when sharing stops or the app exits.

## Layout

- `src/` is the library, verified with Verus. It holds every decision
  the app makes:
  - `firewall.rs`: the anchor body, the MAIN hooks, merging and ordering
    MAIN, reading a ruleset back into a contract, interpreting pfctl's
    answers, the cleanup plan; `main_laws.rs` proves that merging is
    idempotent, keeps pf's section order, leaves each hook exactly once,
    loses no foreign line and invents none, and passes the hooks check,
    and that MAIN ordered when sharing stops
    holds none of sharing's lines but the skip line; `rules_laws.rs`
    proves that the anchor body reads back as the interfaces and address
    it was made for, that MAIN and body together read as sharing in
    place, and that an address printed in dotted form parses back to
    itself; `bypass_laws.rs` proves
    the same of the body with a WAN bypass, down to the WAN interface,
    the gateway, the NAT to the bypass table and the `route-to` rule.
  - `natpmp.rs`: the NAT-PMP protocol (RFC 6886) over a mapping table;
    `natpmp_laws.rs` proves that the table stays valid, that clients
    cannot touch each other's mappings, what a grant and a deletion do,
    the shape of every reply, and that a sender is on the LAN of a
    gateway exactly when their first three octets agree.
  - `app.rs`: the application state machine: each key and each finished
    operation gives the next state and the action to carry out;
    `app_laws.rs` holds its laws.
  - `network.rs`, `dns.rs`, `sysctl.rs`, `health.rs`, `doctor.rs`:
    reading command output and deciding what it means.
  - `screens.rs`, `ui.rs`: what the screens show, the doctor's detail
    pane and summary line included.
  - `text.rs`, `net.rs`: string and address helpers with their specs.
- `app/` is the front end: terminal, keys, drawing, running commands and
  sockets, the preferences file.
- `tests/` runs the library on concrete values.
