//! This machine on its network, and which addresses to try for others.

use crate::address;
use crate::address::{IpAddr, Ipv4Addr};
use crate::protocol::{RDP_PORT, VNC_PORT};
use crate::text;
use vstd::prelude::*;

verus! {

// ---------------------------------------------------------------------------
// This machine
// ---------------------------------------------------------------------------

/// The account name, by the environment's `USERNAME` and `USER`.
pub open spec fn account_name(username: Option<Seq<char>>, user: Option<Seq<char>>) -> Seq<char> {
    match (username, user) {
        (Some(s), _) => s,
        (None, Some(s)) => s,
        (None, None) => seq![],
    }
}

/// The current account name (used as a default username guess). Windows sets
/// `USERNAME`; Unix sets `USER`.
pub fn current_username(username: Option<String>, user: Option<String>) -> (r: String)
    ensures
        r@ == (match (username, user) {
            (Some(s), _) => s@,
            (None, Some(s)) => s@,
            (None, None) => Seq::<char>::empty(),
        }),
        r@ == account_name(text::optional(username), text::optional(user)),
{
    match username {
        Some(s) => s,
        None => match user {
            Some(s) => s,
            None => String::new(),
        },
    }
}

/// Best-guess primary LAN IPv4: the local address of a socket towards the
/// outside, if there is one and it is IPv4.
pub fn primary_ipv4(local: Option<IpAddr>) -> (r: Option<Ipv4Addr>)
    ensures
        r == (match local {
            Some(IpAddr::V4(ip)) => Some(ip),
            _ => None::<Ipv4Addr>,
        }),
{
    match local {
        Some(IpAddr::V4(ip)) => Some(ip),
        _ => None,
    }
}

/// What is read of a network interface.
#[derive(Copy, Clone)]
pub struct Interface {
    pub loopback: bool,
    pub ip: IpAddr,
}

/// Other machines on the LAN can see `ip`: it is neither loopback nor
/// link-local.
pub open spec fn is_lan(ip: Ipv4Addr) -> bool {
    ip.a != 127 && !(ip.a == 169 && ip.b == 254)
}

fn seen_on_lan(ip: Ipv4Addr) -> (r: bool)
    ensures
        r == is_lan(ip),
{
    !ip.is_loopback() && !ip.is_link_local()
}

/// The address of `i` that other machines on the LAN can see.
pub open spec fn lan_address(i: Interface) -> Option<Ipv4Addr> {
    match i.ip {
        IpAddr::V4(ip) => if !i.loopback && is_lan(ip) {
            Some(ip)
        } else {
            None
        },
        IpAddr::V6 => None,
    }
}

/// The LAN addresses of the interfaces, in order.
pub open spec fn lan_addresses_of(s: Seq<Interface>) -> Seq<Ipv4Addr>
    decreases s.len(),
{
    if s.len() == 0 {
        seq![]
    } else {
        match lan_address(s.last()) {
            Some(ip) => lan_addresses_of(s.drop_last()).push(ip),
            None => lan_addresses_of(s.drop_last()),
        }
    }
}

/// The IPv4 addresses of the interfaces, without loopback and link-local ones,
/// each once.
pub fn lan_addresses(interfaces: &Vec<Interface>) -> (r: Vec<Ipv4Addr>)
    ensures
        r@ == address::firsts(lan_addresses_of(interfaces@)),
{
    let mut ips: Vec<Ipv4Addr> = Vec::new();
    proof {
        assert(interfaces@.take(0).len() == 0);
        assert(ips@ =~= address::firsts(lan_addresses_of(interfaces@.take(0))));
    }
    for i in 0..interfaces.len()
        invariant
            ips@ == address::firsts(lan_addresses_of(interfaces@.take(i as int))),
    {
        let ghost before = lan_addresses_of(interfaces@.take(i as int));
        proof {
            assert(interfaces@.take(i + 1).drop_last() =~= interfaces@.take(i as int));
        }
        let interface = interfaces[i];
        if !interface.loopback {
            if let IpAddr::V4(ip) = interface.ip {
                if seen_on_lan(ip) {
                    address::push_new(&mut ips, ip);
                    proof {
                        assert(before.push(ip).drop_last() =~= before);
                    }
                }
            }
        }
    }
    proof {
        assert(interfaces@.take(interfaces.len() as int) =~= interfaces@);
    }
    ips
}

/// This machine's LAN addresses.
pub open spec fn locals_of(s: Seq<Interface>, primary: Option<Ipv4Addr>) -> Seq<Ipv4Addr> {
    let found = address::firsts(lan_addresses_of(s));
    match primary {
        Some(ip) => if found.len() == 0 && is_lan(ip) {
            seq![ip]
        } else {
            found
        },
        None => found,
    }
}

/// All of this machine's LAN IPv4 addresses (excludes loopback / link-local).
/// The primary address stands in where the interfaces give none, unless it is
/// loopback or link-local itself.
pub fn local_ipv4s(interfaces: &Vec<Interface>, primary: Option<Ipv4Addr>) -> (r: Vec<Ipv4Addr>)
    ensures
        r@ == locals_of(interfaces@, primary),
{
    let mut ips = lan_addresses(interfaces);
    if ips.is_empty() {
        if let Some(ip) = primary {
            if seen_on_lan(ip) {
                ips.push(ip);
            }
        }
    }
    proof {
        assert(ips@ =~= locals_of(interfaces@, primary));
    }
    ips
}

// ---------------------------------------------------------------------------
// Resolving a typed name
// ---------------------------------------------------------------------------

/// The names to look up for a typed name: itself and its `.local` mDNS form, or
/// none if nothing was typed.
pub open spec fn lookups(name: Seq<char>) -> Seq<Seq<char>> {
    let typed = text::trimmed(name);
    if typed.len() == 0 {
        seq![]
    } else {
        seq![typed, typed + ".local"@]
    }
}

/// The names to look up for a typed name.
pub fn names_to_resolve(name: &str) -> (r: Vec<String>)
    ensures
        text::texts(r@) == lookups(name@),
{
    let typed = text::trim(name);
    let mut r: Vec<String> = Vec::new();
    if !typed.is_empty() {
        r.push(typed.to_string());
        r.push(text::concat(typed, ".local"));
    }
    proof {
        assert(text::texts(r@) =~= lookups(name@));
    }
    r
}

/// All the answers to several lookups, in order.
pub open spec fn all_answers(a: Seq<Vec<IpAddr>>) -> Seq<IpAddr>
    decreases a.len(),
{
    if a.len() == 0 {
        seq![]
    } else {
        all_answers(a.drop_last()) + a.last()@
    }
}

/// The IPv4 addresses among the answers to the lookups, each once.
pub fn resolve_name(answers: &Vec<Vec<IpAddr>>) -> (r: Vec<Ipv4Addr>)
    ensures
        r@ == address::firsts(address::v4s(all_answers(answers@))),
{
    let mut out: Vec<Ipv4Addr> = Vec::new();
    let ghost mut seen: Seq<IpAddr> = seq![];
    proof {
        assert(answers@.take(0) =~= seq![]);
        assert(out@ =~= address::firsts(address::v4s(seen)));
    }
    for i in 0..answers.len()
        invariant
            seen == all_answers(answers@.take(i as int)),
            out@ == address::firsts(address::v4s(seen)),
    {
        let answer = &answers[i];
        let ghost start = seen;
        proof {
            assert(start + answer@.take(0) =~= start);
        }
        for j in 0..answer.len()
            invariant
                seen == start + answer@.take(j as int),
                out@ == address::firsts(address::v4s(seen)),
        {
            let ghost before = address::v4s(seen);
            let ghost next = start + answer@.take(j + 1);
            proof {
                assert(next =~= seen.push(answer@[j as int]));
                assert(next.drop_last() =~= seen);
            }
            if let IpAddr::V4(ip) = answer[j] {
                address::push_new(&mut out, ip);
                proof {
                    assert(before.push(ip).drop_last() =~= before);
                }
            }
            proof {
                seen = next;
            }
        }
        proof {
            assert(answer@.take(answer.len() as int) =~= answer@);
            assert(answers@.take(i + 1).drop_last() =~= answers@.take(i as int));
        }
    }
    proof {
        assert(answers@.take(answers.len() as int) =~= answers@);
    }
    out
}

// ---------------------------------------------------------------------------
// What to scan
// ---------------------------------------------------------------------------

/// The /24 network of `ip`.
pub open spec fn network_of(ip: Ipv4Addr) -> (u8, u8, u8) {
    (ip.a, ip.b, ip.c)
}

/// The networks to scan: those of the local addresses `locals`, each once.
pub open spec fn networks_of(locals: Seq<Ipv4Addr>) -> Seq<(u8, u8, u8)> {
    address::firsts(locals.map_values(|ip: Ipv4Addr| network_of(ip)))
}

/// The address `d` in the network `n`.
pub open spec fn address_in(n: (u8, u8, u8), d: u8) -> Ipv4Addr {
    Ipv4Addr { a: n.0, b: n.1, c: n.2, d }
}

/// Both ports of `ip`.
pub open spec fn both_ports(ip: Ipv4Addr) -> Seq<(Ipv4Addr, u16)> {
    seq![(ip, 3389u16), (ip, 5900u16)]
}

/// Both ports of the addresses 1 to `d` in `n`, without local ones.
pub open spec fn network_targets(n: (u8, u8, u8), locals: Seq<Ipv4Addr>, d: nat) -> Seq<
    (Ipv4Addr, u16),
>
    decreases d,
{
    if d == 0 {
        seq![]
    } else {
        let ip = address_in(n, d as u8);
        network_targets(n, locals, (d - 1) as nat) + (if locals.contains(ip) {
            seq![]
        } else {
            both_ports(ip)
        })
    }
}

/// Both ports of the addresses 1 to 254 in each network, without local ones.
pub open spec fn networks_targets(n: Seq<(u8, u8, u8)>, locals: Seq<Ipv4Addr>) -> Seq<
    (Ipv4Addr, u16),
>
    decreases n.len(),
{
    if n.len() == 0 {
        seq![]
    } else {
        networks_targets(n.drop_last(), locals) + network_targets(n.last(), locals, 254)
    }
}

/// Both ports of each of the addresses.
pub open spec fn address_targets(ips: Seq<Ipv4Addr>) -> Seq<(Ipv4Addr, u16)>
    decreases ips.len(),
{
    if ips.len() == 0 {
        seq![]
    } else {
        address_targets(ips.drop_last()) + both_ports(ips.last())
    }
}

/// What is scanned, for the local addresses and those of a typed name.
pub open spec fn targets_of(locals: Seq<Ipv4Addr>, resolved: Seq<Ipv4Addr>) -> Seq<
    (Ipv4Addr, u16),
> {
    networks_targets(networks_of(locals), locals) + address_targets(resolved)
}

fn networks(locals: &Vec<Ipv4Addr>) -> (r: Vec<(u8, u8, u8)>)
    ensures
        r@ == networks_of(locals@),
{
    let ghost all = locals@.map_values(|ip: Ipv4Addr| network_of(ip));
    let mut r: Vec<(u8, u8, u8)> = Vec::new();
    proof {
        assert(all.take(0).len() == 0);
        assert(r@ =~= address::firsts(all.take(0)));
    }
    for i in 0..locals.len()
        invariant
            all == locals@.map_values(|ip: Ipv4Addr| network_of(ip)),
            r@ == address::firsts(all.take(i as int)),
    {
        let n: (u8, u8, u8) = (locals[i].a, locals[i].b, locals[i].c);
        proof {
            assert(all.take(i + 1).drop_last() =~= all.take(i as int));
            assert(all.take(i + 1).last() == n);
        }
        if !has_network(&r, n) {
            r.push(n);
        }
    }
    proof {
        assert(all.take(locals.len() as int) =~= all);
    }
    r
}

fn has_network(v: &Vec<(u8, u8, u8)>, n: (u8, u8, u8)) -> (r: bool)
    ensures
        r == v@.contains(n),
{
    for i in 0..v.len()
        invariant
            forall|j: int| 0 <= j < i ==> v@[j] != n,
    {
        if v[i].0 == n.0 && v[i].1 == n.1 && v[i].2 == n.2 {
            assert(v@[i as int] == n);
            return true;
        }
    }
    false
}

fn has_address(v: &Vec<Ipv4Addr>, ip: Ipv4Addr) -> (r: bool)
    ensures
        r == v@.contains(ip),
{
    for i in 0..v.len()
        invariant
            forall|j: int| 0 <= j < i ==> v@[j] != ip,
    {
        if v[i] == ip {
            assert(v@[i as int] == ip);
            return true;
        }
    }
    false
}

fn push_both(targets: &mut Vec<(Ipv4Addr, u16)>, ip: Ipv4Addr)
    ensures
        final(targets)@ == old(targets)@ + both_ports(ip),
{
    targets.push((ip, RDP_PORT));
    targets.push((ip, VNC_PORT));
    proof {
        assert(targets@ =~= old(targets)@ + both_ports(ip));
    }
}

/// The addresses and ports to scan: RDP (3389) and VNC (5900) on every other
/// address of each local /24, and on the addresses of the typed name.
pub fn scan_plan(locals: &Vec<Ipv4Addr>, resolved: &Vec<Ipv4Addr>) -> (r: Vec<(Ipv4Addr, u16)>)
    ensures
        r@ == targets_of(locals@, resolved@),
{
    let nets = networks(locals);
    let mut targets: Vec<(Ipv4Addr, u16)> = Vec::new();
    proof {
        assert(nets@.take(0).len() == 0);
        assert(targets@ =~= networks_targets(nets@.take(0), locals@));
    }
    for i in 0..nets.len()
        invariant
            targets@ == networks_targets(nets@.take(i as int), locals@),
    {
        let n = nets[i];
        let ghost start = targets@;
        let mut d: u8 = 0;
        proof {
            assert(start + network_targets(n, locals@, 0) =~= start);
        }
        while d < 254
            invariant
                d <= 254,
                targets@ == start + network_targets(n, locals@, d as nat),
            decreases 254 - d,
        {
            d = d + 1;
            let ip = Ipv4Addr::new(n.0, n.1, n.2, d);
            if !has_address(locals, ip) {
                push_both(&mut targets, ip);
            }
            proof {
                assert(targets@ =~= start + network_targets(n, locals@, d as nat));
            }
        }
        proof {
            assert(nets@.take(i + 1).drop_last() =~= nets@.take(i as int));
        }
    }
    let ghost scanned = targets@;
    proof {
        assert(nets@.take(nets.len() as int) =~= nets@);
        assert(resolved@.take(0).len() == 0);
        assert(scanned + address_targets(resolved@.take(0)) =~= scanned);
    }
    for i in 0..resolved.len()
        invariant
            targets@ == scanned + address_targets(resolved@.take(i as int)),
    {
        push_both(&mut targets, resolved[i]);
        proof {
            assert(resolved@.take(i + 1).drop_last() =~= resolved@.take(i as int));
            assert(targets@ =~= scanned + address_targets(resolved@.take(i + 1)));
        }
    }
    proof {
        assert(resolved@.take(resolved.len() as int) =~= resolved@);
    }
    targets
}

// ---------------------------------------------------------------------------
// Laws
// ---------------------------------------------------------------------------

/// This machine's addresses are those that its interfaces show to the LAN, each
/// once; where they show none, the primary address alone. None of them is
/// loopback or link-local.
pub proof fn law_locals_are_lan_addresses(s: Seq<Interface>, primary: Option<Ipv4Addr>)
    ensures
        locals_of(s, primary).no_duplicates(),
        forall|ip: Ipv4Addr| #[trigger] locals_of(s, primary).contains(ip) ==> is_lan(ip),
        forall|ip: Ipv4Addr| #[trigger]
            locals_of(s, primary).contains(ip) <==> {
                ||| exists|i: int| 0 <= i < s.len() && lan_address(#[trigger] s[i]) == Some(ip)
                ||| primary == Some(ip) && is_lan(ip) && forall|i: int|
                    0 <= i < s.len() ==> lan_address(#[trigger] s[i]) is None
            },
{
    let all = lan_addresses_of(s);
    let found = address::firsts(all);
    address::lemma_firsts(all);
    lemma_lan_addresses(s);
    if found.len() == 0 {
        assert forall|i: int| 0 <= i < s.len() implies lan_address(#[trigger] s[i]) is None by {
            if let Some(ip) = lan_address(s[i]) {
                assert(all.contains(ip));
                assert(found.contains(ip));
            }
        }
    } else {
        assert(found.contains(found[0]));
        assert(all.contains(found[0]));
    }
    assert forall|ip: Ipv4Addr| #[trigger] locals_of(s, primary).contains(ip) <==> {
        ||| exists|i: int| 0 <= i < s.len() && lan_address(#[trigger] s[i]) == Some(ip)
        ||| primary == Some(ip) && is_lan(ip) && forall|i: int|
            0 <= i < s.len() ==> lan_address(#[trigger] s[i]) is None
    } by {
        assert(found.contains(ip) <==> all.contains(ip));
        if found.len() == 0 && primary is Some && is_lan(primary->0) {
            assert(locals_of(s, primary) =~= seq![primary->0]);
            assert(seq![primary->0].contains(ip) <==> primary == Some(ip)) by {
                assert(seq![primary->0][0] == primary->0);
            }
        }
    }
}

proof fn lemma_lan_addresses(s: Seq<Interface>)
    ensures
        forall|ip: Ipv4Addr| #[trigger]
            lan_addresses_of(s).contains(ip) <==> exists|i: int|
                0 <= i < s.len() && lan_address(#[trigger] s[i]) == Some(ip),
    decreases s.len(),
{
    if s.len() > 0 {
        let before = s.drop_last();
        lemma_lan_addresses(before);
        assert forall|ip: Ipv4Addr| #[trigger]
            lan_addresses_of(s).contains(ip) <==> exists|i: int|
                0 <= i < s.len() && lan_address(#[trigger] s[i]) == Some(ip) by {
            let old = lan_addresses_of(before);
            let new = lan_addresses_of(s);
            if new.contains(ip) {
                let j = choose|j: int| 0 <= j < new.len() && new[j] == ip;
                if j < old.len() {
                    assert(old[j] == ip);
                    assert(old.contains(ip));
                    let i = choose|i: int|
                        0 <= i < before.len() && lan_address(#[trigger] before[i]) == Some(ip);
                    assert(s[i] == before[i]);
                } else {
                    assert(lan_address(s[s.len() - 1]) == Some(ip));
                }
            }
            if exists|i: int| 0 <= i < s.len() && lan_address(#[trigger] s[i]) == Some(ip) {
                let i = choose|i: int|
                    0 <= i < s.len() && lan_address(#[trigger] s[i]) == Some(ip);
                if i < before.len() {
                    assert(before[i] == s[i]);
                    assert(old.contains(ip));
                    let j = choose|j: int| 0 <= j < old.len() && old[j] == ip;
                    assert(new[j] == ip);
                } else {
                    assert(new[old.len() as int] == ip);
                }
            }
        }
    }
}

/// The networks to scan are the networks of the local addresses, each once; none
/// is left out.
pub proof fn law_networks_are_local(locals: Seq<Ipv4Addr>)
    ensures
        networks_of(locals).no_duplicates(),
        forall|n: (u8, u8, u8)| #[trigger]
            networks_of(locals).contains(n) ==> exists|i: int|
                0 <= i < locals.len() && network_of(#[trigger] locals[i]) == n,
        forall|i: int|
            0 <= i < locals.len() ==> networks_of(locals).contains(network_of(#[trigger] locals[i])),
{
    let all = locals.map_values(|ip: Ipv4Addr| network_of(ip));
    let once = networks_of(locals);
    address::lemma_firsts(all);
    assert forall|n: (u8, u8, u8)| #[trigger] once.contains(n) implies exists|i: int|
        0 <= i < locals.len() && network_of(#[trigger] locals[i]) == n by {
        assert(all.contains(n));
        let i = choose|i: int| 0 <= i < all.len() && all[i] == n;
        assert(network_of(locals[i]) == n);
    }
    assert forall|i: int| 0 <= i < locals.len() implies once.contains(
        network_of(#[trigger] locals[i]),
    ) by {
        assert(all[i] == network_of(locals[i]));
        assert(all.contains(all[i]));
        assert(once.contains(all[i]));
    }
}

/// Every other address of every local /24 is scanned for both protocols, however
/// many networks there are.
pub proof fn law_every_local_network_is_scanned(
    locals: Seq<Ipv4Addr>,
    resolved: Seq<Ipv4Addr>,
    i: int,
    d: u8,
)
    requires
        0 <= i < locals.len(),
        1 <= d <= 254,
        !locals.contains(address_in(network_of(locals[i]), d)),
    ensures
        targets_of(locals, resolved).contains((address_in(network_of(locals[i]), d), 3389u16)),
        targets_of(locals, resolved).contains((address_in(network_of(locals[i]), d), 5900u16)),
{
    let ip = address_in(network_of(locals[i]), d);
    law_networks_are_local(locals);
    law_scan_covers_networks(locals, resolved, ip, 3389);
    law_scan_covers_networks(locals, resolved, ip, 5900);
}

/// A target is scanned just when it is a port of one of the two protocols on
/// another machine of a scanned network, or on an address of the typed name.
pub proof fn law_scan_covers_networks(
    locals: Seq<Ipv4Addr>,
    resolved: Seq<Ipv4Addr>,
    ip: Ipv4Addr,
    port: u16,
)
    ensures
        targets_of(locals, resolved).contains((ip, port)) <==> {
            &&& port == 3389 || port == 5900
            &&& {
                ||| resolved.contains(ip)
                ||| {
                    &&& networks_of(locals).contains(network_of(ip))
                    &&& 1 <= ip.d <= 254
                    &&& !locals.contains(ip)
                }
            }
        },
{
    let nets = networks_of(locals);
    lemma_networks_targets(nets, locals, ip, port);
    lemma_address_targets(resolved, ip, port);
    lemma_contains_sum(networks_targets(nets, locals), address_targets(resolved), (ip, port));
}

proof fn lemma_contains_sum<T>(a: Seq<T>, b: Seq<T>, x: T)
    ensures
        (a + b).contains(x) <==> a.contains(x) || b.contains(x),
{
    let s = a + b;
    if a.contains(x) {
        let i = choose|i: int| 0 <= i < a.len() && a[i] == x;
        assert(s[i] == x);
    }
    if b.contains(x) {
        let i = choose|i: int| 0 <= i < b.len() && b[i] == x;
        assert(s[a.len() + i] == x);
    }
    if s.contains(x) {
        let i = choose|i: int| 0 <= i < s.len() && s[i] == x;
        if i < a.len() {
            assert(a[i] == x);
        } else {
            assert(b[i - a.len()] == x);
        }
    }
}

proof fn lemma_both_ports(of: Ipv4Addr, ip: Ipv4Addr, port: u16)
    ensures
        both_ports(of).contains((ip, port)) <==> of == ip && (port == 3389 || port == 5900),
{
    let s = both_ports(of);
    assert(s[0] == (of, 3389u16));
    assert(s[1] == (of, 5900u16));
    if s.contains((ip, port)) {
        let i = choose|i: int| 0 <= i < s.len() && s[i] == (ip, port);
        assert(i == 0 || i == 1);
    }
}

proof fn lemma_network_targets(
    n: (u8, u8, u8),
    locals: Seq<Ipv4Addr>,
    d: nat,
    ip: Ipv4Addr,
    port: u16,
)
    requires
        d <= 254,
    ensures
        network_targets(n, locals, d).contains((ip, port)) <==> {
            &&& port == 3389 || port == 5900
            &&& network_of(ip) == n
            &&& 1 <= ip.d <= d
            &&& !locals.contains(ip)
        },
    decreases d,
{
    if d > 0 {
        let before = network_targets(n, locals, (d - 1) as nat);
        let last = address_in(n, d as u8);
        let new = if locals.contains(last) {
            seq![]
        } else {
            both_ports(last)
        };
        lemma_network_targets(n, locals, (d - 1) as nat, ip, port);
        lemma_contains_sum(before, new, (ip, port));
        lemma_both_ports(last, ip, port);
    }
}

proof fn lemma_networks_targets(
    n: Seq<(u8, u8, u8)>,
    locals: Seq<Ipv4Addr>,
    ip: Ipv4Addr,
    port: u16,
)
    ensures
        networks_targets(n, locals).contains((ip, port)) <==> {
            &&& port == 3389 || port == 5900
            &&& n.contains(network_of(ip))
            &&& 1 <= ip.d <= 254
            &&& !locals.contains(ip)
        },
    decreases n.len(),
{
    if n.len() > 0 {
        lemma_networks_targets(n.drop_last(), locals, ip, port);
        lemma_network_targets(n.last(), locals, 254, ip, port);
        lemma_contains_sum(
            networks_targets(n.drop_last(), locals),
            network_targets(n.last(), locals, 254),
            (ip, port),
        );
        assert(n =~= n.drop_last() + seq![n.last()]);
        lemma_contains_sum(n.drop_last(), seq![n.last()], network_of(ip));
        assert(seq![n.last()][0] == n.last());
    }
}

proof fn lemma_address_targets(ips: Seq<Ipv4Addr>, ip: Ipv4Addr, port: u16)
    ensures
        address_targets(ips).contains((ip, port)) <==> {
            &&& port == 3389 || port == 5900
            &&& ips.contains(ip)
        },
    decreases ips.len(),
{
    if ips.len() > 0 {
        lemma_address_targets(ips.drop_last(), ip, port);
        lemma_both_ports(ips.last(), ip, port);
        lemma_contains_sum(address_targets(ips.drop_last()), both_ports(ips.last()), (ip, port));
        assert(ips =~= ips.drop_last() + seq![ips.last()]);
        lemma_contains_sum(ips.drop_last(), seq![ips.last()], ip);
        assert(seq![ips.last()][0] == ips.last());
    }
}

/// Every interface that is not loopback and has an IPv4 address outside
/// `127.0.0.0/8` and `169.254.0.0/16` gives a local address. Every local address
/// is one of those, or the primary one where there are none.
pub proof fn law_every_lan_interface_counts(
    s: Seq<Interface>,
    primary: Option<Ipv4Addr>,
    ip: Ipv4Addr,
)
    ensures
        (exists|i: int|
            0 <= i < s.len() && !(#[trigger] s[i]).loopback && s[i].ip == IpAddr::V4(ip)) && ip.a
            != 127 && (ip.a != 169 || ip.b != 254) ==> locals_of(s, primary).contains(ip),
        locals_of(s, primary).contains(ip) ==> {
            &&& ip.a != 127
            &&& ip.a != 169 || ip.b != 254
            &&& {
                ||| exists|i: int|
                    0 <= i < s.len() && !(#[trigger] s[i]).loopback && s[i].ip == IpAddr::V4(ip)
                ||| primary == Some(ip)
            }
        },
        primary == Some(ip) && ip.a != 127 && (ip.a != 169 || ip.b != 254) && (forall|i: int|
            0 <= i < s.len() ==> (#[trigger] s[i]).loopback || s[i].ip == IpAddr::V6)
            ==> locals_of(s, primary) == seq![ip],
        locals_of(s, primary).no_duplicates(),
{
    law_locals_are_lan_addresses(s, primary);
    if exists|i: int|
        0 <= i < s.len() && !(#[trigger] s[i]).loopback && s[i].ip == IpAddr::V4(ip) {
        let i = choose|i: int|
            0 <= i < s.len() && !(#[trigger] s[i]).loopback && s[i].ip == IpAddr::V4(ip);
        if ip.a != 127 && (ip.a != 169 || ip.b != 254) {
            assert(lan_address(s[i]) == Some(ip));
        }
    }
    if locals_of(s, primary).contains(ip) {
        assert(is_lan(ip));
        if exists|i: int| 0 <= i < s.len() && lan_address(#[trigger] s[i]) == Some(ip) {
            let i = choose|i: int|
                0 <= i < s.len() && lan_address(#[trigger] s[i]) == Some(ip);
            assert(!s[i].loopback && s[i].ip == IpAddr::V4(ip));
        }
    }
    if primary == Some(ip) && ip.a != 127 && (ip.a != 169 || ip.b != 254) && (forall|i: int|
        0 <= i < s.len() ==> (#[trigger] s[i]).loopback || s[i].ip == IpAddr::V6) {
        assert forall|i: int| 0 <= i < s.len() implies lan_address(#[trigger] s[i]) is None by {}
        let found = address::firsts(lan_addresses_of(s));
        lemma_lan_addresses(s);
        address::lemma_firsts(lan_addresses_of(s));
        if found.len() > 0 {
            assert(found.contains(found[0]));
            assert(lan_addresses_of(s).contains(found[0]));
        }
        assert(locals_of(s, primary) =~= seq![ip]);
    }
}

/// Both ports are scanned on every address `a.b.c.1` to `a.b.c.254` that shares
/// its first three octets with a local address and is not local itself. Nothing
/// else is scanned but the addresses of the typed name.
pub proof fn law_scan_is_by_octets(
    locals: Seq<Ipv4Addr>,
    resolved: Seq<Ipv4Addr>,
    ip: Ipv4Addr,
    port: u16,
)
    ensures
        targets_of(locals, resolved).contains((ip, port)) <==> {
            &&& port == 3389 || port == 5900
            &&& {
                ||| resolved.contains(ip)
                ||| !locals.contains(ip) && ip.d != 0 && ip.d != 255 && exists|i: int|
                    0 <= i < locals.len() && (#[trigger] locals[i]).a == ip.a && locals[i].b == ip.b
                        && locals[i].c == ip.c
            }
        },
{
    law_scan_covers_networks(locals, resolved, ip, port);
    law_networks_are_local(locals);
    let n = (ip.a, ip.b, ip.c);
    if networks_of(locals).contains(n) {
        let i = choose|i: int| 0 <= i < locals.len() && network_of(#[trigger] locals[i]) == n;
        assert(locals[i].a == ip.a && locals[i].b == ip.b && locals[i].c == ip.c);
    }
    if exists|i: int|
        0 <= i < locals.len() && (#[trigger] locals[i]).a == ip.a && locals[i].b == ip.b
            && locals[i].c == ip.c {
        let i = choose|i: int|
            0 <= i < locals.len() && (#[trigger] locals[i]).a == ip.a && locals[i].b == ip.b
                && locals[i].c == ip.c;
        assert(network_of(locals[i]) == n);
        assert(networks_of(locals).contains(network_of(locals[i])));
    }
}

/// From an interface to the scan: a machine in the /24 of an interface that is
/// neither loopback nor link-local is scanned on both ports, unless its address
/// is one of this machine's own.
pub proof fn law_neighbours_are_scanned(
    s: Seq<Interface>,
    primary: Option<Ipv4Addr>,
    resolved: Seq<Ipv4Addr>,
    i: int,
    own: Ipv4Addr,
    other: Ipv4Addr,
)
    requires
        0 <= i < s.len(),
        !s[i].loopback,
        s[i].ip == IpAddr::V4(own),
        own.a != 127,
        own.a != 169 || own.b != 254,
        other.a == own.a && other.b == own.b && other.c == own.c,
        1 <= other.d <= 254,
        forall|j: int| 0 <= j < s.len() ==> (#[trigger] s[j]).ip != IpAddr::V4(other),
        primary != Some(other),
    ensures
        targets_of(locals_of(s, primary), resolved).contains((other, 3389u16)),
        targets_of(locals_of(s, primary), resolved).contains((other, 5900u16)),
{
    let locals = locals_of(s, primary);
    law_every_lan_interface_counts(s, primary, own);
    law_every_lan_interface_counts(s, primary, other);
    assert(s[i].ip == IpAddr::V4(own));
    assert(locals.contains(own));
    let k = choose|k: int| 0 <= k < locals.len() && locals[k] == own;
    assert(locals[k].a == other.a);
    law_scan_is_by_octets(locals, resolved, other, 3389);
    law_scan_is_by_octets(locals, resolved, other, 5900);
}

/// A typed name is looked up as it was typed, without white space at its ends, and
/// with `.local` behind it; blank names are not looked up.
pub proof fn law_typed_name_is_looked_up(before: Seq<char>, name: Seq<char>, after: Seq<char>)
    requires
        forall|j: int| 0 <= j < before.len() ==> text::is_white_space(#[trigger] before[j]),
        forall|j: int| 0 <= j < after.len() ==> text::is_white_space(#[trigger] after[j]),
        name.len() > 0 ==> !text::is_white_space(name[0]) && !text::is_white_space(name.last()),
    ensures
        name.len() > 0 ==> lookups(before + name + after) == seq![
            name,
            name + seq!['.', 'l', 'o', 'c', 'a', 'l'],
        ],
        name.len() == 0 ==> lookups(before + name + after).len() == 0,
{
    reveal_strlit(".local");
    text::law_white_space_around_does_not_matter(before, name, after);
    assert(".local"@ =~= seq!['.', 'l', 'o', 'c', 'a', 'l']);
}

proof fn lemma_all_answers(a: Seq<Vec<IpAddr>>, x: IpAddr)
    ensures
        all_answers(a).contains(x) <==> exists|i: int|
            0 <= i < a.len() && (#[trigger] a[i])@.contains(x),
    decreases a.len(),
{
    if a.len() > 0 {
        let before = a.drop_last();
        lemma_all_answers(before, x);
        lemma_contains_sum(all_answers(before), a.last()@, x);
        if all_answers(before).contains(x) {
            let i = choose|i: int| 0 <= i < before.len() && (#[trigger] before[i])@.contains(x);
            assert(a[i]@.contains(x));
        }
        if a.last()@.contains(x) {
            assert(a[a.len() - 1]@.contains(x));
        }
        if exists|i: int| 0 <= i < a.len() && (#[trigger] a[i])@.contains(x) {
            let i = choose|i: int| 0 <= i < a.len() && (#[trigger] a[i])@.contains(x);
            if i < before.len() {
                assert(before[i]@.contains(x));
            }
        }
    }
}

/// An address resolves from a name just when some lookup answered with it, and it
/// is listed once.
pub proof fn law_every_answer_resolves(a: Seq<Vec<IpAddr>>, ip: Ipv4Addr)
    ensures
        address::firsts(address::v4s(all_answers(a))).contains(ip) <==> exists|i: int|
            0 <= i < a.len() && (#[trigger] a[i])@.contains(IpAddr::V4(ip)),
        address::firsts(address::v4s(all_answers(a))).no_duplicates(),
{
    address::lemma_firsts(address::v4s(all_answers(a)));
    address::law_ipv4_addresses_are_picked(all_answers(a), ip);
    lemma_all_answers(a, IpAddr::V4(ip));
}

/// The account name is `USERNAME` to the letter where it is set, whatever `USER`
/// is, and else `USER`.
pub proof fn law_account_name_is_as_set(name: Seq<char>, user: Option<Seq<char>>)
    ensures
        account_name(Some(name), user) == name,
        account_name(None, Some(name)) == name,
        account_name(None, None).len() == 0,
{
}

} // verus!
