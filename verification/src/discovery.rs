//! The machines that were found: one protocol each, names, and a match for the
//! name that was typed.

use crate::address;
use crate::address::{IpAddr, Ipv4Addr, NameTable};
use crate::network;
use crate::protocol;
use crate::protocol::Protocol;
use crate::search;
use crate::text;
use vstd::prelude::*;

verus! {

/// A discovered machine: its address, the protocol it speaks, and (if known)
/// its real computer name.
pub struct Host {
    pub ip: Ipv4Addr,
    pub protocol: Protocol,
    pub name: Option<String>,
}

/// What a [`Host`] holds, with its name as text.
#[verifier::ext_equal]
pub struct HostModel {
    pub ip: Ipv4Addr,
    pub protocol: Protocol,
    pub name: Option<Seq<char>>,
}

impl View for Host {
    type V = HostModel;

    open spec fn view(&self) -> HostModel {
        HostModel { ip: self.ip, protocol: self.protocol, name: text::optional(self.name) }
    }
}

/// What the hosts hold.
pub open spec fn models(hosts: Seq<Host>) -> Seq<HostModel> {
    Seq::new(hosts.len(), |i: int| hosts[i]@)
}

impl HostModel {
    /// Name if known, else the address in dotted decimal.
    pub open spec fn label(self) -> Seq<char> {
        match self.name {
            Some(name) => name,
            None => address::dotted(self.ip),
        }
    }
}

impl Host {
    /// Name if known, else the IP as a string.
    pub fn label(&self) -> (r: String)
        ensures
            r@ == self@.label(),
    {
        match &self.name {
            Some(name) => name.clone(),
            None => self.ip.to_string(),
        }
    }
}

impl Clone for Host {
    fn clone(&self) -> (r: Host)
        ensures
            r@ == self@,
    {
        let name = match &self.name {
            Some(name) => Some(name.clone()),
            None => None,
        };
        Host { ip: self.ip, protocol: self.protocol, name }
    }
}

/// Result of a discovery pass.
pub struct Discovery {
    pub hosts: Vec<Host>,
    /// The host the requested name matched, if any.
    pub name_match: Option<Ipv4Addr>,
}

// ---------------------------------------------------------------------------
// Names that machines advertise
// ---------------------------------------------------------------------------

/// The mDNS services that are browsed for names: macOS Screen Sharing, Avahi,
/// and RDP servers that advertise themselves.
pub fn mdns_services() -> (r: Vec<&'static str>)
    ensures
        text::slices(r@) == seq![
            "_rfb._tcp.local."@,
            "_workstation._tcp.local."@,
            "_rdp._tcp.local."@,
        ],
{
    let r: Vec<&'static str> = vec![
        "_rfb._tcp.local.",
        "_workstation._tcp.local.",
        "_rdp._tcp.local.",
    ];
    assert(text::slices(r@) =~= seq![
        "_rfb._tcp.local."@,
        "_workstation._tcp.local."@,
        "_rdp._tcp.local."@,
    ]);
    r
}

/// The machine name in an advertised host name such as `studio.local.`.
pub open spec fn machine_name(hostname: Seq<char>) -> Seq<char> {
    search::without_suffixes(search::without_trailing(hostname, '.'), ".local"@)
}

/// `names` after `hostname` was advertised for the addresses `ips`: an address
/// keeps the name it has.
pub open spec fn advertised(
    names: Map<Ipv4Addr, Seq<char>>,
    hostname: Seq<char>,
    ips: Seq<IpAddr>,
) -> Map<Ipv4Addr, Seq<char>> {
    let name = machine_name(hostname);
    if name.len() == 0 {
        names
    } else {
        Map::new(
            |ip: Ipv4Addr| names.contains_key(ip) || ips.contains(IpAddr::V4(ip)),
            |ip: Ipv4Addr|
                if names.contains_key(ip) {
                    names[ip]
                } else {
                    name
                },
        )
    }
}

/// Notes the machine name in an advertisement for each of its IPv4 addresses
/// that has no name yet.
pub fn note_advertised(names: &mut NameTable, hostname: &str, ips: &Vec<IpAddr>)
    ensures
        final(names)@ == advertised(old(names)@, hostname@, ips@),
{
    let name = search::trim_end_matches(search::trim_end_char(hostname, '.'), ".local");
    if name.is_empty() {
        return ;
    }
    let ghost start = names@;
    proof {
        assert(start =~= advertised(start, hostname@, ips@.take(0)));
    }
    for i in 0..ips.len()
        invariant
            start == old(names)@,
            name@ == machine_name(hostname@),
            name@.len() > 0,
            names@ == advertised(start, hostname@, ips@.take(i as int)),
    {
        let ghost before = ips@.take(i as int);
        let ghost after = ips@.take(i + 1);
        proof {
            assert(after =~= before.push(ips@[i as int]));
            assert forall|x: IpAddr| #[trigger] after.contains(x) <==> before.contains(x) || x
                == ips@[i as int] by {
                if before.contains(x) {
                    let j = choose|j: int| 0 <= j < before.len() && before[j] == x;
                    assert(after[j] == x);
                }
                if x == ips@[i as int] {
                    assert(after[i as int] == x);
                }
            }
        }
        if let IpAddr::V4(ip) = ips[i] {
            names.add(ip, name);
        }
        proof {
            assert(names@ =~= advertised(start, hostname@, after));
        }
    }
    proof {
        assert(ips@.take(ips.len() as int) =~= ips@);
    }
}

// ---------------------------------------------------------------------------
// One protocol for each machine
// ---------------------------------------------------------------------------

/// A machine and a protocol that it was confirmed to speak.
pub type Confirmed = (Ipv4Addr, Protocol);

/// The addresses rise.
pub open spec fn rising(hosts: Seq<Confirmed>) -> bool {
    forall|i: int, j: int|
        0 <= i < j < hosts.len() ==> address::rank((#[trigger] hosts[i]).0) < address::rank(
            (#[trigger] hosts[j]).0,
        )
}

/// The machine `ip` is among the hosts.
pub open spec fn lists(hosts: Seq<Confirmed>, ip: Ipv4Addr) -> bool {
    exists|i: int| 0 <= i < hosts.len() && (#[trigger] hosts[i]).0 == ip
}

/// `h` was confirmed, and has RDP if that was confirmed of its machine.
pub open spec fn preferred(confirmed: Seq<Confirmed>, h: Confirmed) -> bool {
    &&& confirmed.contains(h)
    &&& confirmed.contains((h.0, Protocol::Rdp)) ==> h.1 == Protocol::Rdp
}

/// `hosts` has each machine of `confirmed` once, by rising address, with RDP if
/// that was confirmed and VNC otherwise.
pub open spec fn collapsed(confirmed: Seq<Confirmed>, hosts: Seq<Confirmed>) -> bool {
    &&& rising(hosts)
    &&& forall|i: int| 0 <= i < hosts.len() ==> preferred(confirmed, #[trigger] hosts[i])
    &&& forall|k: int| 0 <= k < confirmed.len() ==> lists(hosts, (#[trigger] confirmed[k]).0)
}

proof fn lemma_push_contains(s: Seq<Confirmed>, x: Confirmed)
    ensures
        forall|y: Confirmed| #[trigger] s.push(x).contains(y) <==> s.contains(y) || y == x,
{
    assert forall|y: Confirmed| #[trigger] s.push(x).contains(y) <==> s.contains(y) || y == x by {
        let t = s.push(x);
        if s.contains(y) {
            let j = choose|j: int| 0 <= j < s.len() && s[j] == y;
            assert(t[j] == y);
        }
        if y == x {
            assert(t[s.len() as int] == y);
        }
    }
}

/// Noting a protocol of a machine that is there already.
proof fn lemma_collapse_known(
    confirmed: Seq<Confirmed>,
    hosts: Seq<Confirmed>,
    x: Confirmed,
    at: int,
)
    requires
        collapsed(confirmed, hosts),
        0 <= at < hosts.len(),
        hosts[at].0 == x.0,
    ensures
        collapsed(
            confirmed.push(x),
            if x.1 == Protocol::Rdp {
                hosts.update(at, x)
            } else {
                hosts
            },
        ),
{
    let all = confirmed.push(x);
    let new = if x.1 == Protocol::Rdp {
        hosts.update(at, x)
    } else {
        hosts
    };
    lemma_push_contains(confirmed, x);
    assert forall|i: int, j: int| 0 <= i < j < new.len() implies address::rank(
        (#[trigger] new[i]).0,
    ) < address::rank((#[trigger] new[j]).0) by {
        assert(address::rank(hosts[i].0) < address::rank(hosts[j].0));
    }
    assert forall|i: int| 0 <= i < new.len() implies preferred(all, #[trigger] new[i]) by {
        assert(preferred(confirmed, hosts[i]));
        if i != at {
            if i < at {
                assert(address::rank(hosts[i].0) < address::rank(hosts[at].0));
            } else {
                assert(address::rank(hosts[at].0) < address::rank(hosts[i].0));
            }
        }
    }
    assert forall|k: int| 0 <= k < all.len() implies lists(new, (#[trigger] all[k]).0) by {
        if k < confirmed.len() {
            assert(all[k] == confirmed[k]);
            assert(lists(hosts, confirmed[k].0));
            let i = choose|i: int|
                0 <= i < hosts.len() && (#[trigger] hosts[i]).0 == confirmed[k].0;
            assert(new[i].0 == all[k].0);
        } else {
            assert(new[at].0 == all[k].0);
        }
    }
}

/// Noting a machine that is not there yet.
proof fn lemma_collapse_new(
    confirmed: Seq<Confirmed>,
    hosts: Seq<Confirmed>,
    x: Confirmed,
    at: int,
)
    requires
        collapsed(confirmed, hosts),
        0 <= at <= hosts.len(),
        forall|i: int| 0 <= i < at ==> address::rank((#[trigger] hosts[i]).0) < address::rank(x.0),
        at < hosts.len() ==> address::rank(x.0) < address::rank(hosts[at].0),
    ensures
        collapsed(confirmed.push(x), hosts.insert(at, x)),
{
    let all = confirmed.push(x);
    let new = hosts.insert(at, x);
    lemma_push_contains(confirmed, x);
    assert forall|i: int| at <= i < hosts.len() implies address::rank(x.0) < address::rank(
        (#[trigger] hosts[i]).0,
    ) by {
        if i > at {
            assert(address::rank(hosts[at].0) < address::rank(hosts[i].0));
        }
    }
    assert forall|i: int, j: int| 0 <= i < j < new.len() implies address::rank(
        (#[trigger] new[i]).0,
    ) < address::rank((#[trigger] new[j]).0) by {
        if i != at && j != at {
            let a = if i < at { i } else { i - 1 };
            let b = if j < at { j } else { j - 1 };
            assert(address::rank(hosts[a].0) < address::rank(hosts[b].0));
        } else if i == at {
            assert(new[j] == hosts[j - 1]);
        } else {
            assert(new[i] == hosts[i]);
        }
    }
    assert forall|k: int| 0 <= k < confirmed.len() implies (#[trigger] confirmed[k]).0 != x.0 by {
        assert(lists(hosts, confirmed[k].0));
        let i = choose|i: int| 0 <= i < hosts.len() && (#[trigger] hosts[i]).0 == confirmed[k].0;
        if i < at {
            assert(address::rank(hosts[i].0) < address::rank(x.0));
        } else {
            assert(address::rank(x.0) < address::rank(hosts[i].0));
        }
    }
    assert forall|i: int| 0 <= i < new.len() implies preferred(all, #[trigger] new[i]) by {
        if i != at {
            let a = if i < at { i } else { i - 1 };
            assert(preferred(confirmed, hosts[a]));
            let k = choose|k: int| 0 <= k < confirmed.len() && confirmed[k] == hosts[a];
            assert(confirmed[k].0 != x.0);
        } else {
            if all.contains((x.0, Protocol::Rdp)) && x.1 != Protocol::Rdp {
                assert(confirmed.contains((x.0, Protocol::Rdp)));
                let k = choose|k: int|
                    0 <= k < confirmed.len() && confirmed[k] == (x.0, Protocol::Rdp);
                assert(confirmed[k].0 != x.0);
            }
        }
    }
    assert forall|k: int| 0 <= k < all.len() implies lists(new, (#[trigger] all[k]).0) by {
        if k < confirmed.len() {
            assert(all[k] == confirmed[k]);
            assert(lists(hosts, confirmed[k].0));
            let i = choose|i: int|
                0 <= i < hosts.len() && (#[trigger] hosts[i]).0 == confirmed[k].0;
            assert(new[if i < at { i } else { i + 1 }].0 == all[k].0);
        } else {
            assert(new[at].0 == all[k].0);
        }
    }
}

/// Collapses to one protocol per machine, preferring RDP when both are present,
/// by rising address.
pub fn collapse(confirmed: &Vec<(Ipv4Addr, Protocol)>) -> (r: Vec<(Ipv4Addr, Protocol)>)
    ensures
        collapsed(confirmed@, r@),
{
    let mut hosts: Vec<(Ipv4Addr, Protocol)> = Vec::new();
    for k in 0..confirmed.len()
        invariant
            collapsed(confirmed@.take(k as int), hosts@),
    {
        let x = confirmed[k];
        let ghost seen = confirmed@.take(k as int);
        let n = hosts.len();
        let mut at: usize = 0;
        while at < n && hosts[at].0.precedes(&x.0)
            invariant
                n == hosts.len(),
                at <= n,
                forall|i: int|
                    0 <= i < at ==> address::rank((#[trigger] hosts@[i]).0) < address::rank(x.0),
            decreases n - at,
        {
            at = at + 1;
        }
        proof {
            assert(confirmed@.take(k + 1) =~= seen.push(x));
        }
        if at < n && hosts[at].0 == x.0 {
            proof {
                lemma_collapse_known(seen, hosts@, x, at as int);
            }
            if x.1 == Protocol::Rdp {
                hosts.set(at, x);
            }
        } else {
            proof {
                if at < n && address::rank(hosts@[at as int].0) == address::rank(x.0) {
                    address::lemma_rank_injective(hosts@[at as int].0, x.0);
                }
                lemma_collapse_new(seen, hosts@, x, at as int);
            }
            hosts.insert(at, x);
        }
    }
    proof {
        assert(confirmed@.take(confirmed.len() as int) =~= confirmed@);
    }
    hosts
}

// ---------------------------------------------------------------------------
// The result
// ---------------------------------------------------------------------------

/// The addresses and protocols of the hosts.
pub open spec fn pairs(hosts: Seq<HostModel>) -> Seq<Confirmed> {
    Seq::new(hosts.len(), |i: int| (hosts[i].ip, hosts[i].protocol))
}

/// The name for `ip`: the certificate's if there is one, else the advertised.
pub open spec fn name_for(
    ip: Ipv4Addr,
    certificates: Map<Ipv4Addr, Seq<char>>,
    advertised: Map<Ipv4Addr, Seq<char>>,
) -> Option<Seq<char>> {
    if certificates.contains_key(ip) {
        Some(certificates[ip])
    } else if advertised.contains_key(ip) {
        Some(advertised[ip])
    } else {
        None
    }
}

/// `h` is named `typed`, whatever the case of ASCII letters.
pub open spec fn is_named(h: HostModel, typed: Seq<char>) -> bool {
    match h.name {
        Some(name) => search::same_ignoring_case(name, typed),
        None => false,
    }
}

/// The first of the hosts that is named `typed`.
pub open spec fn first_named(hosts: Seq<HostModel>, typed: Seq<char>) -> Option<Ipv4Addr>
    decreases hosts.len(),
{
    if hosts.len() == 0 {
        None
    } else if is_named(hosts[0], typed) {
        Some(hosts[0].ip)
    } else {
        first_named(hosts.drop_first(), typed)
    }
}

/// The host that the requested name matches, if one was requested.
pub open spec fn match_of(hosts: Seq<HostModel>, name: Seq<char>) -> Option<Ipv4Addr> {
    let typed = text::trimmed(name);
    if typed.len() == 0 {
        None
    } else {
        first_named(hosts, typed)
    }
}

fn lookup(ip: Ipv4Addr, certificates: &NameTable, names: &NameTable) -> (r: Option<String>)
    ensures
        text::optional(r) == name_for(ip, certificates@, names@),
{
    match certificates.get(ip) {
        Some(name) => Some(name.to_string()),
        None => match names.get(ip) {
            Some(name) => Some(name.to_string()),
            None => None,
        },
    }
}

fn match_name(hosts: &Vec<Host>, name: &str) -> (r: Option<Ipv4Addr>)
    ensures
        r == match_of(models(hosts@), name@),
{
    let typed = text::trim(name);
    if typed.is_empty() {
        return None;
    }
    let ghost all = models(hosts@);
    proof {
        assert(all.skip(0) =~= all);
    }
    for i in 0..hosts.len()
        invariant
            all == models(hosts@),
            first_named(all, typed@) == first_named(all.skip(i as int), typed@),
            typed@ == text::trimmed(name@),
            typed@.len() > 0,
    {
        proof {
            assert(all.skip(i as int)[0] == hosts@[i as int]@);
            assert(all.skip(i as int).drop_first() =~= all.skip(i + 1));
        }
        if let Some(n) = &hosts[i].name {
            if search::equal_ignoring_case(n.as_str(), typed) {
                return Some(hosts[i].ip);
            }
        }
    }
    None
}

/// Discovers machines: what the confirmed servers, the names in their
/// certificates and the advertised names come to, for the name that was typed.
pub fn discover(
    name: &str,
    confirmed: &Vec<(Ipv4Addr, Protocol)>,
    certificates: &NameTable,
    names: &NameTable,
) -> (r: Discovery)
    ensures
        collapsed(confirmed@, pairs(models(r.hosts@))),
        forall|i: int|
            0 <= i < r.hosts.len() ==> (#[trigger] models(r.hosts@)[i]).name == name_for(
                models(r.hosts@)[i].ip,
                certificates@,
                names@,
            ),
        r.name_match == match_of(models(r.hosts@), name@),
{
    let found = collapse(confirmed);
    let mut hosts: Vec<Host> = Vec::new();
    for i in 0..found.len()
        invariant
            hosts.len() == i,
            forall|j: int|
                0 <= j < i ==> (#[trigger] hosts@[j]@) == (HostModel {
                    ip: found@[j].0,
                    protocol: found@[j].1,
                    name: name_for(found@[j].0, certificates@, names@),
                }),
    {
        let (ip, protocol) = found[i];
        hosts.push(Host { ip, protocol, name: lookup(ip, certificates, names) });
    }
    proof {
        assert(pairs(models(hosts@)) =~= found@);
        assert forall|i: int| 0 <= i < hosts.len() implies (#[trigger] models(hosts@)[i]).name
            == name_for(models(hosts@)[i].ip, certificates@, names@) by {
            assert(models(hosts@)[i] == hosts@[i]@);
        }
    }
    let name_match = match_name(&hosts, name);
    Discovery { hosts, name_match }
}

/// The most likely target among the hosts.
pub open spec fn target_of(hosts: Seq<HostModel>, name_match: Option<Ipv4Addr>) -> Option<
    Ipv4Addr,
> {
    match name_match {
        Some(ip) => Some(ip),
        None => if hosts.len() == 1 {
            Some(hosts[0].ip)
        } else {
            None
        },
    }
}

/// Chooses the most likely target: a name match wins, else the only host.
pub fn pick_target(d: &Discovery) -> (r: Option<Ipv4Addr>)
    ensures
        r == target_of(models(d.hosts@), d.name_match),
{
    if let Some(ip) = d.name_match {
        return Some(ip);
    }
    if d.hosts.len() == 1 {
        assert(models(d.hosts@)[0] == d.hosts@[0]@);
        Some(d.hosts[0].ip)
    } else {
        None
    }
}

// ---------------------------------------------------------------------------
// Laws
// ---------------------------------------------------------------------------

/// The hosts depend on which servers were confirmed alone, not on the order in
/// which their replies came or on how often.
pub proof fn law_order_of_replies_does_not_matter(
    c1: Seq<Confirmed>,
    h1: Seq<Confirmed>,
    c2: Seq<Confirmed>,
    h2: Seq<Confirmed>,
)
    requires
        collapsed(c1, h1),
        collapsed(c2, h2),
        forall|x: Confirmed| #[trigger] c1.contains(x) <==> c2.contains(x),
    ensures
        h1 == h2,
{
    lemma_same_prefix(c1, h1, c2, h2, h1.len() as int);
    lemma_same_prefix(c2, h2, c1, h1, h2.len() as int);
    assert(h1 =~= h2);
}

proof fn lemma_found_again(
    c1: Seq<Confirmed>,
    h1: Seq<Confirmed>,
    c2: Seq<Confirmed>,
    h2: Seq<Confirmed>,
    i: int,
) -> (j: int)
    requires
        collapsed(c1, h1),
        collapsed(c2, h2),
        forall|x: Confirmed| #[trigger] c1.contains(x) <==> c2.contains(x),
        0 <= i < h1.len(),
    ensures
        0 <= j < h2.len(),
        h2[j] == h1[i],
{
    assert(preferred(c1, h1[i]));
    assert(c2.contains(h1[i]));
    let k = choose|k: int| 0 <= k < c2.len() && c2[k] == h1[i];
    assert(lists(h2, c2[k].0));
    let j = choose|j: int| 0 <= j < h2.len() && (#[trigger] h2[j]).0 == c2[k].0;
    assert(preferred(c2, h2[j]));
    assert(c1.contains(h2[j]));
    let rdp = (h1[i].0, Protocol::Rdp);
    assert(c1.contains(rdp) <==> c2.contains(rdp));
    j
}

/// As far as `h1` goes, `h2` has the same machines at the same places.
proof fn lemma_same_prefix(
    c1: Seq<Confirmed>,
    h1: Seq<Confirmed>,
    c2: Seq<Confirmed>,
    h2: Seq<Confirmed>,
    n: int,
)
    requires
        collapsed(c1, h1),
        collapsed(c2, h2),
        forall|x: Confirmed| #[trigger] c1.contains(x) <==> c2.contains(x),
        0 <= n <= h1.len(),
    ensures
        n <= h2.len(),
        forall|i: int| 0 <= i < n ==> h1[i] == h2[i],
    decreases n,
{
    if n > 0 {
        lemma_same_prefix(c1, h1, c2, h2, n - 1);
        let i = n - 1;
        let j = lemma_found_again(c1, h1, c2, h2, i);
        if j < i {
            assert(h1[j] == h2[j]);
            assert(address::rank(h1[j].0) < address::rank(h1[i].0));
        }
        if i < j {
            // Then the machine at `i` in `h2` stands in `h1` between `i - 1` and `i`.
            let m = lemma_found_again(c2, h2, c1, h1, i);
            assert(address::rank(h2[i].0) < address::rank(h2[j].0));
            if m < i {
                assert(h1[m] == h2[m]);
                assert(address::rank(h2[m].0) < address::rank(h2[i].0));
            } else if m > i {
                assert(address::rank(h1[i].0) < address::rank(h1[m].0));
            }
        }
    }
}

/// A match for the typed name is an address among the hosts, and the host there
/// has that name; without a match no host has it.
pub proof fn law_match_has_the_name(hosts: Seq<HostModel>, name: Seq<char>)
    ensures
        match match_of(hosts, name) {
            Some(ip) => exists|i: int|
                0 <= i < hosts.len() && (#[trigger] hosts[i]).ip == ip && is_named(
                    hosts[i],
                    text::trimmed(name),
                ),
            None => text::trimmed(name).len() > 0 ==> forall|i: int|
                0 <= i < hosts.len() ==> !is_named(#[trigger] hosts[i], text::trimmed(name)),
        },
{
    lemma_first_named(hosts, text::trimmed(name));
}

proof fn lemma_first_named(hosts: Seq<HostModel>, typed: Seq<char>)
    ensures
        match first_named(hosts, typed) {
            Some(ip) => exists|i: int|
                0 <= i < hosts.len() && (#[trigger] hosts[i]).ip == ip && is_named(hosts[i], typed),
            None => forall|i: int| 0 <= i < hosts.len() ==> !is_named(#[trigger] hosts[i], typed),
        },
    decreases hosts.len(),
{
    if hosts.len() > 0 && !is_named(hosts[0], typed) {
        let rest = hosts.drop_first();
        lemma_first_named(rest, typed);
        match first_named(rest, typed) {
            Some(ip) => {
                let i = choose|i: int|
                    0 <= i < rest.len() && (#[trigger] rest[i]).ip == ip && is_named(
                        rest[i],
                        typed,
                    );
                assert(hosts[i + 1] == rest[i]);
            },
            None => {
                assert forall|i: int| 0 <= i < hosts.len() implies !is_named(
                    #[trigger] hosts[i],
                    typed,
                ) by {
                    if i > 0 {
                        assert(rest[i - 1] == hosts[i]);
                    }
                }
            },
        }
    }
}

/// The chosen target is always one of the hosts, and with a single host there
/// always is a target.
pub proof fn law_target_was_found(hosts: Seq<HostModel>, name: Seq<char>)
    ensures
        match target_of(hosts, match_of(hosts, name)) {
            Some(ip) => exists|i: int| 0 <= i < hosts.len() && (#[trigger] hosts[i]).ip == ip,
            None => hosts.len() != 1,
        },
{
    law_match_has_the_name(hosts, name);
    if match_of(hosts, name) is None && hosts.len() == 1 {
        assert(hosts[0].ip == hosts[0].ip);
    }
}

/// An advertisement never takes a name away or changes it.
pub proof fn law_first_advertised_name_stays(
    names: Map<Ipv4Addr, Seq<char>>,
    hostname: Seq<char>,
    ips: Seq<IpAddr>,
    ip: Ipv4Addr,
)
    requires
        names.contains_key(ip),
    ensures
        advertised(names, hostname, ips).contains_key(ip),
        advertised(names, hostname, ips)[ip] == names[ip],
{
}

/// A machine that advertises itself as `name.local.` is called `name`.
pub proof fn law_local_domain_is_left_out(name: Seq<char>)
    requires
        !search::has_suffix(name, ".local"@),
    ensures
        machine_name(name + ".local."@) == name,
{
    reveal_strlit(".local");
    reveal_strlit(".local.");
    let full = name + ".local."@;
    let plain = name + ".local"@;
    assert(full.drop_last() =~= plain);
    assert(full.last() == '.');
    assert(plain.last() == 'l');
    assert(search::without_trailing(plain, '.') == plain);
    assert(plain.skip(plain.len() - 6) =~= ".local"@);
    assert(plain.take(plain.len() - 6) =~= name);
    assert(search::without_suffixes(name, ".local"@) == name);
}

/// Where only scanned targets are confirmed, each of the hosts is another machine
/// of a scanned network, or has an address of the typed name.
pub proof fn law_hosts_are_other_machines(
    locals: Seq<Ipv4Addr>,
    resolved: Seq<Ipv4Addr>,
    confirmed: Seq<Confirmed>,
    hosts: Seq<Confirmed>,
)
    requires
        collapsed(confirmed, hosts),
        forall|k: int|
            0 <= k < confirmed.len() ==> network::targets_of(locals, resolved).contains(
                ((#[trigger] confirmed[k]).0, protocol::port_of(confirmed[k].1)),
            ),
    ensures
        forall|i: int|
            0 <= i < hosts.len() ==> {
                ||| resolved.contains((#[trigger] hosts[i]).0)
                ||| {
                    &&& !locals.contains(hosts[i].0)
                    &&& network::networks_of(locals).contains(network::network_of(hosts[i].0))
                }
            },
{
    assert forall|i: int| 0 <= i < hosts.len() implies {
        ||| resolved.contains((#[trigger] hosts[i]).0)
        ||| {
            &&& !locals.contains(hosts[i].0)
            &&& network::networks_of(locals).contains(network::network_of(hosts[i].0))
        }
    } by {
        assert(preferred(confirmed, hosts[i]));
        let k = choose|k: int| 0 <= k < confirmed.len() && confirmed[k] == hosts[i];
        let port = protocol::port_of(confirmed[k].1);
        network::law_scan_covers_networks(locals, resolved, confirmed[k].0, port);
    }
}

/// A machine is listed as an RDP server just when RDP was confirmed of it, and as
/// a VNC server just when VNC was and RDP was not; it is listed once, and the
/// list rises by the octets of the addresses.
pub proof fn law_rdp_is_preferred(confirmed: Seq<Confirmed>, hosts: Seq<Confirmed>, ip: Ipv4Addr)
    requires
        collapsed(confirmed, hosts),
    ensures
        hosts.contains((ip, Protocol::Rdp)) <==> confirmed.contains((ip, Protocol::Rdp)),
        hosts.contains((ip, Protocol::Vnc)) <==> confirmed.contains((ip, Protocol::Vnc))
            && !confirmed.contains((ip, Protocol::Rdp)),
        forall|i: int, j: int|
            0 <= i < j < hosts.len() ==> {
                let x = (#[trigger] hosts[i]).0;
                let y = (#[trigger] hosts[j]).0;
                ||| x.a < y.a
                ||| x.a == y.a && x.b < y.b
                ||| x.a == y.a && x.b == y.b && x.c < y.c
                ||| x.a == y.a && x.b == y.b && x.c == y.c && x.d < y.d
            },
{
    lemma_listed(confirmed, hosts, (ip, Protocol::Rdp));
    lemma_listed(confirmed, hosts, (ip, Protocol::Vnc));
    assert forall|i: int, j: int| 0 <= i < j < hosts.len() implies {
        let x = (#[trigger] hosts[i]).0;
        let y = (#[trigger] hosts[j]).0;
        ||| x.a < y.a
        ||| x.a == y.a && x.b < y.b
        ||| x.a == y.a && x.b == y.b && x.c < y.c
        ||| x.a == y.a && x.b == y.b && x.c == y.c && x.d < y.d
    } by {
        address::law_addresses_are_ordered_by_octets(hosts[i].0, hosts[j].0);
    }
}

proof fn lemma_listed(confirmed: Seq<Confirmed>, hosts: Seq<Confirmed>, h: Confirmed)
    requires
        collapsed(confirmed, hosts),
    ensures
        hosts.contains(h) <==> preferred(confirmed, h),
{
    if hosts.contains(h) {
        let i = choose|i: int| 0 <= i < hosts.len() && hosts[i] == h;
        assert(preferred(confirmed, hosts[i]));
    }
    if preferred(confirmed, h) {
        let k = choose|k: int| 0 <= k < confirmed.len() && confirmed[k] == h;
        assert(lists(hosts, confirmed[k].0));
        let i = choose|i: int| 0 <= i < hosts.len() && (#[trigger] hosts[i]).0 == h.0;
        assert(preferred(confirmed, hosts[i]));
        assert(hosts[i] == h);
    }
}

/// An advertisement names each of its IPv4 addresses that has no name yet, and
/// touches no other address. A name of dots and `.local` alone is none.
pub proof fn law_advertised_addresses_are_named(
    names: Map<Ipv4Addr, Seq<char>>,
    name: Seq<char>,
    ips: Seq<IpAddr>,
    ip: Ipv4Addr,
)
    requires
        name.len() > 0,
        name.last() != '.',
        !search::has_suffix(name, ".local"@),
    ensures
        ips.contains(IpAddr::V4(ip)) && !names.contains_key(ip) ==> {
            &&& advertised(names, name, ips).contains_key(ip)
            &&& advertised(names, name, ips)[ip] == name
            &&& advertised(names, name + ".local."@, ips).contains_key(ip)
            &&& advertised(names, name + ".local."@, ips)[ip] == name
        },
        !ips.contains(IpAddr::V4(ip)) ==> {
            &&& advertised(names, name, ips).contains_key(ip) <==> names.contains_key(ip)
            &&& names.contains_key(ip) ==> advertised(names, name, ips)[ip] == names[ip]
        },
        advertised(names, ".local."@, ips) == names,
{
    law_local_domain_is_left_out(name);
    assert(machine_name(name) == name);
    reveal_strlit(".local.");
    reveal_strlit(".local");
    let nothing = Seq::<char>::empty();
    assert(!search::has_suffix(nothing, ".local"@));
    law_local_domain_is_left_out(nothing);
    assert(nothing + ".local."@ =~= ".local."@);
}

/// A machine is called by its certificate, or else by what was advertised, to the
/// letter; without either it has no name, and is labelled by its address.
pub proof fn law_certificates_come_first(
    ip: Ipv4Addr,
    certificates: Map<Ipv4Addr, Seq<char>>,
    advertised: Map<Ipv4Addr, Seq<char>>,
    protocol: Protocol,
)
    ensures
        ({
            let h = HostModel { ip, protocol, name: name_for(ip, certificates, advertised) };
            &&& certificates.contains_key(ip) ==> h.label() == certificates[ip]
            &&& !certificates.contains_key(ip) && advertised.contains_key(ip) ==> h.label()
                == advertised[ip]
            &&& !certificates.contains_key(ip) && !advertised.contains_key(ip) ==> h.label()
                == address::dotted(ip) && h.name is None
        }),
{
}

/// The typed name matches the first machine with that whole name, whatever the
/// case of ASCII letters and the white space around what was typed. Blank names
/// match nothing.
pub proof fn law_typed_name_matches_whole_names(
    hosts: Seq<HostModel>,
    before: Seq<char>,
    name: Seq<char>,
    after: Seq<char>,
    k: int,
)
    requires
        forall|j: int| 0 <= j < before.len() ==> text::is_white_space(#[trigger] before[j]),
        forall|j: int| 0 <= j < after.len() ==> text::is_white_space(#[trigger] after[j]),
        name.len() > 0 ==> !text::is_white_space(name[0]) && !text::is_white_space(name.last()),
        0 <= k < hosts.len(),
    ensures
        name.len() > 0 && hosts[k].name is Some && search::same_ignoring_case(
            hosts[k].name->0,
            name,
        ) && (forall|i: int|
            0 <= i < k ==> (#[trigger] hosts[i]).name is None || !search::same_ignoring_case(
                hosts[i].name->0,
                name,
            )) ==> match_of(hosts, before + name + after) == Some(hosts[k].ip),
        name.len() > 0 && (forall|i: int|
            0 <= i < hosts.len() ==> (#[trigger] hosts[i]).name is None
                || !search::same_ignoring_case(hosts[i].name->0, name)) ==> match_of(
            hosts,
            before + name + after,
        ) is None,
        name.len() == 0 ==> match_of(hosts, before + name + after) is None,
{
    text::law_white_space_around_does_not_matter(before, name, after);
    if name.len() > 0 && is_named(hosts[k], name) && (forall|i: int|
        0 <= i < k ==> !is_named(#[trigger] hosts[i], name)) {
        lemma_first_named_is(hosts, name, k);
    }
    lemma_first_named(hosts, name);
}

proof fn lemma_first_named_is(hosts: Seq<HostModel>, typed: Seq<char>, k: int)
    requires
        0 <= k < hosts.len(),
        is_named(hosts[k], typed),
        forall|i: int| 0 <= i < k ==> !is_named(#[trigger] hosts[i], typed),
    ensures
        first_named(hosts, typed) == Some(hosts[k].ip),
    decreases k,
{
    if k > 0 {
        let rest = hosts.drop_first();
        assert(!is_named(hosts[0], typed));
        assert forall|i: int| 0 <= i < k - 1 implies !is_named(#[trigger] rest[i], typed) by {
            assert(rest[i] == hosts[i + 1]);
        }
        lemma_first_named_is(rest, typed, k - 1);
    }
}

/// A name match is the target, whatever else was found. Without one the only
/// machine is, and among several none.
pub proof fn law_the_likeliest_target(hosts: Seq<HostModel>, ip: Ipv4Addr)
    ensures
        target_of(hosts, Some(ip)) == Some(ip),
        hosts.len() == 1 ==> target_of(hosts, None) == Some(hosts[0].ip),
        hosts.len() != 1 ==> target_of(hosts, None) is None,
{
}

} // verus!
