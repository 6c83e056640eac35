//! The "Connect" view's state: the machines on the LAN, and what is remembered
//! of each.

use crate::address;
use crate::address::Ipv4Addr;
use crate::assoc;
use crate::config;
use crate::discovery;
use crate::discovery::{Discovery, Host, HostModel};
use crate::number;
use crate::protocol;
use crate::protocol::Protocol;
use crate::search;
use crate::text;
use crate::text_map;
use crate::text_map::TextMap;
use vstd::prelude::*;

verus! {

/// The state of the view.
pub struct Connect {
    /// Optional "find by name" hint (advanced).
    pub name: String,
    pub username: String,
    pub password: String,
    pub fullscreen: bool,
    pub status: String,
    /// Editable role label for the selected machine.
    pub role: String,
    /// Remembered username per machine label.
    pub host_users: TextMap,
    /// Remembered role per machine label (the "agent board").
    pub host_roles: TextMap,
    pub last_used: Option<String>,
    pub auto_started: bool,
    /// Is a search under way?
    pub scanning: bool,
    pub hosts: Vec<Host>,
    pub name_match: Option<Ipv4Addr>,
    pub selected: Option<Ipv4Addr>,
}

/// What a [`Connect`] holds, as text and maps.
#[verifier::ext_equal]
pub struct ConnectModel {
    pub name: Seq<char>,
    pub username: Seq<char>,
    pub password: Seq<char>,
    pub fullscreen: bool,
    pub status: Seq<char>,
    pub role: Seq<char>,
    pub host_users: Map<Seq<char>, Seq<char>>,
    pub host_roles: Map<Seq<char>, Seq<char>>,
    pub last_used: Option<Seq<char>>,
    pub auto_started: bool,
    pub scanning: bool,
    pub hosts: Seq<HostModel>,
    pub name_match: Option<Ipv4Addr>,
    pub selected: Option<Ipv4Addr>,
}

impl View for Connect {
    type V = ConnectModel;

    open spec fn view(&self) -> ConnectModel {
        ConnectModel {
            name: self.name@,
            username: self.username@,
            password: self.password@,
            fullscreen: self.fullscreen,
            status: self.status@,
            role: self.role@,
            host_users: self.host_users@,
            host_roles: self.host_roles@,
            last_used: text::optional(self.last_used),
            auto_started: self.auto_started,
            scanning: self.scanning,
            hosts: discovery::models(self.hosts@),
            name_match: self.name_match,
            selected: self.selected,
        }
    }
}

// ---------------------------------------------------------------------------
// Looking up machines
// ---------------------------------------------------------------------------

/// The first of the hosts with the address `ip`.
pub open spec fn host_at(hosts: Seq<HostModel>, ip: Ipv4Addr) -> Option<HostModel>
    decreases hosts.len(),
{
    if hosts.len() == 0 {
        None
    } else if hosts[0].ip == ip {
        Some(hosts[0])
    } else {
        host_at(hosts.drop_first(), ip)
    }
}

/// Machine name if known, else the address.
pub open spec fn label_at(hosts: Seq<HostModel>, ip: Ipv4Addr) -> Seq<char> {
    match host_at(hosts, ip) {
        Some(h) => h.label(),
        None => address::dotted(ip),
    }
}

/// The first of the hosts with the label `label`.
pub open spec fn address_of(hosts: Seq<HostModel>, label: Seq<char>) -> Option<Ipv4Addr>
    decreases hosts.len(),
{
    if hosts.len() == 0 {
        None
    } else if hosts[0].label() == label {
        Some(hosts[0].ip)
    } else {
        address_of(hosts.drop_first(), label)
    }
}

// ---------------------------------------------------------------------------
// What the settings say
// ---------------------------------------------------------------------------

/// The settings' key for the username on a machine.
pub open spec fn user_key(label: Seq<char>) -> Seq<char> {
    "user."@ + label
}

/// The settings' key for the role of a machine.
pub open spec fn role_key(label: Seq<char>) -> Seq<char> {
    "role."@ + label
}

/// A username that earlier versions left behind; it is not offered.
pub open spec fn is_stale(user: Seq<char>) -> bool {
    search::same_ignoring_case(user, "neardesk"@)
}

/// The remembered usernames in the settings.
pub open spec fn users_in(cfg: Map<Seq<char>, Seq<char>>) -> Map<Seq<char>, Seq<char>> {
    Map::new(
        |label: Seq<char>| cfg.contains_key(user_key(label)) && !is_stale(cfg[user_key(label)]),
        |label: Seq<char>| cfg[user_key(label)],
    )
}

/// The remembered roles in the settings.
pub open spec fn roles_in(cfg: Map<Seq<char>, Seq<char>>) -> Map<Seq<char>, Seq<char>> {
    Map::new(
        |label: Seq<char>| cfg.contains_key(role_key(label)),
        |label: Seq<char>| cfg[role_key(label)],
    )
}

/// The username to start with.
pub open spec fn first_username(cfg: Map<Seq<char>, Seq<char>>, current: Seq<char>) -> Seq<char> {
    if cfg.contains_key("username"@) && !is_stale(cfg["username"@]) {
        cfg["username"@]
    } else {
        current
    }
}

/// The machine last used.
pub open spec fn last_in(cfg: Map<Seq<char>, Seq<char>>) -> Option<Seq<char>> {
    if cfg.contains_key("hostname"@) && cfg["hostname"@].len() > 0 {
        Some(cfg["hostname"@])
    } else {
        None
    }
}

/// The state to start with.
pub open spec fn started_with(cfg: Map<Seq<char>, Seq<char>>, current: Seq<char>) -> ConnectModel {
    ConnectModel {
        name: seq![],
        username: first_username(cfg, current),
        password: seq![],
        fullscreen: true,
        status: seq![],
        role: seq![],
        host_users: users_in(cfg),
        host_roles: roles_in(cfg),
        last_used: last_in(cfg),
        auto_started: false,
        scanning: false,
        hosts: seq![],
        name_match: None,
        selected: None,
    }
}

// ---------------------------------------------------------------------------
// Transitions
// ---------------------------------------------------------------------------

/// `m` with the machine `ip` selected, and its remembered username and role.
pub open spec fn selecting(m: ConnectModel, ip: Ipv4Addr) -> ConnectModel {
    let key = label_at(m.hosts, ip);
    ConnectModel {
        selected: Some(ip),
        username: if m.host_users.contains_key(key) {
            m.host_users[key]
        } else {
            m.username
        },
        role: if m.host_roles.contains_key(key) {
            m.host_roles[key]
        } else {
            seq![]
        },
        ..m
    }
}

/// `m` with a search under way and nothing found yet.
pub open spec fn searching(m: ConnectModel) -> ConnectModel {
    ConnectModel {
        status: seq![],
        hosts: seq![],
        name_match: None,
        selected: None,
        scanning: true,
        ..m
    }
}

/// What is said of the machines found.
pub open spec fn description(hosts: Seq<HostModel>) -> Seq<char> {
    if hosts.len() == 0 {
        seq![]
    } else if hosts.len() == 1 {
        "Found "@ + hosts[0].label() + "."@
    } else {
        "Found "@ + number::decimal(hosts.len()) + " computers."@
    }
}

/// `m` after a search found `hosts`: the likely target is selected, or else the
/// machine last used if it is there.
pub open spec fn having_found(
    m: ConnectModel,
    hosts: Seq<HostModel>,
    name_match: Option<Ipv4Addr>,
) -> ConnectModel {
    let found = ConnectModel { hosts, name_match, selected: None, ..m };
    let last = match m.last_used {
        Some(label) => address_of(hosts, label),
        None => None,
    };
    let chosen = match discovery::target_of(hosts, name_match) {
        Some(ip) => Some(ip),
        None => last,
    };
    let now = match chosen {
        Some(ip) => selecting(found, ip),
        None => found,
    };
    ConnectModel { status: description(hosts), scanning: false, ..now }
}

/// `m` after one turn: the first turn starts a search, and what a search found is
/// taken in.
pub open spec fn after_poll(m: ConnectModel, found: Option<Discovery>) -> ConnectModel {
    let begun = if m.auto_started {
        m
    } else {
        searching(ConnectModel { auto_started: true, ..m })
    };
    match found {
        Some(d) => if begun.scanning {
            having_found(begun, discovery::models(d.hosts@), d.name_match)
        } else {
            begun
        },
        None => begun,
    }
}

/// The settings with the sign-in for the machine `key` in them.
pub open spec fn with_sign_in(
    cfg: Map<Seq<char>, Seq<char>>,
    key: Seq<char>,
    user: Seq<char>,
    role: Seq<char>,
) -> Map<Seq<char>, Seq<char>> {
    let signed = cfg.insert("hostname"@, key).insert("username"@, user).insert(user_key(key), user);
    if role.len() == 0 {
        signed.remove(role_key(key))
    } else {
        signed.insert(role_key(key), role)
    }
}

/// The settings to save for the sign-in of `m`: those on disk with what was typed
/// for the selected machine.
pub open spec fn saving(m: ConnectModel, cfg: Map<Seq<char>, Seq<char>>) -> Option<
    Map<Seq<char>, Seq<char>>,
> {
    match m.selected {
        Some(ip) => Some(
            with_sign_in(
                cfg,
                label_at(m.hosts, ip),
                text::trimmed(m.username),
                text::trimmed(m.role),
            ),
        ),
        None => None,
    }
}

/// `m` with the sign-in for the selected machine remembered.
pub open spec fn remembering(m: ConnectModel) -> ConnectModel {
    match m.selected {
        Some(ip) => {
            let key = label_at(m.hosts, ip);
            let role = text::trimmed(m.role);
            ConnectModel {
                host_users: m.host_users.insert(key, text::trimmed(m.username)),
                host_roles: if role.len() == 0 {
                    m.host_roles.remove(key)
                } else {
                    m.host_roles.insert(key, role)
                },
                last_used: Some(key),
                ..m
            }
        },
        None => m,
    }
}

/// What is said after trying to open a session with `h`.
pub open spec fn launch_status(h: HostModel, launched: Result<(), Seq<char>>) -> Seq<char> {
    match launched {
        Ok(()) => "Opening "@ + h.label() + " ("@ + protocol::label_of(h.protocol) + ")\u{2026}"@,
        Err(e) => "Couldn't connect: "@ + e,
    }
}

/// What to open a session with.
pub struct LaunchRequest {
    pub ip: Ipv4Addr,
    pub port: u16,
    pub username: String,
    pub password: String,
    pub fullscreen: bool,
    pub protocol: Protocol,
}

/// `q` asks for a session with the machine `h`, with the sign-in of `m`.
pub open spec fn asks_for(q: LaunchRequest, m: ConnectModel, h: HostModel) -> bool {
    &&& q.ip == h.ip
    &&& q.port == protocol::port_of(h.protocol)
    &&& q.username@ == m.username
    &&& q.password@ == m.password
    &&& q.fullscreen == m.fullscreen
    &&& q.protocol == h.protocol
}

/// `m` after trying to open a session with the machine `ip`.
pub open spec fn after_launch(
    m: ConnectModel,
    ip: Ipv4Addr,
    launched: Result<(), Seq<char>>,
) -> ConnectModel {
    match host_at(m.hosts, ip) {
        Some(h) => ConnectModel { status: launch_status(h, launched), ..m },
        None => m,
    }
}

// ---------------------------------------------------------------------------
// What the view shows
// ---------------------------------------------------------------------------

/// A machine as the list shows it.
pub struct Row {
    pub ip: Ipv4Addr,
    pub label: String,
    pub selected: bool,
    pub role: Option<String>,
    pub protocol: Protocol,
    /// The address, where the label is a name.
    pub address: Option<String>,
    pub last_used: bool,
    pub name_match: bool,
}

/// What a [`Row`] holds, as text.
#[verifier::ext_equal]
pub struct RowModel {
    pub ip: Ipv4Addr,
    pub label: Seq<char>,
    pub selected: bool,
    pub role: Option<Seq<char>>,
    pub protocol: Protocol,
    pub address: Option<Seq<char>>,
    pub last_used: bool,
    pub name_match: bool,
}

impl View for Row {
    type V = RowModel;

    open spec fn view(&self) -> RowModel {
        RowModel {
            ip: self.ip,
            label: self.label@,
            selected: self.selected,
            role: text::optional(self.role),
            protocol: self.protocol,
            address: text::optional(self.address),
            last_used: self.last_used,
            name_match: self.name_match,
        }
    }
}

/// How the list shows `h`.
pub open spec fn row_of(m: ConnectModel, h: HostModel) -> RowModel {
    RowModel {
        ip: h.ip,
        label: h.label(),
        selected: m.selected == Some(h.ip),
        role: if m.host_roles.contains_key(h.label()) {
            Some(m.host_roles[h.label()])
        } else {
            None
        },
        protocol: h.protocol,
        address: if h.name is Some {
            Some(address::dotted(h.ip))
        } else {
            None
        },
        last_used: m.last_used == Some(h.label()),
        name_match: m.name_match == Some(h.ip),
    }
}

/// `text` with the selected machine's label after `to`, if one is selected.
pub open spec fn addressed(m: ConnectModel, text: Seq<char>, to: Seq<char>) -> Seq<char> {
    match m.selected {
        Some(ip) => to + label_at(m.hosts, ip),
        None => text,
    }
}

pub const SEARCHING: &'static str = "Searching the network\u{2026}";

pub const NOTHING_FOUND: &'static str = "No computers found. Turn on sharing on the other PC under \u{201C}This PC\u{201D}, then Rescan.";

proof fn lemma_host_at(hosts: Seq<HostModel>, ip: Ipv4Addr)
    ensures
        host_at(hosts, ip) is Some ==> host_at(hosts, ip)->0.ip == ip,
    decreases hosts.len(),
{
    if hosts.len() > 0 && hosts[0].ip != ip {
        lemma_host_at(hosts.drop_first(), ip);
    }
}

fn stale(user: &str) -> (r: bool)
    ensures
        r == is_stale(user@),
{
    search::equal_ignoring_case(user, "neardesk")
}

/// The entries of `e` whose keys start with `prefix`, without it.
spec fn under(e: text_map::Entries, prefix: Seq<char>, keep: spec_fn(Seq<char>) -> bool) -> Map<
    Seq<char>,
    Seq<char>,
> {
    let m = assoc::map_of(e);
    Map::new(
        |label: Seq<char>| m.contains_key(prefix + label) && keep(m[prefix + label]),
        |label: Seq<char>| m[prefix + label],
    )
}

proof fn lemma_under_push(
    e: text_map::Entries,
    k: Seq<char>,
    v: Seq<char>,
    prefix: Seq<char>,
    keep: spec_fn(Seq<char>) -> bool,
)
    requires
        assoc::distinct_keys(e),
        !assoc::map_of(e).contains_key(k),
    ensures
        under(e.push((k, v)), prefix, keep) == (if search::has_prefix(k, prefix) && keep(v) {
            under(e, prefix, keep).insert(k.skip(prefix.len() as int), v)
        } else {
            under(e, prefix, keep)
        }),
{
    assoc::lemma_map_of_push(e, k, v);
    let m = assoc::map_of(e);
    let n = assoc::map_of(e.push((k, v)));
    let a = under(e.push((k, v)), prefix, keep);
    let b = if search::has_prefix(k, prefix) && keep(v) {
        under(e, prefix, keep).insert(k.skip(prefix.len() as int), v)
    } else {
        under(e, prefix, keep)
    };
    if search::has_prefix(k, prefix) {
        assert(k =~= prefix + k.skip(prefix.len() as int));
    }
    assert forall|label: Seq<char>| #[trigger] a.contains_key(label) <==> b.contains_key(
        label,
    ) by {
        let full = prefix + label;
        assert(full.skip(prefix.len() as int) =~= label);
        assert(full.take(prefix.len() as int) =~= prefix);
    }
    assert forall|label: Seq<char>| #[trigger] a.contains_key(label) implies a[label]
        == b[label] by {
        let full = prefix + label;
        assert(full.skip(prefix.len() as int) =~= label);
        assert(full.take(prefix.len() as int) =~= prefix);
    }
    assert(a =~= b);
}

impl Connect {
    /// The state to start with, for the settings and the current account name.
    pub fn new(cfg: &TextMap, current: String) -> (r: Connect)
        ensures
            r@ == started_with(cfg@, current@),
    {
        let mut host_users = TextMap::new();
        let mut host_roles = TextMap::new();
        let n = cfg.len();
        let ghost e = cfg.entries();
        let ghost fresh = |v: Seq<char>| !is_stale(v);
        let ghost any = |v: Seq<char>| true;
        proof {
            assert(e.take(0) =~= text_map::Entries::empty());
            assert(assoc::map_of(e.take(0)) =~= Map::empty());
            assert(under(e.take(0), "user."@, fresh) =~= Map::empty());
            assert(under(e.take(0), "role."@, any) =~= Map::empty());
        }
        for i in 0..n
            invariant
                e == cfg.entries(),
                n == e.len(),
                assoc::distinct_keys(e),
                fresh == (|v: Seq<char>| !is_stale(v)),
                any == (|v: Seq<char>| true),
                host_users@ == under(e.take(i as int), "user."@, fresh),
                host_roles@ == under(e.take(i as int), "role."@, any),
        {
            let (k, v) = cfg.entry(i);
            let ghost before = e.take(i as int);
            proof {
                assert(e.take(i + 1) =~= before.push((k@, v@)));
                assert(!assoc::map_of(before).contains_key(k@)) by {
                    if assoc::map_of(before).contains_key(k@) {
                        let j = choose|j: int| assoc::is_entry(before, k@, j);
                        assert(before[j] == e[j]);
                        assert(e[j].0 != e[i as int].0);
                    }
                }
                assert(assoc::distinct_keys(before));
                lemma_under_push(before, k@, v@, "user."@, fresh);
                lemma_under_push(before, k@, v@, "role."@, any);
                reveal_strlit("user.");
                reveal_strlit("role.");
                if search::has_prefix(k@, "user."@) && search::has_prefix(k@, "role."@) {
                    assert(k@.take(5)[0] == 'u');
                    assert(k@.take(5)[0] == 'r');
                }
            }
            if let Some(host) = search::strip_prefix(k, "user.") {
                if !stale(v) {
                    host_users.insert(host, v);
                }
            } else if let Some(host) = search::strip_prefix(k, "role.") {
                host_roles.insert(host, v);
            }
        }
        proof {
            assert(e.take(n as int) =~= e);
            assert(host_users@ =~= users_in(cfg@));
            assert(host_roles@ =~= roles_in(cfg@));
        }
        let username = match cfg.get("username") {
            Some(u) => if stale(u) {
                current
            } else {
                u.to_string()
            },
            None => current,
        };
        let last_used = match cfg.get("hostname") {
            Some(s) => if s.is_empty() {
                None
            } else {
                Some(s.to_string())
            },
            None => None,
        };
        let hosts: Vec<Host> = Vec::new();
        proof {
            assert(discovery::models(hosts@) =~= seq![]);
        }
        Connect {
            name: String::new(),
            username,
            password: String::new(),
            fullscreen: true,
            status: String::new(),
            role: String::new(),
            host_users,
            host_roles,
            last_used,
            auto_started: false,
            scanning: false,
            hosts,
            name_match: None,
            selected: None,
        }
    }

    /// Is a search under way?
    pub fn is_scanning(&self) -> (r: bool)
        ensures
            r == self@.scanning,
    {
        self.scanning
    }

    /// The machine with the address `ip`, if it was found.
    pub fn host(&self, ip: Ipv4Addr) -> (r: Option<&Host>)
        ensures
            match r {
                Some(h) => host_at(self@.hosts, ip) == Some(h@),
                None => host_at(self@.hosts, ip) is None,
            },
    {
        let ghost all = self@.hosts;
        proof {
            assert(all.skip(0) =~= all);
        }
        for i in 0..self.hosts.len()
            invariant
                all == self@.hosts,
                host_at(all, ip) == host_at(all.skip(i as int), ip),
        {
            proof {
                assert(all.skip(i as int)[0] == self.hosts@[i as int]@);
                assert(all.skip(i as int).drop_first() =~= all.skip(i + 1));
            }
            if self.hosts[i].ip == ip {
                return Some(&self.hosts[i]);
            }
        }
        None
    }

    /// Machine name if known, else the IP.
    pub fn host_label(&self, ip: Ipv4Addr) -> (r: String)
        ensures
            r@ == label_at(self@.hosts, ip),
    {
        match self.host(ip) {
            Some(h) => h.label(),
            None => ip.to_string(),
        }
    }

    /// The address of the machine last used, if it was found.
    pub fn last_used_ip(&self) -> (r: Option<Ipv4Addr>)
        ensures
            r == (match self@.last_used {
                Some(label) => address_of(self@.hosts, label),
                None => None,
            }),
    {
        let last = match &self.last_used {
            Some(s) => s,
            None => {
                return None;
            },
        };
        let ghost all = self@.hosts;
        proof {
            assert(all.skip(0) =~= all);
        }
        for i in 0..self.hosts.len()
            invariant
                all == self@.hosts,
                self@.last_used == Some(last@),
                address_of(all, last@) == address_of(all.skip(i as int), last@),
        {
            proof {
                assert(all.skip(i as int)[0] == self.hosts@[i as int]@);
                assert(all.skip(i as int).drop_first() =~= all.skip(i + 1));
            }
            if text::equal(self.hosts[i].label().as_str(), last.as_str()) {
                return Some(self.hosts[i].ip);
            }
        }
        None
    }

    /// Selects a machine and loads its remembered username + role.
    pub fn select(&mut self, ip: Ipv4Addr)
        ensures
            final(self)@ == selecting(old(self)@, ip),
    {
        self.selected = Some(ip);
        let key = self.host_label(ip);
        if let Some(user) = self.host_users.get(key.as_str()) {
            self.username = user.to_string();
        }
        self.role = match self.host_roles.get(key.as_str()) {
            Some(role) => role.to_string(),
            None => String::new(),
        };
    }

    /// Remembers the selected machine's username and role. `cfg` holds the
    /// settings on disk; what comes back is to be saved.
    pub fn persist(&mut self, cfg: TextMap) -> (r: Option<TextMap>)
        ensures
            final(self)@ == remembering(old(self)@),
            match (r, old(self)@.selected) {
                (Some(saved), Some(ip)) => saved@ == with_sign_in(
                    cfg@,
                    label_at(old(self)@.hosts, ip),
                    text::trimmed(old(self)@.username),
                    text::trimmed(old(self)@.role),
                ),
                (None, None) => true,
                _ => false,
            },
            match r {
                Some(saved) => saving(old(self)@, cfg@) == Some(saved@),
                None => saving(old(self)@, cfg@) is None,
            },
    {
        let ip = match self.selected {
            Some(ip) => ip,
            None => {
                return None;
            },
        };
        let key = self.host_label(ip);
        let user = text::trim(self.username.as_str()).to_string();
        let role = text::trim(self.role.as_str()).to_string();
        self.host_users.insert(key.as_str(), user.as_str());
        let mut cfg = cfg;
        cfg.insert("hostname", key.as_str());
        cfg.insert("username", user.as_str());
        cfg.insert(text::concat("user.", key.as_str()).as_str(), user.as_str());
        let role_name = text::concat("role.", key.as_str());
        if role.as_str().is_empty() {
            self.host_roles.remove(key.as_str());
            cfg.remove(role_name.as_str());
        } else {
            self.host_roles.insert(key.as_str(), role.as_str());
            cfg.insert(role_name.as_str(), role.as_str());
        }
        self.last_used = Some(key);
        Some(cfg)
    }

    /// Starts a search. What comes back is the name to look for.
    pub fn start_discovery(&mut self) -> (r: String)
        ensures
            r@ == text::trimmed(old(self)@.name),
            final(self)@ == searching(old(self)@),
    {
        let name = text::trim(self.name.as_str()).to_string();
        self.status = String::new();
        self.hosts = Vec::new();
        self.name_match = None;
        self.selected = None;
        self.scanning = true;
        proof {
            assert(discovery::models(self.hosts@) =~= seq![]);
        }
        name
    }

    /// What is said of the machines found.
    pub fn describe(&self) -> (r: String)
        ensures
            r@ == description(self@.hosts),
    {
        let n = self.hosts.len();
        if n == 0 {
            String::new()
        } else if n == 1 {
            assert(self@.hosts[0] == self.hosts@[0]@);
            let mut s = text::concat("Found ", self.hosts[0].label().as_str());
            s.append(".");
            s
        } else {
            let mut s = text::concat("Found ", number::to_decimal(n as u64).as_str());
            s.append(" computers.");
            s
        }
    }

    /// Takes in what a search found.
    fn receive(&mut self, found: Discovery)
        ensures
            final(self)@ == having_found(
                old(self)@,
                discovery::models(found.hosts@),
                found.name_match,
            ),
    {
        let target = discovery::pick_target(&found);
        self.hosts = found.hosts;
        self.name_match = found.name_match;
        self.selected = None;
        let chosen = match target {
            Some(ip) => Some(ip),
            None => self.last_used_ip(),
        };
        if let Some(ip) = chosen {
            self.select(ip);
        }
        self.status = self.describe();
        self.scanning = false;
    }

    /// One turn: starts the first search, and takes in what a search found. What
    /// comes back is the name to look for, if a search is to start.
    pub fn poll(&mut self, found: Option<Discovery>) -> (r: Option<String>)
        ensures
            final(self)@ == after_poll(old(self)@, found),
            text::optional(r) == (if old(self)@.auto_started {
                None
            } else {
                Some(text::trimmed(old(self)@.name))
            }),
    {
        let mut start = None;
        if !self.auto_started {
            self.auto_started = true;
            start = Some(self.start_discovery());
        }
        if let Some(d) = found {
            if self.scanning {
                self.receive(d);
            }
        }
        start
    }

    /// What to open a session with the machine `ip` with, if it was found.
    pub fn request(&self, ip: Ipv4Addr) -> (r: Option<LaunchRequest>)
        ensures
            match (r, host_at(self@.hosts, ip)) {
                (Some(q), Some(h)) => {
                    &&& q.ip == ip
                    &&& q.port == protocol::port_of(h.protocol)
                    &&& q.username@ == self@.username
                    &&& q.password@ == self@.password
                    &&& q.fullscreen == self@.fullscreen
                    &&& q.protocol == h.protocol
                    &&& asks_for(q, self@, h)
                },
                (None, None) => true,
                _ => false,
            },
    {
        proof {
            lemma_host_at(self@.hosts, ip);
        }
        match self.host(ip) {
            Some(h) => Some(
                LaunchRequest {
                    ip,
                    port: h.protocol.port(),
                    username: self.username.clone(),
                    password: self.password.clone(),
                    fullscreen: self.fullscreen,
                    protocol: h.protocol,
                },
            ),
            None => None,
        }
    }

    /// Begins to connect to the machine `ip`: remembers the sign-in, then says what
    /// to open a session with. `cfg` holds the settings on disk; what comes back
    /// first is to be saved.
    pub fn open(&mut self, ip: Ipv4Addr, cfg: TextMap) -> (r: (
        Option<TextMap>,
        Option<LaunchRequest>,
    ))
        ensures
            final(self)@ == remembering(old(self)@),
            match (r.0, old(self)@.selected) {
                (Some(saved), Some(selected)) => saved@ == with_sign_in(
                    cfg@,
                    label_at(old(self)@.hosts, selected),
                    text::trimmed(old(self)@.username),
                    text::trimmed(old(self)@.role),
                ),
                (None, None) => true,
                _ => false,
            },
            match r.0 {
                Some(saved) => saving(old(self)@, cfg@) == Some(saved@),
                None => saving(old(self)@, cfg@) is None,
            },
            match (r.1, host_at(old(self)@.hosts, ip)) {
                (Some(q), Some(h)) => {
                    &&& q.ip == ip
                    &&& q.port == protocol::port_of(h.protocol)
                    &&& q.username@ == old(self)@.username
                    &&& q.password@ == old(self)@.password
                    &&& q.fullscreen == old(self)@.fullscreen
                    &&& q.protocol == h.protocol
                    &&& asks_for(q, old(self)@, h)
                },
                (None, None) => true,
                _ => false,
            },
    {
        let saved = self.persist(cfg);
        let request = self.request(ip);
        (saved, request)
    }

    /// Notes what came of opening a session with the machine `ip`.
    pub fn connect(&mut self, ip: Ipv4Addr, launched: Result<(), String>)
        ensures
            final(self)@ == (match host_at(old(self)@.hosts, ip) {
                Some(h) => ConnectModel {
                    status: launch_status(h, crate::platform::result(launched)),
                    ..old(self)@
                },
                None => old(self)@,
            }),
            final(self)@ == after_launch(old(self)@, ip, crate::platform::result(launched)),
    {
        let status = match self.host(ip) {
            Some(h) => match launched {
                Ok(()) => {
                    let mut s = text::concat("Opening ", h.label().as_str());
                    s.append(" (");
                    s.append(h.protocol.label());
                    s.append(")\u{2026}");
                    s
                },
                Err(e) => text::concat("Couldn't connect: ", e.as_str()),
            },
            None => {
                return ;
            },
        };
        self.status = status;
    }

    fn row(&self, host: &Host) -> (r: Row)
        ensures
            r@ == row_of(self@, host@),
    {
        let ip = host.ip;
        let label = host.label();
        let selected = match self.selected {
            Some(s) => s == ip,
            None => false,
        };
        let role = match self.host_roles.get(label.as_str()) {
            Some(role) => Some(role.to_string()),
            None => None,
        };
        let address = match &host.name {
            Some(_) => Some(ip.to_string()),
            None => None,
        };
        let last_used = match &self.last_used {
            Some(last) => text::equal(last.as_str(), label.as_str()),
            None => false,
        };
        let name_match = match self.name_match {
            Some(m) => m == ip,
            None => false,
        };
        Row { ip, label, selected, role, protocol: host.protocol, address, last_used, name_match }
    }

    /// The machines as the list shows them.
    pub fn computers(&self) -> (r: Vec<Row>)
        ensures
            r.len() == self@.hosts.len(),
            forall|i: int| 0 <= i < r.len() ==> (#[trigger] r@[i])@ == row_of(self@, self@.hosts[i]),
    {
        let mut r: Vec<Row> = Vec::new();
        for i in 0..self.hosts.len()
            invariant
                r.len() == i,
                forall|j: int|
                    0 <= j < i ==> (#[trigger] r@[j])@ == row_of(self@, self@.hosts[j]),
        {
            r.push(self.row(&self.hosts[i]));
            proof {
                assert(self@.hosts[i as int] == self.hosts@[i as int]@);
            }
        }
        r
    }

    /// What is shown in place of an empty list.
    pub fn empty_message(&self) -> (r: &'static str)
        ensures
            r@ == (if self@.scanning {
                SEARCHING@
            } else {
                NOTHING_FOUND@
            }),
    {
        if self.scanning {
            SEARCHING
        } else {
            NOTHING_FOUND
        }
    }

    /// The heading above the sign-in form.
    pub fn sign_in_title(&self) -> (r: String)
        ensures
            r@ == addressed(self@, "Sign in"@, "Sign in to "@),
    {
        match self.selected {
            Some(ip) => text::concat("Sign in to ", self.host_label(ip).as_str()),
            None => "Sign in".to_string(),
        }
    }

    /// The text on the connect button.
    pub fn connect_label(&self) -> (r: String)
        ensures
            r@ == addressed(self@, "Connect"@, "Connect to "@),
    {
        match self.selected {
            Some(ip) => text::concat("Connect to ", self.host_label(ip).as_str()),
            None => "Connect".to_string(),
        }
    }
}

// ---------------------------------------------------------------------------
// Laws
// ---------------------------------------------------------------------------

/// Selecting a machine again recalls the sign-in that was remembered for it.
pub proof fn law_selecting_recalls_sign_in(m: ConnectModel, ip: Ipv4Addr)
    requires
        m.selected == Some(ip),
    ensures
        selecting(remembering(m), ip).username == text::trimmed(m.username),
        selecting(remembering(m), ip).role == text::trimmed(m.role),
{
    if text::trimmed(m.role).len() == 0 {
        assert(text::trimmed(m.role) =~= seq![]);
    }
}

/// A text that can stand on its own in a line of the settings.
pub open spec fn fits_line(t: Seq<char>) -> bool {
    text::is_trimmed(t) && !t.contains('\n')
}

proof fn lemma_keys_differ(key: Seq<char>, label: Seq<char>)
    ensures
        user_key(key) != role_key(label),
        user_key(key) != "hostname"@,
        user_key(key) != "username"@,
        role_key(key) != "hostname"@,
        role_key(key) != "username"@,
        "hostname"@ != "username"@,
        user_key(key) == user_key(label) ==> key == label,
        role_key(key) == role_key(label) ==> key == label,
{
    reveal_strlit("user.");
    reveal_strlit("role.");
    reveal_strlit("hostname");
    reveal_strlit("username");
    let u = user_key(key);
    assert(u[0] == 'u' && u[4] == '.');
    assert(role_key(label)[0] == 'r');
    assert(role_key(key)[0] == 'r');
    assert("hostname"@[0] == 'h');
    assert("username"@[0] == 'u' && "username"@[4] == 'n');
    assert(user_key(key).skip(5) =~= key);
    assert(user_key(label).skip(5) =~= label);
    assert(role_key(key).skip(5) =~= key);
    assert(role_key(label).skip(5) =~= label);
}

proof fn lemma_prefixed_storable(prefix: Seq<char>, key: Seq<char>, value: Seq<char>)
    requires
        prefix == "user."@ || prefix == "role."@,
        fits_line(key),
        !key.contains('='),
        fits_line(value),
    ensures
        config::storable(prefix + key, value),
{
    reveal_strlit("user.");
    reveal_strlit("role.");
    let t = prefix + key;
    assert(!text::is_white_space(t[0]) && t[0] != '#');
    assert(key.len() > 0 ==> t.last() == key.last());
    assert(key.len() == 0 ==> t.last() == '.');
    if t.contains('=') {
        let i = choose|i: int| 0 <= i < t.len() && t[i] == '=';
        if i >= 5 {
            assert(key[i - 5] == '=');
        }
    }
    if t.contains('\n') {
        let i = choose|i: int| 0 <= i < t.len() && t[i] == '\n';
        if i >= 5 {
            assert(key[i - 5] == '\n');
        }
    }
}

proof fn lemma_sign_in_storable(
    cfg: Map<Seq<char>, Seq<char>>,
    key: Seq<char>,
    user: Seq<char>,
    role: Seq<char>,
)
    requires
        config::all_storable(cfg),
        fits_line(key),
        !key.contains('='),
        fits_line(user),
        fits_line(role),
    ensures
        config::all_storable(with_sign_in(cfg, key, user, role)),
{
    let saved = with_sign_in(cfg, key, user, role);
    lemma_prefixed_storable("user."@, key, user);
    lemma_prefixed_storable("role."@, key, role);
    reveal_strlit("hostname");
    reveal_strlit("username");
    assert(config::storable("hostname"@, key));
    assert(config::storable("username"@, user));
    assert forall|k: Seq<char>| #[trigger] saved.contains_key(k) implies config::storable(
        k,
        saved[k],
    ) by {
        if cfg.contains_key(k) {
            assert(config::storable(k, cfg[k]));
        }
    }
}

/// A sign-in that was saved is offered again after a restart: the machine is the
/// one last used and has its username and role, and what was remembered of other
/// machines is as before. The old account name of earlier versions is not
/// offered. A machine label with `=` in it, and text that a line of the settings
/// cannot hold, are left out.
pub proof fn law_sign_in_survives_restart(
    file: Seq<char>,
    key: Seq<char>,
    user: Seq<char>,
    role: Seq<char>,
    e: text_map::Entries,
    current: Seq<char>,
)
    requires
        fits_line(key),
        !key.contains('='),
        fits_line(user),
        fits_line(role),
        assoc::distinct_keys(e),
        assoc::map_of(e) == with_sign_in(config::loaded(file), key, user, role),
    ensures
        ({
            let before = started_with(config::loaded(file), current);
            let after = started_with(config::loaded(config::saved(e)), current);
            &&& after.last_used == (if key.len() == 0 {
                None
            } else {
                Some(key)
            })
            &&& after.username == (if is_stale(user) {
                current
            } else {
                user
            })
            &&& after.host_users == (if is_stale(user) {
                before.host_users.remove(key)
            } else {
                before.host_users.insert(key, user)
            })
            &&& after.host_roles == (if role.len() == 0 {
                before.host_roles.remove(key)
            } else {
                before.host_roles.insert(key, role)
            })
        }),
{
    let cfg = config::loaded(file);
    let saved = with_sign_in(cfg, key, user, role);
    config::law_loaded_is_storable(file);
    lemma_sign_in_storable(cfg, key, user, role);
    config::law_load_reads_back_save(e);
    lemma_keys_differ(key, key);
    let before = started_with(cfg, current);
    let after = started_with(saved, current);
    let users = if is_stale(user) {
        before.host_users.remove(key)
    } else {
        before.host_users.insert(key, user)
    };
    let roles = if role.len() == 0 {
        before.host_roles.remove(key)
    } else {
        before.host_roles.insert(key, role)
    };
    assert forall|label: Seq<char>| #[trigger] after.host_users.contains_key(label)
        <==> users.contains_key(label) by {
        lemma_keys_differ(key, label);
        lemma_keys_differ(label, key);
    }
    assert forall|label: Seq<char>| #[trigger]
        after.host_users.contains_key(label) implies after.host_users[label] == users[label] by {
        lemma_keys_differ(key, label);
        lemma_keys_differ(label, key);
    }
    assert(after.host_users =~= users);
    assert forall|label: Seq<char>| #[trigger] after.host_roles.contains_key(label)
        <==> roles.contains_key(label) by {
        lemma_keys_differ(key, label);
        lemma_keys_differ(label, key);
    }
    assert forall|label: Seq<char>| #[trigger]
        after.host_roles.contains_key(label) implies after.host_roles[label] == roles[label] by {
        lemma_keys_differ(key, label);
        lemma_keys_differ(label, key);
    }
    assert(after.host_roles =~= roles);
}

/// After a restart only the password is needed: once the machine is found again,
/// selecting it offers the saved username and role, and unless there is a likelier
/// target it is selected by itself.
pub proof fn law_saved_sign_in_is_offered_again(
    file: Seq<char>,
    key: Seq<char>,
    user: Seq<char>,
    role: Seq<char>,
    e: text_map::Entries,
    current: Seq<char>,
    hosts: Seq<HostModel>,
    name_match: Option<Ipv4Addr>,
    ip: Ipv4Addr,
)
    requires
        fits_line(key),
        !key.contains('='),
        fits_line(user),
        fits_line(role),
        !is_stale(user),
        assoc::distinct_keys(e),
        assoc::map_of(e) == with_sign_in(config::loaded(file), key, user, role),
        label_at(hosts, ip) == key,
    ensures
        ({
            let restarted = started_with(config::loaded(config::saved(e)), current);
            let chosen = selecting(ConnectModel { hosts, ..restarted }, ip);
            let found = having_found(restarted, hosts, name_match);
            &&& chosen.username == user
            &&& chosen.role == role
            &&& key.len() > 0 && address_of(hosts, key) == Some(ip) && discovery::target_of(
                hosts,
                name_match,
            ) is None ==> {
                &&& found.selected == Some(ip)
                &&& found.username == user
                &&& found.role == role
            }
        }),
{
    law_sign_in_survives_restart(file, key, user, role, e, current);
    if role.len() == 0 {
        assert(role =~= seq![]);
    }
}

proof fn lemma_address_of(hosts: Seq<HostModel>, label: Seq<char>)
    ensures
        match address_of(hosts, label) {
            Some(ip) => exists|i: int|
                0 <= i < hosts.len() && (#[trigger] hosts[i]).ip == ip && hosts[i].label() == label,
            None => true,
        },
    decreases hosts.len(),
{
    if hosts.len() > 0 && hosts[0].label() != label {
        let rest = hosts.drop_first();
        lemma_address_of(rest, label);
        if let Some(ip) = address_of(rest, label) {
            let i = choose|i: int|
                0 <= i < rest.len() && (#[trigger] rest[i]).ip == ip && rest[i].label() == label;
            assert(hosts[i + 1] == rest[i]);
        }
    }
}

/// The machine that is selected after a search is one that the search found.
pub proof fn law_selected_was_found(m: ConnectModel, hosts: Seq<HostModel>, name: Seq<char>)
    ensures
        match having_found(m, hosts, discovery::match_of(hosts, name)).selected {
            Some(ip) => exists|i: int| 0 <= i < hosts.len() && (#[trigger] hosts[i]).ip == ip,
            None => hosts.len() != 1,
        },
{
    discovery::law_target_was_found(hosts, name);
    if let Some(label) = m.last_used {
        lemma_address_of(hosts, label);
    }
}

/// The first machine with an address, or with a label, is the one that is looked
/// up; an address that was not found is its own label.
pub proof fn law_machines_are_looked_up(hosts: Seq<HostModel>, k: int)
    requires
        0 <= k < hosts.len(),
    ensures
        (forall|i: int| 0 <= i < k ==> (#[trigger] hosts[i]).ip != hosts[k].ip) ==> host_at(
            hosts,
            hosts[k].ip,
        ) == Some(hosts[k]) && label_at(hosts, hosts[k].ip) == hosts[k].label(),
        (forall|i: int| 0 <= i < k ==> (#[trigger] hosts[i]).label() != hosts[k].label())
            ==> address_of(hosts, hosts[k].label()) == Some(hosts[k].ip),
    decreases k,
{
    if k > 0 {
        let rest = hosts.drop_first();
        assert forall|i: int| 0 <= i < k - 1 implies rest[i] == #[trigger] hosts[i + 1] by {}
        law_machines_are_looked_up(rest, k - 1);
        if forall|i: int| 0 <= i < k ==> (#[trigger] hosts[i]).ip != hosts[k].ip {
            assert(hosts[0].ip != hosts[k].ip);
            assert forall|i: int| 0 <= i < k - 1 implies (#[trigger] rest[i]).ip
                != rest[k - 1].ip by {
                assert(rest[i] == hosts[i + 1]);
            }
        }
        if forall|i: int| 0 <= i < k ==> (#[trigger] hosts[i]).label() != hosts[k].label() {
            assert(hosts[0].label() != hosts[k].label());
            assert forall|i: int| 0 <= i < k - 1 implies (#[trigger] rest[i]).label()
                != rest[k - 1].label() by {
                assert(rest[i] == hosts[i + 1]);
            }
        }
    }
}

/// An address or a label that no machine has is not found.
pub proof fn law_unknown_machines_are_not_found(
    hosts: Seq<HostModel>,
    ip: Ipv4Addr,
    label: Seq<char>,
)
    ensures
        (forall|i: int| 0 <= i < hosts.len() ==> (#[trigger] hosts[i]).ip != ip) ==> host_at(
            hosts,
            ip,
        ) is None && label_at(hosts, ip) == address::dotted(ip),
        (forall|i: int| 0 <= i < hosts.len() ==> (#[trigger] hosts[i]).label() != label)
            ==> address_of(hosts, label) is None,
    decreases hosts.len(),
{
    if hosts.len() > 0 {
        let rest = hosts.drop_first();
        law_unknown_machines_are_not_found(rest, ip, label);
        if forall|i: int| 0 <= i < hosts.len() ==> (#[trigger] hosts[i]).ip != ip {
            assert(hosts[0].ip != ip);
            assert forall|i: int| 0 <= i < rest.len() implies (#[trigger] rest[i]).ip != ip by {
                assert(rest[i] == hosts[i + 1]);
            }
        }
        if forall|i: int| 0 <= i < hosts.len() ==> (#[trigger] hosts[i]).label() != label {
            assert(hosts[0].label() != label);
            assert forall|i: int| 0 <= i < rest.len() implies (#[trigger] rest[i]).label()
                != label by {
                assert(rest[i] == hosts[i + 1]);
            }
        }
    }
}

/// What the settings hold of a machine is offered to the letter: its username,
/// but for the account name of earlier versions, and its role. The general
/// username and the machine last used are taken likewise. Nothing is selected,
/// searched or filled in beyond that.
pub proof fn law_settings_are_offered(
    cfg: Map<Seq<char>, Seq<char>>,
    current: Seq<char>,
    label: Seq<char>,
)
    ensures
        ({
            let m = started_with(cfg, current);
            let user = "user."@ + label;
            let role = "role."@ + label;
            &&& m.host_users.contains_key(label) <==> cfg.contains_key(user)
                && !search::same_ignoring_case(cfg[user], "neardesk"@)
            &&& m.host_users.contains_key(label) ==> m.host_users[label] == cfg[user]
            &&& m.host_roles.contains_key(label) <==> cfg.contains_key(role)
            &&& m.host_roles.contains_key(label) ==> m.host_roles[label] == cfg[role]
            &&& cfg.contains_key("username"@) && !search::same_ignoring_case(
                cfg["username"@],
                "neardesk"@,
            ) ==> m.username == cfg["username"@]
            &&& !cfg.contains_key("username"@) || search::same_ignoring_case(
                cfg["username"@],
                "neardesk"@,
            ) ==> m.username == current
            &&& cfg.contains_key("hostname"@) && cfg["hostname"@].len() > 0 ==> m.last_used
                == Some(cfg["hostname"@])
            &&& !cfg.contains_key("hostname"@) || cfg["hostname"@].len() == 0
                ==> m.last_used is None
            &&& m.name.len() == 0 && m.password.len() == 0 && m.role.len() == 0
                && m.status.len() == 0
            &&& m.fullscreen && !m.scanning && !m.auto_started
            &&& m.hosts.len() == 0 && m.selected is None && m.name_match is None
        }),
{
}

/// Selecting a machine fills in what is remembered of it: its username, where
/// there is one, and its role, or none. Nothing else changes.
pub proof fn law_selecting_fills_in_what_is_remembered(m: ConnectModel, ip: Ipv4Addr)
    ensures
        ({
            let n = selecting(m, ip);
            let label = label_at(m.hosts, ip);
            &&& n.selected == Some(ip)
            &&& m.host_users.contains_key(label) ==> n.username == m.host_users[label]
            &&& !m.host_users.contains_key(label) ==> n.username == m.username
            &&& m.host_roles.contains_key(label) ==> n.role == m.host_roles[label]
            &&& !m.host_roles.contains_key(label) ==> n.role.len() == 0
            &&& n.name == m.name && n.password == m.password && n.fullscreen == m.fullscreen
            &&& n.status == m.status && n.host_users == m.host_users && n.host_roles
                == m.host_roles
            &&& n.last_used == m.last_used && n.auto_started == m.auto_started && n.scanning
                == m.scanning
            &&& n.hosts == m.hosts && n.name_match == m.name_match
        }),
{
}

/// Remembering the sign-in for the selected machine forgets nothing of the others:
/// selecting a machine with another label still gives the username and the role
/// that were remembered for it.
pub proof fn law_other_sign_ins_are_kept(m: ConnectModel, ip: Ipv4Addr, other: Ipv4Addr)
    requires
        m.selected == Some(ip),
        label_at(m.hosts, other) != label_at(m.hosts, ip),
    ensures
        ({
            let label = label_at(m.hosts, other);
            let n = selecting(remembering(m), other);
            &&& m.host_users.contains_key(label) ==> n.username == m.host_users[label]
            &&& !m.host_users.contains_key(label) ==> n.username == m.username
            &&& m.host_roles.contains_key(label) ==> n.role == m.host_roles[label]
            &&& !m.host_roles.contains_key(label) ==> n.role.len() == 0
        }),
{
}

/// Remembering touches what is remembered of the selected machine and which was
/// used last, and nothing else. Without a selection it does nothing.
pub proof fn law_remembering_touches_one_machine(m: ConnectModel, label: Seq<char>)
    ensures
        ({
            let n = remembering(m);
            &&& m.selected is None ==> n == m
            &&& m.selected is Some ==> n.last_used == Some(label_at(m.hosts, m.selected->0))
            &&& m.selected is None || label != label_at(m.hosts, m.selected->0) ==> {
                &&& n.host_users.contains_key(label) <==> m.host_users.contains_key(label)
                &&& m.host_users.contains_key(label) ==> n.host_users[label]
                    == m.host_users[label]
                &&& n.host_roles.contains_key(label) <==> m.host_roles.contains_key(label)
                &&& m.host_roles.contains_key(label) ==> n.host_roles[label]
                    == m.host_roles[label]
            }
            &&& n.name == m.name && n.username == m.username && n.password == m.password
            &&& n.role == m.role && n.fullscreen == m.fullscreen && n.status == m.status
            &&& n.auto_started == m.auto_started && n.scanning == m.scanning
            &&& n.hosts == m.hosts && n.name_match == m.name_match && n.selected == m.selected
        }),
{
}

/// A saved sign-in sets the machine last used, the username, the machine's own
/// username and its role, which is taken out where it is empty. Every other
/// setting stays.
pub proof fn law_saving_a_sign_in_keeps_other_settings(
    cfg: Map<Seq<char>, Seq<char>>,
    key: Seq<char>,
    user: Seq<char>,
    role: Seq<char>,
    other: Seq<char>,
)
    ensures
        ({
            let n = with_sign_in(cfg, key, user, role);
            &&& n.contains_key("hostname"@) && n["hostname"@] == key
            &&& n.contains_key("username"@) && n["username"@] == user
            &&& n.contains_key("user."@ + key) && n["user."@ + key] == user
            &&& n.contains_key("role."@ + key) <==> role.len() > 0
            &&& role.len() > 0 ==> n["role."@ + key] == role
            &&& other != "hostname"@ && other != "username"@ && other != "user."@ + key && other
                != "role."@ + key ==> {
                &&& n.contains_key(other) <==> cfg.contains_key(other)
                &&& cfg.contains_key(other) ==> n[other] == cfg[other]
            }
        }),
{
    lemma_keys_differ(key, key);
}

/// A search starts from an empty list and leaves what was typed and what is
/// remembered alone.
pub proof fn law_searching_keeps_what_was_typed(m: ConnectModel)
    ensures
        ({
            let n = searching(m);
            &&& n.scanning && n.hosts.len() == 0 && n.selected is None && n.name_match is None
            &&& n.status.len() == 0
            &&& n.name == m.name && n.username == m.username && n.password == m.password
            &&& n.role == m.role && n.fullscreen == m.fullscreen
            &&& n.host_users == m.host_users && n.host_roles == m.host_roles
            &&& n.last_used == m.last_used && n.auto_started == m.auto_started
        }),
{
}

/// What a search found is shown as it is. A name match is selected, or else the
/// only machine, or else the first one labelled as the one last used, and what is
/// remembered of it is filled in; otherwise nothing is selected and nothing typed
/// changes.
pub proof fn law_what_was_found_is_shown(
    m: ConnectModel,
    hosts: Seq<HostModel>,
    name_match: Option<Ipv4Addr>,
    k: int,
)
    requires
        hosts.len() > 0 ==> 0 <= k < hosts.len(),
    ensures
        ({
            let n = having_found(m, hosts, name_match);
            &&& n.hosts == hosts && n.name_match == name_match && !n.scanning
            &&& name_match is Some ==> n.selected == name_match
            &&& name_match is None && hosts.len() == 1 ==> n.selected == Some(hosts[0].ip)
            &&& name_match is None && hosts.len() > 1 && m.last_used == Some(hosts[k].label()) && (
            forall|i: int| 0 <= i < k ==> (#[trigger] hosts[i]).label() != hosts[k].label())
                ==> n.selected == Some(hosts[k].ip)
            &&& name_match is None && hosts.len() != 1 && (m.last_used is None || forall|i: int|
                0 <= i < hosts.len() ==> (#[trigger] hosts[i]).label() != m.last_used->0)
                ==> n.selected is None
            &&& n.selected is None ==> n.username == m.username && n.role == m.role
            &&& n.selected is Some ==> {
                let label = label_at(hosts, n.selected->0);
                &&& m.host_users.contains_key(label) ==> n.username == m.host_users[label]
                &&& !m.host_users.contains_key(label) ==> n.username == m.username
                &&& m.host_roles.contains_key(label) ==> n.role == m.host_roles[label]
                &&& !m.host_roles.contains_key(label) ==> n.role.len() == 0
            }
            &&& n.name == m.name && n.password == m.password && n.fullscreen == m.fullscreen
            &&& n.host_users == m.host_users && n.host_roles == m.host_roles
            &&& n.last_used == m.last_used && n.auto_started == m.auto_started
        }),
{
    if hosts.len() > 0 {
        law_machines_are_looked_up(hosts, k);
    }
    if let Some(label) = m.last_used {
        law_unknown_machines_are_not_found(hosts, Ipv4Addr { a: 0, b: 0, c: 0, d: 0 }, label);
    }
}

/// One machine found is named, several are counted, and none are passed over in
/// silence.
pub proof fn law_found_machines_are_counted(
    m: ConnectModel,
    hosts: Seq<HostModel>,
    name_match: Option<Ipv4Addr>,
)
    ensures
        ({
            let status = having_found(m, hosts, name_match).status;
            &&& hosts.len() == 0 ==> status.len() == 0
            &&& hosts.len() == 1 ==> status == "Found "@ + hosts[0].label() + "."@
            &&& hosts.len() > 1 ==> exists|n: Seq<char>|
                status == #[trigger] ("Found "@ + n + " computers."@) && (hosts.len() <= u32::MAX
                    ==> number::number(n, 10) == Some(hosts.len() as u32))
        }),
{
    if hosts.len() > 1 {
        let n = number::decimal(hosts.len());
        if hosts.len() <= u32::MAX {
            number::law_decimal_reads_back(hosts.len() as u32);
        }
        assert(having_found(m, hosts, name_match).status == "Found "@ + n + " computers."@);
    }
}

/// The first turn starts a search; no later one does. What was found is taken in
/// while a search is under way, and ignored otherwise.
pub proof fn law_turns_start_one_search(m: ConnectModel, found: Discovery)
    ensures
        !m.auto_started ==> after_poll(m, None).scanning && after_poll(m, None).auto_started,
        m.auto_started ==> after_poll(m, None) == m,
        m.auto_started && !m.scanning ==> after_poll(m, Some(found)) == m,
        m.auto_started && m.scanning ==> !after_poll(m, Some(found)).scanning && after_poll(
            m,
            Some(found),
        ).hosts == discovery::models(found.hosts@),
        after_poll(m, Some(found)).auto_started,
        after_poll(m, Some(found)).password == m.password,
        after_poll(m, Some(found)).name == m.name,
        after_poll(m, Some(found)).host_users == m.host_users,
        after_poll(m, Some(found)).host_roles == m.host_roles,
        after_poll(m, Some(found)).last_used == m.last_used,
        after_poll(m, None).username == m.username,
        after_poll(m, None).password == m.password,
{
}

/// After trying to open a session, the machine and its protocol are told, or the
/// reason why it failed.
pub proof fn law_launches_are_told(h: HostModel, reason: Seq<char>)
    ensures
        launch_status(h, Err(reason)) == "Couldn't connect: "@ + reason,
        launch_status(h, Ok(())) == "Opening "@ + h.label() + (if h.protocol == Protocol::Rdp {
            " (RDP)\u{2026}"@
        } else {
            " (VNC)\u{2026}"@
        }),
{
    reveal_strlit(" (");
    reveal_strlit("RDP");
    reveal_strlit("VNC");
    reveal_strlit(")\u{2026}");
    reveal_strlit(" (RDP)\u{2026}");
    reveal_strlit(" (VNC)\u{2026}");
    assert(" ("@ + "RDP"@ + ")\u{2026}"@ =~= " (RDP)\u{2026}"@);
    assert(" ("@ + "VNC"@ + ")\u{2026}"@ =~= " (VNC)\u{2026}"@);
    assert(launch_status(h, Ok(())) =~= "Opening "@ + h.label() + (" ("@ + protocol::label_of(
        h.protocol,
    ) + ")\u{2026}"@));
}

/// A row shows a machine's own label, role, protocol and tags; the address beside
/// it only where the label is a name.
pub proof fn law_rows_show_their_machine(m: ConnectModel, h: HostModel)
    ensures
        ({
            let r = row_of(m, h);
            &&& r.ip == h.ip && r.protocol == h.protocol
            &&& h.name is Some ==> r.label == h.name->0 && r.address == Some(
                address::dotted(h.ip),
            )
            &&& h.name is None ==> r.label == address::dotted(h.ip) && r.address is None
            &&& r.selected <==> m.selected == Some(h.ip)
            &&& r.name_match <==> m.name_match == Some(h.ip)
            &&& r.last_used <==> m.last_used == Some(r.label)
            &&& m.host_roles.contains_key(r.label) ==> r.role == Some(m.host_roles[r.label])
            &&& !m.host_roles.contains_key(r.label) ==> r.role is None
        }),
{
}

/// The heading and the button name the selected machine.
pub proof fn law_selected_machine_is_named(m: ConnectModel, text: Seq<char>, to: Seq<char>)
    ensures
        m.selected is None ==> addressed(m, text, to) == text,
        m.selected is Some ==> addressed(m, text, to) == to + label_at(m.hosts, m.selected->0),
{
}

/// What was typed for the selected machine is what is saved and remembered for
/// it, to the letter but for white space around it; other settings stay. The
/// password is not saved: with another one the settings are the same.
pub proof fn law_what_was_typed_is_saved(
    m: ConnectModel,
    cfg: Map<Seq<char>, Seq<char>>,
    ip: Ipv4Addr,
    before: Seq<char>,
    user: Seq<char>,
    after: Seq<char>,
    role: Seq<char>,
    password: Seq<char>,
    other: Seq<char>,
)
    requires
        forall|j: int| 0 <= j < before.len() ==> text::is_white_space(#[trigger] before[j]),
        forall|j: int| 0 <= j < after.len() ==> text::is_white_space(#[trigger] after[j]),
        user.len() > 0 ==> !text::is_white_space(user[0]) && !text::is_white_space(user.last()),
        role.len() > 0 ==> !text::is_white_space(role[0]) && !text::is_white_space(role.last()),
        m.selected == Some(ip),
        m.username == before + user + after,
        m.role == before + role + after,
    ensures
        ({
            let label = label_at(m.hosts, ip);
            let saved = saving(m, cfg)->0;
            let n = remembering(m);
            &&& saving(m, cfg) is Some
            &&& saved.contains_key("hostname"@) && saved["hostname"@] == label
            &&& saved.contains_key("username"@) && saved["username"@] == user
            &&& saved.contains_key("user."@ + label) && saved["user."@ + label] == user
            &&& saved.contains_key("role."@ + label) <==> role.len() > 0
            &&& role.len() > 0 ==> saved["role."@ + label] == role
            &&& n.host_users.contains_key(label) && n.host_users[label] == user
            &&& n.host_roles.contains_key(label) <==> role.len() > 0
            &&& role.len() > 0 ==> n.host_roles[label] == role
            &&& other != "hostname"@ && other != "username"@ && other != "user."@ + label && other
                != "role."@ + label ==> {
                &&& saved.contains_key(other) <==> cfg.contains_key(other)
                &&& cfg.contains_key(other) ==> saved[other] == cfg[other]
            }
            &&& saving(ConnectModel { password, ..m }, cfg) == saving(m, cfg)
        }),
        saving(ConnectModel { selected: None, ..m }, cfg) is None,
{
    text::law_white_space_around_does_not_matter(before, user, after);
    text::law_white_space_around_does_not_matter(before, role, after);
    law_saving_a_sign_in_keeps_other_settings(cfg, label_at(m.hosts, ip), user, role, other);
}

/// A session is asked for with the machine's address and protocol, on the port of
/// that protocol, and with the username, the password and the window mode just as
/// they were entered.
pub proof fn law_sessions_are_asked_for_as_entered(q: LaunchRequest, m: ConnectModel, h: HostModel)
    requires
        asks_for(q, m, h),
    ensures
        q.ip == h.ip,
        q.protocol == h.protocol,
        h.protocol == Protocol::Rdp ==> q.port == 3389,
        h.protocol == Protocol::Vnc ==> q.port == 5900,
        q.username@ == m.username,
        q.password@ == m.password,
        q.fullscreen <==> m.fullscreen,
{
}

/// Trying to open a session changes what is told and nothing else: what was
/// entered, found and remembered stays. With a machine that was not found, nothing
/// changes at all.
pub proof fn law_launching_changes_the_status_alone(
    m: ConnectModel,
    ip: Ipv4Addr,
    launched: Result<(), Seq<char>>,
)
    ensures
        ({
            let n = after_launch(m, ip, launched);
            &&& host_at(m.hosts, ip) is None ==> n == m
            &&& host_at(m.hosts, ip) is Some ==> n.status == launch_status(
                host_at(m.hosts, ip)->0,
                launched,
            )
            &&& n.name == m.name && n.username == m.username && n.password == m.password
            &&& n.role == m.role && n.fullscreen == m.fullscreen
            &&& n.host_users == m.host_users && n.host_roles == m.host_roles
            &&& n.last_used == m.last_used && n.auto_started == m.auto_started
            &&& n.scanning == m.scanning && n.hosts == m.hosts
            &&& n.name_match == m.name_match && n.selected == m.selected
        }),
{
}

} // verus!
