//! Linux: FreeRDP / Remmina / GNOME Connections as clients; hosting is guided.

use super::launch;
use super::launch::{
    Client, ClientModel, ClientSearch, LaunchPlan, Otherwise, OtherwiseModel, PlaceModel, PlanModel,
};
use super::share;
use super::share::{PlannedStep, StepModel};
use super::{CommandLine, NameQuery, Outcome, SystemInfo, SystemModel};
use crate::address;
use crate::address::Ipv4Addr;
use crate::protocol::Protocol;
use crate::search;
use crate::text;
use vstd::prelude::*;

verus! {

// ---------------------------------------------------------------------------
// System info
// ---------------------------------------------------------------------------

/// Is the account whose id `id -u` prints the superuser?
pub fn is_root(id: &Outcome) -> (r: bool)
    ensures
        r == (super::captured(*id) == "0"@),
{
    text::equal(super::capture(id).as_str(), "0")
}

/// What follows `PRETTY_NAME=` on the first of the lines that starts so.
pub open spec fn pretty_name(lines: Seq<Seq<char>>) -> Option<Seq<char>>
    decreases lines.len(),
{
    if lines.len() == 0 {
        None
    } else if search::has_prefix(lines[0], "PRETTY_NAME="@) {
        Some(lines[0].skip("PRETTY_NAME="@.len() as int))
    } else {
        pretty_name(lines.drop_first())
    }
}

/// The distribution's name, by the contents of `/etc/os-release`.
pub open spec fn distro_of(os_release: Option<Seq<char>>) -> Seq<char> {
    match os_release {
        Some(t) => match pretty_name(text::lines_of(t)) {
            Some(v) => search::without_trailing(
                search::without_leading(text::trimmed(v), '"'),
                '"',
            ),
            None => "Linux"@,
        },
        None => "Linux"@,
    }
}

/// `PRETTY_NAME` from /etc/os-release, e.g. "Ubuntu 24.04 LTS". The file's
/// contents are given, if it could be read.
pub fn distro(os_release: Option<&str>) -> (r: String)
    ensures
        r@ == distro_of(match os_release {
            Some(s) => Some(s@),
            None => None,
        }),
{
    if let Some(s) = os_release {
        let lines = text::lines(s);
        let ghost all = text::slices(lines@);
        proof {
            assert(all.skip(0) =~= all);
        }
        for i in 0..lines.len()
            invariant
                all == text::slices(lines@),
                all == text::lines_of(s@),
                os_release == Some(s),
                pretty_name(all) == pretty_name(all.skip(i as int)),
        {
            proof {
                assert(all.skip(i as int)[0] == lines@[i as int]@);
                assert(all.skip(i as int).drop_first() =~= all.skip(i + 1));
            }
            if let Some(v) = search::strip_prefix(lines[i], "PRETTY_NAME=") {
                return search::trim_matches(text::trim(v), '"').to_string();
            }
        }
    }
    "Linux".to_string()
}

/// What is read of this machine.
pub struct Readings {
    /// What came of `hostname`.
    pub hostname: Outcome,
    /// The contents of `/etc/hostname`, if they were needed and could be read.
    pub hostname_file: Option<String>,
    /// The contents of `/etc/os-release`, if they could be read.
    pub os_release: Option<String>,
    /// What came of `uname -r`.
    pub kernel: Outcome,
    /// The current account name.
    pub username: String,
    /// The processor architecture, as the compiler names it.
    pub target_arch: String,
    /// The primary LAN address.
    pub ip: Option<Ipv4Addr>,
}

/// The machine's name: what `hostname` prints, or what the file holds.
pub open spec fn hostname_of(r: Readings) -> Seq<char> {
    if super::captured(r.hostname).len() > 0 {
        super::captured(r.hostname)
    } else {
        match r.hostname_file {
            Some(s) => text::trimmed(s@),
            None => seq![],
        }
    }
}

/// A snapshot of the machine.
pub open spec fn info_of(r: Readings) -> SystemModel {
    SystemModel {
        hostname: hostname_of(r),
        username: r.username@,
        os_name: distro_of(text::optional(r.os_release)),
        os_build: if super::captured(r.kernel).len() == 0 {
            "unknown"@
        } else {
            "kernel "@ + super::captured(r.kernel)
        },
        arch: super::shown_arch(r.target_arch@),
        ip: super::shown_address(r.ip),
        sharing_enabled: false,
        elevated: true,
    }
}

/// A snapshot of this machine. It always counts as elevated, so that the guided
/// sharing panel is shown.
pub fn system_info(readings: &Readings) -> (r: SystemInfo)
    ensures
        r@ == info_of(*readings),
{
    let printed = super::capture(&readings.hostname);
    let hostname = if printed.as_str().is_empty() {
        match &readings.hostname_file {
            Some(s) => text::trim(s.as_str()).to_string(),
            None => String::new(),
        }
    } else {
        printed
    };
    let os_name = match &readings.os_release {
        Some(s) => distro(Some(s.as_str())),
        None => distro(None),
    };
    let kernel = super::capture(&readings.kernel);
    let os_build = if kernel.as_str().is_empty() {
        "unknown".to_string()
    } else {
        text::concat("kernel ", kernel.as_str())
    };
    SystemInfo {
        hostname,
        username: readings.username.clone(),
        os_name,
        os_build,
        arch: super::arch(readings.target_arch.as_str()),
        ip: super::show_address(readings.ip),
        sharing_enabled: false,
        elevated: true,
    }
}

/// The command that reopens the program with more rights: none is needed here.
pub fn relaunch_elevated() -> (r: Option<CommandLine>)
    ensures
        r is None,
{
    None
}

// ---------------------------------------------------------------------------
// Sharing
// ---------------------------------------------------------------------------

/// How to set up hosting by hand.
pub const HOSTING_ADVICE: &'static str = "Hosting from Linux is coming soon. For now enable an RDP host with:  sudo apt install -y xrdp && sudo adduser xrdp ssl-cert && sudo systemctl enable --now xrdp && sudo ufw allow 3389/tcp  (use an Xorg session). Connecting FROM this PC already works once a client is installed.";

/// The steps to share this machine, by what came of `id -u`: advice alone.
pub fn share(username: &str, password: &str, id: &Outcome) -> (r: Vec<PlannedStep>)
    ensures
        share::models(r@) == seq![
            StepModel::Advise {
                name: if super::captured(*id) == "0"@ {
                    "Share this PC"@
                } else {
                    "Share this PC"@ + " (needs sudo)"@
                },
                message: HOSTING_ADVICE@,
                open: None,
            },
        ],
{
    let name = if is_root(id) {
        "Share this PC".to_string()
    } else {
        text::concat("Share this PC", " (needs sudo)")
    };
    let mut r: Vec<PlannedStep> = Vec::new();
    r.push(share::advise_step(name.as_str(), HOSTING_ADVICE, None));
    proof {
        assert(share::models(r@) =~= seq![r@[0]@]);
    }
    r
}

// ---------------------------------------------------------------------------
// Connecting
// ---------------------------------------------------------------------------

pub const NO_RDP_CLIENT: &'static str = "No RDP client found. Install one with:  sudo apt install -y freerdp3-x11";

pub const NO_VNC_CLIENT: &'static str = "No VNC client found. Install one with:  sudo apt install -y remmina remmina-plugin-vnc";

/// The arguments for FreeRDP.
pub open spec fn freerdp_args(ip: Ipv4Addr, user: Seq<char>, password: Seq<char>) -> Seq<
    Seq<char>,
> {
    seq![
        "/v:"@ + address::dotted(ip) + ":3389"@,
        "/cert:ignore"@,
        "/dynamic-resolution"@,
        "+clipboard"@,
    ] + launch::optional_arg("/u:"@, user) + launch::optional_arg("/p:"@, password)
}

/// The address of an RDP session, with the account if there is one.
pub open spec fn rdp_uri(ip: Ipv4Addr, user: Seq<char>) -> Seq<char> {
    if user.len() == 0 {
        "rdp://"@ + address::dotted(ip)
    } else {
        "rdp://"@ + user + "@"@ + address::dotted(ip)
    }
}

/// The clients that take an address: Remmina, then GNOME Connections.
pub open spec fn uri_clients(uri: Seq<char>) -> Seq<ClientModel> {
    seq![
        ClientModel { place: PlaceModel::OnPath("remmina"@), args: seq!["-c"@, uri] },
        ClientModel { place: PlaceModel::OnPath("gnome-connections"@), args: seq![uri] },
    ]
}

/// How to open a session.
pub open spec fn launch_of(
    ip: Ipv4Addr,
    username: Seq<char>,
    password: Seq<char>,
    protocol: Protocol,
) -> PlanModel {
    let user = text::trimmed(username);
    match protocol {
        Protocol::Rdp => PlanModel::Search {
            clients: seq![
                ClientModel {
                    place: PlaceModel::OnPath("xfreerdp3"@),
                    args: freerdp_args(ip, user, password),
                },
                ClientModel {
                    place: PlaceModel::OnPath("xfreerdp"@),
                    args: freerdp_args(ip, user, password),
                },
            ] + uri_clients(rdp_uri(ip, user)),
            otherwise: OtherwiseModel::Missing { page: None, message: NO_RDP_CLIENT@ },
        },
        Protocol::Vnc => PlanModel::Search {
            clients: uri_clients("vnc://"@ + address::dotted(ip)),
            otherwise: OtherwiseModel::Missing { page: None, message: NO_VNC_CLIENT@ },
        },
    }
}

fn freerdp(bin: &str, ip: Ipv4Addr, user: &str, password: &str) -> (r: Client)
    ensures
        r@ == (ClientModel {
            place: PlaceModel::OnPath(bin@),
            args: freerdp_args(ip, user@, password@),
        }),
{
    let mut target = text::concat("/v:", ip.to_string().as_str());
    target.append(":3389");
    let account = text::concat("/u:", user);
    let secret = text::concat("/p:", password);
    let mut args: Vec<String> = Vec::new();
    args.push(target);
    args.push("/cert:ignore".to_string());
    args.push("/dynamic-resolution".to_string());
    args.push("+clipboard".to_string());
    if !user.is_empty() {
        args.push(account);
    }
    if !password.is_empty() {
        args.push(secret);
    }
    proof {
        assert(text::texts(args@) =~= freerdp_args(ip, user@, password@));
    }
    Client { place: launch::Place::OnPath(bin.to_string()), args }
}

fn push_uri_clients(clients: &mut Vec<Client>, uri: &str)
    ensures
        launch::models(final(clients)@) == launch::models(old(clients)@) + uri_clients(uri@),
{
    let remmina = launch::on_path("remmina", &["-c", uri]);
    let gnome = launch::on_path("gnome-connections", &[uri]);
    proof {
        assert(remmina@.args =~= seq!["-c"@, uri@]);
        assert(gnome@.args =~= seq![uri@]);
    }
    clients.push(remmina);
    clients.push(gnome);
    proof {
        assert(launch::models(clients@) =~= launch::models(old(clients)@) + uri_clients(uri@));
    }
}

/// How to open a session: which clients to look for, and how to start them. The
/// port and the window size are left to the client.
pub fn launch(
    ip: Ipv4Addr,
    port: u16,
    username: &str,
    password: &str,
    fullscreen: bool,
    protocol: Protocol,
) -> (r: LaunchPlan)
    ensures
        r@ == launch_of(ip, username@, password@, protocol),
{
    let user = text::trim(username);
    let host = ip.to_string();
    let mut clients: Vec<Client> = Vec::new();
    match protocol {
        Protocol::Rdp => {
            clients.push(freerdp("xfreerdp3", ip, user, password));
            clients.push(freerdp("xfreerdp", ip, user, password));
            let mut uri = "rdp://".to_string();
            if !user.is_empty() {
                uri.append(user);
                uri.append("@");
            }
            uri.append(host.as_str());
            push_uri_clients(&mut clients, uri.as_str());
            let otherwise = Otherwise::Missing { page: None, message: NO_RDP_CLIENT.to_string() };
            let plan = LaunchPlan::Search(ClientSearch { clients, otherwise });
            proof {
                assert(uri@ =~= rdp_uri(ip, user@));
                assert(plan@->clients =~= launch_of(ip, username@, password@, protocol)->clients);
            }
            plan
        },
        Protocol::Vnc => {
            let uri = text::concat("vnc://", host.as_str());
            push_uri_clients(&mut clients, uri.as_str());
            let otherwise = Otherwise::Missing { page: None, message: NO_VNC_CLIENT.to_string() };
            let plan = LaunchPlan::Search(ClientSearch { clients, otherwise });
            proof {
                assert(plan@->clients =~= uri_clients(uri@));
            }
            plan
        },
    }
}

/// How to ask a machine for its real name: there is no way here.
pub fn remote_name(ip: Ipv4Addr, protocol: Protocol) -> (r: Option<NameQuery>)
    ensures
        r is None,
{
    None
}

// ---------------------------------------------------------------------------
// Laws
// ---------------------------------------------------------------------------

/// The distribution is what `PRETTY_NAME` says, without quotes around it; without
/// it the system is called Linux.
pub proof fn law_distribution_is_the_pretty_name(
    lines: Seq<Seq<char>>,
    at: int,
    name: Seq<char>,
    file: Seq<char>,
)
    requires
        text::lines_of(file) == lines,
        0 <= at < lines.len() ==> lines[at] == "PRETTY_NAME=\""@ + name + "\""@,
        name.len() > 0 ==> name[0] != '"' && name.last() != '"',
        forall|j: int|
            0 <= j < at && j < lines.len() ==> !search::has_prefix(
                #[trigger] lines[j],
                "PRETTY_NAME="@,
            ),
    ensures
        0 <= at < lines.len() ==> distro_of(Some(file)) == name,
        at >= lines.len() ==> distro_of(Some(file)) == "Linux"@,
        distro_of(None) == "Linux"@,
{
    reveal_strlit("PRETTY_NAME=\"");
    reveal_strlit("PRETTY_NAME=");
    reveal_strlit("\"");
    lemma_pretty_name(lines, at);
    if 0 <= at < lines.len() {
        let value = seq!['"'] + name + seq!['"'];
        assert(lines[at].take(12) =~= "PRETTY_NAME="@);
        assert(lines[at].skip(12) =~= value);
        assert(value.last() == '"');
        text::lemma_trimmed_fixed(value);
        let front = name + seq!['"'];
        assert(value =~= seq!['"'] + front);
        search::law_characters_come_off_the_ends(front, '"');
        search::law_characters_come_off_the_ends(name, '"');
        assert(front =~= name.push('"'));
        if name.len() > 0 {
            assert(front[0] == name[0]);
        } else {
            search::law_characters_come_off_the_ends(seq![], '"');
            assert(front =~= seq!['"'] + seq![]);
            assert(name =~= seq![]);
        }
    }
}

proof fn lemma_pretty_name(lines: Seq<Seq<char>>, at: int)
    requires
        forall|j: int|
            0 <= j < at && j < lines.len() ==> !search::has_prefix(
                #[trigger] lines[j],
                "PRETTY_NAME="@,
            ),
    ensures
        0 <= at < lines.len() && search::has_prefix(lines[at], "PRETTY_NAME="@) ==> pretty_name(
            lines,
        ) == Some(lines[at].skip("PRETTY_NAME="@.len() as int)),
        at >= lines.len() ==> pretty_name(lines) is None,
    decreases lines.len(),
{
    if lines.len() > 0 && at > 0 {
        let rest = lines.drop_first();
        assert(!search::has_prefix(lines[0], "PRETTY_NAME="@));
        assert forall|j: int| 0 <= j < at - 1 && j < rest.len() implies !search::has_prefix(
            #[trigger] rest[j],
            "PRETTY_NAME="@,
        ) by {
            assert(rest[j] == lines[j + 1]);
        }
        lemma_pretty_name(rest, at - 1);
    }
}

/// Each detail of the machine comes from its own reading. The name in the file
/// counts only where the command printed none; sharing counts as off and the rights
/// as sufficient.
pub proof fn law_details_come_from_their_readings(r: Readings)
    ensures
        ({
            let info = info_of(r);
            &&& super::captured(r.hostname).len() > 0 ==> info.hostname == super::captured(
                r.hostname,
            )
            &&& super::captured(r.hostname).len() == 0 && r.hostname_file is Some
                ==> info.hostname == text::trimmed(r.hostname_file->0@)
            &&& super::captured(r.hostname).len() == 0 && r.hostname_file is None
                ==> info.hostname.len() == 0
            &&& info.username == r.username@
            &&& info.os_name == distro_of(text::optional(r.os_release))
            &&& super::captured(r.kernel).len() > 0 ==> info.os_build == "kernel "@
                + super::captured(r.kernel)
            &&& super::captured(r.kernel).len() == 0 ==> info.os_build == "unknown"@
            &&& info.arch == super::shown_arch(r.target_arch@)
            &&& info.ip == super::shown_address(r.ip)
            &&& !info.sharing_enabled && info.elevated
        }),
{
}

/// For RDP FreeRDP is looked for first, under its newer and its older name, then
/// Remmina, then GNOME Connections; for VNC the last two. FreeRDP gets the machine,
/// the account and the password, each to the letter and only where it was typed;
/// the others get the machine and, for RDP, the account.
#[verifier::rlimit(40)]
pub proof fn law_clients_get_the_sign_in(
    ip: Ipv4Addr,
    before: Seq<char>,
    user: Seq<char>,
    after: Seq<char>,
    password: Seq<char>,
)
    requires
        forall|j: int| 0 <= j < before.len() ==> text::is_white_space(#[trigger] before[j]),
        forall|j: int| 0 <= j < after.len() ==> text::is_white_space(#[trigger] after[j]),
        user.len() > 0 ==> !text::is_white_space(user[0]) && !text::is_white_space(user.last()),
    ensures
        ({
            let rdp = launch_of(ip, before + user + after, password, Protocol::Rdp);
            let vnc = launch_of(ip, before + user + after, password, Protocol::Vnc);
            let free = seq![
                "/v:"@ + address::dotted(ip) + ":3389"@,
                "/cert:ignore"@,
                "/dynamic-resolution"@,
                "+clipboard"@,
            ] + (if user.len() > 0 {
                seq!["/u:"@ + user]
            } else {
                seq![]
            }) + (if password.len() > 0 {
                seq!["/p:"@ + password]
            } else {
                seq![]
            });
            let uri = if user.len() > 0 {
                "rdp://"@ + user + "@"@ + address::dotted(ip)
            } else {
                "rdp://"@ + address::dotted(ip)
            };
            &&& rdp is Search && rdp->clients.len() == 4
            &&& rdp->clients[0].place == PlaceModel::OnPath("xfreerdp3"@)
            &&& rdp->clients[0].args == free
            &&& rdp->clients[1].place == PlaceModel::OnPath("xfreerdp"@)
            &&& rdp->clients[1].args == free
            &&& rdp->clients[2].place == PlaceModel::OnPath("remmina"@)
            &&& rdp->clients[2].args == seq!["-c"@, uri]
            &&& rdp->clients[3].place == PlaceModel::OnPath("gnome-connections"@)
            &&& rdp->clients[3].args == seq![uri]
            &&& rdp->otherwise is Missing
            &&& vnc is Search && vnc->clients.len() == 2
            &&& vnc->clients[0].place == PlaceModel::OnPath("remmina"@)
            &&& vnc->clients[0].args == seq!["-c"@, "vnc://"@ + address::dotted(ip)]
            &&& vnc->clients[1].place == PlaceModel::OnPath("gnome-connections"@)
            &&& vnc->clients[1].args == seq!["vnc://"@ + address::dotted(ip)]
            &&& vnc->otherwise is Missing
        }),
{
    text::law_white_space_around_does_not_matter(before, user, after);
}

} // verus!
