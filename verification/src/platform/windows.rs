//! Windows: RDP host (registry/netsh/net) and client (`mstsc`).

use super::launch;
use super::launch::{
    Client, ClientModel, ClientSearch, FileLaunch, LaunchPlan, Otherwise, OtherwiseModel,
    PlaceModel, PlanModel,
};
use super::share;
use super::share::{PlannedStep, StepModel};
use super::{CommandLine, CommandModel, NameQuery, Outcome, SystemInfo, SystemModel};
use crate::address;
use crate::address::Ipv4Addr;
use crate::number;
use crate::protocol::Protocol;
use crate::search;
use crate::text;
use vstd::prelude::*;

verus! {

// ---------------------------------------------------------------------------
// The screen
// ---------------------------------------------------------------------------

/// What the system reports of the primary monitor.
#[derive(Copy, Clone)]
pub struct Display {
    pub width: i32,
    pub height: i32,
    pub dpi: u32,
}

/// The primary monitor's pixel size (falls back to 1920x1080).
pub fn primary_screen_size(width: i32, height: i32) -> (r: (u32, u32))
    ensures
        r == screen_size(width, height),
{
    if width > 0 && height > 0 {
        (width as u32, height as u32)
    } else {
        (1920, 1080)
    }
}

/// The primary monitor's pixel size, by what is reported.
pub open spec fn screen_size(width: i32, height: i32) -> (u32, u32) {
    if width > 0 && height > 0 {
        (width as u32, height as u32)
    } else {
        (1920, 1080)
    }
}

/// The display scale in percent, rounded: 96 dots per inch are 100 %.
pub open spec fn scale_percent(dpi: u32) -> int {
    (dpi * 100 + 48) / 96
}

/// The scales that RDP accepts.
pub open spec fn scales() -> Seq<u32> {
    seq![100, 125, 150, 175, 200, 250, 300]
}

/// How far apart `a` and `b` are.
pub open spec fn distance(a: int, b: int) -> int {
    if a < b {
        b - a
    } else {
        a - b
    }
}

/// `s` is the accepted scale nearest to `pct`; of two equally near, the smaller.
pub open spec fn is_nearest(s: u32, pct: int) -> bool {
    exists|i: int|
        0 <= i < scales().len() && #[trigger] scales()[i] == s && forall|j: int|
            0 <= j < scales().len() ==> {
                &&& distance(s as int, pct) <= distance((#[trigger] scales()[j]) as int, pct)
                &&& j < i ==> distance(s as int, pct) < distance(scales()[j] as int, pct)
            }
}

/// The display scale to apply in the session, snapped to a value RDP accepts.
pub fn desktop_scale_factor(dpi: u32) -> (r: u32)
    ensures
        is_nearest(r, scale_percent(dpi)),
{
    let pct: u64 = (dpi as u64 * 100 + 48) / 96;
    let list: Vec<u32> = vec![100, 125, 150, 175, 200, 250, 300];
    assert(list@ =~= scales());
    let mut best: usize = 0;
    let mut i: usize = 1;
    while i < list.len()
        invariant
            list@ == scales(),
            pct == scale_percent(dpi),
            best < i <= list.len(),
            forall|j: int|
                0 <= j < i ==> {
                    &&& distance(list@[best as int] as int, pct as int) <= distance(
                        (#[trigger] list@[j]) as int,
                        pct as int,
                    )
                    &&& j < best ==> distance(list@[best as int] as int, pct as int) < distance(
                        list@[j] as int,
                        pct as int,
                    )
                },
        decreases list.len() - i,
    {
        if apart(list[i] as u64, pct) < apart(list[best] as u64, pct) {
            best = i;
        }
        i = i + 1;
    }
    assert(scales()[best as int] == list@[best as int]);
    list[best]
}

fn apart(a: u64, b: u64) -> (r: u64)
    ensures
        r == distance(a as int, b as int),
{
    if a < b {
        b - a
    } else {
        a - b
    }
}

// ---------------------------------------------------------------------------
// System info
// ---------------------------------------------------------------------------

/// The computer's name, by the environment's `COMPUTERNAME`.
pub fn computer_name(variable: Option<String>) -> (r: String)
    ensures
        r@ == (match variable {
            Some(s) => s@,
            None => "UNKNOWN"@,
        }),
{
    match variable {
        Some(s) => s,
        None => "UNKNOWN".to_string(),
    }
}

/// Where Windows keeps its version.
pub const CURRENT_VERSION: &'static str = "HKLM\\SOFTWARE\\Microsoft\\Windows NT\\CurrentVersion";

/// Where Windows keeps the settings for remote sessions.
pub const TERMINAL_SERVER: &'static str = "HKLM\\System\\CurrentControlSet\\Control\\Terminal Server";

/// Where Windows keeps the settings of its RDP listener.
pub const RDP_TCP: &'static str = "HKLM\\System\\CurrentControlSet\\Control\\Terminal Server\\WinStations\\RDP-Tcp";

/// The command that reads a registry value.
pub fn reg_query_command(path: &str, value: &str) -> (r: CommandLine)
    ensures
        r@ == (CommandModel { program: "reg"@, args: seq!["query"@, path@, "/v"@, value@] }),
{
    let r = super::command("reg", &["query", path, "/v", value]);
    proof {
        assert(r@.args =~= seq!["query"@, path@, "/v"@, value@]);
    }
    r
}

/// The line shows `value`: its name, its type and data.
pub open spec fn shows(line: Seq<char>, value: Seq<char>) -> bool {
    text::words_of(line).len() >= 3 && text::words_of(line)[0] == value
}

/// The data of `value`, by the lines that `reg query` prints: name, type, data.
pub open spec fn registry_data(lines: Seq<Seq<char>>, value: Seq<char>) -> Option<Seq<char>>
    decreases lines.len(),
{
    if lines.len() == 0 {
        None
    } else if shows(lines[0], value) {
        Some(search::joined(text::words_of(lines[0]).skip(2), " "@))
    } else {
        registry_data(lines.drop_first(), value)
    }
}

/// The data of `value`, by what came of the query.
pub open spec fn registry_value(o: Outcome, value: Seq<char>) -> Option<Seq<char>> {
    match o {
        Outcome::Finished { success, stdout, .. } => if success {
            registry_data(text::lines_of(text::decoded(stdout@)), value)
        } else {
            None
        },
        Outcome::Failed(_) => None,
    }
}

/// The data of `value` in the text that `reg query` prints.
pub fn find_registry_data(printed: &str, value: &str) -> (r: Option<String>)
    ensures
        text::optional(r) == registry_data(text::lines_of(printed@), value@),
{
    let lines = text::lines(printed);
    let ghost all = text::slices(lines@);
    proof {
        assert(all.skip(0) =~= all);
    }
    for i in 0..lines.len()
        invariant
            all == text::slices(lines@),
            all == text::lines_of(printed@),
            registry_data(all, value@) == registry_data(all.skip(i as int), value@),
    {
        proof {
            assert(all.skip(i as int)[0] == lines@[i as int]@);
            assert(all.skip(i as int).drop_first() =~= all.skip(i + 1));
        }
        let words = text::words(lines[i]);
        proof {
            assert(text::slices(words@).len() == words.len());
        }
        if words.len() >= 3 {
            assert(text::slices(words@)[0] == words@[0]@);
            if text::equal(words[0], value) {
                return Some(search::join_from(&words, 2, " "));
            }
        }
    }
    None
}

/// Reads a single registry value's data, by what came of the query for it.
pub fn reg_query(outcome: &Outcome, value: &str) -> (r: Option<String>)
    ensures
        text::optional(r) == registry_value(*outcome, value@),
{
    match outcome {
        Outcome::Finished { success, stdout, .. } => {
            if *success {
                let printed = text::decode(stdout.as_slice());
                find_registry_data(printed.as_str(), value)
            } else {
                None
            }
        },
        Outcome::Failed(_) => None,
    }
}

/// The number that registry data writes: hexadecimal after `0x`, else decimal.
pub open spec fn reg_number(t: Seq<char>) -> Option<u32> {
    let s = text::trimmed(t);
    if search::has_prefix(s, "0x"@) || search::has_prefix(s, "0X"@) {
        number::number(s.skip(2), 16)
    } else {
        number::number(s, 10)
    }
}

/// The number that registry data writes: hexadecimal after `0x`, else decimal.
pub fn parse_reg_number(s: &str) -> (r: Option<u32>)
    ensures
        r == reg_number(s@),
{
    proof {
        reveal_strlit("0x");
        reveal_strlit("0X");
    }
    let s = text::trim(s);
    match search::strip_prefix(s, "0x") {
        Some(hex) => number::parse(hex, 16),
        None => match search::strip_prefix(s, "0X") {
            Some(hex) => number::parse(hex, 16),
            None => number::parse(s, 10),
        },
    }
}

/// How the environment's `PROCESSOR_ARCHITECTURE` is shown.
pub open spec fn shown_cpu(variable: Option<Seq<char>>) -> Seq<char> {
    match variable {
        Some(a) => if a == "AMD64"@ {
            "x64"@
        } else {
            a
        },
        None => "unknown"@,
    }
}

/// The processor architecture, by the environment's `PROCESSOR_ARCHITECTURE`.
pub fn cpu_arch(variable: &Option<String>) -> (r: String)
    ensures
        r@ == shown_cpu(text::optional(*variable)),
{
    match variable {
        Some(a) => if text::equal(a.as_str(), "AMD64") {
            "x64".to_string()
        } else {
            a.clone()
        },
        None => "unknown".to_string(),
    }
}

/// The value of [`TERMINAL_SERVER`] that says whether connections are denied.
pub const DENY_CONNECTIONS: &'static str = "fDenyTSConnections";

/// The command that queries whether RDP connections are denied.
pub open spec fn rdp_query_of() -> CommandModel {
    CommandModel {
        program: "reg"@,
        args: seq!["query"@, TERMINAL_SERVER@, "/v"@, DENY_CONNECTIONS@],
    }
}

/// The command that queries whether RDP connections are denied.
pub fn rdp_query() -> (r: CommandLine)
    ensures
        r@ == rdp_query_of(),
{
    reg_query_command(TERMINAL_SERVER, DENY_CONNECTIONS)
}

/// RDP connections are let in: the registry denies none.
pub open spec fn lets_in(o: Outcome) -> bool {
    match registry_value(o, DENY_CONNECTIONS@) {
        Some(data) => reg_number(data) == Some(0u32),
        None => false,
    }
}

/// Is Remote Desktop enabled, by what came of [`rdp_query`]?
pub fn rdp_enabled(outcome: &Outcome) -> (r: bool)
    ensures
        r == lets_in(*outcome),
{
    match reg_query(outcome, DENY_CONNECTIONS) {
        Some(data) => match parse_reg_number(data.as_str()) {
            Some(deny) => deny == 0,
            None => false,
        },
        None => false,
    }
}

/// Are we an administrator? `net session` only succeeds as one.
pub fn is_elevated(session: &Outcome) -> (r: bool)
    ensures
        r == super::succeeds(*session),
{
    super::succeeded(session)
}

/// What is read of this machine.
pub struct Readings {
    /// What came of the queries for the values of [`CURRENT_VERSION`].
    pub product_name: Outcome,
    pub current_build: Outcome,
    pub display_version: Outcome,
    pub ubr: Outcome,
    /// What came of [`rdp_query`].
    pub deny_connections: Outcome,
    /// What came of `net session`.
    pub session: Outcome,
    /// The environment's `COMPUTERNAME`.
    pub computer_name: Option<String>,
    /// The environment's `PROCESSOR_ARCHITECTURE`.
    pub processor: Option<String>,
    /// The current account name.
    pub username: String,
    /// The primary LAN address.
    pub ip: Option<Ipv4Addr>,
}

/// The build number, or 0 if it is not known.
pub open spec fn build_of(o: Outcome) -> u32 {
    match registry_value(o, "CurrentBuild"@) {
        Some(data) => match number::number(text::trimmed(data), 10) {
            Some(n) => n,
            None => 0,
        },
        None => 0,
    }
}

/// The update revision, or 0 if it is not known.
pub open spec fn revision_of(o: Outcome) -> u32 {
    match registry_value(o, "UBR"@) {
        Some(data) => match reg_number(data) {
            Some(n) => n,
            None => 0,
        },
        None => 0,
    }
}

/// The system's name. Windows 11 still calls itself Windows 10 in the registry;
/// its builds start at 22000.
pub open spec fn os_name_of(product: Option<Seq<char>>, build: u32) -> Seq<char> {
    match product {
        Some(name) => if build >= 22000 {
            search::first_replaced(name, "Windows 10"@, "Windows 11"@)
        } else {
            name
        },
        None => "Windows"@,
    }
}

/// The system's version, e.g. "23H2 (build 22631.3447)".
pub open spec fn os_build_of(display: Option<Seq<char>>, build: u32, revision: u32) -> Seq<char> {
    let numbers = "build "@ + number::decimal(build as nat) + "."@ + number::decimal(
        revision as nat,
    );
    if build == 0 {
        "unknown"@
    } else {
        match display {
            Some(d) => if d.len() == 0 {
                numbers
            } else {
                d + " ("@ + numbers + ")"@
            },
            None => numbers,
        }
    }
}

/// A snapshot of the machine.
pub open spec fn info_of(r: Readings) -> SystemModel {
    let build = build_of(r.current_build);
    SystemModel {
        hostname: match r.computer_name {
            Some(s) => s@,
            None => "UNKNOWN"@,
        },
        username: r.username@,
        os_name: os_name_of(registry_value(r.product_name, "ProductName"@), build),
        os_build: os_build_of(
            registry_value(r.display_version, "DisplayVersion"@),
            build,
            revision_of(r.ubr),
        ),
        arch: shown_cpu(text::optional(r.processor)),
        ip: super::shown_address(r.ip),
        sharing_enabled: lets_in(r.deny_connections),
        elevated: super::succeeds(r.session),
    }
}

/// The system's name, for the product name in the registry and the build.
pub fn os_name(product: Option<String>, build: u32) -> (r: String)
    ensures
        r@ == os_name_of(text::optional(product), build),
{
    match product {
        Some(name) => {
            if build >= 22000 && search::contains(name.as_str(), "Windows 10") {
                search::replace_first(name.as_str(), "Windows 10", "Windows 11")
            } else {
                name
            }
        },
        None => "Windows".to_string(),
    }
}

/// The system's version, for what the registry says.
pub fn os_build(display: Option<String>, build: u32, revision: u32) -> (r: String)
    ensures
        r@ == os_build_of(text::optional(display), build, revision),
{
    if build == 0 {
        return "unknown".to_string();
    }
    let mut numbers = text::concat("build ", number::to_decimal(build as u64).as_str());
    numbers.append(".");
    numbers.append(number::to_decimal(revision as u64).as_str());
    if let Some(d) = display {
        if !d.as_str().is_empty() {
            let mut s = text::concat(d.as_str(), " (");
            s.append(numbers.as_str());
            s.append(")");
            return s;
        }
    }
    numbers
}

/// A snapshot of this machine.
pub fn system_info(readings: &Readings) -> (r: SystemInfo)
    ensures
        r@ == info_of(*readings),
{
    let product = reg_query(&readings.product_name, "ProductName");
    let build: u32 = match reg_query(&readings.current_build, "CurrentBuild") {
        Some(data) => match number::parse(text::trim(data.as_str()), 10) {
            Some(n) => n,
            None => 0,
        },
        None => 0,
    };
    let display = reg_query(&readings.display_version, "DisplayVersion");
    let revision: u32 = match reg_query(&readings.ubr, "UBR") {
        Some(data) => match parse_reg_number(data.as_str()) {
            Some(n) => n,
            None => 0,
        },
        None => 0,
    };
    let name = match &readings.computer_name {
        Some(s) => Some(s.clone()),
        None => None,
    };
    SystemInfo {
        hostname: computer_name(name),
        username: readings.username.clone(),
        os_name: os_name(product, build),
        os_build: os_build(display, build, revision),
        arch: cpu_arch(&readings.processor),
        ip: super::show_address(readings.ip),
        sharing_enabled: rdp_enabled(&readings.deny_connections),
        elevated: is_elevated(&readings.session),
    }
}

/// The command that reopens the program `exe` as administrator.
pub fn relaunch_elevated(exe: &str) -> (r: Option<CommandLine>)
    ensures
        super::optional_command(r) == Some(
            CommandModel {
                program: "powershell"@,
                args: seq![
                    "-NoProfile"@,
                    "-Command"@,
                    "Start-Process -FilePath '"@ + exe@ + "' -Verb RunAs"@,
                ],
            },
        ),
{
    let mut start = text::concat("Start-Process -FilePath '", exe);
    start.append("' -Verb RunAs");
    let command = super::command("powershell", &["-NoProfile", "-Command", start.as_str()]);
    proof {
        assert(command@.args =~= seq!["-NoProfile"@, "-Command"@, start@]);
    }
    Some(command)
}

// ---------------------------------------------------------------------------
// Sharing (RDP host)
// ---------------------------------------------------------------------------

/// The command that sets a registry value to a number.
pub open spec fn reg_add(path: Seq<char>, value: Seq<char>, data: Seq<char>) -> CommandModel {
    CommandModel {
        program: "reg"@,
        args: seq![
            "add"@,
            path,
            "/v"@,
            value,
            "/t"@,
            "REG_DWORD"@,
            "/d"@,
            data,
            "/f"@,
        ],
    }
}

/// The command that opens the firewall for a group of rules.
pub open spec fn open_firewall(group: Seq<char>) -> CommandModel {
    CommandModel {
        program: "netsh"@,
        args: seq![
            "advfirewall"@,
            "firewall"@,
            "set"@,
            "rule"@,
            group,
            "new"@,
            "enable=Yes"@,
        ],
    }
}

/// The command that turns a power timeout off.
pub open spec fn no_timeout(setting: Seq<char>) -> CommandModel {
    CommandModel { program: "powercfg"@, args: seq!["/change"@, setting, "0"@] }
}

/// The command that adds `user` to a group.
pub open spec fn add_to_group(group: Seq<char>, user: Seq<char>) -> CommandModel {
    CommandModel { program: "net"@, args: seq!["localgroup"@, group, user, "/add"@] }
}

/// A step that runs a command.
pub open spec fn plain(name: Seq<char>, command: CommandModel) -> StepModel {
    StepModel::Run { name, command, tolerate: None }
}

/// The steps that let RDP connections in and keep the machine awake.
pub open spec fn enabling_steps() -> Seq<StepModel> {
    seq![
        plain("Enable Remote Desktop"@, reg_add(TERMINAL_SERVER@, DENY_CONNECTIONS@, "0"@)),
        plain(
            "Require Network Level Authentication"@,
            reg_add(RDP_TCP@, "UserAuthentication"@, "1"@),
        ),
        plain("Open firewall: Remote Desktop"@, open_firewall("group=remote desktop"@)),
        plain("Open firewall: Network Discovery"@, open_firewall("group=Network Discovery"@)),
        plain("Disable sleep on AC power"@, no_timeout("standby-timeout-ac"@)),
        plain("Disable hibernate on AC power"@, no_timeout("hibernate-timeout-ac"@)),
    ]
}

fn reg_add_command(path: &str, value: &str, data: &str) -> (r: CommandLine)
    ensures
        r@ == reg_add(path@, value@, data@),
{
    let r = super::command(
        "reg",
        &["add", path, "/v", value, "/t", "REG_DWORD", "/d", data, "/f"],
    );
    proof {
        assert(r@.args =~= reg_add(path@, value@, data@).args);
    }
    r
}

fn firewall_command(group: &str) -> (r: CommandLine)
    ensures
        r@ == open_firewall(group@),
{
    let r = super::command(
        "netsh",
        &["advfirewall", "firewall", "set", "rule", group, "new", "enable=Yes"],
    );
    proof {
        assert(r@.args =~= open_firewall(group@).args);
    }
    r
}

fn timeout_command(setting: &str) -> (r: CommandLine)
    ensures
        r@ == no_timeout(setting@),
{
    let r = super::command("powercfg", &["/change", setting, "0"]);
    proof {
        assert(r@.args =~= no_timeout(setting@).args);
    }
    r
}

fn group_command(group: &str, user: &str) -> (r: CommandLine)
    ensures
        r@ == add_to_group(group@, user@),
{
    let r = super::command("net", &["localgroup", group, user, "/add"]);
    proof {
        assert(r@.args =~= add_to_group(group@, user@).args);
    }
    r
}

/// The steps that let RDP connections in and keep the machine awake.
pub fn enable_remote_desktop() -> (r: Vec<PlannedStep>)
    ensures
        share::models(r@) == enabling_steps(),
{
    let mut r: Vec<PlannedStep> = Vec::new();
    r.push(
        share::run_step(
            "Enable Remote Desktop",
            reg_add_command(TERMINAL_SERVER, DENY_CONNECTIONS, "0"),
        ),
    );
    r.push(
        share::run_step(
            "Require Network Level Authentication",
            reg_add_command(RDP_TCP, "UserAuthentication", "1"),
        ),
    );
    r.push(
        share::run_step("Open firewall: Remote Desktop", firewall_command("group=remote desktop")),
    );
    r.push(
        share::run_step(
            "Open firewall: Network Discovery",
            firewall_command("group=Network Discovery"),
        ),
    );
    r.push(share::run_step("Disable sleep on AC power", timeout_command("standby-timeout-ac")));
    r.push(
        share::run_step("Disable hibernate on AC power", timeout_command("hibernate-timeout-ac")),
    );
    proof {
        assert(share::models(r@) =~= enabling_steps());
    }
    r
}

/// The command that allows clipboard sharing.
pub fn allow_clipboard() -> (r: CommandLine)
    ensures
        r@ == reg_add(RDP_TCP@, "fDisableClip"@, "0"@),
{
    reg_add_command(RDP_TCP, "fDisableClip", "0")
}

/// The steps that set up the account `user`, which must have a name.
pub open spec fn account_steps(user: Seq<char>, password: Seq<char>) -> Seq<StepModel> {
    if user.len() == 0 {
        seq![
            StepModel::Advise {
                name: "Set up the sign-in"@,
                message: "No Windows account name was found."@,
                open: None,
            },
        ]
    } else {
        seq![
            StepModel::Run {
                name: "Grant administrator access"@,
                command: add_to_group("Administrators"@, user),
                tolerate: Some("already a member"@),
            },
            StepModel::Run {
                name: "Allow Remote Desktop sign-in"@,
                command: add_to_group("Remote Desktop Users"@, user),
                tolerate: Some("already a member"@),
            },
        ] + password_steps(user, password) + cleanup_steps(user)
    }
}

/// Said of a password that the account tool would take for one of its options.
pub const PASSWORD_ADVICE: &'static str = "A password that starts with a slash can't be set from here. Choose another one.";

/// The step that sets the password, if one is given. The account tool takes a
/// word that starts with a slash for an option, so such a password is left to the
/// user.
pub open spec fn password_steps(user: Seq<char>, password: Seq<char>) -> Seq<StepModel> {
    let name = "Set password for \u{201C}"@ + user + "\u{201D}"@;
    if password.len() == 0 {
        seq![]
    } else if password[0] == '/' {
        seq![StepModel::Advise { name, message: PASSWORD_ADVICE@, open: None }]
    } else {
        seq![
            plain(name, CommandModel { program: "net"@, args: seq!["user"@, user, password] }),
        ]
    }
}

/// The step that removes the account which earlier versions made, unless it is
/// the account in use.
pub open spec fn cleanup_steps(user: Seq<char>) -> Seq<StepModel> {
    if search::same_ignoring_case(user, "neardesk"@) {
        seq![]
    } else {
        seq![
            StepModel::Run {
                name: "Remove old NearDesk account"@,
                command: CommandModel {
                    program: "net"@,
                    args: seq!["user"@, "neardesk"@, "/delete"@],
                },
                tolerate: Some("could not be found"@),
            },
        ]
    }
}

/// The steps to share the machine.
pub open spec fn share_steps(username: Seq<char>, password: Seq<char>) -> Seq<StepModel> {
    enabling_steps() + seq![
        plain("Allow clipboard sharing"@, reg_add(RDP_TCP@, "fDisableClip"@, "0"@)),
    ] + account_steps(text::trimmed(username), password)
}

fn push_account_steps(steps: &mut Vec<PlannedStep>, user: &str, password: &str)
    ensures
        share::models(final(steps)@) == share::models(old(steps)@) + account_steps(
            user@,
            password@,
        ),
{
    if user.is_empty() {
        steps.push(
            share::advise_step("Set up the sign-in", "No Windows account name was found.", None),
        );
        proof {
            assert(share::models(steps@) =~= share::models(old(steps)@) + account_steps(
                user@,
                password@,
            ));
        }
        return ;
    }
    steps.push(
        share::lenient_step(
            "Grant administrator access",
            group_command("Administrators", user),
            "already a member",
        ),
    );
    steps.push(
        share::lenient_step(
            "Allow Remote Desktop sign-in",
            group_command("Remote Desktop Users", user),
            "already a member",
        ),
    );
    if !password.is_empty() {
        let mut name = text::concat("Set password for \u{201C}", user);
        name.append("\u{201D}");
        if password.get_char(0) == '/' {
            steps.push(share::advise_step(name.as_str(), PASSWORD_ADVICE, None));
        } else {
            let command = super::command("net", &["user", user, password]);
            proof {
                assert(command@.args =~= seq!["user"@, user@, password@]);
            }
            steps.push(share::run_step(name.as_str(), command));
        }
    }
    if !search::equal_ignoring_case(user, "neardesk") {
        let command = super::command("net", &["user", "neardesk", "/delete"]);
        proof {
            assert(command@.args =~= seq!["user"@, "neardesk"@, "/delete"@]);
        }
        steps.push(
            share::lenient_step("Remove old NearDesk account", command, "could not be found"),
        );
    }
    proof {
        assert(share::models(steps@) =~= share::models(old(steps)@) + account_steps(
            user@,
            password@,
        ));
    }
}

/// The steps to share this machine: let RDP in, allow the clipboard, and set up
/// the account.
pub fn share(username: &str, password: &str) -> (r: Vec<PlannedStep>)
    ensures
        share::models(r@) == share_steps(username@, password@),
{
    let mut steps = enable_remote_desktop();
    steps.push(share::run_step("Allow clipboard sharing", allow_clipboard()));
    proof {
        assert(share::models(steps@) =~= enabling_steps() + seq![
            plain("Allow clipboard sharing"@, reg_add(RDP_TCP@, "fDisableClip"@, "0"@)),
        ]);
    }
    push_account_steps(&mut steps, text::trim(username), password);
    steps
}

// ---------------------------------------------------------------------------
// Connecting (RDP client via mstsc)
// ---------------------------------------------------------------------------

/// `user` as an account on the remote machine.
pub open spec fn qualified(user: Seq<char>) -> Seq<char> {
    if user.len() == 0 || user.contains('\\') || user.contains('@') {
        user
    } else {
        ".\\"@ + user
    }
}

/// Qualifies a bare username to a local account on the remote PC (`.\name`).
pub fn qualify_user(user: &str) -> (r: String)
    ensures
        r@ == qualified(user@),
{
    if user.is_empty() || text::contains_char(user, '\\') || text::contains_char(user, '@') {
        user.to_string()
    } else {
        text::concat(".\\", user)
    }
}

/// How a server is written: the usual port goes without saying.
pub open spec fn target_text(ip: Ipv4Addr, port: u16) -> Seq<char> {
    if port == 3389 {
        address::dotted(ip)
    } else {
        address::dotted(ip) + ":"@ + number::decimal(port as nat)
    }
}

/// How a server is written: the usual port goes without saying.
pub fn rdp_target(ip: Ipv4Addr, port: u16) -> (r: String)
    ensures
        r@ == target_text(ip, port),
{
    let mut s = ip.to_string();
    if port != 3389 {
        s.append(":");
        s.append(number::to_decimal(port as u64).as_str());
    }
    s
}

/// The lines of a connection file that never change.
pub const FIXED_LINES: &'static str = "session bpp:i:32\r\nsmart sizing:i:1\r\nauthentication level:i:0\r\nenablecredsspsupport:i:1\r\nprompt for credentials:i:0\r\nredirectclipboard:i:1\r\nredirectprinters:i:0\r\nredirectcomports:i:0\r\nredirectsmartcards:i:0\r\nredirectposdevices:i:0\r\ndrivestoredirect:s:\r\ndevicestoredirect:s:\r\naudiocapturemode:i:0\r\nautoreconnection enabled:i:1\r\nbandwidthautodetect:i:1\r\nnetworkautodetect:i:1\r\n";

/// A line of a connection file.
pub open spec fn line(setting: Seq<char>, value: Seq<char>) -> Seq<char> {
    setting + value + "\r\n"@
}

/// The contents of the connection file. It holds no password.
pub open spec fn connection_file(
    target: Seq<char>,
    user: Seq<char>,
    fullscreen: bool,
    size: (u32, u32),
    scale: u32,
) -> Seq<char> {
    line("full address:s:"@, target) + (if user.len() == 0 {
        seq![]
    } else {
        line("username:s:"@, qualified(user))
    }) + line(
        "screen mode id:i:"@,
        if fullscreen {
            "2"@
        } else {
            "1"@
        },
    ) + line("desktopwidth:i:"@, number::decimal(size.0 as nat)) + line(
        "desktopheight:i:"@,
        number::decimal(size.1 as nat),
    ) + line("desktopscalefactor:i:"@, number::decimal(scale as nat)) + FIXED_LINES@
}

fn push_line(file: &mut String, setting: &str, value: &str)
    ensures
        final(file)@ == old(file)@ + line(setting@, value@),
{
    file.append(setting);
    file.append(value);
    file.append("\r\n");
}

/// The contents of the connection file for `mstsc`.
pub fn rdp_file(target: &str, user: &str, fullscreen: bool, size: (u32, u32), scale: u32) -> (r:
    String)
    ensures
        r@ == connection_file(target@, user@, fullscreen, size, scale),
{
    let mut rdp = String::new();
    push_line(&mut rdp, "full address:s:", target);
    if !user.is_empty() {
        push_line(&mut rdp, "username:s:", qualify_user(user).as_str());
    }
    push_line(
        &mut rdp,
        "screen mode id:i:",
        if fullscreen {
            "2"
        } else {
            "1"
        },
    );
    push_line(&mut rdp, "desktopwidth:i:", number::to_decimal(size.0 as u64).as_str());
    push_line(&mut rdp, "desktopheight:i:", number::to_decimal(size.1 as u64).as_str());
    push_line(&mut rdp, "desktopscalefactor:i:", number::to_decimal(scale as u64).as_str());
    rdp.append(FIXED_LINES);
    rdp
}

/// The command that stores the password for a server.
pub open spec fn credentials(target: Seq<char>, user: Seq<char>, password: Seq<char>) -> Option<
    CommandModel,
> {
    if user.len() == 0 || password.len() == 0 {
        None
    } else {
        Some(
            CommandModel {
                program: "cmdkey"@,
                args: seq![
                    "/generic:TERMSRV/"@ + target,
                    "/user:"@ + qualified(user),
                    "/pass:"@ + password,
                ],
            },
        )
    }
}

fn store_credentials(target: &str, user: &str, password: &str) -> (r: Option<CommandLine>)
    ensures
        super::optional_command(r) == credentials(target@, user@, password@),
{
    if user.is_empty() || password.is_empty() {
        return None;
    }
    let server = text::concat("/generic:TERMSRV/", target);
    let account = text::concat("/user:", qualify_user(user).as_str());
    let secret = text::concat("/pass:", password);
    let r = super::command("cmdkey", &[server.as_str(), account.as_str(), secret.as_str()]);
    proof {
        assert(r@.args =~= seq![server@, account@, secret@]);
    }
    Some(r)
}

/// `p` is how to open an RDP session: store the password if there is one, write
/// the connection file and start `mstsc` on it.
pub open spec fn is_rdp_launch(
    p: PlanModel,
    target: Seq<char>,
    user: Seq<char>,
    password: Seq<char>,
    fullscreen: bool,
    display: Display,
) -> bool {
    exists|scale: u32| #[trigger]
        is_nearest(scale, scale_percent(display.dpi)) && p == (PlanModel::File {
            credentials: credentials(target, user, password),
            file_name: "neardesk.rdp"@,
            contents: connection_file(
                target,
                user,
                fullscreen,
                screen_size(display.width, display.height),
                scale,
            ),
            program: "mstsc"@,
        })
}

/// `p` is how to open a session with what was entered.
pub open spec fn is_launch(
    p: PlanModel,
    ip: Ipv4Addr,
    port: u16,
    username: Seq<char>,
    password: Seq<char>,
    fullscreen: bool,
    protocol: Protocol,
    display: Display,
) -> bool {
    match protocol {
        Protocol::Vnc => p == viewer_search(ip),
        Protocol::Rdp => is_rdp_launch(
            p,
            target_text(ip, port),
            text::trimmed(username),
            password,
            fullscreen,
            display,
        ),
    }
}

/// How to open a session: `mstsc` for RDP, an installed viewer for VNC.
pub fn launch(
    ip: Ipv4Addr,
    port: u16,
    username: &str,
    password: &str,
    fullscreen: bool,
    protocol: Protocol,
    display: Display,
) -> (r: LaunchPlan)
    ensures
        match protocol {
            Protocol::Vnc => r@ == viewer_search(ip),
            Protocol::Rdp => is_rdp_launch(
                r@,
                target_text(ip, port),
                text::trimmed(username@),
                password@,
                fullscreen,
                display,
            ),
        },
        is_launch(r@, ip, port, username@, password@, fullscreen, protocol, display),
{
    if protocol == Protocol::Vnc {
        return launch_vnc(ip);
    }
    let user = text::trim(username);
    let target = rdp_target(ip, port);
    let size = primary_screen_size(display.width, display.height);
    let scale = desktop_scale_factor(display.dpi);
    let contents = rdp_file(target.as_str(), user, fullscreen, size, scale);
    let plan = LaunchPlan::File(
        FileLaunch {
            credentials: store_credentials(target.as_str(), user, password),
            file_name: "neardesk.rdp".to_string(),
            contents,
            program: "mstsc".to_string(),
        },
    );
    proof {
        assert(is_nearest(scale, scale_percent(display.dpi)));
    }
    plan
}

// ---------------------------------------------------------------------------
// Connecting to a Mac/VNC host (Windows has no built-in VNC client)
// ---------------------------------------------------------------------------

pub const NO_VNC_VIEWER: &'static str = "No VNC viewer found. Opened the RealVNC Viewer download page \u{2014} install it, then press Connect again.";

pub const VIEWER_PAGE: &'static str = "https://www.realvnc.com/connect/download/viewer/windows/";

pub const REAL_VNC: &'static str = "C:\\Program Files\\RealVNC\\VNC Viewer\\vncviewer.exe";

pub const ULTRA_VNC: &'static str = "C:\\Program Files\\uvnc bvba\\UltraVNC\\vncviewer.exe";

pub const TIGHT_VNC: &'static str = "C:\\Program Files\\TightVNC\\tvnviewer.exe";

/// The first of the lines that `where` prints, trimmed.
pub open spec fn first_line(lines: Seq<Seq<char>>) -> Option<Seq<char>> {
    if lines.len() > 0 {
        Some(text::trimmed(lines[0]))
    } else {
        None
    }
}

/// The first match that `where` prints, by what came of it.
pub open spec fn first_match(o: Outcome) -> Option<Seq<char>> {
    match o {
        Outcome::Finished { success, stdout, .. } => if success {
            first_line(text::lines_of(text::decoded(stdout@)))
        } else {
            None
        },
        Outcome::Failed(_) => None,
    }
}

/// The first line of the text that `where` prints, trimmed.
pub fn find_match(printed: &str) -> (r: Option<String>)
    ensures
        text::optional(r) == first_line(text::lines_of(printed@)),
{
    let lines = text::lines(printed);
    proof {
        assert(text::slices(lines@).len() == lines.len());
    }
    if lines.len() == 0 {
        return None;
    }
    assert(text::slices(lines@)[0] == lines@[0]@);
    Some(text::trim(lines[0]).to_string())
}

/// First match of a program on the PATH, by what came of `where`.
pub fn where_is(outcome: &Outcome) -> (r: Option<String>)
    ensures
        text::optional(r) == first_match(*outcome),
{
    match outcome {
        Outcome::Finished { success, stdout, .. } => {
            if *success {
                let printed = text::decode(stdout.as_slice());
                find_match(printed.as_str())
            } else {
                None
            }
        },
        Outcome::Failed(_) => None,
    }
}

/// The viewers to look for, and their arguments. `host::5900` forces an absolute
/// port for TigerVNC / RealVNC / UltraVNC; TightVNC has flags of its own.
pub open spec fn viewers(ip: Ipv4Addr) -> Seq<ClientModel> {
    let usual = seq![address::dotted(ip) + "::5900"@];
    let tight = seq!["-host="@ + address::dotted(ip), "-port=5900"@];
    seq![
        ClientModel { place: PlaceModel::OnPath("vncviewer.exe"@), args: usual },
        ClientModel { place: PlaceModel::At(REAL_VNC@), args: usual },
        ClientModel { place: PlaceModel::At(ULTRA_VNC@), args: usual },
        ClientModel { place: PlaceModel::OnPath("tvnviewer.exe"@), args: tight },
        ClientModel { place: PlaceModel::At(TIGHT_VNC@), args: tight },
    ]
}

/// Look for a viewer, or else show where to get one.
pub open spec fn viewer_search(ip: Ipv4Addr) -> PlanModel {
    PlanModel::Search {
        clients: viewers(ip),
        otherwise: OtherwiseModel::Missing {
            page: Some(
                CommandModel { program: "cmd"@, args: seq!["/C"@, "start"@, ""@, VIEWER_PAGE@] },
            ),
            message: NO_VNC_VIEWER@,
        },
    }
}

/// The VNC viewers that may be installed, and the args to connect to `ip:5900`.
pub fn find_vnc_viewer(ip: Ipv4Addr) -> (r: Vec<Client>)
    ensures
        launch::models(r@) == viewers(ip),
{
    let host = ip.to_string();
    let target = text::concat(host.as_str(), "::5900");
    let tight = text::concat("-host=", host.as_str());
    let usual_args: [&str; 1] = [target.as_str()];
    let tight_args: [&str; 2] = [tight.as_str(), "-port=5900"];
    let mut r: Vec<Client> = Vec::new();
    r.push(launch::on_path("vncviewer.exe", &usual_args));
    r.push(launch::at(REAL_VNC, &usual_args));
    r.push(launch::at(ULTRA_VNC, &usual_args));
    r.push(launch::on_path("tvnviewer.exe", &tight_args));
    r.push(launch::at(TIGHT_VNC, &tight_args));
    proof {
        assert(text::slices(usual_args@) =~= seq![target@]);
        assert(text::slices(tight_args@) =~= seq![tight@, "-port=5900"@]);
        assert(launch::models(r@) =~= viewers(ip));
    }
    r
}

/// How to open a VNC session: look for a viewer. Without one, open the RealVNC
/// download page and tell the user to install it, then retry.
pub fn launch_vnc(ip: Ipv4Addr) -> (r: LaunchPlan)
    ensures
        r@ == viewer_search(ip),
{
    let page = super::command("cmd", &["/C", "start", "", VIEWER_PAGE]);
    proof {
        assert(page@.args =~= seq!["/C"@, "start"@, ""@, VIEWER_PAGE@]);
    }
    LaunchPlan::Search(
        ClientSearch {
            clients: find_vnc_viewer(ip),
            otherwise: Otherwise::Missing {
                page: Some(page),
                message: NO_VNC_VIEWER.to_string(),
            },
        },
    )
}

// ---------------------------------------------------------------------------
// Remote name (RDP certificate CN)
// ---------------------------------------------------------------------------

/// PowerShell that completes an RDP TLS handshake with `$ip` and `$port` and
/// prints the server certificate's common name (the remote PC's real name).
///
/// The certificate is intentionally *not* validated: RDP hosts present a
/// self-signed one by default, the connection carries no credentials or data,
/// and it is closed the instant the name is read, for display alone.
pub const RDP_HOST_SCRIPT: &'static str = ";try{$c=New-Object System.Net.Sockets.TcpClient;$c.Connect($ip,$port);$s=$c.GetStream();$s.ReadTimeout=3000;$s.WriteTimeout=3000;$r=[byte[]](3,0,0,19,14,224,0,0,0,0,0,1,0,8,0,3,0,0,0);$s.Write($r,0,$r.Length);$s.Flush();Start-Sleep -Milliseconds 200;$b=New-Object byte[] 1024;[void]$s.Read($b,0,$b.Length);$cb=[System.Net.Security.RemoteCertificateValidationCallback]{param($x1,$x2,$x3,$x4)$true};$ssl=New-Object System.Net.Security.SslStream($s,$false,$cb);$ssl.AuthenticateAsClient($ip);$crt=[System.Security.Cryptography.X509Certificates.X509Certificate2]$ssl.RemoteCertificate;Write-Output $crt.GetNameInfo('SimpleName',$false);$ssl.Close();$c.Close()}catch{}";

/// How to ask an RDP server for its real name: by the script above, in a file of
/// its own. VNC servers are not asked.
pub fn remote_name(ip: Ipv4Addr, protocol: Protocol) -> (r: Option<NameQuery>)
    ensures
        match r {
            Some(q) => {
                &&& protocol == Protocol::Rdp
                &&& q.script@ == "$ip='"@ + address::dotted(ip) + "';$port=3389"@
                    + RDP_HOST_SCRIPT@
                &&& q.file_name@ == "neardesk_"@ + search::all_replaced(
                    address::dotted(ip),
                    '.',
                    "_"@,
                ) + ".ps1"@
                &&& q.command@ == (CommandModel {
                    program: "powershell"@,
                    args: seq!["-NoProfile"@, "-ExecutionPolicy"@, "Bypass"@, "-File"@],
                })
            },
            None => protocol != Protocol::Rdp,
        },
{
    if protocol != Protocol::Rdp {
        return None;
    }
    let host = ip.to_string();
    let mut script = text::concat("$ip='", host.as_str());
    script.append("';$port=3389");
    script.append(RDP_HOST_SCRIPT);
    let mut file_name = text::concat(
        "neardesk_",
        search::replace_char(host.as_str(), '.', "_").as_str(),
    );
    file_name.append(".ps1");
    let command = super::command(
        "powershell",
        &["-NoProfile", "-ExecutionPolicy", "Bypass", "-File"],
    );
    proof {
        assert(command@.args =~= seq![
            "-NoProfile"@,
            "-ExecutionPolicy"@,
            "Bypass"@,
            "-File"@,
        ]);
    }
    Some(NameQuery { file_name, script, command })
}

// ---------------------------------------------------------------------------
// Laws
// ---------------------------------------------------------------------------

/// Just one accepted scale is the nearest.
pub proof fn law_nearest_scale_is_unique(s: u32, t: u32, pct: int)
    requires
        is_nearest(s, pct),
        is_nearest(t, pct),
    ensures
        s == t,
{
}

/// Qualifying a username twice is qualifying it once.
pub proof fn law_qualified_once(user: Seq<char>)
    ensures
        qualified(qualified(user)) == qualified(user),
{
    reveal_strlit(".\\");
    let q = ".\\"@ + user;
    assert(q[1] == '\\');
}

/// The step deletes `account`.
pub open spec fn deletes(step: StepModel, account: Seq<char>) -> bool {
    match step {
        StepModel::Run { command, .. } => command == (CommandModel {
            program: "net"@,
            args: seq!["user"@, account, "/delete"@],
        }),
        StepModel::Advise { .. } => false,
    }
}

proof fn lemma_enabling_deletes_nothing(step: StepModel, account: Seq<char>)
    requires
        enabling_steps().contains(step) || step == plain(
            "Allow clipboard sharing"@,
            reg_add(RDP_TCP@, "fDisableClip"@, "0"@),
        ),
    ensures
        !deletes(step, account),
{
    reveal_strlit("net");
    reveal_strlit("reg");
    reveal_strlit("netsh");
    reveal_strlit("powercfg");
    assert("reg"@[0] != "net"@[0]);
    assert("netsh"@.len() != "net"@.len());
    assert("powercfg"@.len() != "net"@.len());
}

proof fn lemma_account_step_deletes(
    user: Seq<char>,
    password: Seq<char>,
    step: StepModel,
    account: Seq<char>,
)
    requires
        account_steps(user, password).contains(step),
        deletes(step, account),
    ensures
        account == "neardesk"@,
        !search::same_ignoring_case(user, account),
{
    let wanted = seq!["user"@, account, "/delete"@];
    assert(wanted[1] == account && wanted[2] == "/delete"@);
    assert(user.len() > 0);
    let groups = seq![
        StepModel::Run {
            name: "Grant administrator access"@,
            command: add_to_group("Administrators"@, user),
            tolerate: Some("already a member"@),
        },
        StepModel::Run {
            name: "Allow Remote Desktop sign-in"@,
            command: add_to_group("Remote Desktop Users"@, user),
            tolerate: Some("already a member"@),
        },
    ];
    let steps = account_steps(user, password);
    let i = choose|i: int| 0 <= i < steps.len() && steps[i] == step;
    if i < 2 {
        assert(steps[i] == groups[i]);
        assert(step->command.args.len() == 4);
        assert(wanted.len() == 3);
    } else if i < 2 + password_steps(user, password).len() {
        assert(step == password_steps(user, password)[i - 2]);
        assert(step->command.args[2] == password);
        reveal_strlit("/delete");
        assert("/delete"@[0] == '/');
    } else {
        assert(step == cleanup_steps(user)[0]);
        assert(step->command.args[1] == "neardesk"@);
    }
}

/// Sharing deletes no account but the one that earlier versions made, and that
/// one only if it is not the account in use.
pub proof fn law_sharing_keeps_the_account(
    username: Seq<char>,
    password: Seq<char>,
    step: StepModel,
    account: Seq<char>,
)
    requires
        share_steps(username, password).contains(step),
        deletes(step, account),
    ensures
        account == "neardesk"@,
        !search::same_ignoring_case(text::trimmed(username), account),
{
    let user = text::trimmed(username);
    let clip = plain("Allow clipboard sharing"@, reg_add(RDP_TCP@, "fDisableClip"@, "0"@));
    let steps = share_steps(username, password);
    let i = choose|i: int| 0 <= i < steps.len() && steps[i] == step;
    if i < 6 {
        assert(enabling_steps()[i] == step);
        lemma_enabling_deletes_nothing(step, account);
    } else if i == 6 {
        assert(step == clip);
        lemma_enabling_deletes_nothing(step, account);
    } else {
        assert(account_steps(user, password)[i - 7] == step);
        lemma_account_step_deletes(user, password, step, account);
    }
}

/// Without an account name, sharing does nothing to any account.
pub proof fn law_no_account_no_changes(username: Seq<char>, password: Seq<char>)
    requires
        text::trimmed(username).len() == 0,
    ensures
        share_steps(username, password).len() == 8,
        share_steps(username, password).last() is Advise,
        forall|i: int|
            0 <= i < 7 ==> (#[trigger] share_steps(username, password)[i]) is Run && share_steps(
                username,
                password,
            )[i]->command.program != "net"@,
{
    reveal_strlit("net");
    reveal_strlit("reg");
    reveal_strlit("netsh");
    reveal_strlit("powercfg");
    assert("reg"@[0] != "net"@[0]);
    assert("netsh"@.len() != "net"@.len());
    assert("powercfg"@.len() != "net"@.len());
    let steps = share_steps(username, password);
    assert forall|i: int| 0 <= i < 7 implies (#[trigger] steps[i]) is Run
        && steps[i]->command.program != "net"@ by {
        if i < 6 {
            assert(steps[i] == enabling_steps()[i]);
        }
    }
}

/// A number in decimal is read back from the registry as it was written.
pub proof fn law_reg_number_reads_decimal(n: u32)
    ensures
        reg_number(number::decimal(n as nat)) == Some(n),
{
    reveal_strlit("0x");
    reveal_strlit("0X");
    let t = number::decimal(n as nat);
    number::lemma_decimal_digits(n as nat);
    text::lemma_trimmed_fixed(t);
    number::law_decimal_reads_back(n);
    if t.len() >= 2 {
        assert('0' <= t[1] <= '9');
        assert(t.take(2)[1] == t[1]);
    }
}

proof fn lemma_zero_reads(hex: bool)
    ensures
        reg_number(if hex {
            "0x0"@
        } else {
            "0"@
        }) == Some(0u32),
{
    reveal_strlit("0x");
    reveal_strlit("0X");
    reveal_strlit("0x0");
    reveal_strlit("0");
    let t = if hex {
        "0x0"@
    } else {
        "0"@
    };
    let digits = seq!['0'];
    text::lemma_trimmed_fixed(t);
    assert(number::digit_value('0') == Some(0nat));
    assert(digits.drop_last() =~= seq![]);
    assert(number::digits_value(digits.drop_last(), 16) == Some(0nat));
    assert(number::digits_value(digits.drop_last(), 10) == Some(0nat));
    if hex {
        assert(t.take(2) =~= "0x"@);
        assert(t.skip(2) =~= digits);
    } else {
        assert(t =~= digits);
    }
}

/// The first step of sharing writes the very value that [`rdp_query`] reads, and
/// a reply that shows the number written, in decimal or in hexadecimal, reads as
/// enabled.
pub proof fn law_enabling_shows_as_enabled(printed: Outcome, kind: Seq<char>, at: int)
    requires
        super::succeeds(printed),
        ({
            let lines = text::lines_of(text::decoded(printed->stdout@));
            let shown = text::words_of(lines[at]);
            &&& 0 <= at < lines.len()
            &&& shown == seq![DENY_CONNECTIONS@, kind, "0x0"@] || shown == seq![
                DENY_CONNECTIONS@,
                kind,
                enabling_steps()[0]->command.args[7],
            ]
            &&& forall|j: int| 0 <= j < at ==> !shows(#[trigger] lines[j], DENY_CONNECTIONS@)
        }),
    ensures
        lets_in(printed),
        enabling_steps()[0] is Run,
        enabling_steps()[0]->command.args[1] == rdp_query_of().args[1],
        enabling_steps()[0]->command.args[3] == rdp_query_of().args[3],
        reg_number(enabling_steps()[0]->command.args[7]) == Some(0u32),
        reg_number("0x0"@) == Some(0u32),
{
    let lines = text::lines_of(text::decoded(printed->stdout@));
    let shown = text::words_of(lines[at]);
    let written = enabling_steps()[0]->command.args[7];
    lemma_zero_reads(true);
    lemma_zero_reads(false);
    assert(written == "0"@);
    lemma_registry_data_at(lines, DENY_CONNECTIONS@, at);
    assert(shown.skip(2) =~= seq![shown[2]]);
    assert(shown[2] == "0x0"@ || shown[2] == written);
}

proof fn lemma_registry_data_at(lines: Seq<Seq<char>>, value: Seq<char>, at: int)
    requires
        0 <= at < lines.len(),
        shows(lines[at], value),
        forall|j: int| 0 <= j < at ==> !shows(#[trigger] lines[j], value),
    ensures
        registry_data(lines, value) == Some(
            search::joined(text::words_of(lines[at]).skip(2), " "@),
        ),
    decreases at,
{
    if at > 0 {
        let rest = lines.drop_first();
        assert(!shows(lines[0], value));
        assert forall|j: int| 0 <= j < at - 1 implies !shows(#[trigger] rest[j], value) by {
            assert(rest[j] == lines[j + 1]);
        }
        lemma_registry_data_at(rest, value, at - 1);
    }
}

/// Sharing lets RDP in, asks for authentication first, opens the firewall, keeps
/// the plugged-in machine awake and allows the clipboard, by these commands.
pub proof fn law_sharing_lets_rdp_in(username: Seq<char>, password: Seq<char>)
    ensures
        ({
            let steps = share_steps(username, password);
            &&& steps.contains(
                StepModel::Run {
                    name: "Enable Remote Desktop"@,
                    command: CommandModel {
                        program: "reg"@,
                        args: seq![
                            "add"@,
                            "HKLM\\System\\CurrentControlSet\\Control\\Terminal Server"@,
                            "/v"@,
                            "fDenyTSConnections"@,
                            "/t"@,
                            "REG_DWORD"@,
                            "/d"@,
                            "0"@,
                            "/f"@,
                        ],
                    },
                    tolerate: None,
                },
            )
            &&& steps.contains(
                StepModel::Run {
                    name: "Require Network Level Authentication"@,
                    command: CommandModel {
                        program: "reg"@,
                        args: seq![
                            "add"@,
                            "HKLM\\System\\CurrentControlSet\\Control\\Terminal Server\\WinStations\\RDP-Tcp"@,
                            "/v"@,
                            "UserAuthentication"@,
                            "/t"@,
                            "REG_DWORD"@,
                            "/d"@,
                            "1"@,
                            "/f"@,
                        ],
                    },
                    tolerate: None,
                },
            )
            &&& steps.contains(
                StepModel::Run {
                    name: "Open firewall: Remote Desktop"@,
                    command: CommandModel {
                        program: "netsh"@,
                        args: seq![
                            "advfirewall"@,
                            "firewall"@,
                            "set"@,
                            "rule"@,
                            "group=remote desktop"@,
                            "new"@,
                            "enable=Yes"@,
                        ],
                    },
                    tolerate: None,
                },
            )
            &&& steps.contains(
                StepModel::Run {
                    name: "Open firewall: Network Discovery"@,
                    command: CommandModel {
                        program: "netsh"@,
                        args: seq![
                            "advfirewall"@,
                            "firewall"@,
                            "set"@,
                            "rule"@,
                            "group=Network Discovery"@,
                            "new"@,
                            "enable=Yes"@,
                        ],
                    },
                    tolerate: None,
                },
            )
            &&& steps.contains(
                StepModel::Run {
                    name: "Disable sleep on AC power"@,
                    command: CommandModel {
                        program: "powercfg"@,
                        args: seq!["/change"@, "standby-timeout-ac"@, "0"@],
                    },
                    tolerate: None,
                },
            )
            &&& steps.contains(
                StepModel::Run {
                    name: "Disable hibernate on AC power"@,
                    command: CommandModel {
                        program: "powercfg"@,
                        args: seq!["/change"@, "hibernate-timeout-ac"@, "0"@],
                    },
                    tolerate: None,
                },
            )
            &&& steps.contains(
                StepModel::Run {
                    name: "Allow clipboard sharing"@,
                    command: CommandModel {
                        program: "reg"@,
                        args: seq![
                            "add"@,
                            "HKLM\\System\\CurrentControlSet\\Control\\Terminal Server\\WinStations\\RDP-Tcp"@,
                            "/v"@,
                            "fDisableClip"@,
                            "/t"@,
                            "REG_DWORD"@,
                            "/d"@,
                            "0"@,
                            "/f"@,
                        ],
                    },
                    tolerate: None,
                },
            )
        }),
{
    let steps = share_steps(username, password);
    let first = enabling_steps();
    assert forall|i: int| 0 <= i < 6 implies #[trigger] first[i] == steps[i] by {}
    assert(steps.contains(steps[0]));
    assert(steps.contains(steps[1]));
    assert(steps.contains(steps[2]));
    assert(steps.contains(steps[3]));
    assert(steps.contains(steps[4]));
    assert(steps.contains(steps[5]));
    assert(steps.contains(steps[6]));
}

/// Sharing makes the account an administrator and lets it sign in remotely, where
/// it is fine if it could already; sets the password given, to the letter; and
/// removes the account of earlier versions, where it is fine if there is none.
pub proof fn law_sharing_sets_up_the_account(
    before: Seq<char>,
    user: Seq<char>,
    after: Seq<char>,
    password: Seq<char>,
)
    requires
        forall|j: int| 0 <= j < before.len() ==> text::is_white_space(#[trigger] before[j]),
        forall|j: int| 0 <= j < after.len() ==> text::is_white_space(#[trigger] after[j]),
        user.len() > 0,
        !text::is_white_space(user[0]),
        !text::is_white_space(user.last()),
    ensures
        ({
            let steps = share_steps(before + user + after, password);
            let old = StepModel::Run {
                name: "Remove old NearDesk account"@,
                command: CommandModel {
                    program: "net"@,
                    args: seq!["user"@, "neardesk"@, "/delete"@],
                },
                tolerate: Some("could not be found"@),
            };
            &&& steps.contains(
                StepModel::Run {
                    name: "Grant administrator access"@,
                    command: CommandModel {
                        program: "net"@,
                        args: seq!["localgroup"@, "Administrators"@, user, "/add"@],
                    },
                    tolerate: Some("already a member"@),
                },
            )
            &&& steps.contains(
                StepModel::Run {
                    name: "Allow Remote Desktop sign-in"@,
                    command: CommandModel {
                        program: "net"@,
                        args: seq!["localgroup"@, "Remote Desktop Users"@, user, "/add"@],
                    },
                    tolerate: Some("already a member"@),
                },
            )
            &&& password.len() > 0 && password[0] != '/' ==> steps.contains(
                StepModel::Run {
                    name: "Set password for \u{201C}"@ + user + "\u{201D}"@,
                    command: CommandModel { program: "net"@, args: seq!["user"@, user, password] },
                    tolerate: None,
                },
            )
            &&& !search::same_ignoring_case(user, "neardesk"@) ==> steps.contains(old)
            &&& steps.len() == 9 + (if password.len() > 0 {
                1int
            } else {
                0
            }) + (if search::same_ignoring_case(user, "neardesk"@) {
                0int
            } else {
                1
            })
        }),
{
    text::law_white_space_around_does_not_matter(before, user, after);
    let steps = share_steps(before + user + after, password);
    let account = account_steps(user, password);
    let secret = password_steps(user, password);
    let last = cleanup_steps(user);
    assert forall|i: int| 0 <= i < account.len() implies #[trigger] account[i]
        == steps[i + 7] by {}
    assert(steps.contains(steps[7]));
    assert(steps.contains(steps[8]));
    assert(account[0] == steps[7]);
    assert(account[1] == steps[8]);
    if secret.len() > 0 {
        assert(account[2] == secret[0]);
        assert(steps[9] == secret[0]);
        assert(steps.contains(steps[9]));
    }
    if last.len() > 0 {
        let at = 2 + secret.len() as int;
        assert(account[at] == last[0]);
        assert(steps[at + 7] == last[0]);
        assert(steps.contains(steps[at + 7]));
    }
}

/// The account is the same in the stored password and in the connection file: one
/// that holds a backslash or an `@` as it was typed, any other as a local account
/// of the remote machine. The password is stored for that machine, to the letter,
/// where both were typed, and not otherwise.
pub proof fn law_the_account_is_handed_over(
    p: PlanModel,
    target: Seq<char>,
    user: Seq<char>,
    password: Seq<char>,
    fullscreen: bool,
    display: Display,
    account: Seq<char>,
)
    requires
        is_rdp_launch(p, target, user, password, fullscreen, display),
        user.contains('\\') || user.contains('@') ==> account == user,
        !user.contains('\\') && !user.contains('@') ==> account == seq!['.', '\\'] + user,
    ensures
        p is File,
        user.len() > 0 && password.len() > 0 ==> p->credentials == Some(
            CommandModel {
                program: "cmdkey"@,
                args: seq![
                    "/generic:TERMSRV/"@ + target,
                    "/user:"@ + account,
                    "/pass:"@ + password,
                ],
            },
        ),
        user.len() == 0 || password.len() == 0 ==> p->credentials is None,
        user.len() > 0 ==> exists|rest: Seq<char>|
            p->contents == #[trigger] ("full address:s:"@ + target + "\r\nusername:s:"@ + account
                + "\r\nscreen mode id:i:"@ + rest),
        user.len() == 0 ==> exists|rest: Seq<char>|
            p->contents == #[trigger] ("full address:s:"@ + target + "\r\nscreen mode id:i:"@
                + rest),
        p->file_name == "neardesk.rdp"@,
        p->program == "mstsc"@,
{
    reveal_strlit(".\\");
    assert(".\\"@ =~= seq!['.', '\\']);
    let scale = choose|scale: u32| #[trigger]
        is_nearest(scale, scale_percent(display.dpi)) && p == (PlanModel::File {
            credentials: credentials(target, user, password),
            file_name: "neardesk.rdp"@,
            contents: connection_file(
                target,
                user,
                fullscreen,
                screen_size(display.width, display.height),
                scale,
            ),
            program: "mstsc"@,
        });
    if user.len() > 0 {
        assert(qualified(user) == account);
    }
    lemma_connection_file(
        target,
        user,
        fullscreen,
        screen_size(display.width, display.height),
        scale,
    );
}

/// The connection file, line after line.
spec fn file_tail(fullscreen: bool, size: (u32, u32), scale: u32) -> Seq<char> {
    (if fullscreen {
        "2"@
    } else {
        "1"@
    }) + "\r\ndesktopwidth:i:"@ + number::decimal(size.0 as nat) + "\r\ndesktopheight:i:"@
        + number::decimal(size.1 as nat) + "\r\ndesktopscalefactor:i:"@ + number::decimal(
        scale as nat,
    ) + "\r\n"@ + FIXED_LINES@
}

#[verifier::rlimit(40)]
proof fn lemma_connection_file(
    target: Seq<char>,
    user: Seq<char>,
    fullscreen: bool,
    size: (u32, u32),
    scale: u32,
)
    ensures
        connection_file(target, user, fullscreen, size, scale) == (if user.len() == 0 {
            "full address:s:"@ + target + "\r\nscreen mode id:i:"@ + file_tail(
                fullscreen,
                size,
                scale,
            )
        } else {
            "full address:s:"@ + target + "\r\nusername:s:"@ + qualified(user)
                + "\r\nscreen mode id:i:"@ + file_tail(fullscreen, size, scale)
        }),
{
    reveal_strlit("\r\n");
    reveal_strlit("username:s:");
    reveal_strlit("\r\nusername:s:");
    reveal_strlit("screen mode id:i:");
    reveal_strlit("\r\nscreen mode id:i:");
    reveal_strlit("desktopwidth:i:");
    reveal_strlit("\r\ndesktopwidth:i:");
    reveal_strlit("desktopheight:i:");
    reveal_strlit("\r\ndesktopheight:i:");
    reveal_strlit("desktopscalefactor:i:");
    reveal_strlit("\r\ndesktopscalefactor:i:");
    assert("\r\n"@ + "username:s:"@ =~= "\r\nusername:s:"@);
    assert("\r\n"@ + "screen mode id:i:"@ =~= "\r\nscreen mode id:i:"@);
    assert("\r\n"@ + "desktopwidth:i:"@ =~= "\r\ndesktopwidth:i:"@);
    assert("\r\n"@ + "desktopheight:i:"@ =~= "\r\ndesktopheight:i:"@);
    assert("\r\n"@ + "desktopscalefactor:i:"@ =~= "\r\ndesktopscalefactor:i:"@);
    let e = "\r\n"@;
    let mode = if fullscreen {
        "2"@
    } else {
        "1"@
    };
    let w = number::decimal(size.0 as nat);
    let h = number::decimal(size.1 as nat);
    let s = number::decimal(scale as nat);
    let sm = "screen mode id:i:"@;
    let dw = "desktopwidth:i:"@;
    let dh = "desktopheight:i:"@;
    let ds = "desktopscalefactor:i:"@;
    let tail = file_tail(fullscreen, size, scale);
    assert(tail =~= mode + (e + dw) + w + (e + dh) + h + (e + ds) + s + e + FIXED_LINES@);
    let rest = line(sm, mode) + line(dw, w) + line(dh, h) + line(ds, s) + FIXED_LINES@;
    assert(rest =~= sm + tail);
    let head = "full address:s:"@ + target;
    if user.len() == 0 {
        assert(connection_file(target, user, fullscreen, size, scale) =~= head + e + rest);
        assert(head + e + (sm + tail) =~= head + (e + sm) + tail);
    } else {
        let account = qualified(user);
        let us = "username:s:"@;
        assert(connection_file(target, user, fullscreen, size, scale) =~= head + e + (us + account
            + e) + rest);
        assert(head + e + (us + account + e) + (sm + tail) =~= head + (e + us) + account + (e + sm)
            + tail);
    }
}

/// The connection file says whether the session fills the screen, and how large
/// the screen is; numbers that make no screen give the usual one. It says nothing
/// of the password: with another one the file is the same.
pub proof fn law_the_file_describes_the_screen(
    p: PlanModel,
    q: PlanModel,
    target: Seq<char>,
    user: Seq<char>,
    password: Seq<char>,
    other: Seq<char>,
    fullscreen: bool,
    display: Display,
)
    requires
        is_rdp_launch(p, target, user, password, fullscreen, display),
        is_rdp_launch(q, target, user, other, fullscreen, display),
    ensures
        p->contents == q->contents,
        exists|head: Seq<char>, mode: Seq<char>, w: Seq<char>, h: Seq<char>, s: Seq<char>|
            p->contents == #[trigger] (head + "\r\nscreen mode id:i:"@ + mode
                + "\r\ndesktopwidth:i:"@ + w + "\r\ndesktopheight:i:"@ + h
                + "\r\ndesktopscalefactor:i:"@ + s + "\r\n"@ + FIXED_LINES@) && (fullscreen ==> mode
                == "2"@) && (!fullscreen ==> mode == "1"@) && number::number(
                w,
                10,
            ) == Some(
                if display.width > 0 && display.height > 0 {
                    display.width as u32
                } else {
                    1920
                },
            ) && number::number(h, 10) == Some(
                if display.width > 0 && display.height > 0 {
                    display.height as u32
                } else {
                    1080
                },
            ) && number::number(s, 10) is Some && is_nearest(
                number::number(s, 10)->0,
                scale_percent(display.dpi),
            ),
{
    let size = screen_size(display.width, display.height);
    let pct = scale_percent(display.dpi);
    let scale = choose|scale: u32| #[trigger]
        is_nearest(scale, pct) && p == (PlanModel::File {
            credentials: credentials(target, user, password),
            file_name: "neardesk.rdp"@,
            contents: connection_file(target, user, fullscreen, size, scale),
            program: "mstsc"@,
        });
    let again = choose|again: u32| #[trigger]
        is_nearest(again, pct) && q == (PlanModel::File {
            credentials: credentials(target, user, other),
            file_name: "neardesk.rdp"@,
            contents: connection_file(target, user, fullscreen, size, again),
            program: "mstsc"@,
        });
    law_nearest_scale_is_unique(scale, again, pct);
    lemma_connection_file(target, user, fullscreen, size, scale);
    number::law_decimal_reads_back(size.0);
    number::law_decimal_reads_back(size.1);
    number::law_decimal_reads_back(scale);
    let w = number::decimal(size.0 as nat);
    let h = number::decimal(size.1 as nat);
    let s = number::decimal(scale as nat);
    let head = if user.len() == 0 {
        "full address:s:"@ + target
    } else {
        "full address:s:"@ + target + "\r\nusername:s:"@ + qualified(user)
    };
    let mode = if fullscreen {
        "2"@
    } else {
        "1"@
    };
    let start = head + "\r\nscreen mode id:i:"@;
    lemma_file_tail(start, mode, w, h, s);
    assert(p->contents == start + file_tail(fullscreen, size, scale));
}

proof fn lemma_assoc(a: Seq<char>, b: Seq<char>, c: Seq<char>)
    ensures
        a + (b + c) == a + b + c,
{
    assert(a + (b + c) =~= a + b + c);
}

proof fn lemma_file_tail(
    start: Seq<char>,
    mode: Seq<char>,
    w: Seq<char>,
    h: Seq<char>,
    s: Seq<char>,
)
    ensures
        start + (mode + "\r\ndesktopwidth:i:"@ + w + "\r\ndesktopheight:i:"@ + h
            + "\r\ndesktopscalefactor:i:"@ + s + "\r\n"@ + FIXED_LINES@) == start + mode
            + "\r\ndesktopwidth:i:"@ + w + "\r\ndesktopheight:i:"@ + h
            + "\r\ndesktopscalefactor:i:"@ + s + "\r\n"@ + FIXED_LINES@,
{
    let a = mode + "\r\ndesktopwidth:i:"@;
    let b = a + w;
    let c = b + "\r\ndesktopheight:i:"@;
    let d = c + h;
    let e = d + "\r\ndesktopscalefactor:i:"@;
    let f = e + s;
    let g = f + "\r\n"@;
    lemma_assoc(start, mode, "\r\ndesktopwidth:i:"@);
    lemma_assoc(start, a, w);
    lemma_assoc(start, b, "\r\ndesktopheight:i:"@);
    lemma_assoc(start, c, h);
    lemma_assoc(start, d, "\r\ndesktopscalefactor:i:"@);
    lemma_assoc(start, e, s);
    lemma_assoc(start, f, "\r\n"@);
    lemma_assoc(start, g, FIXED_LINES@);
}

/// A display scale that RDP accepts is kept, and any other becomes one that it
/// accepts and that no accepted one is nearer to.
pub proof fn law_accepted_scales_are_kept(dpi: u32, s: u32, t: u32)
    requires
        is_nearest(s, scale_percent(dpi)),
        t == 100 || t == 125 || t == 150 || t == 175 || t == 200 || t == 250 || t == 300,
    ensures
        s == 100 || s == 125 || s == 150 || s == 175 || s == 200 || s == 250 || s == 300,
        dpi * 100 == 96 * t ==> s == t,
        dpi <= 96 ==> s == 100,
        dpi >= 288 ==> s == 300,
{
    let c = scales();
    assert(c[0] == 100 && c[1] == 125 && c[2] == 150 && c[3] == 175 && c[4] == 200 && c[5] == 250
        && c[6] == 300);
}

/// A server is written by its address, with its port where that is not the usual
/// one.
pub proof fn law_servers_are_written_with_their_port(ip: Ipv4Addr, port: u16)
    ensures
        port == 3389 ==> target_text(ip, port) == address::dotted(ip),
        port != 3389 ==> exists|n: Seq<char>|
            target_text(ip, port) == #[trigger] (address::dotted(ip) + ":"@ + n)
                && number::number(n, 10) == Some(port as u32),
{
    number::law_decimal_reads_back(port as u32);
    let n = number::decimal(port as nat);
    if port != 3389 {
        assert(target_text(ip, port) == address::dotted(ip) + ":"@ + n);
    }
}

/// A line of the reply with the value's name, its type and its data gives the
/// data, with one blank between its words, whatever other values the lines before
/// it show. A failed query gives nothing.
pub proof fn law_registry_data_follows_name_and_type(
    o: Outcome,
    value: Seq<char>,
    kind: Seq<char>,
    data: Seq<Seq<char>>,
    at: int,
)
    requires
        data.len() > 0,
        o is Finished && o->success ==> {
            let lines = text::lines_of(text::decoded(o->stdout@));
            &&& 0 <= at < lines.len()
            &&& text::words_of(lines[at]) == seq![value, kind] + data
            &&& forall|j: int|
                0 <= j < at ==> text::words_of(#[trigger] lines[j]).len() == 0 || text::words_of(
                    lines[j],
                )[0] != value
        },
    ensures
        o is Finished && o->success ==> registry_value(o, value) == Some(
            search::joined(data, seq![' ']),
        ),
        o is Finished && o->success && data.len() == 1 ==> registry_value(o, value) == Some(
            data[0],
        ),
        !(o is Finished && o->success) ==> registry_value(o, value) is None,
{
    if o is Finished && o->success {
        let lines = text::lines_of(text::decoded(o->stdout@));
        let words = text::words_of(lines[at]);
        assert(shows(lines[at], value));
        lemma_registry_data_at(lines, value, at);
        reveal_strlit(" ");
        assert(" "@ =~= seq![' ']);
        assert(words.skip(2) =~= data);
    }
}

/// A number in the registry is hexadecimal after `0x` or `0X`, and decimal
/// otherwise, whatever white space is around it.
pub proof fn law_registry_numbers_have_two_forms(digits: Seq<char>)
    requires
        digits.len() > 0,
        forall|i: int| 0 <= i < digits.len() ==> !text::is_white_space(#[trigger] digits[i]),
    ensures
        reg_number(seq!['0', 'x'] + digits) == number::number(digits, 16),
        reg_number(seq!['0', 'X'] + digits) == number::number(digits, 16),
        reg_number(seq![' '] + (seq!['0', 'x'] + digits) + seq!['\r']) == number::number(
            digits,
            16,
        ),
        digits[0] != '0' ==> reg_number(digits) == number::number(digits, 10),
{
    reveal_strlit("0x");
    reveal_strlit("0X");
    let small = seq!['0', 'x'] + digits;
    let big = seq!['0', 'X'] + digits;
    assert(small.last() == digits.last());
    assert(big.last() == digits.last());
    text::lemma_trimmed_fixed(small);
    text::lemma_trimmed_fixed(big);
    text::lemma_trimmed_fixed(digits);
    text::law_white_space_around_does_not_matter(seq![' '], small, seq!['\r']);
    assert(small.take(2) =~= "0x"@);
    assert(big.take(2) =~= "0X"@);
    assert(small.skip(2) =~= digits);
    assert(big.skip(2) =~= digits);
    assert("0x"@[0] == '0' && "0X"@[0] == '0');
    if digits.len() >= 2 {
        assert(digits.take(2)[0] == digits[0]);
    }
}

/// Remote Desktop is on just when the value that denies connections can be read
/// and is zero.
pub proof fn law_rdp_is_on_when_nothing_is_denied(o: Outcome)
    ensures
        lets_in(o) <==> registry_value(o, "fDenyTSConnections"@) is Some && reg_number(
            registry_value(o, "fDenyTSConnections"@)->0,
        ) == Some(0u32),
{
}

/// From build 22000 on Windows 10 is Windows 11, and the rest of its name stays;
/// below it, and where the name is another, the name stays. An unknown build is
/// said to be one, and a known one is told with its revision.
pub proof fn law_the_system_is_named(
    before: Seq<char>,
    after: Seq<char>,
    name: Seq<char>,
    build: u32,
    revision: u32,
    display: Seq<char>,
)
    requires
        forall|j: int|
            0 <= j < before.len() ==> (before + "Windows 10"@ + after).subrange(
                j,
                #[trigger] (j + 10),
            ) != "Windows 10"@,
    ensures
        build >= 22000 ==> os_name_of(Some(before + "Windows 10"@ + after), build) == before
            + "Windows 11"@ + after,
        build < 22000 ==> os_name_of(Some(name), build) == name,
        !(exists|a: Seq<char>, b: Seq<char>| name == #[trigger] (a + "Windows 10"@ + b))
            ==> os_name_of(Some(name), build) == name,
        os_name_of(None, build) == "Windows"@,
        os_build_of(Some(display), 0, revision) == "unknown"@,
        build > 0 && display.len() == 0 ==> os_build_of(Some(display), build, revision)
            == os_build_of(None, build, revision),
        build > 0 ==> exists|b: Seq<char>, r: Seq<char>|
            number::number(b, 10) == Some(build) && number::number(r, 10) == Some(revision)
                && os_build_of(None, build, revision) == #[trigger] ("build "@ + b + "."@ + r) && (
            display.len() > 0 ==> os_build_of(Some(display), build, revision) == display + " ("@
                + ("build "@ + b + "."@ + r) + ")"@),
{
    reveal_strlit("Windows 10");
    let from = "Windows 10"@;
    assert forall|j: int| 0 <= j < before.len() implies (before + from + after).subrange(
        j,
        #[trigger] (j + from.len()),
    ) != from by {
        assert((before + from + after).subrange(j, j + 10) != from);
    }
    search::law_only_the_first_is_replaced(before, from, "Windows 11"@, after);
    search::law_held_texts_stand_between(name, from, "Windows 11"@);
    number::law_decimal_reads_back(build);
    number::law_decimal_reads_back(revision);
    let b = number::decimal(build as nat);
    let r = number::decimal(revision as nat);
    if build > 0 {
        assert(os_build_of(None, build, revision) == "build "@ + b + "."@ + r);
    }
}

/// Each detail of the machine comes from its own reading.
pub proof fn law_details_come_from_their_readings(r: Readings)
    ensures
        ({
            let info = info_of(r);
            let build = registry_value(r.current_build, "CurrentBuild"@);
            let revision = registry_value(r.ubr, "UBR"@);
            &&& r.computer_name is Some ==> info.hostname == r.computer_name->0@
            &&& r.computer_name is None ==> info.hostname == "UNKNOWN"@
            &&& info.username == r.username@
            &&& build is Some && number::number(text::trimmed(build->0), 10) is Some ==> {
                let b = number::number(text::trimmed(build->0), 10)->0;
                &&& info.os_name == os_name_of(
                    registry_value(r.product_name, "ProductName"@),
                    b,
                )
                &&& revision is Some && reg_number(revision->0) is Some ==> info.os_build
                    == os_build_of(
                    registry_value(r.display_version, "DisplayVersion"@),
                    b,
                    reg_number(revision->0)->0,
                )
                &&& revision is None || reg_number(revision->0) is None ==> info.os_build
                    == os_build_of(registry_value(r.display_version, "DisplayVersion"@), b, 0)
            }
            &&& build is None || number::number(text::trimmed(build->0), 10) is None
                ==> info.os_build == "unknown"@
            &&& r.processor is None ==> info.arch == "unknown"@
            &&& r.processor is Some && r.processor->0@ == "AMD64"@ ==> info.arch == "x64"@
            &&& r.processor is Some && r.processor->0@ != "AMD64"@ ==> info.arch
                == r.processor->0@
            &&& info.ip == super::shown_address(r.ip)
            &&& info.sharing_enabled <==> lets_in(r.deny_connections)
            &&& info.elevated <==> r.session is Finished && r.session->success
        }),
{
}

/// The program that is found is the first line of the reply to a successful
/// lookup, without white space around it; a failed one finds nothing.
pub proof fn law_the_first_match_is_found(
    o: Outcome,
    before: Seq<char>,
    path: Seq<char>,
    after: Seq<char>,
    rest: Seq<char>,
)
    requires
        forall|j: int|
            0 <= j < before.len() ==> text::is_white_space(#[trigger] before[j]) && before[j]
                != '\n',
        forall|j: int|
            0 <= j < after.len() ==> text::is_white_space(#[trigger] after[j]) && after[j] != '\n'
                && after[j] != '\r',
        path.len() > 0,
        !path.contains('\n'),
        !text::is_white_space(path[0]) && !text::is_white_space(path.last()),
        o is Finished && o->success ==> text::decoded(o->stdout@) == (before + path + after)
            + seq!['\r', '\n'] + rest,
    ensures
        o is Finished && o->success ==> first_match(o) == Some(path),
        !(o is Finished && o->success) ==> first_match(o) is None,
{
    let line = before + path + after;
    text::law_white_space_around_does_not_matter(before, path, after);
    if line.contains('\n') {
        let i = choose|i: int| 0 <= i < line.len() && line[i] == '\n';
        if i < before.len() {
            assert(before[i] == '\n');
        } else if i < before.len() + path.len() {
            assert(path[i - before.len()] == '\n');
        } else {
            assert(after[i - before.len() - path.len()] == '\n');
        }
    }
    assert(line.last() != '\r') by {
        if after.len() > 0 {
            assert(line.last() == after[after.len() - 1]);
        } else {
            assert(line.last() == path.last());
        }
    }
    text::law_line_feeds_end_lines(line, rest);
}

/// For VNC the usual viewers are looked for, on the path and where they install
/// themselves, and get the machine with the port; TightVNC comes last, with flags
/// of its own. Without any the user is told.
pub proof fn law_viewers_get_the_machine(ip: Ipv4Addr)
    ensures
        ({
            let v = viewers(ip);
            let usual = seq![address::dotted(ip) + "::5900"@];
            let tight = seq!["-host="@ + address::dotted(ip), "-port=5900"@];
            &&& v.len() == 5
            &&& v[0].place == PlaceModel::OnPath("vncviewer.exe"@) && v[0].args == usual
            &&& v[1].place is At && v[1].args == usual
            &&& v[2].place is At && v[2].args == usual
            &&& v[3].place == PlaceModel::OnPath("tvnviewer.exe"@) && v[3].args == tight
            &&& v[4].place is At && v[4].args == tight
            &&& viewer_search(ip) is Search
            &&& viewer_search(ip)->clients == v
            &&& viewer_search(ip)->otherwise is Missing
        }),
{
}

/// From what was entered to the session: the password is stored as it was entered
/// for the address, with the port where that is not the usual one, and for the
/// account without the white space around it. The file that is opened names the
/// same address and account.
pub proof fn law_sessions_use_what_was_entered(
    p: PlanModel,
    ip: Ipv4Addr,
    port: u16,
    before: Seq<char>,
    user: Seq<char>,
    after: Seq<char>,
    password: Seq<char>,
    fullscreen: bool,
    display: Display,
    server: Seq<char>,
    account: Seq<char>,
)
    requires
        forall|j: int| 0 <= j < before.len() ==> text::is_white_space(#[trigger] before[j]),
        forall|j: int| 0 <= j < after.len() ==> text::is_white_space(#[trigger] after[j]),
        user.len() > 0,
        !text::is_white_space(user[0]) && !text::is_white_space(user.last()),
        port == 3389 ==> server == address::dotted(ip),
        port != 3389 ==> server == address::dotted(ip) + seq![':'] + number::decimal(port as nat),
        user.contains('\\') || user.contains('@') ==> account == user,
        !user.contains('\\') && !user.contains('@') ==> account == seq!['.', '\\'] + user,
        is_launch(
            p,
            ip,
            port,
            before + user + after,
            password,
            fullscreen,
            Protocol::Rdp,
            display,
        ),
    ensures
        p is File,
        password.len() > 0 ==> p->credentials == Some(
            CommandModel {
                program: "cmdkey"@,
                args: seq![
                    "/generic:TERMSRV/"@ + server,
                    "/user:"@ + account,
                    "/pass:"@ + password,
                ],
            },
        ),
        password.len() == 0 ==> p->credentials is None,
        exists|rest: Seq<char>|
            p->contents == #[trigger] ("full address:s:"@ + server + "\r\nusername:s:"@ + account
                + "\r\nscreen mode id:i:"@ + rest),
{
    text::law_white_space_around_does_not_matter(before, user, after);
    reveal_strlit(":");
    assert(":"@ =~= seq![':']);
    assert(target_text(ip, port) == server);
    law_the_account_is_handed_over(p, server, user, password, fullscreen, display, account);
}

} // verus!
