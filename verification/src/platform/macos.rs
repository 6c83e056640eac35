//! macOS: built-in Screen Sharing (`open vnc://`) as the client, FreeRDP or the
//! `rdp://` scheme for Windows/Linux hosts, and guided host setup.
//!
//! A Mac cannot be made an unattended host: the user must approve Screen
//! Recording once (see `share`). Connecting *from* a Mac works with no extra
//! setup for VNC hosts.

use super::launch;
use super::launch::{
    Client, ClientModel, ClientSearch, LaunchPlan, Otherwise, OtherwiseModel, PlaceModel, PlanModel,
};
use super::share;
use super::share::{PlannedStep, StepModel};
use super::{CommandLine, CommandModel, NameQuery, Outcome, SystemInfo, SystemModel};
use crate::address;
use crate::address::Ipv4Addr;
use crate::protocol::Protocol;
use crate::search;
use crate::text;
use vstd::prelude::*;

verus! {

// ---------------------------------------------------------------------------
// System info
// ---------------------------------------------------------------------------

/// What is read of this machine.
pub struct Readings {
    /// What came of `scutil --get ComputerName`.
    pub computer_name: Outcome,
    /// What came of `hostname`, if it was needed.
    pub hostname: Option<Outcome>,
    /// What came of `sw_vers -productVersion`, which prints e.g. "14.5".
    pub product: Outcome,
    /// What came of `sw_vers -buildVersion`.
    pub build: Outcome,
    /// The current account name.
    pub username: String,
    /// The processor architecture, as the compiler names it.
    pub target_arch: String,
    /// The primary LAN address.
    pub ip: Option<Ipv4Addr>,
}

/// The machine's name: the one set for it, or what `hostname` prints.
pub open spec fn hostname_of(r: Readings) -> Seq<char> {
    if super::captured(r.computer_name).len() > 0 {
        super::captured(r.computer_name)
    } else {
        match r.hostname {
            Some(o) => super::captured(o),
            None => seq![],
        }
    }
}

/// A snapshot of the machine.
pub open spec fn info_of(r: Readings) -> SystemModel {
    let product = super::captured(r.product);
    let build = super::captured(r.build);
    SystemModel {
        hostname: hostname_of(r),
        username: r.username@,
        os_name: if product.len() == 0 {
            "macOS"@
        } else {
            "macOS "@ + product
        },
        os_build: if build.len() == 0 {
            "unknown"@
        } else {
            build
        },
        arch: super::shown_arch(r.target_arch@),
        ip: super::shown_address(r.ip),
        sharing_enabled: false,
        elevated: true,
    }
}

/// A snapshot of this machine. It always counts as elevated, so that the guided
/// sharing panel is shown.
pub fn system_info(readings: &Readings) -> (r: SystemInfo)
    ensures
        r@ == info_of(*readings),
{
    let name = super::capture(&readings.computer_name);
    let hostname = if name.as_str().is_empty() {
        match &readings.hostname {
            Some(o) => super::capture(o),
            None => String::new(),
        }
    } else {
        name
    };
    let product = super::capture(&readings.product);
    let os_name = if product.as_str().is_empty() {
        "macOS".to_string()
    } else {
        text::concat("macOS ", product.as_str())
    };
    let build = super::capture(&readings.build);
    let os_build = if build.as_str().is_empty() {
        "unknown".to_string()
    } else {
        build
    };
    SystemInfo {
        hostname,
        username: readings.username.clone(),
        os_name,
        os_build,
        arch: super::arch(readings.target_arch.as_str()),
        ip: super::show_address(readings.ip),
        sharing_enabled: false,
        elevated: true,
    }
}

/// The command that reopens the program with more rights: none is needed here.
pub fn relaunch_elevated() -> (r: Option<CommandLine>)
    ensures
        r is None,
{
    None
}

// ---------------------------------------------------------------------------
// Sharing
// ---------------------------------------------------------------------------

pub const KICKSTART: &'static str = "/System/Library/CoreServices/RemoteManagement/ARDAgent.app/Contents/Resources/kickstart";

pub const SET_PASSWORD: &'static str = " -configure -clientopts -setvnclegacy -vnclegacy yes -setvncpw -vncpw ";

pub const START_SERVICE: &'static str = " ; launchctl enable system/com.apple.screensharing ; launchctl bootstrap system /System/Library/LaunchDaemons/com.apple.screensharing.plist";

pub const PASSWORD_ADVICE: &'static str = "Enter a short password (max 8 characters) to connect with.";

pub const RECORDING_PANE: &'static str = "x-apple.systempreferences:com.apple.preference.security?Privacy_ScreenCapture";

pub const RECORDING_ADVICE: &'static str = "Opened System Settings \u{2192} Privacy & Security \u{2192} Screen Recording. Turn it on for Screen Sharing \u{2014} Apple requires this click; it can't be scripted.";

/// `t` with backslashes and double quotes escaped, as in an AppleScript string.
pub open spec fn escaped(t: Seq<char>) -> Seq<char> {
    search::all_replaced(search::all_replaced(t, '\\', "\\\\"@), '"', "\\\""@)
}

/// Legacy VNC passwords have at most 8 characters.
pub open spec fn legacy_password(password: Seq<char>) -> Seq<char> {
    if password.len() <= 8 {
        password
    } else {
        password.take(8)
    }
}

/// `t` as one word of a shell command: in single quotes, with each single quote
/// in it put between the quoted stretches.
pub open spec fn quoted(t: Seq<char>) -> Seq<char> {
    seq!['\''] + search::all_replaced(t, '\'', "'\\''"@) + seq!['\'']
}

/// The shell commands that set the password and start the service.
pub open spec fn sharing_commands(password: Seq<char>) -> Seq<char> {
    KICKSTART@ + SET_PASSWORD@ + quoted(legacy_password(password)) + START_SERVICE@
}

/// The AppleScript that runs the shell commands as administrator.
pub open spec fn as_administrator(commands: Seq<char>) -> Seq<char> {
    "do shell script \""@ + escaped(commands) + "\" with administrator privileges"@
}

/// The step that sets the password.
pub open spec fn password_step(password: Seq<char>) -> StepModel {
    if password.len() == 0 {
        StepModel::Advise { name: "Set a password"@, message: PASSWORD_ADVICE@, open: None }
    } else {
        StepModel::Run {
            name: "Enable Screen Sharing and set the password"@,
            command: CommandModel {
                program: "osascript"@,
                args: seq!["-e"@, as_administrator(sharing_commands(password))],
            },
            tolerate: None,
        }
    }
}

/// The one thing only a human can do: grant Screen Recording in Settings.
pub open spec fn recording_step() -> StepModel {
    StepModel::Advise {
        name: "Allow Screen Recording (one-time click in Settings)"@,
        message: RECORDING_ADVICE@,
        open: Some(CommandModel { program: "open"@, args: seq![RECORDING_PANE@] }),
    }
}

fn plan_password(password: &str) -> (r: PlannedStep)
    ensures
        r@ == password_step(password@),
{
    if password.is_empty() {
        return share::advise_step("Set a password", PASSWORD_ADVICE, None);
    }
    let n = password.unicode_len();
    let pw = if n <= 8 {
        password
    } else {
        password.substring_char(0, 8)
    };
    let mut commands = text::concat(KICKSTART, SET_PASSWORD);
    commands.append("'");
    commands.append(search::replace_char(pw, '\'', "'\\''").as_str());
    commands.append("'");
    commands.append(START_SERVICE);
    let doubled = search::replace_char(commands.as_str(), '\\', "\\\\");
    let quoted = search::replace_char(doubled.as_str(), '"', "\\\"");
    let mut script = text::concat("do shell script \"", quoted.as_str());
    script.append("\" with administrator privileges");
    proof {
        reveal_strlit("'");
        assert(pw@ =~= legacy_password(password@));
        assert("'"@ =~= seq!['\'']);
        assert(commands@ =~= sharing_commands(password@));
    }
    let command = super::command("osascript", &["-e", script.as_str()]);
    proof {
        assert(command@.args =~= seq!["-e"@, script@]);
    }
    share::run_step("Enable Screen Sharing and set the password", command)
}

/// The steps to share this Mac over VNC. Guided: one privileged step (a single
/// admin prompt) sets the password and starts the service, then the user is
/// shown where to approve Screen Recording.
pub fn share(username: &str, password: &str) -> (r: Vec<PlannedStep>)
    ensures
        share::models(r@) == seq![password_step(password@), recording_step()],
{
    let open = super::command("open", &[RECORDING_PANE]);
    proof {
        assert(open@.args =~= seq![RECORDING_PANE@]);
    }
    let mut r: Vec<PlannedStep> = Vec::new();
    r.push(plan_password(password));
    r.push(
        share::advise_step(
            "Allow Screen Recording (one-time click in Settings)",
            RECORDING_ADVICE,
            Some(open),
        ),
    );
    proof {
        assert(share::models(r@) =~= seq![password_step(password@), recording_step()]);
    }
    r
}

// ---------------------------------------------------------------------------
// Connecting
// ---------------------------------------------------------------------------

pub const NO_RDP_CLIENT: &'static str = "No RDP client found. Install one with:  brew install freerdp";

/// The address of a VNC session; credentials may be embedded in it.
pub open spec fn vnc_url(ip: Ipv4Addr, user: Seq<char>, password: Seq<char>) -> Seq<char> {
    "vnc://"@ + (if user.len() == 0 {
        seq![]
    } else if password.len() == 0 {
        user + "@"@
    } else {
        user + ":"@ + password + "@"@
    }) + address::dotted(ip)
}

/// The arguments for FreeRDP, which can pre-fill the password.
pub open spec fn freerdp_args(ip: Ipv4Addr, user: Seq<char>, password: Seq<char>) -> Seq<
    Seq<char>,
> {
    seq!["/v:"@ + address::dotted(ip) + ":3389"@, "/cert:ignore"@] + launch::optional_arg(
        "/u:"@,
        user,
    ) + launch::optional_arg("/p:"@, password)
}

/// The address of an RDP session; it takes no password.
pub open spec fn rdp_url(ip: Ipv4Addr, user: Seq<char>) -> Seq<char> {
    "rdp://full%20address=s:"@ + address::dotted(ip) + ":3389"@ + (if user.len() == 0 {
        seq![]
    } else {
        "&username=s:"@ + user
    })
}

/// How to open a session.
pub open spec fn launch_of(
    ip: Ipv4Addr,
    username: Seq<char>,
    password: Seq<char>,
    protocol: Protocol,
) -> PlanModel {
    let user = text::trimmed(username);
    match protocol {
        Protocol::Vnc => PlanModel::Search {
            clients: seq![],
            otherwise: OtherwiseModel::Start(
                CommandModel { program: "open"@, args: seq![vnc_url(ip, user, password)] },
            ),
        },
        Protocol::Rdp => PlanModel::Search {
            clients: seq![
                ClientModel {
                    place: PlaceModel::OnPath("sdl-freerdp"@),
                    args: freerdp_args(ip, user, password),
                },
                ClientModel {
                    place: PlaceModel::OnPath("xfreerdp"@),
                    args: freerdp_args(ip, user, password),
                },
            ],
            otherwise: OtherwiseModel::Open {
                command: CommandModel { program: "open"@, args: seq![rdp_url(ip, user)] },
                message: NO_RDP_CLIENT@,
            },
        },
    }
}

fn freerdp(bin: &str, ip: Ipv4Addr, user: &str, password: &str) -> (r: Client)
    ensures
        r@ == (ClientModel {
            place: PlaceModel::OnPath(bin@),
            args: freerdp_args(ip, user@, password@),
        }),
{
    let mut target = text::concat("/v:", ip.to_string().as_str());
    target.append(":3389");
    let account = text::concat("/u:", user);
    let secret = text::concat("/p:", password);
    let mut args: Vec<String> = Vec::new();
    args.push(target);
    args.push("/cert:ignore".to_string());
    if !user.is_empty() {
        args.push(account);
    }
    if !password.is_empty() {
        args.push(secret);
    }
    proof {
        assert(text::texts(args@) =~= freerdp_args(ip, user@, password@));
    }
    Client { place: launch::Place::OnPath(bin.to_string()), args }
}

/// How to open a session: Screen Sharing for VNC; for RDP FreeRDP, or else
/// whatever handles the `rdp://` scheme. The port and the window size are left
/// to the client.
pub fn launch(
    ip: Ipv4Addr,
    port: u16,
    username: &str,
    password: &str,
    fullscreen: bool,
    protocol: Protocol,
) -> (r: LaunchPlan)
    ensures
        r@ == launch_of(ip, username@, password@, protocol),
{
    let user = text::trim(username);
    let host = ip.to_string();
    let mut clients: Vec<Client> = Vec::new();
    match protocol {
        Protocol::Vnc => {
            let mut url = "vnc://".to_string();
            if !user.is_empty() {
                url.append(user);
                if !password.is_empty() {
                    url.append(":");
                    url.append(password);
                }
                url.append("@");
            }
            url.append(host.as_str());
            let open = super::command("open", &[url.as_str()]);
            let plan = LaunchPlan::Search(
                ClientSearch { clients, otherwise: Otherwise::Start(open) },
            );
            proof {
                assert(url@ =~= vnc_url(ip, user@, password@));
                assert(open@.args =~= seq![url@]);
                assert(plan@->clients =~= seq![]);
            }
            plan
        },
        Protocol::Rdp => {
            clients.push(freerdp("sdl-freerdp", ip, user, password));
            clients.push(freerdp("xfreerdp", ip, user, password));
            let mut url = text::concat("rdp://full%20address=s:", host.as_str());
            url.append(":3389");
            if !user.is_empty() {
                url.append("&username=s:");
                url.append(user);
            }
            let open = super::command("open", &[url.as_str()]);
            let otherwise = Otherwise::Open { command: open, message: NO_RDP_CLIENT.to_string() };
            let plan = LaunchPlan::Search(ClientSearch { clients, otherwise });
            proof {
                assert(url@ =~= rdp_url(ip, user@));
                assert(open@.args =~= seq![url@]);
                assert(plan@->clients =~= launch_of(ip, username@, password@, protocol)->clients);
            }
            plan
        },
    }
}

/// How to ask a machine for its real name: there is no way here, and the address
/// is shown.
pub fn remote_name(ip: Ipv4Addr, protocol: Protocol) -> (r: Option<NameQuery>)
    ensures
        r is None,
{
    None
}

// ---------------------------------------------------------------------------
// Laws
// ---------------------------------------------------------------------------

/// The text of a string literal whose opening quote stands before `s`, and what
/// follows its closing quote. A backslash takes the next character as it is.
pub open spec fn literal(s: Seq<char>) -> Option<(Seq<char>, Seq<char>)>
    decreases s.len(),
{
    if s.len() == 0 {
        None
    } else if s[0] == '"' {
        Some((seq![], s.skip(1)))
    } else if s[0] == '\\' {
        if s.len() < 2 {
            None
        } else {
            match literal(s.skip(2)) {
                Some((t, rest)) => Some((seq![s[1]] + t, rest)),
                None => None,
            }
        }
    } else {
        match literal(s.skip(1)) {
            Some((t, rest)) => Some((seq![s[0]] + t, rest)),
            None => None,
        }
    }
}

proof fn lemma_replaced_sum(a: Seq<char>, b: Seq<char>, c: char, to: Seq<char>)
    ensures
        search::all_replaced(a + b, c, to) == search::all_replaced(a, c, to)
            + search::all_replaced(b, c, to),
    decreases b.len(),
{
    let all = a + b;
    if b.len() == 0 {
        assert(all =~= a);
        assert(search::all_replaced(a, c, to) + search::all_replaced(b, c, to)
            =~= search::all_replaced(a, c, to));
    } else {
        lemma_replaced_sum(a, b.drop_last(), c, to);
        assert(all.drop_last() =~= a + b.drop_last());
        assert(search::all_replaced(all, c, to) =~= search::all_replaced(a, c, to)
            + search::all_replaced(b, c, to));
    }
}

proof fn lemma_replaced_one(x: char, c: char, to: Seq<char>)
    ensures
        search::all_replaced(seq![x], c, to) == (if x == c {
            to
        } else {
            seq![x]
        }),
{
    let one = seq![x];
    assert(one.drop_last() =~= seq![]);
    assert(search::all_replaced(one.drop_last(), c, to) =~= seq![]);
    assert(search::all_replaced(one, c, to) =~= (if x == c {
        to
    } else {
        one
    }));
}

/// One character, escaped.
spec fn escaped_char(x: char) -> Seq<char> {
    if x == '\\' {
        seq!['\\', '\\']
    } else if x == '"' {
        seq!['\\', '"']
    } else {
        seq![x]
    }
}

proof fn lemma_escaped_front(x: char, t: Seq<char>)
    ensures
        escaped(seq![x] + t) == escaped_char(x) + escaped(t),
{
    reveal_strlit("\\\\");
    reveal_strlit("\\\"");
    let backslashes = "\\\\"@;
    let quote = "\\\""@;
    assert(backslashes =~= seq!['\\'] + seq!['\\']);
    assert(quote =~= seq!['\\', '"']);
    let one = search::all_replaced(seq![x], '\\', backslashes);
    lemma_replaced_sum(seq![x], t, '\\', backslashes);
    lemma_replaced_one(x, '\\', backslashes);
    lemma_replaced_sum(one, search::all_replaced(t, '\\', backslashes), '"', quote);
    if x == '\\' {
        lemma_replaced_sum(seq!['\\'], seq!['\\'], '"', quote);
        lemma_replaced_one('\\', '"', quote);
        assert(seq!['\\'] + seq!['\\'] =~= escaped_char(x));
    } else {
        lemma_replaced_one(x, '"', quote);
    }
}

/// Read as a string literal, the escaped text gives back the text and ends just
/// where it was closed: no password can end the literal early.
pub proof fn law_escaped_text_reads_back(t: Seq<char>, rest: Seq<char>)
    ensures
        literal(escaped(t) + seq!['"'] + rest) == Some((t, rest)),
    decreases t.len(),
{
    let s = escaped(t) + seq!['"'] + rest;
    if t.len() == 0 {
        reveal_strlit("\\\\");
        assert(escaped(t) =~= seq![]);
        assert(s.skip(1) =~= rest);
        assert(t =~= seq![]);
    } else {
        let tail = t.drop_first();
        let e = escaped_char(t[0]);
        let after = escaped(tail) + seq!['"'] + rest;
        law_escaped_text_reads_back(tail, rest);
        assert(t =~= seq![t[0]] + tail);
        lemma_escaped_front(t[0], tail);
        assert(s =~= e + after);
        assert(s.skip(e.len() as int) =~= after);
    }
}

/// A character that stands for itself in a word of a shell command.
pub open spec fn is_plain(c: char) -> bool {
    ||| 'a' <= c <= 'z'
    ||| 'A' <= c <= 'Z'
    ||| '0' <= c <= '9'
    ||| c == '-' || c == '_' || c == '.' || c == '/'
}

/// The word of a shell command that `s` starts with, and what follows it; `open`
/// says whether a single quote stands open. Outside single quotes a backslash
/// takes the next character as it is, and a blank or `;` ends the word. Where
/// anything else than a plain character stands there, no word is read.
pub open spec fn shell_word(s: Seq<char>, open: bool) -> Option<(Seq<char>, Seq<char>)>
    decreases s.len(),
{
    if s.len() == 0 {
        if open {
            None
        } else {
            Some((seq![], s))
        }
    } else if s[0] == '\'' {
        shell_word(s.skip(1), !open)
    } else if open || is_plain(s[0]) {
        match shell_word(s.skip(1), open) {
            Some((t, rest)) => Some((seq![s[0]] + t, rest)),
            None => None,
        }
    } else if s[0] == ' ' || s[0] == ';' {
        Some((seq![], s))
    } else if s[0] == '\\' && s.len() > 1 && s[1] != '\n' {
        match shell_word(s.skip(2), false) {
            Some((t, rest)) => Some((seq![s[1]] + t, rest)),
            None => None,
        }
    } else {
        None
    }
}

/// What stands between the quotes is read as the text, up to the closing quote.
proof fn lemma_quoted_inside(t: Seq<char>, rest: Seq<char>)
    requires
        rest.len() > 0,
        rest[0] == ' ',
    ensures
        shell_word(search::all_replaced(t, '\'', "'\\''"@) + seq!['\''] + rest, true) == Some(
            (t, rest),
        ),
    decreases t.len(),
{
    reveal_strlit("'\\''");
    let gap = "'\\''"@;
    let s = search::all_replaced(t, '\'', gap) + seq!['\''] + rest;
    if t.len() == 0 {
        assert(s =~= seq!['\''] + rest);
        assert(s.skip(1) =~= rest);
        assert(t =~= seq![]);
        assert(shell_word(rest, false) == Some((t, rest)));
        assert(shell_word(s, true) == shell_word(rest, false));
    } else {
        let tail = t.drop_first();
        let after = search::all_replaced(tail, '\'', gap) + seq!['\''] + rest;
        lemma_quoted_inside(tail, rest);
        assert(t =~= seq![t[0]] + tail);
        lemma_replaced_sum(seq![t[0]], tail, '\'', gap);
        lemma_replaced_one(t[0], '\'', gap);
        if t[0] == '\'' {
            assert(s =~= gap + after);
            assert(gap =~= seq!['\'', '\\', '\'', '\'']);
            let escape = s.skip(1);
            let reopen = escape.skip(2);
            assert(escape[0] == '\\' && escape[1] == '\'');
            assert(reopen[0] == '\'');
            assert(reopen.skip(1) =~= after);
            assert(shell_word(reopen, false) == Some((tail, rest)));
            assert(shell_word(escape, false) == Some((seq!['\''] + tail, rest)));
            assert(shell_word(s, true) == shell_word(escape, false));
        } else {
            assert(s =~= seq![t[0]] + after);
            assert(s.skip(1) =~= after);
        }
    }
}

/// A quoted text is read back by the shell as one word, whatever it holds.
pub proof fn law_quoted_text_is_one_word(t: Seq<char>, rest: Seq<char>)
    requires
        rest.len() > 0,
        rest[0] == ' ',
    ensures
        shell_word(quoted(t) + rest, false) == Some((t, rest)),
{
    let inside = search::all_replaced(t, '\'', "'\\''"@) + seq!['\''] + rest;
    lemma_quoted_inside(t, rest);
    assert((quoted(t) + rest).skip(1) =~= inside);
}

/// The password that is set is the one given, cut to its first 8 characters: the
/// commands in the script are the shell commands, and what the shell reads after
/// `-vncpw` is that password and nothing else.
pub proof fn law_password_is_set_as_given(password: Seq<char>)
    ensures
        ({
            let commands = sharing_commands(password);
            let script = as_administrator(commands);
            let before = KICKSTART@ + SET_PASSWORD@;
            &&& literal(script.skip("do shell script \""@.len() as int)) == Some(
                (commands, " with administrator privileges"@),
            )
            &&& commands.take(before.len() as int) == before
            &&& shell_word(commands.skip(before.len() as int), false) == Some(
                (legacy_password(password), START_SERVICE@),
            )
        }),
{
    reveal_strlit("do shell script \"");
    reveal_strlit("\" with administrator privileges");
    reveal_strlit(" with administrator privileges");
    reveal_strlit(
        " ; launchctl enable system/com.apple.screensharing ; launchctl bootstrap system /System/Library/LaunchDaemons/com.apple.screensharing.plist",
    );
    let commands = sharing_commands(password);
    let script = as_administrator(commands);
    let end = " with administrator privileges"@;
    let before = KICKSTART@ + SET_PASSWORD@;
    let word = quoted(legacy_password(password));
    law_escaped_text_reads_back(commands, end);
    assert("\" with administrator privileges"@ =~= seq!['"'] + end);
    assert(script.skip("do shell script \""@.len() as int) =~= escaped(commands) + seq!['"'] + end);
    law_quoted_text_is_one_word(legacy_password(password), START_SERVICE@);
    assert(commands.take(before.len() as int) =~= before);
    assert(commands.skip(before.len() as int) =~= word + START_SERVICE@);
}

/// What the shell reads as the password is the one given, character by character,
/// up to eight of them.
pub proof fn law_first_eight_characters_are_set(password: Seq<char>)
    ensures
        ({
            let commands = sharing_commands(password);
            let before = KICKSTART@ + SET_PASSWORD@;
            let read = shell_word(commands.skip(before.len() as int), false);
            &&& read is Some
            &&& (read->0).1 == START_SERVICE@
            &&& (read->0).0.len() == (if password.len() < 8 {
                password.len() as int
            } else {
                8
            })
            &&& forall|i: int|
                0 <= i < password.len() && i < 8 ==> #[trigger] (read->0).0[i] == password[i]
        }),
{
    law_password_is_set_as_given(password);
}

/// A password makes sharing one privileged script, which runs the commands that
/// set it; without one the user is asked for it. Either way the user is then shown
/// the one setting that only they can change.
pub proof fn law_sharing_asks_for_a_password(password: Seq<char>)
    ensures
        password.len() == 0 ==> password_step(password) is Advise,
        password.len() > 0 ==> {
            let step = password_step(password);
            &&& step is Run && step->tolerate is None
            &&& step->command.program == "osascript"@
            &&& step->command.args == seq![
                "-e"@,
                "do shell script \""@ + escaped(sharing_commands(password))
                    + "\" with administrator privileges"@,
            ]
        },
        recording_step() is Advise,
        recording_step()->open is Some,
        recording_step()->open->0.program == "open"@,
{
}

/// Each detail of the machine comes from its own reading. The host name counts
/// only where no computer name is set; sharing counts as off and the rights as
/// sufficient.
pub proof fn law_details_come_from_their_readings(r: Readings)
    ensures
        ({
            let info = info_of(r);
            &&& super::captured(r.computer_name).len() > 0 ==> info.hostname == super::captured(
                r.computer_name,
            )
            &&& super::captured(r.computer_name).len() == 0 && r.hostname is Some
                ==> info.hostname == super::captured(r.hostname->0)
            &&& super::captured(r.computer_name).len() == 0 && r.hostname is None
                ==> info.hostname.len() == 0
            &&& info.username == r.username@
            &&& super::captured(r.product).len() > 0 ==> info.os_name == "macOS "@
                + super::captured(r.product)
            &&& super::captured(r.product).len() == 0 ==> info.os_name == "macOS"@
            &&& super::captured(r.build).len() > 0 ==> info.os_build == super::captured(r.build)
            &&& super::captured(r.build).len() == 0 ==> info.os_build == "unknown"@
            &&& info.arch == super::shown_arch(r.target_arch@)
            &&& info.ip == super::shown_address(r.ip)
            &&& !info.sharing_enabled && info.elevated
        }),
{
}

/// For VNC Screen Sharing is opened with the machine and, where they were typed,
/// the account and the password. For RDP FreeRDP gets all three, and without it the
/// machine and the account are opened. Each is handed over to the letter.
#[verifier::rlimit(40)]
pub proof fn law_clients_get_the_sign_in(
    ip: Ipv4Addr,
    before: Seq<char>,
    user: Seq<char>,
    after: Seq<char>,
    password: Seq<char>,
)
    requires
        forall|j: int| 0 <= j < before.len() ==> text::is_white_space(#[trigger] before[j]),
        forall|j: int| 0 <= j < after.len() ==> text::is_white_space(#[trigger] after[j]),
        user.len() > 0 ==> !text::is_white_space(user[0]) && !text::is_white_space(user.last()),
    ensures
        ({
            let rdp = launch_of(ip, before + user + after, password, Protocol::Rdp);
            let vnc = launch_of(ip, before + user + after, password, Protocol::Vnc);
            let host = address::dotted(ip);
            let free = seq!["/v:"@ + host + ":3389"@, "/cert:ignore"@] + (if user.len() > 0 {
                seq!["/u:"@ + user]
            } else {
                seq![]
            }) + (if password.len() > 0 {
                seq!["/p:"@ + password]
            } else {
                seq![]
            });
            &&& vnc is Search && vnc->clients.len() == 0
            &&& vnc->otherwise is Start
            &&& vnc->otherwise->0.program == "open"@
            &&& user.len() == 0 ==> vnc->otherwise->0.args == seq!["vnc://"@ + host]
            &&& user.len() > 0 && password.len() == 0 ==> vnc->otherwise->0.args == seq![
                "vnc://"@ + user + "@"@ + host,
            ]
            &&& user.len() > 0 && password.len() > 0 ==> vnc->otherwise->0.args == seq![
                "vnc://"@ + user + ":"@ + password + "@"@ + host,
            ]
            &&& rdp is Search && rdp->clients.len() == 2
            &&& rdp->clients[0].place == PlaceModel::OnPath("sdl-freerdp"@)
            &&& rdp->clients[0].args == free
            &&& rdp->clients[1].place == PlaceModel::OnPath("xfreerdp"@)
            &&& rdp->clients[1].args == free
            &&& rdp->otherwise is Open
            &&& rdp->otherwise->command.program == "open"@
            &&& user.len() == 0 ==> rdp->otherwise->command.args == seq![
                "rdp://full%20address=s:"@ + host + ":3389"@,
            ]
            &&& user.len() > 0 ==> rdp->otherwise->command.args == seq![
                "rdp://full%20address=s:"@ + host + ":3389&username=s:"@ + user,
            ]
        }),
{
    text::law_white_space_around_does_not_matter(before, user, after);
    let host = address::dotted(ip);
    let bare = seq!["vnc://"@ + host];
    assert("vnc://"@ + seq![] + host =~= "vnc://"@ + host);
    assert("vnc://"@ + (user + "@"@) + host =~= "vnc://"@ + user + "@"@ + host);
    assert("vnc://"@ + (user + ":"@ + password + "@"@) + host =~= "vnc://"@ + user + ":"@
        + password + "@"@ + host);
    let start = "rdp://full%20address=s:"@ + host + ":3389"@;
    assert(start + seq![] =~= start);
    reveal_strlit(":3389");
    reveal_strlit("&username=s:");
    reveal_strlit(":3389&username=s:");
    assert(":3389"@ + "&username=s:"@ =~= ":3389&username=s:"@);
    assert(start + ("&username=s:"@ + user) =~= "rdp://full%20address=s:"@ + host + (":3389"@
        + "&username=s:"@) + user);
}

} // verus!
