//! What the system layer needs decided: which commands to run, and what their
//! outcomes mean. Each of the three systems has a module of its own.

pub mod launch;
pub mod linux;
pub mod macos;
pub mod share;
pub mod windows;

use crate::text;
use vstd::prelude::*;

verus! {

// ---------------------------------------------------------------------------
// Commands
// ---------------------------------------------------------------------------

/// A program and its arguments.
pub struct CommandLine {
    pub program: String,
    pub args: Vec<String>,
}

/// What a [`CommandLine`] holds, as text.
#[verifier::ext_equal]
pub struct CommandModel {
    pub program: Seq<char>,
    pub args: Seq<Seq<char>>,
}

impl View for CommandLine {
    type V = CommandModel;

    open spec fn view(&self) -> CommandModel {
        CommandModel { program: self.program@, args: text::texts(self.args@) }
    }
}

/// What an optional command holds.
pub open spec fn optional_command(c: Option<CommandLine>) -> Option<CommandModel> {
    match c {
        Some(c) => Some(c@),
        None => None,
    }
}

/// Owned copies of the texts.
pub fn owned(v: &[&str]) -> (r: Vec<String>)
    ensures
        text::texts(r@) == text::slices(v@),
{
    let mut r: Vec<String> = Vec::new();
    for i in 0..v.len()
        invariant
            r.len() == i,
            forall|j: int| 0 <= j < i ==> r@[j]@ == v@[j]@,
    {
        r.push(v[i].to_string());
    }
    assert(text::texts(r@) =~= text::slices(v@));
    r
}

/// The command that runs `program` with `args`.
pub fn command(program: &str, args: &[&str]) -> (r: CommandLine)
    ensures
        r@ == (CommandModel { program: program@, args: text::slices(args@) }),
{
    CommandLine { program: program.to_string(), args: owned(args) }
}

/// What came of running a command to its end.
pub enum Outcome {
    /// It ran: whether it reported success, how its exit status reads, and what
    /// it wrote.
    Finished { success: bool, status: String, stdout: Vec<u8>, stderr: Vec<u8> },
    /// It could not be run, for the reason given.
    Failed(String),
}

/// The command ran and reported success.
pub open spec fn succeeds(o: Outcome) -> bool {
    match o {
        Outcome::Finished { success, .. } => success,
        Outcome::Failed(_) => false,
    }
}

/// Did the command run and report success?
pub fn succeeded(outcome: &Outcome) -> (r: bool)
    ensures
        r == succeeds(*outcome),
{
    match outcome {
        Outcome::Finished { success, .. } => *success,
        Outcome::Failed(_) => false,
    }
}

/// Why the command counts as failed: what it wrote to its error output, or its
/// exit status where that is blank, or why it could not be run.
pub open spec fn failure(program: Seq<char>, o: Outcome) -> Seq<char> {
    match o {
        Outcome::Finished { status, stderr, .. } => {
            let msg = text::trimmed(text::decoded(stderr@));
            if msg.len() == 0 {
                program + " exited with status "@ + status@
            } else {
                msg
            }
        },
        Outcome::Failed(reason) => reason@,
    }
}

/// What a result holds, with its message as text.
pub open spec fn result(r: Result<(), String>) -> Result<(), Seq<char>> {
    match r {
        Ok(()) => Ok(()),
        Err(e) => Err(e@),
    }
}

/// The result of running `program`, by its outcome.
pub open spec fn run_result(program: Seq<char>, o: Outcome) -> Result<(), Seq<char>> {
    if succeeds(o) {
        Ok(())
    } else {
        Err(failure(program, o))
    }
}

/// The message for error output that reads `message`, or for an exit status.
pub fn failure_message(program: &str, message: &str, status: &str) -> (r: String)
    ensures
        r@ == (if text::trimmed(message@).len() == 0 {
            program@ + " exited with status "@ + status@
        } else {
            text::trimmed(message@)
        }),
{
    let msg = text::trim(message);
    if msg.is_empty() {
        let mut s = program.to_string();
        s.append(" exited with status ");
        s.append(status);
        s
    } else {
        msg.to_string()
    }
}

/// Maps the outcome of a console helper: a non-zero exit becomes a readable
/// error.
pub fn run(program: &str, outcome: &Outcome) -> (r: Result<(), String>)
    ensures
        result(r) == run_result(program@, *outcome),
{
    match outcome {
        Outcome::Finished { success, status, stderr, .. } => {
            if *success {
                Ok(())
            } else {
                let message = text::decode(stderr.as_slice());
                Err(failure_message(program, message.as_str(), status.as_str()))
            }
        },
        Outcome::Failed(reason) => Err(reason.clone()),
    }
}

/// What the command wrote to its output, trimmed, whatever its exit status;
/// nothing if it could not run.
pub open spec fn printed(o: Outcome) -> Seq<char> {
    match o {
        Outcome::Finished { stdout, .. } => text::trimmed(text::decoded(stdout@)),
        Outcome::Failed(_) => seq![],
    }
}

/// What the command wrote to its output, trimmed; nothing on failure.
pub open spec fn captured(o: Outcome) -> Seq<char> {
    if succeeds(o) {
        printed(o)
    } else {
        seq![]
    }
}

fn output_of(outcome: &Outcome) -> (r: String)
    ensures
        r@ == printed(*outcome),
{
    match outcome {
        Outcome::Finished { stdout, .. } => {
            let s = text::decode(stdout.as_slice());
            text::trim(s.as_str()).to_string()
        },
        Outcome::Failed(_) => String::new(),
    }
}

/// Captures a command's trimmed stdout (empty on failure).
pub fn capture(outcome: &Outcome) -> (r: String)
    ensures
        r@ == captured(*outcome),
{
    if succeeded(outcome) {
        output_of(outcome)
    } else {
        String::new()
    }
}

/// A script that asks a machine for its real name.
pub struct NameQuery {
    /// The script's file name, in the directory for temporary files.
    pub file_name: String,
    pub script: String,
    /// The command that runs the script; the file's path is one more argument.
    pub command: CommandLine,
}

/// The name in the reply to a [`NameQuery`]. The script's exit status does not
/// matter.
pub fn reply_name(outcome: &Outcome) -> (r: Option<String>)
    ensures
        text::optional(r) == (if printed(*outcome).len() == 0 {
            None
        } else {
            Some(printed(*outcome))
        }),
{
    let name = output_of(outcome);
    if name.as_str().is_empty() {
        None
    } else {
        Some(name)
    }
}

// ---------------------------------------------------------------------------
// System info
// ---------------------------------------------------------------------------

/// A human-friendly snapshot of this machine, shown in the "This PC" view.
pub struct SystemInfo {
    pub hostname: String,
    pub username: String,
    /// e.g. "Windows 11 Pro", "macOS 14.5", "Ubuntu 24.04 LTS".
    pub os_name: String,
    /// e.g. "23H2 (build 22631.3447)", build number, or kernel.
    pub os_build: String,
    /// e.g. "x64", "ARM64".
    pub arch: String,
    /// Primary LAN IPv4, or "(no network)".
    pub ip: String,
    /// Is this machine currently shareable (RDP/VNC host enabled)?
    pub sharing_enabled: bool,
    /// Are we running with the privileges needed to change sharing settings?
    pub elevated: bool,
}

/// What a [`SystemInfo`] holds, as text.
#[verifier::ext_equal]
pub struct SystemModel {
    pub hostname: Seq<char>,
    pub username: Seq<char>,
    pub os_name: Seq<char>,
    pub os_build: Seq<char>,
    pub arch: Seq<char>,
    pub ip: Seq<char>,
    pub sharing_enabled: bool,
    pub elevated: bool,
}

impl View for SystemInfo {
    type V = SystemModel;

    open spec fn view(&self) -> SystemModel {
        SystemModel {
            hostname: self.hostname@,
            username: self.username@,
            os_name: self.os_name@,
            os_build: self.os_build@,
            arch: self.arch@,
            ip: self.ip@,
            sharing_enabled: self.sharing_enabled,
            elevated: self.elevated,
        }
    }
}

/// How the primary address is shown.
pub open spec fn shown_address(ip: Option<crate::address::Ipv4Addr>) -> Seq<char> {
    match ip {
        Some(ip) => crate::address::dotted(ip),
        None => "(no network)"@,
    }
}

/// How the primary address is shown.
pub fn show_address(ip: Option<crate::address::Ipv4Addr>) -> (r: String)
    ensures
        r@ == shown_address(ip),
{
    match ip {
        Some(ip) => ip.to_string(),
        None => "(no network)".to_string(),
    }
}

/// How the processor architecture, as the compiler names it, is shown.
pub open spec fn shown_arch(arch: Seq<char>) -> Seq<char> {
    if arch == "x86_64"@ {
        "x64"@
    } else if arch == "aarch64"@ {
        "ARM64"@
    } else {
        arch
    }
}

/// How the processor architecture, as the compiler names it, is shown.
pub fn arch(target: &str) -> (r: String)
    ensures
        r@ == shown_arch(target@),
{
    if text::equal(target, "x86_64") {
        "x64".to_string()
    } else if text::equal(target, "aarch64") {
        "ARM64".to_string()
    } else {
        target.to_string()
    }
}

// ---------------------------------------------------------------------------
// Laws
// ---------------------------------------------------------------------------

/// A command that reported success is one, and no other outcome is. A failure is
/// told by what stands in the error output between the white space around it; by
/// the program and its exit status where that is blank; or by why it could not be
/// run.
pub proof fn law_failures_are_told(
    program: Seq<char>,
    o: Outcome,
    before: Seq<char>,
    message: Seq<char>,
    after: Seq<char>,
)
    requires
        forall|j: int| 0 <= j < before.len() ==> text::is_white_space(#[trigger] before[j]),
        forall|j: int| 0 <= j < after.len() ==> text::is_white_space(#[trigger] after[j]),
        message.len() > 0 ==> !text::is_white_space(message[0]) && !text::is_white_space(
            message.last(),
        ),
        o is Finished ==> text::decoded(o->stderr@) == before + message + after,
    ensures
        run_result(program, o) is Ok <==> o is Finished && o->success,
        o is Finished && !o->success && message.len() > 0 ==> run_result(program, o) == Err::<
            (),
            Seq<char>,
        >(message),
        o is Finished && !o->success && message.len() == 0 ==> run_result(program, o) == Err::<
            (),
            Seq<char>,
        >(program + " exited with status "@ + o->status@),
        o is Failed ==> run_result(program, o) == Err::<(), Seq<char>>(o->0@),
{
    text::law_white_space_around_does_not_matter(before, message, after);
}

/// What is captured of a command that succeeded is its output between the white
/// space around it, to the letter; of any other, nothing. A reply is read whatever
/// the exit status.
pub proof fn law_output_is_captured_on_success(
    o: Outcome,
    before: Seq<char>,
    output: Seq<char>,
    after: Seq<char>,
)
    requires
        forall|j: int| 0 <= j < before.len() ==> text::is_white_space(#[trigger] before[j]),
        forall|j: int| 0 <= j < after.len() ==> text::is_white_space(#[trigger] after[j]),
        output.len() > 0 ==> !text::is_white_space(output[0]) && !text::is_white_space(
            output.last(),
        ),
        o is Finished ==> text::decoded(o->stdout@) == before + output + after,
    ensures
        o is Finished && o->success ==> captured(o) == output,
        !(o is Finished && o->success) ==> captured(o).len() == 0,
        o is Finished ==> printed(o) == output,
        o is Failed ==> printed(o).len() == 0,
{
    text::law_white_space_around_does_not_matter(before, output, after);
}

/// Bytes that are UTF-8 are read as the text they encode.
pub proof fn law_utf8_is_read_as_it_is(t: Seq<char>)
    ensures
        text::decoded(vstd::utf8::encode_utf8(t)) == t,
{
    vstd::utf8::encode_utf8_valid_utf8(t);
    vstd::utf8::encode_utf8_decode_utf8(t);
}

/// The two usual architectures have short names and the others keep theirs. A
/// missing address is said to be one.
pub proof fn law_machines_are_described(arch: Seq<char>, ip: crate::address::Ipv4Addr)
    ensures
        arch == "x86_64"@ ==> shown_arch(arch) == "x64"@,
        arch == "aarch64"@ ==> shown_arch(arch) == "ARM64"@,
        arch != "x86_64"@ && arch != "aarch64"@ ==> shown_arch(arch) == arch,
        shown_address(Some(ip)) == crate::address::dotted(ip),
        shown_address(None) == "(no network)"@,
{
    reveal_strlit("x86_64");
    reveal_strlit("aarch64");
    assert("x86_64"@.len() != "aarch64"@.len());
}

} // verus!
