//! Opening a remote session: look for a client, then start it.

use super::{CommandLine, CommandModel, Outcome};
use crate::text;
use vstd::prelude::*;

verus! {

/// Where a client may be.
pub enum Place {
    /// Anywhere that programs are looked up.
    OnPath(String),
    /// In this file.
    At(String),
}

/// What a [`Place`] holds, as text.
pub enum PlaceModel {
    OnPath(Seq<char>),
    At(Seq<char>),
}

impl View for Place {
    type V = PlaceModel;

    open spec fn view(&self) -> PlaceModel {
        match self {
            Place::OnPath(bin) => PlaceModel::OnPath(bin@),
            Place::At(path) => PlaceModel::At(path@),
        }
    }
}

/// A client that may be installed, and the arguments it takes.
pub struct Client {
    pub place: Place,
    pub args: Vec<String>,
}

/// What a [`Client`] holds, as text.
#[verifier::ext_equal]
pub struct ClientModel {
    pub place: PlaceModel,
    pub args: Seq<Seq<char>>,
}

impl View for Client {
    type V = ClientModel;

    open spec fn view(&self) -> ClientModel {
        ClientModel { place: self.place@, args: text::texts(self.args@) }
    }
}

/// What the clients hold.
pub open spec fn models(clients: Seq<Client>) -> Seq<ClientModel> {
    Seq::new(clients.len(), |i: int| clients[i]@)
}

/// What to do when no client was found.
pub enum Otherwise {
    /// Start this.
    Start(CommandLine),
    /// Run this to its end; unless it succeeds, fail with the message.
    Open { command: CommandLine, message: String },
    /// Fail with the message, after starting `page` if there is one.
    Missing { page: Option<CommandLine>, message: String },
}

/// What an [`Otherwise`] holds, as text.
pub enum OtherwiseModel {
    Start(CommandModel),
    Open { command: CommandModel, message: Seq<char> },
    Missing { page: Option<CommandModel>, message: Seq<char> },
}

impl View for Otherwise {
    type V = OtherwiseModel;

    open spec fn view(&self) -> OtherwiseModel {
        match self {
            Otherwise::Start(command) => OtherwiseModel::Start(command@),
            Otherwise::Open { command, message } => OtherwiseModel::Open {
                command: command@,
                message: message@,
            },
            Otherwise::Missing { page, message } => OtherwiseModel::Missing {
                page: super::optional_command(*page),
                message: message@,
            },
        }
    }
}

/// Clients to look for, best first, and what to do without any of them.
pub struct ClientSearch {
    pub clients: Vec<Client>,
    pub otherwise: Otherwise,
}

/// A connection file to write, and the program that opens it.
pub struct FileLaunch {
    /// Stores the password first, if there is one. Its outcome does not matter.
    pub credentials: Option<CommandLine>,
    /// The file's name, in the directory for temporary files.
    pub file_name: String,
    pub contents: String,
    /// Started with the file as its one argument.
    pub program: String,
}

/// How to open a session.
pub enum LaunchPlan {
    Search(ClientSearch),
    File(FileLaunch),
}

/// What a [`LaunchPlan`] holds, as text.
pub enum PlanModel {
    Search { clients: Seq<ClientModel>, otherwise: OtherwiseModel },
    File {
        credentials: Option<CommandModel>,
        file_name: Seq<char>,
        contents: Seq<char>,
        program: Seq<char>,
    },
}

impl View for LaunchPlan {
    type V = PlanModel;

    open spec fn view(&self) -> PlanModel {
        match self {
            LaunchPlan::Search(s) => PlanModel::Search {
                clients: models(s.clients@),
                otherwise: s.otherwise@,
            },
            LaunchPlan::File(f) => PlanModel::File {
                credentials: super::optional_command(f.credentials),
                file_name: f.file_name@,
                contents: f.contents@,
                program: f.program@,
            },
        }
    }
}

/// `prefix` and the text, or no argument if the text is empty.
pub open spec fn optional_arg(prefix: Seq<char>, t: Seq<char>) -> Seq<Seq<char>> {
    if t.len() == 0 {
        seq![]
    } else {
        seq![prefix + t]
    }
}

/// A client to look for on the path.
pub fn on_path(bin: &str, args: &[&str]) -> (r: Client)
    ensures
        r@ == (ClientModel { place: PlaceModel::OnPath(bin@), args: text::slices(args@) }),
{
    Client { place: Place::OnPath(bin.to_string()), args: super::owned(args) }
}

/// A client to look for in a file.
pub fn at(path: &str, args: &[&str]) -> (r: Client)
    ensures
        r@ == (ClientModel { place: PlaceModel::At(path@), args: text::slices(args@) }),
{
    Client { place: Place::At(path.to_string()), args: super::owned(args) }
}

// ---------------------------------------------------------------------------
// The search
// ---------------------------------------------------------------------------

/// What to do next in a search for a client.
pub enum NextStep<'a> {
    /// See whether there is a client here.
    Look(&'a Place),
    /// Start this client.
    Start(CommandLine),
    /// There is no client.
    GiveUp(&'a Otherwise),
}

/// What a [`NextStep`] holds, as text.
pub enum NextModel {
    Look(PlaceModel),
    Start(CommandModel),
    GiveUp(OtherwiseModel),
}

impl<'a> View for NextStep<'a> {
    type V = NextModel;

    open spec fn view(&self) -> NextModel {
        match self {
            NextStep::Look(place) => NextModel::Look(place@),
            NextStep::Start(command) => NextModel::Start(command@),
            NextStep::GiveUp(otherwise) => NextModel::GiveUp(otherwise@),
        }
    }
}

/// The answers as text: for each place looked at so far, the program found.
pub open spec fn answers_of(v: Seq<Option<String>>) -> Seq<Option<Seq<char>>> {
    Seq::new(v.len(), |i: int| text::optional(v[i]))
}

/// The first of the answers that found something, or their number.
pub open spec fn first_found(answers: Seq<Option<Seq<char>>>) -> int
    decreases answers.len(),
{
    if answers.len() == 0 || answers[0] is Some {
        0
    } else {
        1 + first_found(answers.drop_first())
    }
}

/// What to do next, after `answers`: start the first client that was found, or
/// look for the next, or give up after the last.
pub open spec fn next_of(
    clients: Seq<ClientModel>,
    otherwise: OtherwiseModel,
    answers: Seq<Option<Seq<char>>>,
) -> NextModel {
    let k = first_found(answers);
    if k < answers.len() && k < clients.len() {
        NextModel::Start(CommandModel { program: answers[k]->0, args: clients[k].args })
    } else if answers.len() < clients.len() {
        NextModel::Look(clients[answers.len() as int].place)
    } else {
        NextModel::GiveUp(otherwise)
    }
}

proof fn lemma_first_found(answers: Seq<Option<Seq<char>>>)
    ensures
        0 <= first_found(answers) <= answers.len(),
        forall|j: int| 0 <= j < first_found(answers) ==> (#[trigger] answers[j]) is None,
        first_found(answers) < answers.len() ==> answers[first_found(answers)] is Some,
    decreases answers.len(),
{
    if answers.len() > 0 && answers[0] is None {
        let rest = answers.drop_first();
        lemma_first_found(rest);
        assert forall|j: int| 0 <= j < first_found(answers) implies (
        #[trigger] answers[j]) is None by {
            if j > 0 {
                assert(rest[j - 1] == answers[j]);
            }
        }
    }
}

fn copies(v: &Vec<String>) -> (r: Vec<String>)
    ensures
        text::texts(r@) == text::texts(v@),
{
    let mut r: Vec<String> = Vec::new();
    for i in 0..v.len()
        invariant
            r.len() == i,
            forall|j: int| 0 <= j < i ==> r@[j]@ == v@[j]@,
    {
        r.push(v[i].clone());
    }
    assert(text::texts(r@) =~= text::texts(v@));
    r
}

impl ClientSearch {
    /// What to do next. `answers` has, for each place looked at so far, the
    /// program that was found there.
    pub fn next<'a>(&'a self, answers: &Vec<Option<String>>) -> (r: NextStep<'a>)
        ensures
            r@ == next_of(models(self.clients@), self.otherwise@, answers_of(answers@)),
    {
        let ghost all = answers_of(answers@);
        let n = answers.len();
        let mut k: usize = 0;
        while k < n && answers[k].is_none()
            invariant
                n == answers.len(),
                k <= n,
                all == answers_of(answers@),
                forall|j: int| 0 <= j < k ==> (#[trigger] all[j]) is None,
            decreases n - k,
        {
            k = k + 1;
        }
        proof {
            lemma_first_found(all);
            let f = first_found(all);
            if f < k {
                assert(all[f] is None);
            }
            if k < f {
                assert(all[k as int] is None);
            }
        }
        if k < n && k < self.clients.len() {
            if let Some(program) = &answers[k] {
                let args = copies(&self.clients[k].args);
                assert(models(self.clients@)[k as int] == self.clients@[k as int]@);
                return NextStep::Start(CommandLine { program: program.clone(), args });
            }
        }
        if n < self.clients.len() {
            assert(models(self.clients@)[n as int] == self.clients@[n as int]@);
            NextStep::Look(&self.clients[n].place)
        } else {
            NextStep::GiveUp(&self.otherwise)
        }
    }
}

/// Whether the session was opened by a command that was run to its end.
pub fn opened(outcome: &Outcome, message: &str) -> (r: Result<(), String>)
    ensures
        super::result(r) == (if super::succeeds(*outcome) {
            Ok(())
        } else {
            Err::<(), Seq<char>>(message@)
        }),
{
    if super::succeeded(outcome) {
        Ok(())
    } else {
        Err(message.to_string())
    }
}

// ---------------------------------------------------------------------------
// Laws
// ---------------------------------------------------------------------------

/// Each place is looked at in its turn while nothing was found, and after the
/// last the search gives up: it ends after as many answers as there are clients.
pub proof fn law_search_goes_on_until_found(
    clients: Seq<ClientModel>,
    otherwise: OtherwiseModel,
    answers: Seq<Option<Seq<char>>>,
)
    requires
        forall|i: int| 0 <= i < answers.len() ==> (#[trigger] answers[i]) is None,
        answers.len() <= clients.len(),
    ensures
        next_of(clients, otherwise, answers) == (if answers.len() < clients.len() {
            NextModel::Look(clients[answers.len() as int].place)
        } else {
            NextModel::GiveUp(otherwise)
        }),
{
    lemma_first_found(answers);
    let k = first_found(answers);
    if k < answers.len() {
        assert(answers[k] is None);
    }
}

/// A client that was found after the better ones were not is the one started,
/// with its own arguments.
pub proof fn law_first_client_found_is_started(
    clients: Seq<ClientModel>,
    otherwise: OtherwiseModel,
    answers: Seq<Option<Seq<char>>>,
    program: Seq<char>,
)
    requires
        forall|i: int| 0 <= i < answers.len() ==> (#[trigger] answers[i]) is None,
        answers.len() < clients.len(),
    ensures
        next_of(clients, otherwise, answers.push(Some(program))) == NextModel::Start(
            CommandModel { program, args: clients[answers.len() as int].args },
        ),
{
    let all = answers.push(Some(program));
    lemma_first_found(all);
    let k = first_found(all);
    let n = answers.len() as int;
    if k < n {
        assert(answers[k] is None);
    }
    if k > n {
        assert(all[n] is None);
    }
}

/// An option is left out where there is nothing to say, and is said whole
/// otherwise.
pub proof fn law_options_are_said_whole(prefix: Seq<char>, t: Seq<char>)
    ensures
        t.len() == 0 ==> optional_arg(prefix, t).len() == 0,
        t.len() > 0 ==> optional_arg(prefix, t) == seq![prefix + t],
{
}

} // verus!
