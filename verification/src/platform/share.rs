//! Sharing this machine, step by step.

use super::{CommandLine, CommandModel, Outcome};
use crate::search;
use crate::text;
use vstd::prelude::*;

verus! {

/// One setting to apply.
pub enum PlannedStep {
    /// Run the command. A failure whose message contains `tolerate` in lower
    /// case counts as success.
    Run { name: String, command: CommandLine, tolerate: Option<String> },
    /// Leave it to the user, who is told `message`; `open` shows them where.
    Advise { name: String, message: String, open: Option<CommandLine> },
}

/// What a [`PlannedStep`] holds, as text.
pub enum StepModel {
    Run { name: Seq<char>, command: CommandModel, tolerate: Option<Seq<char>> },
    Advise { name: Seq<char>, message: Seq<char>, open: Option<CommandModel> },
}

impl View for PlannedStep {
    type V = StepModel;

    open spec fn view(&self) -> StepModel {
        match self {
            PlannedStep::Run { name, command, tolerate } => StepModel::Run {
                name: name@,
                command: command@,
                tolerate: text::optional(*tolerate),
            },
            PlannedStep::Advise { name, message, open } => StepModel::Advise {
                name: name@,
                message: message@,
                open: super::optional_command(*open),
            },
        }
    }
}

/// What the steps hold.
pub open spec fn models(steps: Seq<PlannedStep>) -> Seq<StepModel> {
    Seq::new(steps.len(), |i: int| steps[i]@)
}

/// A step that runs `command`.
pub fn run_step(name: &str, command: CommandLine) -> (r: PlannedStep)
    ensures
        r@ == (StepModel::Run { name: name@, command: command@, tolerate: None }),
{
    PlannedStep::Run { name: name.to_string(), command, tolerate: None }
}

/// A step that runs `command` and tolerates a kind of failure.
pub fn lenient_step(name: &str, command: CommandLine, tolerate: &str) -> (r: PlannedStep)
    ensures
        r@ == (StepModel::Run { name: name@, command: command@, tolerate: Some(tolerate@) }),
{
    PlannedStep::Run { name: name.to_string(), command, tolerate: Some(tolerate.to_string()) }
}

/// A step that is left to the user.
pub fn advise_step(name: &str, message: &str, open: Option<CommandLine>) -> (r: PlannedStep)
    ensures
        r@ == (StepModel::Advise {
            name: name@,
            message: message@,
            open: super::optional_command(open),
        }),
{
    PlannedStep::Advise { name: name.to_string(), message: message.to_string(), open }
}

// ---------------------------------------------------------------------------
// What came of a step
// ---------------------------------------------------------------------------

/// `r`, with a failure forgiven if its message in lower case contains
/// `tolerate`.
pub open spec fn lenient(r: Result<(), Seq<char>>, tolerate: Seq<char>) -> Result<
    (),
    Seq<char>,
> {
    match r {
        Ok(()) => Ok(()),
        Err(e) => if search::occurs(search::lowered(e), tolerate) {
            Ok(())
        } else {
            Err(e)
        },
    }
}

/// `r`, with a failure forgiven if `lowered`, its message in lower case,
/// contains `tolerate`.
pub fn forgive(r: Result<(), String>, lowered: &str, tolerate: &str) -> (f: Result<(), String>)
    ensures
        super::result(f) == (if r is Err && search::occurs(lowered@, tolerate@) {
            Ok(())
        } else {
            super::result(r)
        }),
{
    match r {
        Ok(()) => Ok(()),
        Err(e) => if search::contains(lowered, tolerate) {
            Ok(())
        } else {
            Err(e)
        },
    }
}

/// As [`super::run`], but a failure whose message contains `tolerate` in lower
/// case counts as success.
pub fn run_lenient(program: &str, outcome: &Outcome, tolerate: &str) -> (r: Result<(), String>)
    ensures
        super::result(r) == lenient(super::run_result(program@, *outcome), tolerate@),
{
    match super::run(program, outcome) {
        Ok(()) => Ok(()),
        Err(e) => {
            let lowered = search::lower(e.as_str());
            forgive(Err(e), lowered.as_str(), tolerate)
        },
    }
}

/// The name of the step and its result, for what came of its command.
pub open spec fn settled(step: StepModel, ran: Option<Outcome>) -> (
    Seq<char>,
    Result<(), Seq<char>>,
)
    recommends
        step is Run ==> ran is Some,
{
    match step {
        StepModel::Run { name, command, tolerate } => {
            let plain = super::run_result(command.program, ran->0);
            match tolerate {
                Some(t) => (name, lenient(plain, t)),
                None => (name, plain),
            }
        },
        StepModel::Advise { name, message, .. } => (name, Err(message)),
    }
}

/// The name of the step and its result. `ran` is what came of its command, if
/// the step has one that decides.
pub fn settle(step: &PlannedStep, ran: &Option<Outcome>) -> (r: (String, Result<(), String>))
    requires
        step is Run ==> ran is Some,
    ensures
        (r.0@, super::result(r.1)) == settled(step@, *ran),
{
    match step {
        PlannedStep::Run { name, command, tolerate } => {
            let program = command.program.as_str();
            let result = match ran {
                Some(outcome) => match tolerate {
                    Some(t) => run_lenient(program, outcome, t.as_str()),
                    None => super::run(program, outcome),
                },
                None => Ok(()),
            };
            (name.clone(), result)
        },
        PlannedStep::Advise { name, message, .. } => (name.clone(), Err(message.clone())),
    }
}

/// The names and results of all the steps, in order.
pub fn settle_all(steps: &Vec<PlannedStep>, ran: &Vec<Option<Outcome>>) -> (r: Vec<
    (String, Result<(), String>),
>)
    requires
        steps.len() == ran.len(),
        forall|i: int| 0 <= i < steps.len() && (#[trigger] steps@[i]) is Run ==> ran@[i] is Some,
    ensures
        r.len() == steps.len(),
        forall|i: int|
            0 <= i < r.len() ==> ((#[trigger] r@[i]).0@, super::result(r@[i].1)) == settled(
                steps@[i]@,
                ran@[i],
            ),
{
    let mut r: Vec<(String, Result<(), String>)> = Vec::new();
    for i in 0..steps.len()
        invariant
            steps.len() == ran.len(),
            forall|i: int|
                0 <= i < steps.len() && (#[trigger] steps@[i]) is Run ==> ran@[i] is Some,
            r.len() == i,
            forall|j: int|
                0 <= j < i ==> ((#[trigger] r@[j]).0@, super::result(r@[j].1)) == settled(
                    steps@[j]@,
                    ran@[j],
                ),
    {
        r.push(settle(&steps[i], &ran[i]));
    }
    r
}

// ---------------------------------------------------------------------------
// Laws
// ---------------------------------------------------------------------------

/// Being lenient never turns a success into a failure, nor changes a message.
pub proof fn law_lenient_only_forgives(r: Result<(), Seq<char>>, tolerate: Seq<char>)
    ensures
        lenient(r, tolerate) == r || lenient(r, tolerate) == Ok::<(), Seq<char>>(()),
        r is Ok ==> lenient(r, tolerate) is Ok,
{
}

/// A failure in ASCII is forgiven just when its message, with capitals made small,
/// holds the words; otherwise the message stays as it is.
pub proof fn law_forgiven_failures_hold_the_words(e: Seq<char>, tolerate: Seq<char>)
    requires
        forall|i: int| 0 <= i < e.len() ==> '\0' <= #[trigger] e[i] <= '\u{7f}',
    ensures
        (exists|a: Seq<char>, b: Seq<char>|
            search::ascii_lowered(e) == #[trigger] (a + tolerate + b)) ==> lenient(
            Err(e),
            tolerate,
        ) == Ok::<(), Seq<char>>(()),
        !(exists|a: Seq<char>, b: Seq<char>|
            search::ascii_lowered(e) == #[trigger] (a + tolerate + b)) ==> lenient(
            Err(e),
            tolerate,
        ) == Err::<(), Seq<char>>(e),
{
    assert(vstd::utf8::is_ascii_chars(e));
    search::law_held_texts_stand_between(search::ascii_lowered(e), tolerate, seq![]);
}

/// Each step keeps its name. A command that succeeded is a success; one that
/// failed is told by its message unless that is tolerated; and what is left to the
/// user is told as it stands.
pub proof fn law_steps_are_settled_by_their_commands(step: StepModel, o: Outcome)
    ensures
        step is Run ==> {
            let r = settled(step, Some(o));
            &&& r.0 == step->Run_name
            &&& super::succeeds(o) ==> r.1 is Ok
            &&& !super::succeeds(o) && step->tolerate is None ==> r.1 == super::run_result(
                step->command.program,
                o,
            ) && r.1 is Err
            &&& !super::succeeds(o) && step->tolerate is Some ==> r.1 == lenient(
                super::run_result(step->command.program, o),
                step->tolerate->0,
            )
            &&& r.1 is Err ==> r.1 == super::run_result(step->command.program, o)
        },
        step is Advise ==> settled(step, None) == (step->Advise_name, Err::<(), Seq<char>>(
            step->message,
        )),
{
}

} // verus!
