//! The "This PC" view's state: this machine's details, and sharing it.

use crate::platform::windows;
use crate::platform::{SystemInfo, SystemModel};
use crate::text;
use vstd::prelude::*;

verus! {

// ---------------------------------------------------------------------------
// Steps
// ---------------------------------------------------------------------------

/// One applied setting in the share checklist.
pub struct Step {
    pub name: String,
    pub ok: bool,
    pub detail: String,
}

/// What a [`Step`] holds, as text.
#[verifier::ext_equal]
pub struct StepModel {
    pub name: Seq<char>,
    pub ok: bool,
    pub detail: Seq<char>,
}

impl View for Step {
    type V = StepModel;

    open spec fn view(&self) -> StepModel {
        StepModel { name: self.name@, ok: self.ok, detail: self.detail@ }
    }
}

/// What the steps hold.
pub open spec fn models(steps: Seq<Step>) -> Seq<StepModel> {
    Seq::new(steps.len(), |i: int| steps[i]@)
}

/// The step with this name and result: a failure's message is its detail.
pub open spec fn step_of(raw: (String, Result<(), String>)) -> StepModel {
    StepModel {
        name: raw.0@,
        ok: raw.1 is Ok,
        detail: match raw.1 {
            Ok(()) => seq![],
            Err(detail) => detail@,
        },
    }
}

/// The steps with these names and results, in order.
pub open spec fn steps_of(raw: Seq<(String, Result<(), String>)>) -> Seq<StepModel> {
    Seq::new(raw.len(), |i: int| step_of(raw[i]))
}

/// The steps with these names and results, in order.
pub fn to_steps(raw: Vec<(String, Result<(), String>)>) -> (r: Vec<Step>)
    ensures
        models(r@) == steps_of(raw@),
{
    let mut r: Vec<Step> = Vec::new();
    for i in 0..raw.len()
        invariant
            r.len() == i,
            forall|j: int| 0 <= j < i ==> (#[trigger] r@[j])@ == step_of(raw@[j]),
    {
        let name = raw[i].0.clone();
        r.push(
            match &raw[i].1 {
                Ok(()) => Step { name, ok: true, detail: String::new() },
                Err(detail) => Step { name, ok: false, detail: detail.clone() },
            },
        );
    }
    assert(models(r@) =~= steps_of(raw@));
    r
}

// ---------------------------------------------------------------------------
// What the view shows
// ---------------------------------------------------------------------------

/// The details of this machine: what each is called, and its value.
pub open spec fn details(info: SystemModel) -> Seq<(Seq<char>, Seq<char>)> {
    seq![
        ("Computer name"@, info.hostname),
        ("Signed in as"@, info.username),
        ("Operating system"@, info.os_name),
        ("Version"@, info.os_build),
        ("Architecture"@, info.arch),
        ("IP address"@, info.ip),
    ]
}

/// The account that others sign in with.
pub open spec fn account(info: SystemModel) -> Seq<char> {
    info.hostname + "\\"@ + info.username
}

/// What to enter on another machine to connect to this one.
pub struct HowTo {
    pub computer: String,
    pub username: String,
}

/// What the view offers for sharing this machine.
pub enum RemoteAccess {
    /// The settings cannot be changed with the rights at hand: offer to start
    /// again with more.
    NeedsElevation,
    /// The settings can be changed.
    Ready {
        /// Is sharing on?
        on: bool,
        badge: &'static str,
        explanation: &'static str,
        account: String,
        button: &'static str,
        /// How to connect from another machine, where sharing is on.
        how_to: Option<HowTo>,
    },
}

/// `r` is what the view offers for the machine `info`.
pub open spec fn offers(r: RemoteAccess, info: SystemModel) -> bool {
    match r {
        RemoteAccess::NeedsElevation => !info.elevated,
        RemoteAccess::Ready { on, badge, explanation, account, button, how_to } => {
            &&& info.elevated
            &&& on == info.sharing_enabled
            &&& account@ == self::account(info)
            &&& on ==> {
                &&& badge@ == "On"@
                &&& explanation@ == "Other PCs on your network can connect to this computer."@
                &&& button@ == "Re-apply remote access"@
                &&& how_to is Some
                &&& how_to->0.computer@ == info.hostname
                &&& how_to->0.username@ == info.username
            }
            &&& !on ==> {
                &&& badge@ == "Off"@
                &&& explanation@ == "Turn on access, then connect with your Windows password."@
                &&& button@ == "Turn on remote access"@
                &&& how_to is None
            }
        },
    }
}

/// A line of the checklist.
pub struct ChecklistLine {
    pub ok: bool,
    pub mark: &'static str,
    pub name: String,
    /// What went wrong, indented.
    pub detail: Option<String>,
}

/// `r` is how the checklist shows the step `s`.
pub open spec fn lists(r: ChecklistLine, s: StepModel) -> bool {
    &&& r.ok == s.ok
    &&& r.mark@ == (if s.ok {
        "\u{2713}"@
    } else {
        "\u{2717}"@
    })
    &&& r.name@ == s.name
    &&& text::optional(r.detail) == (if !s.ok && s.detail.len() > 0 {
        Some("      "@ + s.detail)
    } else {
        None
    })
}

fn checklist_line(step: &Step) -> (r: ChecklistLine)
    ensures
        lists(r, step@),
{
    ChecklistLine {
        ok: step.ok,
        mark: if step.ok {
            "\u{2713}"
        } else {
            "\u{2717}"
        },
        name: step.name.clone(),
        detail: if !step.ok && !step.detail.as_str().is_empty() {
            Some(text::concat("      ", step.detail.as_str()))
        } else {
            None
        },
    }
}

/// What the sidebar says of this machine.
pub struct Summary {
    pub title: String,
    pub rights: &'static str,
    pub sharing: &'static str,
}

// ---------------------------------------------------------------------------
// The state
// ---------------------------------------------------------------------------

/// The state of the view.
pub struct ThisPc {
    pub info: SystemInfo,
    /// A new password for the account, if one is to be set.
    pub password: String,
    /// What the last attempt to share did.
    pub steps: Vec<Step>,
}

/// What a [`ThisPc`] holds, as text.
#[verifier::ext_equal]
pub struct ThisPcModel {
    pub info: SystemModel,
    pub password: Seq<char>,
    pub steps: Seq<StepModel>,
}

impl View for ThisPc {
    type V = ThisPcModel;

    open spec fn view(&self) -> ThisPcModel {
        ThisPcModel { info: self.info@, password: self.password@, steps: models(self.steps@) }
    }
}

/// The account to share with, and its new password.
pub open spec fn credentials_of(m: ThisPcModel) -> (Seq<char>, Seq<char>) {
    (m.info.username, m.password)
}

/// `m` after sharing gave `shared` and the machine reads as `info`.
pub open spec fn after_sharing(
    m: ThisPcModel,
    shared: Seq<(String, Result<(), String>)>,
    info: SystemModel,
) -> ThisPcModel {
    ThisPcModel { info, steps: steps_of(shared), ..m }
}

impl ThisPc {
    /// The state to start with.
    pub fn new(info: SystemInfo) -> (r: ThisPc)
        ensures
            r@ == (ThisPcModel { info: info@, password: seq![], steps: seq![] }),
    {
        let r = ThisPc { info, password: String::new(), steps: Vec::new() };
        assert(r@.steps =~= seq![]);
        r
    }

    /// This machine's details.
    pub fn info(&self) -> (r: &SystemInfo)
        ensures
            *r == self.info,
    {
        &self.info
    }

    /// Takes in a new reading of this machine's details.
    pub fn refresh(&mut self, info: SystemInfo)
        ensures
            final(self)@ == (ThisPcModel { info: info@, ..old(self)@ }),
    {
        self.info = info;
    }

    /// The account to share with, and its new password.
    pub fn credentials(&self) -> (r: (&str, &str))
        ensures
            r.0@ == self@.info.username,
            r.1@ == self@.password,
            (r.0@, r.1@) == credentials_of(self@),
    {
        (self.info.username.as_str(), self.password.as_str())
    }

    /// Takes in what sharing did, and a new reading of this machine's details.
    pub fn turn_on(&mut self, shared: Vec<(String, Result<(), String>)>, info: SystemInfo)
        ensures
            final(self)@ == (ThisPcModel {
                info: info@,
                steps: steps_of(shared@),
                ..old(self)@
            }),
            final(self)@ == after_sharing(old(self)@, shared@, info@),
    {
        self.steps = to_steps(shared);
        self.refresh(info);
    }

    /// The details of this machine: what each is called, and its value.
    pub fn info_card(&self) -> (r: Vec<(&'static str, &str)>)
        ensures
            r.len() == details(self@.info).len(),
            forall|i: int|
                0 <= i < r.len() ==> ((#[trigger] r@[i]).0@, r@[i].1@) == details(self@.info)[i],
    {
        vec![
            ("Computer name", self.info.hostname.as_str()),
            ("Signed in as", self.info.username.as_str()),
            ("Operating system", self.info.os_name.as_str()),
            ("Version", self.info.os_build.as_str()),
            ("Architecture", self.info.arch.as_str()),
            ("IP address", self.info.ip.as_str()),
        ]
    }

    /// What the badge on the card of details says of sharing.
    pub fn sharing_badge(&self) -> (r: &'static str)
        ensures
            r@ == (if self@.info.sharing_enabled {
                "Enabled"@
            } else {
                "Disabled"@
            }),
    {
        if self.info.sharing_enabled {
            "Enabled"
        } else {
            "Disabled"
        }
    }

    /// What the view offers for sharing this machine.
    pub fn remote_access(&self) -> (r: RemoteAccess)
        ensures
            offers(r, self@.info),
    {
        if !self.info.elevated {
            return RemoteAccess::NeedsElevation;
        }
        let mut account = text::concat(self.info.hostname.as_str(), "\\");
        account.append(self.info.username.as_str());
        if self.info.sharing_enabled {
            RemoteAccess::Ready {
                on: true,
                badge: "On",
                explanation: "Other PCs on your network can connect to this computer.",
                account,
                button: "Re-apply remote access",
                how_to: Some(
                    HowTo {
                        computer: self.info.hostname.clone(),
                        username: self.info.username.clone(),
                    },
                ),
            }
        } else {
            RemoteAccess::Ready {
                on: false,
                badge: "Off",
                explanation: "Turn on access, then connect with your Windows password.",
                account,
                button: "Turn on remote access",
                how_to: None,
            }
        }
    }

    /// What the last attempt to share did, line by line.
    pub fn checklist(&self) -> (r: Vec<ChecklistLine>)
        ensures
            r.len() == self@.steps.len(),
            forall|i: int| 0 <= i < r.len() ==> lists(#[trigger] r@[i], self@.steps[i]),
    {
        let mut r: Vec<ChecklistLine> = Vec::new();
        for i in 0..self.steps.len()
            invariant
                r.len() == i,
                forall|j: int| 0 <= j < i ==> lists(#[trigger] r@[j], self@.steps[j]),
        {
            let line = checklist_line(&self.steps[i]);
            assert(self@.steps[i as int] == self.steps@[i as int]@);
            r.push(line);
        }
        r
    }

    /// What the sidebar says of this machine.
    pub fn sidebar(&self) -> (r: Summary)
        ensures
            r.title@ == "This PC: "@ + self@.info.hostname,
            r.rights@ == (if self@.info.elevated {
                "Admin"@
            } else {
                "Standard"@
            }),
            r.sharing@ == (if self@.info.sharing_enabled {
                "on"@
            } else {
                "off"@
            }),
    {
        Summary {
            title: text::concat("This PC: ", self.info.hostname.as_str()),
            rights: if self.info.elevated {
                "Admin"
            } else {
                "Standard"
            },
            sharing: if self.info.sharing_enabled {
                "on"
            } else {
                "off"
            },
        }
    }
}

// ---------------------------------------------------------------------------
// Laws
// ---------------------------------------------------------------------------

/// The account shown can be typed in as it stands on another machine: it is
/// handed over unchanged.
pub proof fn law_shown_account_is_complete(info: SystemModel)
    ensures
        windows::qualified(account(info)) == account(info),
{
    reveal_strlit("\\");
    assert(account(info)[info.hostname.len() as int] == '\\');
}

/// A step is marked as done just when it succeeded. A failure keeps its message,
/// which the checklist shows; each step keeps its name and its place.
pub proof fn law_steps_tell_what_happened(raw: Seq<(String, Result<(), String>)>, i: int)
    requires
        0 <= i < raw.len(),
    ensures
        steps_of(raw).len() == raw.len(),
        steps_of(raw)[i].name == raw[i].0@,
        steps_of(raw)[i].ok <==> raw[i].1 is Ok,
        raw[i].1 is Ok ==> steps_of(raw)[i].detail.len() == 0,
        raw[i].1 is Err ==> steps_of(raw)[i].detail == (raw[i].1->Err_0)@,
{
}

/// The checklist shows the message of a failed step, indented, and a mark that
/// tells a done step from a failed one.
pub proof fn law_the_checklist_shows_failures(line: ChecklistLine, s: StepModel)
    requires
        lists(line, s),
    ensures
        line.ok == s.ok,
        line.name@ == s.name,
        s.ok ==> line.mark@ == "\u{2713}"@ && line.detail is None,
        !s.ok ==> line.mark@ == "\u{2717}"@,
        !s.ok && s.detail.len() > 0 ==> line.detail is Some && (line.detail->0)@ == "      "@
            + s.detail,
        s.detail.len() == 0 ==> line.detail is None,
{
}

/// The card of details has one row for each detail of the machine, as it is.
pub proof fn law_details_are_shown(info: SystemModel)
    ensures
        details(info).len() == 6,
        details(info).contains(("Computer name"@, info.hostname)),
        details(info).contains(("Signed in as"@, info.username)),
        details(info).contains(("Operating system"@, info.os_name)),
        details(info).contains(("Version"@, info.os_build)),
        details(info).contains(("Architecture"@, info.arch)),
        details(info).contains(("IP address"@, info.ip)),
{
    let d = details(info);
    assert(d.contains(d[0]) && d.contains(d[1]) && d.contains(d[2]));
    assert(d.contains(d[3]) && d.contains(d[4]) && d.contains(d[5]));
}

/// The account is the machine's name and the username with a backslash between
/// them.
pub proof fn law_the_account_names_machine_and_user(info: SystemModel)
    ensures
        account(info) == info.hostname + seq!['\\'] + info.username,
{
    reveal_strlit("\\");
    assert("\\"@ =~= seq!['\\']);
}

/// Sharing is offered only with the rights for it. How to connect is told just
/// where sharing is on, with the machine's own name and username.
pub proof fn law_sharing_is_offered_with_rights(r: RemoteAccess, info: SystemModel)
    requires
        offers(r, info),
    ensures
        r is NeedsElevation <==> !info.elevated,
        info.elevated ==> (r->on <==> info.sharing_enabled),
        info.elevated ==> r->Ready_account@ == info.hostname + seq!['\\'] + info.username,
        info.elevated ==> (r->how_to is Some <==> info.sharing_enabled),
        info.elevated && info.sharing_enabled ==> r->badge@ == "On"@ && (
        r->how_to->0).computer@ == info.hostname && (r->how_to->0).username@ == info.username,
        info.elevated && !info.sharing_enabled ==> r->badge@ == "Off"@ && r->button@
            == "Turn on remote access"@,
{
    law_the_account_names_machine_and_user(info);
}

/// The machine is shared with the signed-in account and the new password just as
/// it was entered. Afterwards the steps and the machine's details are the new ones,
/// and the password stays.
pub proof fn law_sharing_uses_what_was_entered(
    m: ThisPcModel,
    shared: Seq<(String, Result<(), String>)>,
    info: SystemModel,
)
    ensures
        credentials_of(m).0 == m.info.username,
        credentials_of(m).1 == m.password,
        after_sharing(m, shared, info).password == m.password,
        after_sharing(m, shared, info).info == info,
        after_sharing(m, shared, info).steps.len() == shared.len(),
{
}

} // verus!
