use vstd::prelude::*;
use crate::layout::{is_strictly_below, strictly_below};
use crate::resolve::ResolvedEndpoint;
use crate::text::{texts, with_text};

verus! {

/// File name of the bootstrapper inside a version directory.
pub const BOOTSTRAPPER_NAME: &'static str = "SyntaxPlayerLauncher.exe";

/// Whether the running process is the right binary.
#[derive(PartialEq, Eq, Debug, Clone, Copy)]
pub enum Decision {
    /// Go on in this process.
    AlreadyCorrect,
    /// Hand off to the bootstrapper of the target version.
    Relocate,
}

/// The running binary is the right one when it lies below the target
/// version directory, or when relocation is switched off for development.
pub open spec fn runs_from(exe: Seq<Seq<char>>, target_dir: Seq<Seq<char>>, dev_mode: bool) -> bool {
    dev_mode || strictly_below(exe, target_dir)
}

/// Decides whether the process running from `exe` may go on, or must hand
/// off to the bootstrapper in `target_dir`. The decision reads the two paths
/// alone: it makes no request.
pub fn ensure_running_from(exe: &Vec<String>, target_dir: &Vec<String>, dev_mode: bool) -> (r: Decision)
    ensures
        r == (if runs_from(texts(exe@), texts(target_dir@), dev_mode) {
            Decision::AlreadyCorrect
        } else {
            Decision::Relocate
        }),
        strictly_below(texts(exe@), texts(target_dir@)) ==> r == Decision::AlreadyCorrect,
{
    if dev_mode || is_strictly_below(exe, target_dir) {
        Decision::AlreadyCorrect
    } else {
        Decision::Relocate
    }
}

/// Where the bootstrapper of a version lies.
pub fn bootstrapper_path(target_dir: &Vec<String>) -> (r: Vec<String>)
    ensures
        texts(r@) == texts(target_dir@).push(BOOTSTRAPPER_NAME@),
{
    with_text(target_dir, BOOTSTRAPPER_NAME)
}

/// Where the bootstrapper of a version is fetched from:
/// `{base}/{version}-{bootstrapper name}`.
pub fn bootstrapper_url(endpoint: &ResolvedEndpoint) -> (r: String)
    ensures
        r@ == endpoint.base@ + seq!['/'] + endpoint.version@ + seq!['-'] + BOOTSTRAPPER_NAME@,
{
    endpoint.asset_url(BOOTSTRAPPER_NAME)
}

/// What happened in the last step of a hand-off.
#[derive(PartialEq, Eq, Debug, Clone, Copy)]
pub enum HandoffEvent {
    /// Whether the bootstrapper was found in the target directory.
    Checked(bool),
    /// Whether fetching and writing the bootstrapper succeeded.
    Fetched(bool),
    /// Whether spawning the bootstrapper, with this process's own arguments, succeeded.
    Spawned(bool),
}

/// What the hand-off does next.
#[derive(PartialEq, Eq, Debug, Clone, Copy)]
pub enum HandoffAction {
    /// Fetch the bootstrapper, write it and make it executable.
    Fetch,
    /// Delete the bootstrapper, then fetch it again.
    Refetch,
    /// Spawn the bootstrapper, forwarding all arguments unchanged.
    Spawn,
    /// The bootstrapper runs: end this process.
    Exit,
    /// The hand-off failed: report and end this process.
    Fatal,
}

/// State of a hand-off: whether its one re-download has been spent.
#[derive(Debug)]
pub struct Handoff {
    pub refetched: bool,
}

/// The action after `event`, given whether the re-download was spent.
pub open spec fn handoff_action(refetched: bool, event: HandoffEvent) -> HandoffAction {
    match event {
        HandoffEvent::Checked(present) => if present {
            HandoffAction::Spawn
        } else {
            HandoffAction::Fetch
        },
        HandoffEvent::Fetched(ok) => if ok {
            HandoffAction::Spawn
        } else {
            HandoffAction::Fatal
        },
        HandoffEvent::Spawned(ok) => if ok {
            HandoffAction::Exit
        } else if !refetched {
            HandoffAction::Refetch
        } else {
            HandoffAction::Fatal
        },
    }
}

impl Handoff {
    /// A hand-off that has not re-downloaded yet.
    pub fn new() -> (r: Handoff)
        ensures
            !r.refetched,
    {
        Handoff { refetched: false }
    }

    /// Takes the outcome of the last action and says what comes next. A
    /// binary that fails to spawn is deleted and fetched once more; a second
    /// failure is fatal.
    pub fn on_event(&mut self, event: HandoffEvent) -> (r: HandoffAction)
        ensures
            r == handoff_action(old(self).refetched, event),
            final(self).refetched == (old(self).refetched || r == HandoffAction::Refetch),
    {
        match event {
            HandoffEvent::Checked(present) => if present {
                HandoffAction::Spawn
            } else {
                HandoffAction::Fetch
            },
            HandoffEvent::Fetched(ok) => if ok {
                HandoffAction::Spawn
            } else {
                HandoffAction::Fatal
            },
            HandoffEvent::Spawned(ok) => if ok {
                HandoffAction::Exit
            } else if !self.refetched {
                self.refetched = true;
                HandoffAction::Refetch
            } else {
                HandoffAction::Fatal
            },
        }
    }
}

/// A hand-off re-downloads at most once: once the re-download is spent, no
/// event leads to another.
pub proof fn lemma_single_refetch(event: HandoffEvent)
    ensures
        handoff_action(true, event) != HandoffAction::Refetch,
{
}

} // verus!
