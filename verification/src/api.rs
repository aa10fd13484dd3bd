//! The update protocol: phases, the persisted state record, and the pure
//! orchestration step.
//!
//! Replacing a running executable must survive being killed at any point, so
//! the work is broken into discrete phases whose progress is persisted.  The
//! record is the single source of truth for "is an update in progress": an
//! orchestrator that observes a phase on startup resumes that phase's action,
//! it never starts over.

use crate::errors::Error;
use crate::release::{Release, ReleaseVariant};
use vstd::prelude::*;
use vstd::string::StringExecFns;

verus! {

/// Where releases come from: the pure face of a hosting backend.  The
/// transport fetches the locations this trait derives; one production
/// implementation is GitHub-backed, and tests supply in-memory ones.
pub trait Source {
    /// Where the backend lists its releases.
    fn release_listing_url(&self) -> String;

    /// Where the backend serves one variant's bytes.
    fn binary_url(&self, release: &Release, variant: &ReleaseVariant) -> String;
}

/// The current step of the in-progress self-update protocol.
///
/// `NoUpdate` is both the initial and the terminal state; the only forward
/// path is `Prepare` then `Replace` then `Cleanup` then back to `NoUpdate`.
#[derive(Debug, Clone, Copy, PartialEq, Eq, Structural)]
pub enum UpdatePhase {
    /// No update is in progress.
    NoUpdate,
    /// A newer binary is being staged to a temporary path.
    Prepare,
    /// The staged binary is about to be moved over the target; persisted
    /// before the swap is attempted so a crash retries the swap.
    Replace,
    /// The staged file is being removed.
    Cleanup,
}

impl Default for UpdatePhase {
    /// A fresh protocol starts with no update in progress.
    fn default() -> (r: Self)
        ensures
            r == UpdatePhase::NoUpdate,
    {
        UpdatePhase::NoUpdate
    }
}

/// The wire name of each phase in the persisted record.
pub open spec fn spec_phase_name(p: UpdatePhase) -> Seq<char> {
    match p {
        UpdatePhase::NoUpdate => "no-update"@,
        UpdatePhase::Prepare => "prepare"@,
        UpdatePhase::Replace => "replace"@,
        UpdatePhase::Cleanup => "cleanup"@,
    }
}

impl UpdatePhase {
    /// The phase's wire name.
    pub fn to_string(&self) -> (r: String)
        ensures
            r@ == spec_phase_name(*self),
    {
        match self {
            UpdatePhase::NoUpdate => "no-update".to_owned(),
            UpdatePhase::Prepare => "prepare".to_owned(),
            UpdatePhase::Replace => "replace".to_owned(),
            UpdatePhase::Cleanup => "cleanup".to_owned(),
        }
    }
}

/// The only valid forward steps of the protocol.
pub open spec fn valid_transition(from: UpdatePhase, to: UpdatePhase) -> bool {
    ||| (from == UpdatePhase::NoUpdate && to == UpdatePhase::Prepare)
    ||| (from == UpdatePhase::Prepare && to == UpdatePhase::Replace)
    ||| (from == UpdatePhase::Replace && to == UpdatePhase::Cleanup)
    ||| (from == UpdatePhase::Cleanup && to == UpdatePhase::NoUpdate)
}

/// The persisted update record: the binary that should ultimately run, the
/// staged replacement, and the current phase.
#[derive(Debug, PartialEq, Eq)]
pub struct UpdateState {
    /// Path of the binary that should ultimately be running; absent only in
    /// `NoUpdate`.
    pub target_application: Option<String>,
    /// Path of the staged replacement binary; absent only in `NoUpdate`.
    pub temporary_application: Option<String>,
    /// The protocol's current step.
    pub phase: UpdatePhase,
}

/// The mathematical value of an `UpdateState`.
pub struct StateView {
    pub target: Option<Seq<char>>,
    pub temporary: Option<Seq<char>>,
    pub phase: UpdatePhase,
}

impl View for UpdateState {
    type V = StateView;

    open spec fn view(&self) -> StateView {
        StateView {
            target: match self.target_application {
                Some(p) => Some(p@),
                None => None,
            },
            temporary: match self.temporary_application {
                Some(p) => Some(p@),
                None => None,
            },
            phase: self.phase,
        }
    }
}

impl Default for UpdateState {
    /// A fresh record: no update in progress, no paths.
    fn default() -> (r: Self)
        ensures
            r.target_application is None,
            r.temporary_application is None,
            r.phase == UpdatePhase::NoUpdate,
    {
        UpdateState { target_application: None, temporary_application: None, phase: UpdatePhase::NoUpdate }
    }
}

/// Both paths are present whenever a phase past `NoUpdate` is recorded.
pub open spec fn state_well_formed(s: StateView) -> bool {
    s.phase != UpdatePhase::NoUpdate ==> s.target is Some && s.temporary is Some
}

/// What the orchestrator should do next, given a persisted phase.  The caller
/// performs the I/O and persists the successor record before acting where the
/// protocol demands it.
#[derive(Debug, Clone, PartialEq, Eq)]
pub enum UpdateAction {
    /// Nothing to resume; checking for a new release is the caller's policy.
    Idle,
    /// Stage the selected variant's bytes at the temporary path.
    Download { target: String, temporary: String },
    /// Move the staged file over the target path; retried, never rolled back.
    Swap { target: String, temporary: String },
    /// Remove the staged file if it is still present.
    RemoveTemporary { temporary: String },
}

impl UpdateState {
    /// The same record with a different phase: paths are never silently
    /// dropped mid-sequence.
    pub fn for_phase(&self, phase: UpdatePhase) -> (r: UpdateState)
        ensures
            r.target_application == self.target_application,
            r.temporary_application == self.temporary_application,
            r.phase == phase,
    {
        UpdateState {
            target_application: clone_path(&self.target_application),
            temporary_application: clone_path(&self.temporary_application),
            phase,
        }
    }

    /// A record announcing a staged update: the only construction besides
    /// `for_phase` and the reset to `NoUpdate`.
    pub fn begin_update(target: String, temporary: String) -> (r: UpdateState)
        ensures
            r.target_application == Some(target),
            r.temporary_application == Some(temporary),
            r.phase == UpdatePhase::Prepare,
            state_well_formed(r@),
    {
        UpdateState {
            target_application: Some(target),
            temporary_application: Some(temporary),
            phase: UpdatePhase::Prepare,
        }
    }

    /// The record to persist once the current phase's action has completed:
    /// one step along the protocol's single forward path, with the paths
    /// preserved until the final reset clears them.
    pub fn advance(&self) -> (r: UpdateState)
        requires
            self.phase != UpdatePhase::NoUpdate,
        ensures
            valid_transition(self.phase, r.phase),
            self.phase == UpdatePhase::Prepare ==> r.phase == UpdatePhase::Replace
                && r.target_application == self.target_application && r.temporary_application
                == self.temporary_application,
            self.phase == UpdatePhase::Replace ==> r.phase == UpdatePhase::Cleanup
                && r.target_application == self.target_application && r.temporary_application
                == self.temporary_application,
            self.phase == UpdatePhase::Cleanup ==> r.phase == UpdatePhase::NoUpdate
                && r.target_application is None && r.temporary_application is None,
            state_well_formed(self@) ==> state_well_formed(r@),
    {
        match self.phase {
            UpdatePhase::NoUpdate => Default::default(),
            UpdatePhase::Prepare => self.for_phase(UpdatePhase::Replace),
            UpdatePhase::Replace => self.for_phase(UpdatePhase::Cleanup),
            UpdatePhase::Cleanup => Default::default(),
        }
    }

    /// What to resume, given this persisted record.  A phase past `NoUpdate`
    /// resumes that phase's own action — `Replace` never re-downloads and
    /// `Prepare` never swaps — and a record whose paths are missing is
    /// corruption, fatal to the update flow only.
    pub fn resume_action(&self) -> (r: Result<UpdateAction, Error>)
        ensures
            self.phase == UpdatePhase::NoUpdate ==> r == Ok::<UpdateAction, Error>(
                UpdateAction::Idle,
            ),
            self.phase == UpdatePhase::Prepare ==> match (
                &self.target_application,
                &self.temporary_application,
            ) {
                (Some(t), Some(tmp)) => r matches Ok(UpdateAction::Download { target, temporary })
                    && target@ == t@ && temporary@ == tmp@,
                _ => r is Err && r->Err_0 is Internal,
            },
            self.phase == UpdatePhase::Replace ==> match (
                &self.target_application,
                &self.temporary_application,
            ) {
                (Some(t), Some(tmp)) => r matches Ok(UpdateAction::Swap { target, temporary })
                    && target@ == t@ && temporary@ == tmp@,
                _ => r is Err && r->Err_0 is Internal,
            },
            self.phase == UpdatePhase::Cleanup ==> match &self.temporary_application {
                Some(tmp) => r matches Ok(UpdateAction::RemoveTemporary { temporary })
                    && temporary@ == tmp@,
                None => r is Err && r->Err_0 is Internal,
            },
    {
        match self.phase {
            UpdatePhase::NoUpdate => Ok(UpdateAction::Idle),
            UpdatePhase::Prepare => {
                match (&self.target_application, &self.temporary_application) {
                    (Some(t), Some(tmp)) => Ok(
                        UpdateAction::Download { target: t.clone(), temporary: tmp.clone() },
                    ),
                    _ => Err(corrupt_state_error()),
                }
            },
            UpdatePhase::Replace => {
                match (&self.target_application, &self.temporary_application) {
                    (Some(t), Some(tmp)) => Ok(
                        UpdateAction::Swap { target: t.clone(), temporary: tmp.clone() },
                    ),
                    _ => Err(corrupt_state_error()),
                }
            },
            UpdatePhase::Cleanup => {
                match &self.temporary_application {
                    Some(tmp) => Ok(UpdateAction::RemoveTemporary { temporary: tmp.clone() }),
                    None => Err(corrupt_state_error()),
                }
            },
        }
    }
}

/// The failure reported for a record whose phase demands paths it lacks.
fn corrupt_state_error() -> (r: Error)
    ensures
        r is Internal,
{
    Error::Internal {
        message: "the persisted update record lacks the paths its phase requires".to_owned(),
    }
}

/// An owned copy of an optional path.
fn clone_path(p: &Option<String>) -> (r: Option<String>)
    ensures
        r == *p,
{
    match p {
        Some(s) => Some(s.clone()),
        None => None,
    }
}

} // verus!
