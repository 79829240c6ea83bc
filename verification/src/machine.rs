//! The phase state machine of one provisioning run.
//!
//! One run moves through `Created -> WorkspaceReady -> Initializing ->
//! Initialized -> Applying -> Done`, where a failure in any phase jumps
//! straight to `Done` with the failure message. The driver performs each
//! [`RunAction`] it is handed (make the workspace, launch a phase, await an
//! exit) and feeds the observed [`RunEvent`] back into [`step`]; the machine
//! itself does no work in the world, so every transition — including the
//! exact outcome text — is verified against [`spec_step`].

use vstd::prelude::*;

use crate::outcome::RunError;
use crate::outcome::WorkspaceStage;
use crate::outcome::code_text;
use crate::outcome::error_message;
use crate::outcome::spec_success_message;
use crate::outcome::spec_workspace_prefix;
use crate::outcome::success_message;

verus! {

/// The phase a run is in. `Done` carries the final outcome: the fixed
/// success message, or the failure message of the error that ended the run.
pub enum Phase {
    Created,
    WorkspaceReady,
    Initializing,
    Initialized,
    Applying,
    Done { outcome: Result<String, String> },
}

/// What the driver observed in the world and reports back to the machine.
pub enum RunEvent {
    /// The workspace directory and file were created and written.
    WorkspaceMade,
    /// Preparing the workspace failed; carries the OS error text.
    WorkspaceFailed { stage: WorkspaceStage, detail: String },
    /// The init phase was launched.
    InitStarted,
    /// The init phase could not be run at all.
    InitLaunchFailed { detail: String },
    /// The init phase exited; `ok` is whether its status was zero, `stderr`
    /// its captured error text.
    InitExited { ok: bool, stderr: String },
    /// The apply process was spawned with its output piped.
    ApplySpawned,
    /// The apply process could not be spawned.
    ApplySpawnFailed { detail: String },
    /// Both relay loops finished and the apply process exited; `ok` is
    /// whether its status was zero, `code` the exit code if the OS gave one.
    ApplyExited { ok: bool, code: Option<i32> },
    /// The apply process's exit status could not be obtained.
    ApplyWaitFailed { detail: String },
}

/// What the driver must do next.
#[derive(Clone, Copy, PartialEq, Eq, Structural, Debug)]
pub enum RunAction {
    /// Create the scratch directory and write the source file into it.
    MakeWorkspace,
    /// Run the tool's init phase in the workspace and wait for it.
    StartInit,
    /// Keep waiting for the init phase's exit.
    AwaitInit,
    /// Spawn the tool's apply phase with the credential environment.
    StartApply,
    /// Relay both output streams and wait for the apply exit status.
    AwaitApply,
    /// The run is over; deliver the outcome held in `Done`.
    Report,
}

/// The spec-level image of a phase: outcome text as character sequences.
pub enum PhaseModel {
    Created,
    WorkspaceReady,
    Initializing,
    Initialized,
    Applying,
    Done { outcome: Result<Seq<char>, Seq<char>> },
}

/// The spec-level image of an event.
pub enum EventModel {
    WorkspaceMade,
    WorkspaceFailed { stage: WorkspaceStage, detail: Seq<char> },
    InitStarted,
    InitLaunchFailed { detail: Seq<char> },
    InitExited { ok: bool, stderr: Seq<char> },
    ApplySpawned,
    ApplySpawnFailed { detail: Seq<char> },
    ApplyExited { ok: bool, code: Option<i32> },
    ApplyWaitFailed { detail: Seq<char> },
}

impl Phase {
    /// The mathematical value of this phase.
    pub open spec fn model(self) -> PhaseModel {
        match self {
            Phase::Created => PhaseModel::Created,
            Phase::WorkspaceReady => PhaseModel::WorkspaceReady,
            Phase::Initializing => PhaseModel::Initializing,
            Phase::Initialized => PhaseModel::Initialized,
            Phase::Applying => PhaseModel::Applying,
            Phase::Done { outcome } => PhaseModel::Done {
                outcome: match outcome {
                    Ok(m) => Ok(m@),
                    Err(m) => Err(m@),
                },
            },
        }
    }
}

impl RunEvent {
    /// The mathematical value of this event.
    pub open spec fn model(self) -> EventModel {
        match self {
            RunEvent::WorkspaceMade => EventModel::WorkspaceMade,
            RunEvent::WorkspaceFailed { stage, detail } => EventModel::WorkspaceFailed {
                stage,
                detail: detail@,
            },
            RunEvent::InitStarted => EventModel::InitStarted,
            RunEvent::InitLaunchFailed { detail } => EventModel::InitLaunchFailed {
                detail: detail@,
            },
            RunEvent::InitExited { ok, stderr } => EventModel::InitExited { ok, stderr: stderr@ },
            RunEvent::ApplySpawned => EventModel::ApplySpawned,
            RunEvent::ApplySpawnFailed { detail } => EventModel::ApplySpawnFailed {
                detail: detail@,
            },
            RunEvent::ApplyExited { ok, code } => EventModel::ApplyExited { ok, code },
            RunEvent::ApplyWaitFailed { detail } => EventModel::ApplyWaitFailed { detail: detail@ },
        }
    }
}

/// The action a phase is waiting on: what the driver does when it has no
/// new event to report for it.
pub open spec fn pending_action(p: PhaseModel) -> RunAction {
    match p {
        PhaseModel::Created => RunAction::MakeWorkspace,
        PhaseModel::WorkspaceReady => RunAction::StartInit,
        PhaseModel::Initializing => RunAction::AwaitInit,
        PhaseModel::Initialized => RunAction::StartApply,
        PhaseModel::Applying => RunAction::AwaitApply,
        PhaseModel::Done { .. } => RunAction::Report,
    }
}

/// The transition table of one run. An event that does not belong to the
/// current phase changes nothing; in particular `Done` is terminal.
pub open spec fn spec_step(p: PhaseModel, ev: EventModel) -> (PhaseModel, RunAction) {
    match (p, ev) {
        (PhaseModel::Created, EventModel::WorkspaceMade) => (
            PhaseModel::WorkspaceReady,
            RunAction::StartInit,
        ),
        (PhaseModel::Created, EventModel::WorkspaceFailed { stage, detail }) => (
            PhaseModel::Done { outcome: Err(spec_workspace_prefix(stage) + detail) },
            RunAction::Report,
        ),
        (PhaseModel::WorkspaceReady, EventModel::InitStarted) => (
            PhaseModel::Initializing,
            RunAction::AwaitInit,
        ),
        (PhaseModel::Initializing, EventModel::InitLaunchFailed { detail }) => (
            PhaseModel::Done { outcome: Err("Failed to run terraform init: "@ + detail) },
            RunAction::Report,
        ),
        (PhaseModel::Initializing, EventModel::InitExited { ok, stderr }) => {
            if ok {
                (PhaseModel::Initialized, RunAction::StartApply)
            } else {
                (
                    PhaseModel::Done { outcome: Err("Terraform init failed: "@ + stderr) },
                    RunAction::Report,
                )
            }
        },
        (PhaseModel::Initialized, EventModel::ApplySpawned) => (
            PhaseModel::Applying,
            RunAction::AwaitApply,
        ),
        (PhaseModel::Initialized, EventModel::ApplySpawnFailed { detail }) => (
            PhaseModel::Done { outcome: Err("Failed to spawn terraform: "@ + detail) },
            RunAction::Report,
        ),
        (PhaseModel::Applying, EventModel::ApplyExited { ok, code }) => {
            if ok {
                (PhaseModel::Done { outcome: Ok(spec_success_message()) }, RunAction::Report)
            } else {
                (
                    PhaseModel::Done {
                        outcome: Err("Terraform apply failed with exit code: "@ + code_text(code)),
                    },
                    RunAction::Report,
                )
            }
        },
        (PhaseModel::Applying, EventModel::ApplyWaitFailed { detail }) => (
            PhaseModel::Done { outcome: Err("Failed to wait for terraform: "@ + detail) },
            RunAction::Report,
        ),
        (q, _) => (q, pending_action(q)),
    }
}

/// The whole trace of a run: starting from `p`, the phase reached and the
/// action issued after each event of `evs`, in order.
pub open spec fn run_steps(p: PhaseModel, evs: Seq<EventModel>) -> Seq<(PhaseModel, RunAction)>
    decreases evs.len(),
{
    if evs.len() == 0 {
        Seq::empty()
    } else {
        let first = spec_step(p, evs[0]);
        seq![first] + run_steps(first.0, evs.skip(1))
    }
}

/// The phase a run is left in after the events `evs`, starting from `p`.
pub open spec fn final_phase(p: PhaseModel, evs: Seq<EventModel>) -> PhaseModel
    decreases evs.len(),
{
    if evs.len() == 0 {
        p
    } else {
        final_phase(spec_step(p, evs[0]).0, evs.skip(1))
    }
}

/// One verified transition: the returned phase and action are exactly what
/// the transition table gives for the inputs, message text included.
pub fn step(phase: Phase, ev: RunEvent) -> (r: (Phase, RunAction))
    ensures
        r.0.model() == spec_step(phase.model(), ev.model()).0,
        r.1 == spec_step(phase.model(), ev.model()).1,
{
    match (phase, ev) {
        (Phase::Created, RunEvent::WorkspaceMade) => (Phase::WorkspaceReady, RunAction::StartInit),
        (Phase::Created, RunEvent::WorkspaceFailed { stage, detail }) => {
            let msg = error_message(&RunError::Workspace { stage, detail });
            (Phase::Done { outcome: Err(msg) }, RunAction::Report)
        },
        (Phase::WorkspaceReady, RunEvent::InitStarted) => (
            Phase::Initializing,
            RunAction::AwaitInit,
        ),
        (Phase::Initializing, RunEvent::InitLaunchFailed { detail }) => {
            let msg = error_message(&RunError::InitLaunch { detail });
            (Phase::Done { outcome: Err(msg) }, RunAction::Report)
        },
        (Phase::Initializing, RunEvent::InitExited { ok, stderr }) => {
            if ok {
                (Phase::Initialized, RunAction::StartApply)
            } else {
                let msg = error_message(&RunError::InitFailed { stderr });
                (Phase::Done { outcome: Err(msg) }, RunAction::Report)
            }
        },
        (Phase::Initialized, RunEvent::ApplySpawned) => (Phase::Applying, RunAction::AwaitApply),
        (Phase::Initialized, RunEvent::ApplySpawnFailed { detail }) => {
            let msg = error_message(&RunError::SpawnFailed { detail });
            (Phase::Done { outcome: Err(msg) }, RunAction::Report)
        },
        (Phase::Applying, RunEvent::ApplyExited { ok, code }) => {
            if ok {
                (Phase::Done { outcome: Ok(success_message()) }, RunAction::Report)
            } else {
                let msg = error_message(&RunError::ApplyFailed { code });
                (Phase::Done { outcome: Err(msg) }, RunAction::Report)
            }
        },
        (Phase::Applying, RunEvent::ApplyWaitFailed { detail }) => {
            let msg = error_message(&RunError::WaitFailed { detail });
            (Phase::Done { outcome: Err(msg) }, RunAction::Report)
        },
        (q, _) => {
            let a = action_of(&q);
            (q, a)
        },
    }
}

/// The action a phase is waiting on, as executable code.
pub fn action_of(p: &Phase) -> (a: RunAction)
    ensures
        a == pending_action(p.model()),
{
    match p {
        Phase::Created => RunAction::MakeWorkspace,
        Phase::WorkspaceReady => RunAction::StartInit,
        Phase::Initializing => RunAction::AwaitInit,
        Phase::Initialized => RunAction::StartApply,
        Phase::Applying => RunAction::AwaitApply,
        Phase::Done { .. } => RunAction::Report,
    }
}

} // verus!
