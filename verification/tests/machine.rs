use tf_agent::machine::Phase;
use tf_agent::machine::RunAction;
use tf_agent::machine::RunEvent;
use tf_agent::machine::action_of;
use tf_agent::machine::step;
use tf_agent::outcome::WorkspaceStage;

fn outcome_of(p: &Phase) -> Result<String, String> {
    match p {
        Phase::Done { outcome } => outcome.clone(),
        _ => panic!("run not finished"),
    }
}

#[test]
fn happy_path_success_message() {
    // init exits 0, apply exits 0: the fixed confirmation string.
    let p = Phase::Created;
    let (p, a) = step(p, RunEvent::WorkspaceMade);
    assert_eq!(a, RunAction::StartInit);
    let (p, a) = step(p, RunEvent::InitStarted);
    assert_eq!(a, RunAction::AwaitInit);
    let (p, a) = step(p, RunEvent::InitExited { ok: true, stderr: String::new() });
    assert_eq!(a, RunAction::StartApply);
    let (p, a) = step(p, RunEvent::ApplySpawned);
    assert_eq!(a, RunAction::AwaitApply);
    let (p, a) = step(p, RunEvent::ApplyExited { ok: true, code: Some(0) });
    assert_eq!(a, RunAction::Report);
    assert_eq!(
        outcome_of(&p),
        Ok("Terraform apply completed successfully".to_string())
    );
}

#[test]
fn apply_exit_code_two_in_message() {
    // init exits 0, apply exits 2: the failure message carries the code.
    let p = Phase::Applying;
    let (p, a) = step(p, RunEvent::ApplyExited { ok: false, code: Some(2) });
    assert_eq!(a, RunAction::Report);
    let msg = outcome_of(&p).unwrap_err();
    assert_eq!(msg, "Terraform apply failed with exit code: Some(2)");
    assert!(msg.contains("2"));
}

#[test]
fn failed_init_never_starts_apply() {
    // init exits 1 with stderr text: the message carries the text, and the
    // machine never asks for the apply phase.
    let p = Phase::Created;
    let (p, a) = step(p, RunEvent::WorkspaceMade);
    assert_ne!(a, RunAction::StartApply);
    let (p, a) = step(p, RunEvent::InitStarted);
    assert_ne!(a, RunAction::StartApply);
    let (p, a) = step(
        p,
        RunEvent::InitExited { ok: false, stderr: "provider not found".to_string() },
    );
    assert_eq!(a, RunAction::Report);
    let msg = outcome_of(&p).unwrap_err();
    assert_eq!(msg, "Terraform init failed: provider not found");
    assert!(msg.contains("provider not found"));
    // Even a stray apply-phase event afterwards changes nothing.
    let (p, a) = step(p, RunEvent::ApplyExited { ok: true, code: Some(0) });
    assert_eq!(a, RunAction::Report);
    assert_eq!(
        outcome_of(&p),
        Err("Terraform init failed: provider not found".to_string())
    );
}

#[test]
fn workspace_failure_is_terminal() {
    let p = Phase::Created;
    let (p, a) = step(
        p,
        RunEvent::WorkspaceFailed {
            stage: WorkspaceStage::CreateDir,
            detail: "No space left on device (os error 28)".to_string(),
        },
    );
    assert_eq!(a, RunAction::Report);
    assert_eq!(
        outcome_of(&p),
        Err("Failed to create temp directory: No space left on device (os error 28)".to_string())
    );
}

#[test]
fn init_launch_failure_message() {
    let p = Phase::Initializing;
    let (p, _) = step(
        p,
        RunEvent::InitLaunchFailed { detail: "No such file or directory".to_string() },
    );
    assert_eq!(
        outcome_of(&p),
        Err("Failed to run terraform init: No such file or directory".to_string())
    );
}

#[test]
fn spawn_failure_message() {
    let p = Phase::Initialized;
    let (p, _) = step(
        p,
        RunEvent::ApplySpawnFailed { detail: "permission denied".to_string() },
    );
    assert_eq!(
        outcome_of(&p),
        Err("Failed to spawn terraform: permission denied".to_string())
    );
}

#[test]
fn wait_failure_message() {
    let p = Phase::Applying;
    let (p, _) = step(
        p,
        RunEvent::ApplyWaitFailed { detail: "interrupted".to_string() },
    );
    assert_eq!(
        outcome_of(&p),
        Err("Failed to wait for terraform: interrupted".to_string())
    );
}

#[test]
fn signal_terminated_apply_has_no_code() {
    let p = Phase::Applying;
    let (p, _) = step(p, RunEvent::ApplyExited { ok: false, code: None });
    assert_eq!(
        outcome_of(&p),
        Err("Terraform apply failed with exit code: None".to_string())
    );
}

#[test]
fn mismatched_event_keeps_phase() {
    let p = Phase::Created;
    let (p, a) = step(p, RunEvent::ApplyExited { ok: true, code: Some(0) });
    assert_eq!(a, RunAction::MakeWorkspace);
    assert!(matches!(p, Phase::Created));
    assert_eq!(action_of(&p), RunAction::MakeWorkspace);
}
