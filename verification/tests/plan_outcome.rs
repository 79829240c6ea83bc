use tf_agent::outcome::RunError;
use tf_agent::outcome::WorkspaceStage;
use tf_agent::outcome::error_message;
use tf_agent::outcome::report_outcome;
use tf_agent::outcome::success_message;
use tf_agent::plan::Credentials;
use tf_agent::plan::apply_args;
use tf_agent::plan::apply_env;
use tf_agent::plan::init_args;
use tf_agent::plan::plan_workspace;
use tf_agent::plan::tool_program;

fn sample_credentials() -> Credentials {
    Credentials {
        url: "https://example.jamfcloud.com".to_string(),
        username: "admin".to_string(),
        password: "s3cr3t-value".to_string(),
    }
}

#[test]
fn workspace_plan_keeps_source_verbatim() {
    let source = "resource \"jamfpro_policy\" \"p\" {\n  name = \"demo\"\n}\n";
    let plan = plan_workspace(source.to_string());
    assert_eq!(plan.contents, source);
    assert_eq!(plan.file_name, "main.tf");
}

#[test]
fn tool_and_init_arguments_fixed() {
    assert_eq!(tool_program(), "terraform");
    assert_eq!(init_args(), vec!["init".to_string()]);
}

#[test]
fn apply_arguments_fixed_and_credential_free() {
    // The argument list is a constant: no credential can reach the process
    // listing, whatever the credentials are.
    let args = apply_args();
    assert_eq!(args, vec!["apply".to_string(), "-auto-approve".to_string()]);
    let c = sample_credentials();
    for a in &args {
        assert!(!a.contains(&c.url));
        assert!(!a.contains(&c.username));
        assert!(!a.contains(&c.password));
    }
}

#[test]
fn apply_environment_holds_exactly_the_credentials() {
    let c = sample_credentials();
    let env = apply_env(sample_credentials());
    assert_eq!(env.len(), 3);
    assert_eq!(env[0].0, "JAMF_URL");
    assert_eq!(env[0].1, c.url);
    assert_eq!(env[1].0, "JAMF_USERNAME");
    assert_eq!(env[1].1, c.username);
    assert_eq!(env[2].0, "JAMF_PASSWORD");
    assert_eq!(env[2].1, c.password);
}

#[test]
fn success_message_fixed() {
    assert_eq!(success_message(), "Terraform apply completed successfully");
}

#[test]
fn report_outcome_by_exit_status() {
    assert_eq!(
        report_outcome(true, Some(0)),
        Ok("Terraform apply completed successfully".to_string())
    );
    assert_eq!(
        report_outcome(false, Some(1)),
        Err("Terraform apply failed with exit code: Some(1)".to_string())
    );
    assert_eq!(
        report_outcome(false, None),
        Err("Terraform apply failed with exit code: None".to_string())
    );
}

#[test]
fn workspace_error_messages_exact() {
    let cases = [
        (WorkspaceStage::CreateDir, "Failed to create temp directory: boom"),
        (WorkspaceStage::CreateFile, "Failed to create main.tf: boom"),
        (WorkspaceStage::WriteFile, "Failed to write HCL code: boom"),
    ];
    for (stage, want) in cases {
        let e = RunError::Workspace { stage, detail: "boom".to_string() };
        assert_eq!(error_message(&e), want);
    }
}

#[test]
fn other_error_messages_exact() {
    assert_eq!(
        error_message(&RunError::InitLaunch { detail: "x".to_string() }),
        "Failed to run terraform init: x"
    );
    assert_eq!(
        error_message(&RunError::InitFailed { stderr: "bad provider".to_string() }),
        "Terraform init failed: bad provider"
    );
    assert_eq!(
        error_message(&RunError::SpawnFailed { detail: "x".to_string() }),
        "Failed to spawn terraform: x"
    );
    assert_eq!(
        error_message(&RunError::WaitFailed { detail: "x".to_string() }),
        "Failed to wait for terraform: x"
    );
}

#[test]
fn exit_code_renderings_exact() {
    assert_eq!(
        error_message(&RunError::ApplyFailed { code: Some(0) }),
        "Terraform apply failed with exit code: Some(0)"
    );
    assert_eq!(
        error_message(&RunError::ApplyFailed { code: Some(2) }),
        "Terraform apply failed with exit code: Some(2)"
    );
    assert_eq!(
        error_message(&RunError::ApplyFailed { code: Some(123456) }),
        "Terraform apply failed with exit code: Some(123456)"
    );
    assert_eq!(
        error_message(&RunError::ApplyFailed { code: Some(-1) }),
        "Terraform apply failed with exit code: Some(-1)"
    );
    assert_eq!(
        error_message(&RunError::ApplyFailed { code: Some(i32::MIN) }),
        "Terraform apply failed with exit code: Some(-2147483648)"
    );
    assert_eq!(
        error_message(&RunError::ApplyFailed { code: Some(i32::MAX) }),
        "Terraform apply failed with exit code: Some(2147483647)"
    );
}

#[test]
fn error_messages_never_hold_credentials() {
    // Messages are built from the failure's own data alone; none of the
    // builders takes a credential.
    let c = sample_credentials();
    let msgs = [
        error_message(&RunError::InitFailed { stderr: "exit status 1".to_string() }),
        error_message(&RunError::ApplyFailed { code: Some(1) }),
        success_message(),
    ];
    for m in &msgs {
        assert!(!m.contains(&c.url));
        assert!(!m.contains(&c.username));
        assert!(!m.contains(&c.password));
    }
}
