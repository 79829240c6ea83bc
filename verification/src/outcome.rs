//! The outcome reporter: the error taxonomy of one provisioning run and the
//! exact human-readable message each outcome produces.
//!
//! Every failure of a run is one [`RunError`]; [`spec_error_message`] pins
//! the message text for each of them, down to the decimal rendering of an
//! exit code, and the executable builders are proved to produce exactly that
//! text. Credentials are no input to anything here: a message is a function
//! of the failure's own data alone.

use vstd::prelude::*;

verus! {

/// Which step of preparing the workspace failed.
#[derive(Clone, Copy, PartialEq, Eq, Structural, Debug)]
pub enum WorkspaceStage {
    /// Creating the scratch directory.
    CreateDir,
    /// Creating the configuration file inside it.
    CreateFile,
    /// Writing the supplied source text into the file.
    WriteFile,
}

/// Everything that can end a run without a successful apply.
#[derive(Debug)]
pub enum RunError {
    /// The workspace could not be prepared; carries the OS error text.
    Workspace { stage: WorkspaceStage, detail: String },
    /// The tool's init phase could not be started.
    InitLaunch { detail: String },
    /// The init phase ran and exited non-zero; carries its captured stderr.
    InitFailed { stderr: String },
    /// The apply process could not be spawned.
    SpawnFailed { detail: String },
    /// The apply process's exit status could not be obtained.
    WaitFailed { detail: String },
    /// The apply phase exited non-zero; carries the exit code if the OS
    /// reported one.
    ApplyFailed { code: Option<i32> },
}

/// The decimal digit character for `d`.
pub open spec fn digit_char(d: int) -> char {
    if d == 0 {
        '0'
    } else if d == 1 {
        '1'
    } else if d == 2 {
        '2'
    } else if d == 3 {
        '3'
    } else if d == 4 {
        '4'
    } else if d == 5 {
        '5'
    } else if d == 6 {
        '6'
    } else if d == 7 {
        '7'
    } else if d == 8 {
        '8'
    } else {
        '9'
    }
}

/// The decimal digits of `n`, most significant first, no sign, no leading
/// zero except for `n == 0` itself.
pub open spec fn dec_digits(n: nat) -> Seq<char>
    decreases n,
{
    if n < 10 {
        seq![digit_char(n as int)]
    } else {
        dec_digits(n / 10).push(digit_char((n % 10) as int))
    }
}

/// The decimal rendering of a possibly negative integer.
pub open spec fn dec_int(n: int) -> Seq<char> {
    if n < 0 {
        seq!['-'] + dec_digits((-n) as nat)
    } else {
        dec_digits(n as nat)
    }
}

/// How an optional exit code is rendered inside the apply-failure message.
pub open spec fn code_text(c: Option<i32>) -> Seq<char> {
    match c {
        Option::Some(n) => "Some("@ + dec_int(n as int) + ")"@,
        Option::None => "None"@,
    }
}

/// The fixed confirmation message of a fully successful run.
pub open spec fn spec_success_message() -> Seq<char> {
    "Terraform apply completed successfully"@
}

/// The message prefix of each workspace failure.
pub open spec fn spec_workspace_prefix(stage: WorkspaceStage) -> Seq<char> {
    match stage {
        WorkspaceStage::CreateDir => "Failed to create temp directory: "@,
        WorkspaceStage::CreateFile => "Failed to create main.tf: "@,
        WorkspaceStage::WriteFile => "Failed to write HCL code: "@,
    }
}

/// The exact failure message of each error.
pub open spec fn spec_error_message(e: RunError) -> Seq<char> {
    match e {
        RunError::Workspace { stage, detail } => spec_workspace_prefix(stage) + detail@,
        RunError::InitLaunch { detail } => "Failed to run terraform init: "@ + detail@,
        RunError::InitFailed { stderr } => "Terraform init failed: "@ + stderr@,
        RunError::SpawnFailed { detail } => "Failed to spawn terraform: "@ + detail@,
        RunError::WaitFailed { detail } => "Failed to wait for terraform: "@ + detail@,
        RunError::ApplyFailed { code } => "Terraform apply failed with exit code: "@ + code_text(
            code,
        ),
    }
}

/// Append one decimal digit character.
fn push_digit(s: &mut String, d: u32)
    requires
        d < 10,
    ensures
        final(s)@ == old(s)@ + seq![digit_char(d as int)],
{
    proof {
        reveal_strlit("0");
        reveal_strlit("1");
        reveal_strlit("2");
        reveal_strlit("3");
        reveal_strlit("4");
        reveal_strlit("5");
        reveal_strlit("6");
        reveal_strlit("7");
        reveal_strlit("8");
        reveal_strlit("9");
    }
    if d == 0 {
        s.append("0");
    } else if d == 1 {
        s.append("1");
    } else if d == 2 {
        s.append("2");
    } else if d == 3 {
        s.append("3");
    } else if d == 4 {
        s.append("4");
    } else if d == 5 {
        s.append("5");
    } else if d == 6 {
        s.append("6");
    } else if d == 7 {
        s.append("7");
    } else if d == 8 {
        s.append("8");
    } else {
        s.append("9");
    }
    proof {
        assert(final(s)@ =~= old(s)@ + seq![digit_char(d as int)]);
    }
}

/// Append the decimal digits of `n`.
fn append_u32_dec(s: &mut String, n: u32)
    ensures
        final(s)@ == old(s)@ + dec_digits(n as nat),
    decreases n,
{
    if n < 10 {
        push_digit(s, n);
    } else {
        append_u32_dec(s, n / 10);
        push_digit(s, n % 10);
        proof {
            assert((old(s)@ + dec_digits((n / 10) as nat)) + seq![
                digit_char((n % 10) as int),
            ] =~= old(s)@ + dec_digits(n as nat));
        }
    }
}

/// Append the decimal rendering of `n`, sign included.
fn append_i32_dec(s: &mut String, n: i32)
    ensures
        final(s)@ == old(s)@ + dec_int(n as int),
{
    if n < 0 {
        proof {
            reveal_strlit("-");
        }
        s.append("-");
        let wide: i64 = n as i64;
        let m: u32 = (-wide) as u32;
        proof {
            assert(m as nat == (-(n as int)) as nat);
        }
        append_u32_dec(s, m);
        proof {
            assert((old(s)@ + "-"@) + dec_digits(m as nat) =~= old(s)@ + dec_int(n as int));
        }
    } else {
        append_u32_dec(s, n as u32);
    }
}

/// The confirmation message of a successful run, exactly as specified.
pub fn success_message() -> (r: String)
    ensures
        r@ == spec_success_message(),
{
    String::from_str("Terraform apply completed successfully")
}

/// The failure message of `e`, exactly as specified.
pub fn error_message(e: &RunError) -> (r: String)
    ensures
        r@ == spec_error_message(*e),
{
    match e {
        RunError::Workspace { stage, detail } => {
            let mut s = match stage {
                WorkspaceStage::CreateDir => String::from_str("Failed to create temp directory: "),
                WorkspaceStage::CreateFile => String::from_str("Failed to create main.tf: "),
                WorkspaceStage::WriteFile => String::from_str("Failed to write HCL code: "),
            };
            s.append(detail.as_str());
            s
        },
        RunError::InitLaunch { detail } => {
            let mut s = String::from_str("Failed to run terraform init: ");
            s.append(detail.as_str());
            s
        },
        RunError::InitFailed { stderr } => {
            let mut s = String::from_str("Terraform init failed: ");
            s.append(stderr.as_str());
            s
        },
        RunError::SpawnFailed { detail } => {
            let mut s = String::from_str("Failed to spawn terraform: ");
            s.append(detail.as_str());
            s
        },
        RunError::WaitFailed { detail } => {
            let mut s = String::from_str("Failed to wait for terraform: ");
            s.append(detail.as_str());
            s
        },
        RunError::ApplyFailed { code } => {
            let mut s = String::from_str("Terraform apply failed with exit code: ");
            let ghost prefix = s@;
            match code {
                Option::Some(n) => {
                    s.append("Some(");
                    append_i32_dec(&mut s, *n);
                    s.append(")");
                    proof {
                        assert(((prefix + "Some("@) + dec_int(*n as int)) + ")"@ =~= prefix
                            + code_text(*code));
                    }
                },
                Option::None => {
                    s.append("None");
                },
            }
            s
        },
    }
}

/// The outcome reporter: once the apply process's exit status is known,
/// either the fixed success message or the apply-failure message carrying
/// the exit code.
pub fn report_outcome(exit_ok: bool, code: Option<i32>) -> (r: Result<String, String>)
    ensures
        exit_ok ==> r is Ok && r->Ok_0@ == spec_success_message(),
        !exit_ok ==> r is Err && r->Err_0@ == spec_error_message(
            RunError::ApplyFailed { code },
        ),
{
    if exit_ok {
        Ok(success_message())
    } else {
        Err(error_message(&RunError::ApplyFailed { code }))
    }
}

} // verus!
