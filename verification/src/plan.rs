//! The workspace provisioner's plan and the two subprocess invocations.
//!
//! Nothing here touches the filesystem or spawns anything: these functions
//! pin down, exactly, what the driver must write and run. The source text
//! goes verbatim into the one configuration file; the tool is invoked first
//! with the init argument, then with the apply arguments; the three
//! credentials travel only as environment variable values of the apply
//! call, never as arguments.

use vstd::prelude::*;

verus! {

/// The three credential fields of one run. They exist only for the duration
/// of the invocation and may appear nowhere but in the apply call's
/// environment.
pub struct Credentials {
    pub url: String,
    pub username: String,
    pub password: String,
}

/// What the workspace provisioner must create: one file of this name, with
/// these contents, inside a fresh scratch directory.
pub struct WorkspacePlan {
    pub file_name: String,
    pub contents: String,
}

/// The plan for a workspace holding `source`: the fixed entrypoint file
/// name, and the source text unchanged, byte for byte.
pub fn plan_workspace(source: String) -> (r: WorkspacePlan)
    ensures
        r.file_name@ == "main.tf"@,
        r.contents@ == source@,
{
    WorkspacePlan { file_name: String::from_str("main.tf"), contents: source }
}

/// The name of the external tool binary, resolved via the search path.
pub fn tool_program() -> (r: String)
    ensures
        r@ == "terraform"@,
{
    String::from_str("terraform")
}

/// The argument list of the init phase.
pub fn init_args() -> (r: Vec<String>)
    ensures
        r@.len() == 1,
        r@[0]@ == "init"@,
{
    let mut v: Vec<String> = Vec::new();
    v.push(String::from_str("init"));
    v
}

/// The argument list of the apply phase. It is fixed: no credential, and
/// nothing else, ever becomes an argument.
pub fn apply_args() -> (r: Vec<String>)
    ensures
        r@.len() == 2,
        r@[0]@ == "apply"@,
        r@[1]@ == "-auto-approve"@,
{
    let mut v: Vec<String> = Vec::new();
    v.push(String::from_str("apply"));
    v.push(String::from_str("-auto-approve"));
    v
}

/// The environment of the apply phase: exactly the three credential
/// variables, holding the supplied values unchanged.
pub fn apply_env(c: Credentials) -> (r: Vec<(String, String)>)
    ensures
        r@.len() == 3,
        r@[0].0@ == "JAMF_URL"@,
        r@[0].1@ == c.url@,
        r@[1].0@ == "JAMF_USERNAME"@,
        r@[1].1@ == c.username@,
        r@[2].0@ == "JAMF_PASSWORD"@,
        r@[2].1@ == c.password@,
{
    let mut v: Vec<(String, String)> = Vec::new();
    v.push((String::from_str("JAMF_URL"), c.url));
    v.push((String::from_str("JAMF_USERNAME"), c.username));
    v.push((String::from_str("JAMF_PASSWORD"), c.password));
    v
}

} // verus!
