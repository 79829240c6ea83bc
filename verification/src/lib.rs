//! Core logic of a desktop agent that provisions infrastructure through an
//! external tool. The backend writes user-supplied configuration to a scratch
//! workspace, runs the tool in two phases (`init`, then `apply`), relays the
//! tool's output line by line to a listener, and reports a final outcome.
//!
//! Everything that decides or computes lives here and is verified: the
//! command and environment plans, the line-splitting relay, the outcome
//! messages, and the phase state machine. The surrounding process and
//! filesystem plumbing is unverified driver code outside this crate.

pub mod event;
pub mod laws;
pub mod machine;
pub mod outcome;
pub mod plan;
pub mod relay;
