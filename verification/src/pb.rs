//! The wire-level request and response shapes of the service interface, as
//! plain data. The transport that carries them is outside the library.

use vstd::prelude::*;

verus! {

/// A project as a client announces it: a name and one command line per test.
pub struct Project {
    pub name: String,
    pub tests: Vec<String>,
}

/// Names a registered project.
pub struct ProjectIdentifier {
    pub name: String,
}

/// An inbound content update: the archive bytes and the digest the client
/// claims for them.
pub struct ProjectUpdate {
    pub name: String,
    pub hash: String,
    pub blob: Vec<u8>,
}

/// An incremental-update request; the operation exists in the protocol but
/// is intentionally unimplemented.
pub struct ProjectIncrement {
    pub name: String,
}

/// Outcome of a register or unregister request.
pub struct RegisterResponse {
    pub success: bool,
    pub error: Option<String>,
}

/// Outcome of an update request; echoes project and digest back for
/// client-side confirmation.
pub struct UpdateResponse {
    pub project: String,
    pub hash: String,
    pub success: bool,
    pub error: Option<String>,
}

/// Outcome of one executed test command.
pub struct TestResult {
    pub command: String,
    pub stdout: Vec<u8>,
    pub stderr: Vec<u8>,
    pub success: bool,
}

/// Outcome of a whole test run.
pub struct TestResults {
    pub name: String,
    pub hash: String,
    pub timestamp: String,
    pub results: Vec<TestResult>,
}

} // verus!
