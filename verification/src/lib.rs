//! Remote test service: a registry of named test projects, a content-addressed
//! update pipeline, and an execution-capsule abstraction for running the
//! projects' test commands either directly or inside an ephemeral sandbox.

pub mod archive;
pub mod capsule;
pub mod client;
pub mod client_errors;
pub mod codec;
pub mod hash;
pub mod pb;
pub mod project;
pub mod registry;
pub mod server;
pub mod words;
