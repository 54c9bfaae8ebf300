//! Client-side error classification: where a failure arose, and its text.

use vstd::prelude::*;
use vstd::string::*;

verus! {

/// Wrapper for error text that is known to end up as `ErrorSource::Local`.
pub struct LocalError(pub String);

/// Where a client-side failure arose.
pub enum ErrorSource {
    /// Connection prevented by error
    FailedConnect,
    /// Errors reported on server side
    Remote,
    /// Error occurring locally with this client
    Local,
}

/// The fixed description of an error source.
pub open spec fn source_message_of(source: ErrorSource) -> Seq<char> {
    match source {
        ErrorSource::FailedConnect => "Failed to connect to remote host"@,
        ErrorSource::Remote => "Error reported by remote host"@,
        ErrorSource::Local => "Error occurred in client"@,
    }
}

impl ErrorSource {
    /// Describes this error source.
    pub fn message(&self) -> (r: String)
        ensures
            r@ == source_message_of(*self),
    {
        match self {
            ErrorSource::FailedConnect => String::from_str("Failed to connect to remote host"),
            ErrorSource::Remote => String::from_str("Error reported by remote host"),
            ErrorSource::Local => String::from_str("Error occurred in client"),
        }
    }
}

/// A classified client-side error: its source and the causing error's text.
pub struct ClientError {
    source: ErrorSource,
    cause: String,
}

impl ClientError {
    /// The source this error was classified under.
    pub closed spec fn spec_source(&self) -> ErrorSource {
        self.source
    }

    /// The text of the causing error.
    pub closed spec fn spec_cause(&self) -> Seq<char> {
        self.cause@
    }

    /// An error that prevented connecting to the remote host.
    pub fn failed_connect(e: String) -> (r: Self)
        ensures
            r.spec_source() == ErrorSource::FailedConnect,
            r.spec_cause() == e@,
    {
        ClientError { source: ErrorSource::FailedConnect, cause: e }
    }

    /// An error the remote host reported.
    pub fn remote(e: String) -> (r: Self)
        ensures
            r.spec_source() == ErrorSource::Remote,
            r.spec_cause() == e@,
    {
        ClientError { source: ErrorSource::Remote, cause: e }
    }

    /// An error that occurred locally in the client.
    pub fn local(e: String) -> (r: Self)
        ensures
            r.spec_source() == ErrorSource::Local,
            r.spec_cause() == e@,
    {
        ClientError { source: ErrorSource::Local, cause: e }
    }

    /// An error already classified as local.
    pub fn from_local(e: LocalError) -> (r: Self)
        ensures
            r.spec_source() == ErrorSource::Local,
            r.spec_cause() == e.0@,
    {
        ClientError { source: ErrorSource::Local, cause: e.0 }
    }

    /// Renders the error as `<source>: <cause>`.
    pub fn message(&self) -> (r: String)
        ensures
            r@ == source_message_of(self.spec_source()) + ": "@ + self.spec_cause(),
    {
        let mut out = self.source.message();
        out.append(": ");
        out.append(self.cause.as_str());
        out
    }
}

} // verus!
