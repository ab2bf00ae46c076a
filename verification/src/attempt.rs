//! What one attempt to run a command on a host can come to.

use vstd::prelude::*;

verus! {

/// The stage of a remote execution at which an attempt failed.
#[derive(Clone, Copy, Debug, PartialEq, Eq, Structural)]
pub enum ErrorKind {
    Connection,
    Handshake,
    Auth,
    Channel,
    Exec,
    Read,
    Close,
    ExitStatus,
    RemoteCommandFailure,
}

/// What one attempt of one command came to.
#[derive(Clone, Debug, PartialEq, Eq)]
pub enum Attempt {
    /// The command ran and left with status zero.
    Success { stdout: String },
    /// The attempt failed, at the protocol or with a status other than zero.
    Failure { kind: ErrorKind, message: String },
}

/// Mathematical value of an `Attempt`.
pub enum AttemptView {
    Success { stdout: Seq<char> },
    Failure { kind: ErrorKind, message: Seq<char> },
}

impl View for Attempt {
    type V = AttemptView;

    open spec fn view(&self) -> AttemptView {
        match self {
            Attempt::Success { stdout } => AttemptView::Success { stdout: stdout@ },
            Attempt::Failure { kind, message } => AttemptView::Failure {
                kind: *kind,
                message: message@,
            },
        }
    }
}

} // verus!
