//! One remote execution of one command on one host, as a protocol of stages.
//! The caller performs each stage on the network and hands back what came of
//! it; the session says which stage is next and, at the end, what the attempt
//! came to.

use vstd::prelude::*;
use vstd::string::StringExecFns;
use crate::attempt::{Attempt, AttemptView, ErrorKind};
use crate::record::{failure_line, failure_text};
use crate::text::copy_text;

verus! {

/// The stages of a remote execution, in the order in which they are performed.
#[derive(Clone, Copy, Debug, PartialEq, Eq, Structural)]
pub enum Stage {
    /// Open the connection to the host.
    Connect,
    /// Set up the protocol session on the connection.
    CreateSession,
    /// Perform the protocol handshake.
    Handshake,
    /// Send user name and password.
    Authenticate,
    /// Ask the session whether it is authenticated.
    CheckAuthenticated,
    /// Open an execution channel.
    OpenChannel,
    /// Request execution of the command.
    Exec,
    /// Read the standard output to its end.
    ReadStdout,
    /// Read the standard error to its end.
    ReadStderr,
    /// Wait for the channel to close.
    WaitClose,
    /// Retrieve the exit status.
    ExitStatus,
}

/// What came of a stage.
#[derive(Clone, Debug, PartialEq, Eq)]
pub enum StageOutcome {
    /// The stage succeeded and has nothing to report.
    Done,
    /// The answer to `CheckAuthenticated`.
    Authenticated(bool),
    /// The text read by `ReadStdout` or `ReadStderr`.
    Output(String),
    /// The status retrieved by `ExitStatus`.
    Status(i32),
    /// The stage failed, with the text of its error.
    Failed(String),
}

/// Mathematical value of a `StageOutcome`.
pub enum StageOutcomeView {
    Done,
    Authenticated(bool),
    Output(Seq<char>),
    Status(int),
    Failed(Seq<char>),
}

impl View for StageOutcome {
    type V = StageOutcomeView;

    open spec fn view(&self) -> StageOutcomeView {
        match self {
            StageOutcome::Done => StageOutcomeView::Done,
            StageOutcome::Authenticated(b) => StageOutcomeView::Authenticated(*b),
            StageOutcome::Output(text) => StageOutcomeView::Output(text@),
            StageOutcome::Status(code) => StageOutcomeView::Status(*code as int),
            StageOutcome::Failed(error) => StageOutcomeView::Failed(error@),
        }
    }
}

impl Stage {
    /// The kind of error that a failure of this stage is.
    pub open spec fn spec_error_kind(self) -> ErrorKind {
        match self {
            Stage::Connect => ErrorKind::Connection,
            Stage::CreateSession => ErrorKind::Handshake,
            Stage::Handshake => ErrorKind::Handshake,
            Stage::Authenticate => ErrorKind::Auth,
            Stage::CheckAuthenticated => ErrorKind::Auth,
            Stage::OpenChannel => ErrorKind::Channel,
            Stage::Exec => ErrorKind::Exec,
            Stage::ReadStdout => ErrorKind::Read,
            Stage::ReadStderr => ErrorKind::Read,
            Stage::WaitClose => ErrorKind::Close,
            Stage::ExitStatus => ErrorKind::ExitStatus,
        }
    }

    /// What the message of a failure of this stage begins with. A session that
    /// is not authenticated is named with its host.
    pub open spec fn spec_error_prefix(self) -> Seq<char> {
        match self {
            Stage::Connect => "Connection error: "@,
            Stage::CreateSession => "SSH session error: "@,
            Stage::Handshake => "Handshake error: "@,
            Stage::Authenticate => "Authentication error: "@,
            Stage::CheckAuthenticated => "Authentication failed for "@,
            Stage::OpenChannel => "Channel error: "@,
            Stage::Exec => "Exec error: "@,
            Stage::ReadStdout => "Read stdout error: "@,
            Stage::ReadStderr => "Read stderr error: "@,
            Stage::WaitClose => "Wait close error: "@,
            Stage::ExitStatus => "Exit status error: "@,
        }
    }

    /// The stage that follows this one; none follows the last.
    pub open spec fn spec_next(self) -> Option<Stage> {
        match self {
            Stage::Connect => Some(Stage::CreateSession),
            Stage::CreateSession => Some(Stage::Handshake),
            Stage::Handshake => Some(Stage::Authenticate),
            Stage::Authenticate => Some(Stage::CheckAuthenticated),
            Stage::CheckAuthenticated => Some(Stage::OpenChannel),
            Stage::OpenChannel => Some(Stage::Exec),
            Stage::Exec => Some(Stage::ReadStdout),
            Stage::ReadStdout => Some(Stage::ReadStderr),
            Stage::ReadStderr => Some(Stage::WaitClose),
            Stage::WaitClose => Some(Stage::ExitStatus),
            Stage::ExitStatus => None,
        }
    }

    /// The number of stages from this one to the last, both counted.
    pub open spec fn stages_left(self) -> nat {
        match self {
            Stage::Connect => 11,
            Stage::CreateSession => 10,
            Stage::Handshake => 9,
            Stage::Authenticate => 8,
            Stage::CheckAuthenticated => 7,
            Stage::OpenChannel => 6,
            Stage::Exec => 5,
            Stage::ReadStdout => 4,
            Stage::ReadStderr => 3,
            Stage::WaitClose => 2,
            Stage::ExitStatus => 1,
        }
    }

    /// The kind of error that a failure of this stage is.
    pub fn error_kind(self) -> (kind: ErrorKind)
        ensures
            kind == self.spec_error_kind(),
    {
        match self {
            Stage::Connect => ErrorKind::Connection,
            Stage::CreateSession => ErrorKind::Handshake,
            Stage::Handshake => ErrorKind::Handshake,
            Stage::Authenticate => ErrorKind::Auth,
            Stage::CheckAuthenticated => ErrorKind::Auth,
            Stage::OpenChannel => ErrorKind::Channel,
            Stage::Exec => ErrorKind::Exec,
            Stage::ReadStdout => ErrorKind::Read,
            Stage::ReadStderr => ErrorKind::Read,
            Stage::WaitClose => ErrorKind::Close,
            Stage::ExitStatus => ErrorKind::ExitStatus,
        }
    }

    /// What the message of a failure of this stage begins with.
    pub fn error_prefix(self) -> (prefix: &'static str)
        ensures
            prefix@ == self.spec_error_prefix(),
    {
        match self {
            Stage::Connect => "Connection error: ",
            Stage::CreateSession => "SSH session error: ",
            Stage::Handshake => "Handshake error: ",
            Stage::Authenticate => "Authentication error: ",
            Stage::CheckAuthenticated => "Authentication failed for ",
            Stage::OpenChannel => "Channel error: ",
            Stage::Exec => "Exec error: ",
            Stage::ReadStdout => "Read stdout error: ",
            Stage::ReadStderr => "Read stderr error: ",
            Stage::WaitClose => "Wait close error: ",
            Stage::ExitStatus => "Exit status error: ",
        }
    }

    /// The stage that follows this one; none follows the last.
    pub fn next(self) -> (stage: Option<Stage>)
        ensures
            stage == self.spec_next(),
    {
        match self {
            Stage::Connect => Some(Stage::CreateSession),
            Stage::CreateSession => Some(Stage::Handshake),
            Stage::Handshake => Some(Stage::Authenticate),
            Stage::Authenticate => Some(Stage::CheckAuthenticated),
            Stage::CheckAuthenticated => Some(Stage::OpenChannel),
            Stage::OpenChannel => Some(Stage::Exec),
            Stage::Exec => Some(Stage::ReadStdout),
            Stage::ReadStdout => Some(Stage::ReadStderr),
            Stage::ReadStderr => Some(Stage::WaitClose),
            Stage::WaitClose => Some(Stage::ExitStatus),
            Stage::ExitStatus => None,
        }
    }
}

/// The address at which a host takes remote executions.
pub open spec fn spec_remote_address(host: Seq<char>) -> Seq<char> {
    host + ":22"@
}

/// The address at which a host takes remote executions.
pub fn remote_address(host: &str) -> (address: String)
    ensures
        address@ == spec_remote_address(host@),
{
    let mut address = String::from_str(host);
    address.append(":22");
    address
}

/// What an execution that ran to its end comes to: a success with the
/// standard output where the exit status is zero, else a failure that carries
/// the line of the failed command with its standard error.
pub open spec fn spec_classify(
    host: Seq<char>,
    command: Seq<char>,
    stdout: Seq<char>,
    stderr: Seq<char>,
    exit_status: int,
) -> AttemptView {
    if exit_status == 0 {
        AttemptView::Success { stdout }
    } else {
        AttemptView::Failure {
            kind: ErrorKind::RemoteCommandFailure,
            message: failure_text(host, command, stderr),
        }
    }
}

/// Classifies an execution that ran to its end.
pub fn classify(
    host: &str,
    command: &str,
    stdout: &str,
    stderr: &str,
    exit_status: i32,
) -> (attempt: Attempt)
    ensures
        attempt@ == spec_classify(host@, command@, stdout@, stderr@, exit_status as int),
{
    if exit_status == 0 {
        Attempt::Success { stdout: copy_text(stdout) }
    } else {
        Attempt::Failure {
            kind: ErrorKind::RemoteCommandFailure,
            message: failure_line(host, command, stderr),
        }
    }
}

/// Mathematical value of a `RemoteSession`.
pub struct SessionView {
    pub host: Seq<char>,
    pub command: Seq<char>,
    /// The stage that the caller performs next.
    pub stage: Stage,
    /// The standard output, once it was read.
    pub stdout: Seq<char>,
    /// The standard error, once it was read.
    pub stderr: Seq<char>,
}

/// A session after one stage: under way, or at its end.
pub enum SessionStepView {
    Continue(SessionView),
    Finished(AttemptView),
}

impl SessionView {
    /// The session before its first stage.
    pub open spec fn initial(host: Seq<char>, command: Seq<char>) -> Self {
        SessionView {
            host,
            command,
            stage: Stage::Connect,
            stdout: Seq::empty(),
            stderr: Seq::empty(),
        }
    }

    /// The failure of the stage that is due, with the text of its error.
    pub open spec fn failure(self, error: Seq<char>) -> AttemptView {
        AttemptView::Failure {
            kind: self.stage.spec_error_kind(),
            message: self.stage.spec_error_prefix() + error,
        }
    }

    /// The session with the stage that is due behind it.
    pub open spec fn proceed(self) -> SessionStepView {
        match self.stage.spec_next() {
            Some(stage) => SessionStepView::Continue(SessionView { stage, ..self }),
            None => SessionStepView::Finished(
                spec_classify(self.host, self.command, self.stdout, self.stderr, 0),
            ),
        }
    }

    /// The session after the stage that is due came to `outcome`.
    ///
    /// A failed stage ends the session with the failure of that stage. A
    /// session that answers that it is not authenticated ends as a failure
    /// that names the host. The two reads keep their text. The exit status
    /// ends the session with its classification. Any other stage only has to
    /// succeed. An outcome that does not answer the stage counts as a failure
    /// of that stage without an error text (for the authentication check:
    /// as not authenticated).
    pub open spec fn advance(self, outcome: StageOutcomeView) -> SessionStepView {
        match (self.stage, outcome) {
            (Stage::CheckAuthenticated, StageOutcomeView::Authenticated(true)) => self.proceed(),
            (Stage::CheckAuthenticated, _) => SessionStepView::Finished(self.failure(self.host)),
            (_, StageOutcomeView::Failed(error)) => SessionStepView::Finished(self.failure(error)),
            (Stage::ReadStdout, StageOutcomeView::Output(text)) => (SessionView {
                stdout: text,
                ..self
            }).proceed(),
            (Stage::ReadStderr, StageOutcomeView::Output(text)) => (SessionView {
                stderr: text,
                ..self
            }).proceed(),
            (Stage::ExitStatus, StageOutcomeView::Status(code)) => SessionStepView::Finished(
                spec_classify(self.host, self.command, self.stdout, self.stderr, code),
            ),
            (Stage::ReadStdout, _) => SessionStepView::Finished(self.failure(Seq::empty())),
            (Stage::ReadStderr, _) => SessionStepView::Finished(self.failure(Seq::empty())),
            (Stage::ExitStatus, _) => SessionStepView::Finished(self.failure(Seq::empty())),
            (_, StageOutcomeView::Done) => self.proceed(),
            (_, _) => SessionStepView::Finished(self.failure(Seq::empty())),
        }
    }
}

impl SessionStepView {
    /// The step after the outcome of one more stage. A session at its end
    /// stays there.
    pub open spec fn after(self, outcome: StageOutcomeView) -> SessionStepView {
        match self {
            SessionStepView::Continue(session) => session.advance(outcome),
            SessionStepView::Finished(attempt) => self,
        }
    }
}

impl SessionView {
    /// The session after the outcomes of its next stages, taken in order.
    pub open spec fn run(self, outcomes: Seq<StageOutcomeView>) -> SessionStepView
        decreases outcomes.len(),
    {
        if outcomes.len() == 0 {
            SessionStepView::Continue(self)
        } else {
            self.run(outcomes.drop_last()).after(outcomes.last())
        }
    }
}

/// The outcomes of an execution in which every stage succeeds.
pub open spec fn clean_outcomes(
    stdout: Seq<char>,
    stderr: Seq<char>,
    exit_status: int,
) -> Seq<StageOutcomeView> {
    seq![
        StageOutcomeView::Done,
        StageOutcomeView::Done,
        StageOutcomeView::Done,
        StageOutcomeView::Done,
        StageOutcomeView::Authenticated(true),
        StageOutcomeView::Done,
        StageOutcomeView::Done,
        StageOutcomeView::Output(stdout),
        StageOutcomeView::Output(stderr),
        StageOutcomeView::Done,
        StageOutcomeView::Status(exit_status),
    ]
}

/// A stage either ends the session or leads to a later stage of the same
/// host and command: no stage is performed twice, and a session ends after at
/// most eleven stages.
pub proof fn lemma_advance_makes_progress(session: SessionView, outcome: StageOutcomeView)
    ensures
        session.advance(outcome) matches SessionStepView::Continue(next) ==> {
            &&& next.stage.stages_left() < session.stage.stages_left()
            &&& next.host == session.host
            &&& next.command == session.command
        },
        session.stage == Stage::ExitStatus ==> session.advance(outcome) is Finished,
{
}

/// A stage that fails ends the session with a failure of the kind of that
/// stage, whose message is the error text behind the words of that stage.
pub proof fn lemma_failed_stage_ends_session(session: SessionView, error: Seq<char>)
    requires
        session.stage != Stage::CheckAuthenticated,
    ensures
        session.advance(StageOutcomeView::Failed(error)) == SessionStepView::Finished(
            AttemptView::Failure {
                kind: session.stage.spec_error_kind(),
                message: session.stage.spec_error_prefix() + error,
            },
        ),
{
}

/// An execution in which every stage succeeds ends after its eleven stages
/// with the classification of what was read: a success with the standard
/// output for status zero, else a failure with the standard error.
pub proof fn lemma_clean_execution(
    host: Seq<char>,
    command: Seq<char>,
    stdout: Seq<char>,
    stderr: Seq<char>,
    exit_status: int,
)
    ensures
        SessionView::initial(host, command).run(clean_outcomes(stdout, stderr, exit_status))
            == SessionStepView::Finished(
            spec_classify(host, command, stdout, stderr, exit_status),
        ),
        forall|n: int|
            0 <= n < 11 ==> SessionView::initial(host, command).run(
                #[trigger] clean_outcomes(stdout, stderr, exit_status).take(n),
            ) is Continue,
{
    let start = SessionView::initial(host, command);
    let all = clean_outcomes(stdout, stderr, exit_status);
    assert(all.take(0) =~= Seq::empty());
    lemma_run_extends(start, all, 0);
    lemma_run_extends(start, all, 1);
    lemma_run_extends(start, all, 2);
    lemma_run_extends(start, all, 3);
    lemma_run_extends(start, all, 4);
    lemma_run_extends(start, all, 5);
    lemma_run_extends(start, all, 6);
    lemma_run_extends(start, all, 7);
    lemma_run_extends(start, all, 8);
    lemma_run_extends(start, all, 9);
    lemma_run_extends(start, all, 10);
    assert(all.take(11) =~= all);
}

/// Running one outcome more is one more step.
proof fn lemma_run_extends(session: SessionView, outcomes: Seq<StageOutcomeView>, n: int)
    requires
        0 <= n < outcomes.len(),
    ensures
        session.run(outcomes.take(n + 1)) == session.run(outcomes.take(n)).after(outcomes[n]),
{
    assert(outcomes.take(n + 1).drop_last() =~= outcomes.take(n));
}

/// One remote execution of one command on one host, between two stages.
#[derive(Clone, Debug, PartialEq, Eq)]
pub struct RemoteSession {
    pub host: String,
    pub command: String,
    pub stage: Stage,
    pub stdout: String,
    pub stderr: String,
}

impl View for RemoteSession {
    type V = SessionView;

    open spec fn view(&self) -> SessionView {
        SessionView {
            host: self.host@,
            command: self.command@,
            stage: self.stage,
            stdout: self.stdout@,
            stderr: self.stderr@,
        }
    }
}

/// A session after one stage: under way, or at its end with what the attempt
/// came to.
#[derive(Clone, Debug, PartialEq, Eq)]
pub enum SessionStep {
    Continue(RemoteSession),
    Finished(Attempt),
}

impl View for SessionStep {
    type V = SessionStepView;

    open spec fn view(&self) -> SessionStepView {
        match self {
            SessionStep::Continue(session) => SessionStepView::Continue(session@),
            SessionStep::Finished(attempt) => SessionStepView::Finished(attempt@),
        }
    }
}

impl RemoteSession {
    /// A session for `command` on `host`, before its first stage.
    pub fn new(host: &str, command: &str) -> (session: RemoteSession)
        ensures
            session@ == SessionView::initial(host@, command@),
    {
        RemoteSession {
            host: copy_text(host),
            command: copy_text(command),
            stage: Stage::Connect,
            stdout: String::new(),
            stderr: String::new(),
        }
    }

    /// The stage that the caller performs next.
    pub fn stage(&self) -> (stage: Stage)
        ensures
            stage == self@.stage,
    {
        self.stage
    }

    /// The failure of the stage that is due, with the text of its error.
    fn failure(&self, error: &str) -> (attempt: Attempt)
        ensures
            attempt@ == self@.failure(error@),
    {
        let mut message = String::from_str(self.stage.error_prefix());
        message.append(error);
        Attempt::Failure { kind: self.stage.error_kind(), message }
    }

    /// The session with the stage that is due behind it.
    fn proceed(self) -> (step: SessionStep)
        ensures
            step@ == self@.proceed(),
    {
        match self.stage.next() {
            Some(stage) => SessionStep::Continue(
                RemoteSession {
                    host: self.host,
                    command: self.command,
                    stage,
                    stdout: self.stdout,
                    stderr: self.stderr,
                },
            ),
            None => SessionStep::Finished(
                classify(
                    self.host.as_str(),
                    self.command.as_str(),
                    self.stdout.as_str(),
                    self.stderr.as_str(),
                    0,
                ),
            ),
        }
    }

    /// The session after the stage that is due came to `outcome`.
    pub fn advance(self, outcome: StageOutcome) -> (step: SessionStep)
        ensures
            step@ == self@.advance(outcome@),
    {
        proof {
            reveal_strlit("");
        }
        match self.stage {
            Stage::CheckAuthenticated => match outcome {
                StageOutcome::Authenticated(true) => self.proceed(),
                _ => SessionStep::Finished(self.failure(self.host.as_str())),
            },
            Stage::ReadStdout => match outcome {
                StageOutcome::Failed(error) => SessionStep::Finished(self.failure(error.as_str())),
                StageOutcome::Output(text) => {
                    let session = RemoteSession {
                        host: self.host,
                        command: self.command,
                        stage: self.stage,
                        stdout: text,
                        stderr: self.stderr,
                    };
                    session.proceed()
                },
                _ => SessionStep::Finished(self.failure("")),
            },
            Stage::ReadStderr => match outcome {
                StageOutcome::Failed(error) => SessionStep::Finished(self.failure(error.as_str())),
                StageOutcome::Output(text) => {
                    let session = RemoteSession {
                        host: self.host,
                        command: self.command,
                        stage: self.stage,
                        stdout: self.stdout,
                        stderr: text,
                    };
                    session.proceed()
                },
                _ => SessionStep::Finished(self.failure("")),
            },
            Stage::ExitStatus => match outcome {
                StageOutcome::Failed(error) => SessionStep::Finished(self.failure(error.as_str())),
                StageOutcome::Status(code) => SessionStep::Finished(
                    classify(
                        self.host.as_str(),
                        self.command.as_str(),
                        self.stdout.as_str(),
                        self.stderr.as_str(),
                        code,
                    ),
                ),
                _ => SessionStep::Finished(self.failure("")),
            },
            _ => match outcome {
                StageOutcome::Failed(error) => SessionStep::Finished(self.failure(error.as_str())),
                StageOutcome::Done => self.proceed(),
                _ => SessionStep::Finished(self.failure("")),
            },
        }
    }
}

} // verus!
