//! The result record of one command on one host, and its line of text.

use vstd::prelude::*;
use vstd::string::StringExecFns;
use crate::text::copy_text;

verus! {

/// The line of a command that ran and left with status zero.
pub open spec fn success_text(host: Seq<char>, command: Seq<char>, stdout: Seq<char>) -> Seq<char> {
    "Host: "@ + host + "\nCommand: "@ + command + "\n"@ + stdout
}

/// The line of a command that failed, with the error text it is reported with.
pub open spec fn failure_text(host: Seq<char>, command: Seq<char>, error: Seq<char>) -> Seq<char> {
    "Host: "@ + host + "\nCommand: "@ + command + "\nStandard Error: "@ + error
}

/// Outcome of one command on one host. A success carries the standard output
/// and an empty error text; a failure carries the error text and an empty
/// standard output.
#[derive(Clone, Debug, PartialEq, Eq)]
pub struct ExecutionResult {
    pub host: String,
    pub command: String,
    pub stdout: String,
    pub stderr: String,
    pub success: bool,
}

/// Mathematical value of an `ExecutionResult`.
pub struct ExecutionResultView {
    pub host: Seq<char>,
    pub command: Seq<char>,
    pub stdout: Seq<char>,
    pub stderr: Seq<char>,
    pub success: bool,
}

impl ExecutionResultView {
    /// The record of a successful command.
    pub open spec fn succeeded(host: Seq<char>, command: Seq<char>, stdout: Seq<char>) -> Self {
        ExecutionResultView { host, command, stdout, stderr: Seq::empty(), success: true }
    }

    /// The record of a failed command.
    pub open spec fn failed(host: Seq<char>, command: Seq<char>, error: Seq<char>) -> Self {
        ExecutionResultView { host, command, stdout: Seq::empty(), stderr: error, success: false }
    }

    /// A record uses only the field that its outcome fills.
    pub open spec fn wf(self) -> bool {
        if self.success {
            self.stderr.len() == 0
        } else {
            self.stdout.len() == 0
        }
    }

    /// The line of text that stands for the record.
    pub open spec fn text(self) -> Seq<char> {
        if self.success {
            success_text(self.host, self.command, self.stdout)
        } else {
            failure_text(self.host, self.command, self.stderr)
        }
    }
}

impl View for ExecutionResult {
    type V = ExecutionResultView;

    open spec fn view(&self) -> ExecutionResultView {
        ExecutionResultView {
            host: self.host@,
            command: self.command@,
            stdout: self.stdout@,
            stderr: self.stderr@,
            success: self.success,
        }
    }
}

/// The values of a sequence of records.
pub open spec fn result_views(v: Seq<ExecutionResult>) -> Seq<ExecutionResultView> {
    Seq::new(v.len(), |i: int| v[i]@)
}

/// Builds the line of a successful command.
pub fn success_line(host: &str, command: &str, stdout: &str) -> (line: String)
    ensures
        line@ == success_text(host@, command@, stdout@),
{
    let mut line = String::from_str("Host: ");
    line.append(host);
    line.append("\nCommand: ");
    line.append(command);
    line.append("\n");
    line.append(stdout);
    line
}

/// Builds the line of a failed command.
pub fn failure_line(host: &str, command: &str, error: &str) -> (line: String)
    ensures
        line@ == failure_text(host@, command@, error@),
{
    let mut line = String::from_str("Host: ");
    line.append(host);
    line.append("\nCommand: ");
    line.append(command);
    line.append("\nStandard Error: ");
    line.append(error);
    line
}

impl ExecutionResult {
    /// The record of a command that left with status zero.
    pub fn succeeded(host: &str, command: &str, stdout: &str) -> (r: ExecutionResult)
        ensures
            r@ == ExecutionResultView::succeeded(host@, command@, stdout@),
            r@.wf(),
    {
        ExecutionResult {
            host: copy_text(host),
            command: copy_text(command),
            stdout: copy_text(stdout),
            stderr: String::new(),
            success: true,
        }
    }

    /// The record of a command that failed with the given error text.
    pub fn failed(host: &str, command: &str, error: &str) -> (r: ExecutionResult)
        ensures
            r@ == ExecutionResultView::failed(host@, command@, error@),
            r@.wf(),
    {
        ExecutionResult {
            host: copy_text(host),
            command: copy_text(command),
            stdout: String::new(),
            stderr: copy_text(error),
            success: false,
        }
    }

    /// Whether the command left with status zero.
    pub fn is_success(&self) -> (b: bool)
        ensures
            b == self@.success,
    {
        self.success
    }

    /// The line of text that stands for this record.
    pub fn render(&self) -> (line: String)
        ensures
            line@ == self@.text(),
    {
        if self.success {
            success_line(self.host.as_str(), self.command.as_str(), self.stdout.as_str())
        } else {
            failure_line(self.host.as_str(), self.command.as_str(), self.stderr.as_str())
        }
    }

    /// A copy of this record.
    pub fn duplicate(&self) -> (r: ExecutionResult)
        ensures
            r@ == self@,
    {
        ExecutionResult {
            host: copy_text(self.host.as_str()),
            command: copy_text(self.command.as_str()),
            stdout: copy_text(self.stdout.as_str()),
            stderr: copy_text(self.stderr.as_str()),
            success: self.success,
        }
    }
}

} // verus!
