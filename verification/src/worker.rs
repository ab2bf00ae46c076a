//! The worker of one host: it takes the commands in order and gives each a
//! bounded number of attempts. It performs no remote work itself. The caller
//! asks which command is due, runs one attempt of it, and hands the outcome
//! back.

use vstd::prelude::*;
use crate::attempt::{Attempt, AttemptView};
use crate::record::{ExecutionResult, ExecutionResultView, result_views};
use crate::text::{copy_text, copy_texts, texts};

verus! {

/// The number of attempts a command is given: the configured count, and one
/// where zero was configured.
pub open spec fn spec_effective_budget(retries: u32) -> u32 {
    if retries == 0 {
        1
    } else {
        retries
    }
}

/// The number of attempts a command is given for a configured retry count.
pub fn effective_budget(retries: u32) -> (budget: u32)
    ensures
        budget == spec_effective_budget(retries),
        budget >= 1,
{
    if retries == 0 {
        1
    } else {
        retries
    }
}

/// Mathematical value of a `HostWorker`.
pub struct WorkerView {
    pub host: Seq<char>,
    pub commands: Seq<Seq<char>>,
    pub budget: nat,
    /// Index of the command that is due.
    pub index: nat,
    /// Failed attempts of the command that is due.
    pub attempts: nat,
    pub results: Seq<ExecutionResultView>,
}

impl WorkerView {
    /// The worker before its first attempt.
    pub open spec fn initial(host: Seq<char>, commands: Seq<Seq<char>>, retries: u32) -> Self {
        WorkerView {
            host,
            commands,
            budget: spec_effective_budget(retries) as nat,
            index: 0,
            attempts: 0,
            results: Seq::empty(),
        }
    }

    /// Every command has its record.
    pub open spec fn done(self) -> bool {
        self.index >= self.commands.len()
    }

    /// The command whose attempt is due, if any is.
    pub open spec fn pending(self) -> Option<Seq<char>> {
        if self.done() {
            None
        } else {
            Some(self.commands[self.index as int])
        }
    }

    /// One record per finished command, in the order of the commands, each
    /// for this host and its own command.
    pub open spec fn wf(self) -> bool {
        &&& self.budget >= 1
        &&& self.index <= self.commands.len()
        &&& self.attempts < self.budget
        &&& (self.done() ==> self.attempts == 0)
        &&& self.results.len() == self.index
        &&& forall|j: int|
            0 <= j < self.results.len() ==> {
                &&& (#[trigger] self.results[j]).host == self.host
                &&& self.results[j].command == self.commands[j]
                &&& self.results[j].wf()
            }
    }

    /// The worker with the command that is due closed by `record`.
    pub open spec fn close(self, record: ExecutionResultView) -> Self {
        WorkerView {
            index: self.index + 1,
            attempts: 0,
            results: self.results.push(record),
            ..self
        }
    }

    /// The worker after one attempt of the command that is due. A success
    /// closes the command with its output. A failure counts; the one that
    /// uses up the budget closes the command with its message. A worker that
    /// is done stays as it is.
    pub open spec fn step(self, attempt: AttemptView) -> Self {
        if self.done() {
            self
        } else {
            let command = self.commands[self.index as int];
            match attempt {
                AttemptView::Success { stdout } => self.close(
                    ExecutionResultView::succeeded(self.host, command, stdout),
                ),
                AttemptView::Failure { kind, message } => {
                    if self.attempts + 1 >= self.budget {
                        self.close(ExecutionResultView::failed(self.host, command, message))
                    } else {
                        WorkerView { attempts: self.attempts + 1, ..self }
                    }
                },
            }
        }
    }

    /// A bound on the attempts that the worker still takes: for each command
    /// that is open the whole budget, less what the one that is due has used.
    pub open spec fn attempts_left(self) -> int {
        (self.commands.len() - self.index) * self.budget - self.attempts
    }

    /// The worker after a sequence of attempts, taken in order.
    pub open spec fn run(self, attempts: Seq<AttemptView>) -> Self
        decreases attempts.len(),
    {
        if attempts.len() == 0 {
            self
        } else {
            self.run(attempts.drop_last()).step(attempts.last())
        }
    }
}

/// The worker of one host.
#[derive(Debug)]
pub struct HostWorker {
    host: String,
    commands: Vec<String>,
    budget: u32,
    index: usize,
    attempts: u32,
    results: Vec<ExecutionResult>,
}

impl View for HostWorker {
    type V = WorkerView;

    closed spec fn view(&self) -> WorkerView {
        WorkerView {
            host: self.host@,
            commands: texts(self.commands@),
            budget: self.budget as nat,
            index: self.index as nat,
            attempts: self.attempts as nat,
            results: result_views(self.results@),
        }
    }
}

impl HostWorker {
    #[verifier::type_invariant]
    spec fn valid(self) -> bool {
        self@.wf()
    }

    /// A worker for `host` that has all of `commands` before it.
    pub fn new(host: &str, commands: &Vec<String>, retries: u32) -> (w: HostWorker)
        ensures
            w@ == WorkerView::initial(host@, texts(commands@), retries),
            w@.wf(),
    {
        let w = HostWorker {
            host: copy_text(host),
            commands: copy_texts(commands),
            budget: effective_budget(retries),
            index: 0,
            attempts: 0,
            results: Vec::new(),
        };
        assert(result_views(w.results@) =~= Seq::empty());
        w
    }

    /// The host that the worker runs on.
    pub fn host(&self) -> (host: &str)
        ensures
            host@ == self@.host,
    {
        self.host.as_str()
    }

    /// The failed attempts of the command that is due.
    pub fn attempts(&self) -> (attempts: u32)
        ensures
            attempts == self@.attempts,
    {
        self.attempts
    }

    /// Whether every command has its record.
    pub fn is_done(&self) -> (b: bool)
        ensures
            b == self@.done(),
            self@.wf(),
    {
        proof {
            use_type_invariant(self);
        }
        self.index >= self.commands.len()
    }

    /// The command whose attempt is due: `None` once the worker is done.
    pub fn next_command(&self) -> (c: Option<String>)
        ensures
            match c {
                Some(text) => self@.pending() == Some(text@),
                None => self@.pending().is_none(),
            },
    {
        if self.index < self.commands.len() {
            Some(copy_text(self.commands[self.index].as_str()))
        } else {
            None
        }
    }

    /// The worker after the outcome of one attempt of the command that is due.
    pub fn record(self, attempt: Attempt) -> (next: HostWorker)
        ensures
            next@ == self@.step(attempt@),
            next@.wf(),
    {
        proof {
            use_type_invariant(&self);
        }
        if self.index >= self.commands.len() {
            return self;
        }
        let record = match attempt {
            Attempt::Success { stdout } => Some(
                ExecutionResult::succeeded(
                    self.host.as_str(),
                    self.commands[self.index].as_str(),
                    stdout.as_str(),
                ),
            ),
            Attempt::Failure { kind, message } => {
                if self.attempts + 1 >= self.budget {
                    Some(
                        ExecutionResult::failed(
                            self.host.as_str(),
                            self.commands[self.index].as_str(),
                            message.as_str(),
                        ),
                    )
                } else {
                    None
                }
            },
        };
        let ghost before = self@;
        let HostWorker { host, commands, budget, index, attempts, results } = self;
        match record {
            Some(r) => {
                let mut results = results;
                results.push(r);
                assert(result_views(results@) =~= before.results.push(r@));
                HostWorker { host, commands, budget, index: index + 1, attempts: 0, results }
            },
            None => HostWorker { host, commands, budget, index, attempts: attempts + 1, results },
        }
    }

    /// The records of a worker, one per finished command and in their order.
    pub fn into_results(self) -> (results: Vec<ExecutionResult>)
        ensures
            result_views(results@) == self@.results,
            self@.wf(),
            self@.done() ==> results@.len() == self@.commands.len(),
    {
        proof {
            use_type_invariant(&self);
        }
        self.results
    }
}

/// Every attempt in `attempts` failed.
pub open spec fn all_failures(attempts: Seq<AttemptView>) -> bool {
    forall|j: int| 0 <= j < attempts.len() ==> #[trigger] attempts[j] is Failure
}

/// The attempts that a remote side which always succeeds gives a worker: one
/// per command, with the output `remote` has for that host and command.
pub open spec fn always_succeeding(
    host: Seq<char>,
    commands: Seq<Seq<char>>,
    remote: spec_fn(Seq<char>, Seq<char>) -> Seq<char>,
) -> Seq<AttemptView> {
    Seq::new(commands.len(), |i: int| AttemptView::Success { stdout: remote(host, commands[i]) })
}

/// The records that a remote side which always succeeds leaves on a host.
pub open spec fn success_records(
    host: Seq<char>,
    commands: Seq<Seq<char>>,
    remote: spec_fn(Seq<char>, Seq<char>) -> Seq<char>,
) -> Seq<ExecutionResultView> {
    Seq::new(
        commands.len(),
        |i: int| ExecutionResultView::succeeded(host, commands[i], remote(host, commands[i])),
    )
}

/// One attempt keeps a worker well formed, and leaves its host, its commands
/// and its budget as they were.
pub proof fn lemma_step_keeps_wf(w: WorkerView, attempt: AttemptView)
    requires
        w.wf(),
    ensures
        w.step(attempt).wf(),
        w.step(attempt).host == w.host,
        w.step(attempt).commands == w.commands,
        w.step(attempt).budget == w.budget,
{
}

/// Each attempt brings a worker that is not done nearer to its end: the bound
/// on the attempts that it still takes goes down, and never below zero. So a
/// worker is done after at most as many attempts as commands times budget.
pub proof fn lemma_step_makes_progress(w: WorkerView, attempt: AttemptView)
    requires
        w.wf(),
        !w.done(),
    ensures
        0 <= w.step(attempt).attempts_left() < w.attempts_left(),
        w.step(attempt).done() ==> w.step(attempt).attempts_left() == 0,
{
    let open = w.commands.len() - w.index;
    assert(open * w.budget == (open - 1) * w.budget + w.budget) by (nonlinear_arith);
    assert((open - 1) * w.budget >= 0) by (nonlinear_arith)
        requires
            open >= 1,
            w.budget >= 1,
    ;
    assert(0 * w.budget == 0) by (nonlinear_arith);
}

/// Whatever the attempts were, the records of a worker stand in the order of
/// its commands: record `j` is for this host and for command `j`.
pub proof fn lemma_run_keeps_order(w: WorkerView, attempts: Seq<AttemptView>)
    requires
        w.wf(),
    ensures
        w.run(attempts).wf(),
        w.run(attempts).host == w.host,
        w.run(attempts).commands == w.commands,
        w.run(attempts).budget == w.budget,
        forall|j: int|
            0 <= j < w.run(attempts).results.len() ==> {
                &&& (#[trigger] w.run(attempts).results[j]).host == w.host
                &&& w.run(attempts).results[j].command == w.commands[j]
            },
    decreases attempts.len(),
{
    if attempts.len() > 0 {
        lemma_run_keeps_order(w, attempts.drop_last());
        lemma_step_keeps_wf(w.run(attempts.drop_last()), attempts.last());
    }
}

/// Failures that stay below the budget only count: the same command stays
/// due and no record is added.
pub proof fn lemma_failures_below_budget(w: WorkerView, attempts: Seq<AttemptView>)
    requires
        w.wf(),
        !w.done(),
        all_failures(attempts),
        w.attempts + attempts.len() < w.budget,
    ensures
        w.run(attempts) == (WorkerView { attempts: w.attempts + attempts.len(), ..w }),
    decreases attempts.len(),
{
    if attempts.len() > 0 {
        let head = attempts.drop_last();
        assert forall|j: int| 0 <= j < head.len() implies #[trigger] head[j] is Failure by {
            assert(head[j] == attempts[j]);
        }
        lemma_failures_below_budget(w, head);
        assert(attempts.last() == attempts[attempts.len() - 1]);
    }
}

/// A command that succeeds at attempt `k`, within the budget, after `k - 1`
/// failures, gets exactly one record, the success with its output. Before
/// each of the `k` attempts that command is the one due, so it is attempted
/// exactly `k` times; after them the worker has moved on.
pub proof fn lemma_success_within_budget(
    w: WorkerView,
    attempts: Seq<AttemptView>,
    stdout: Seq<char>,
)
    requires
        w.wf(),
        !w.done(),
        w.attempts == 0,
        1 <= attempts.len() <= w.budget,
        all_failures(attempts.drop_last()),
        attempts.last() == (AttemptView::Success { stdout }),
    ensures
        w.run(attempts) == w.close(
            ExecutionResultView::succeeded(w.host, w.commands[w.index as int], stdout),
        ),
        w.run(attempts).results.len() == w.results.len() + 1,
        w.run(attempts).results.last().success,
        forall|j: int|
            0 <= j < attempts.len() ==> {
                &&& (#[trigger] w.run(attempts.take(j))).pending() == Some(
                    w.commands[w.index as int],
                )
                &&& w.run(attempts.take(j)).index == w.index
                &&& w.run(attempts.take(j)).results == w.results
            },
{
    lemma_failures_below_budget(w, attempts.drop_last());
    assert forall|j: int| 0 <= j < attempts.len() implies {
        &&& (#[trigger] w.run(attempts.take(j))).pending() == Some(w.commands[w.index as int])
        &&& w.run(attempts.take(j)).index == w.index
        &&& w.run(attempts.take(j)).results == w.results
    } by {
        let head = attempts.take(j);
        assert forall|i: int| 0 <= i < head.len() implies #[trigger] head[i] is Failure by {
            assert(head[i] == attempts.drop_last()[i]);
        }
        lemma_failures_below_budget(w, head);
    }
}

/// A command whose every attempt fails gets exactly one record, a failure
/// that carries the message of the last attempt. Before each of the attempts
/// that the budget allows that command is the one due, so it is attempted
/// exactly as often as the budget says; after them the worker has moved on.
pub proof fn lemma_failure_after_budget(w: WorkerView, attempts: Seq<AttemptView>)
    requires
        w.wf(),
        !w.done(),
        w.attempts == 0,
        attempts.len() == w.budget,
        all_failures(attempts),
    ensures
        w.run(attempts) == w.close(
            ExecutionResultView::failed(
                w.host,
                w.commands[w.index as int],
                attempts.last()->Failure_message,
            ),
        ),
        w.run(attempts).results.len() == w.results.len() + 1,
        !w.run(attempts).results.last().success,
        forall|j: int|
            0 <= j < attempts.len() ==> {
                &&& (#[trigger] w.run(attempts.take(j))).pending() == Some(
                    w.commands[w.index as int],
                )
                &&& w.run(attempts.take(j)).index == w.index
                &&& w.run(attempts.take(j)).results == w.results
            },
{
    let head = attempts.drop_last();
    assert forall|i: int| 0 <= i < head.len() implies #[trigger] head[i] is Failure by {
        assert(head[i] == attempts[i]);
    }
    lemma_failures_below_budget(w, head);
    assert(attempts.last() == attempts[attempts.len() - 1]);
    assert forall|j: int| 0 <= j < attempts.len() implies {
        &&& (#[trigger] w.run(attempts.take(j))).pending() == Some(w.commands[w.index as int])
        &&& w.run(attempts.take(j)).index == w.index
        &&& w.run(attempts.take(j)).results == w.results
    } by {
        let part = attempts.take(j);
        assert forall|i: int| 0 <= i < part.len() implies #[trigger] part[i] is Failure by {
            assert(part[i] == attempts[i]);
        }
        lemma_failures_below_budget(w, part);
    }
}

/// Against a remote side that always succeeds, and whose output depends on
/// the host and the command alone, a worker ends with one success per
/// command, each with that output and no error text. The records are a
/// function of host, commands and remote side: a second run gives the same.
pub proof fn lemma_always_succeeding_remote(
    host: Seq<char>,
    commands: Seq<Seq<char>>,
    retries: u32,
    remote: spec_fn(Seq<char>, Seq<char>) -> Seq<char>,
)
    ensures
        WorkerView::initial(host, commands, retries).run(
            always_succeeding(host, commands, remote),
        ).done(),
        WorkerView::initial(host, commands, retries).run(
            always_succeeding(host, commands, remote),
        ).results == success_records(host, commands, remote),
{
    let script = always_succeeding(host, commands, remote);
    lemma_successes_prefix(host, commands, retries, remote, commands.len());
    assert(script.take(commands.len() as int) =~= script);
    assert(success_records(host, commands, remote).take(commands.len() as int)
        =~= success_records(host, commands, remote));
}

/// The first `n` attempts against a remote side that always succeeds close
/// the first `n` commands.
proof fn lemma_successes_prefix(
    host: Seq<char>,
    commands: Seq<Seq<char>>,
    retries: u32,
    remote: spec_fn(Seq<char>, Seq<char>) -> Seq<char>,
    n: nat,
)
    requires
        n <= commands.len(),
    ensures
        WorkerView::initial(host, commands, retries).run(
            always_succeeding(host, commands, remote).take(n as int),
        ) == (WorkerView {
            index: n,
            results: success_records(host, commands, remote).take(n as int),
            ..WorkerView::initial(host, commands, retries)
        }),
    decreases n,
{
    let start = WorkerView::initial(host, commands, retries);
    let script = always_succeeding(host, commands, remote);
    let records = success_records(host, commands, remote);
    if n == 0 {
        assert(records.take(0) =~= Seq::empty());
    } else {
        lemma_successes_prefix(host, commands, retries, remote, (n - 1) as nat);
        assert(script.take(n as int).drop_last() =~= script.take(n - 1));
        assert(script.take(n as int).last() == script[n - 1]);
        assert(records.take(n - 1).push(records[n - 1]) =~= records.take(n as int));
    }
}

} // verus!
