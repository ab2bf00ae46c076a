//! Fan-out over the hosts of a group, and the collection of what the workers
//! bring back. The workers themselves run outside this crate, one per host;
//! here is what is decided before they start and after they end.

use vstd::prelude::*;
use vstd::string::StringExecFns;
use crate::attempt::AttemptView;
use crate::config::{filter_hosts, spec_filter_hosts, Config};
use crate::record::{result_views, ExecutionResult, ExecutionResultView};
use crate::text::texts;
use crate::worker::{lemma_run_keeps_order, HostWorker, WorkerView};

verus! {

/// What became of the worker of one host.
#[derive(Clone, Debug, PartialEq, Eq)]
pub enum WorkerOutcome {
    /// The worker ran to its end and brought its records.
    Completed(Vec<ExecutionResult>),
    /// The worker itself broke down; its records are lost.
    Faulted,
}

/// Mathematical value of a `WorkerOutcome`.
pub enum WorkerOutcomeView {
    Completed(Seq<ExecutionResultView>),
    Faulted,
}

impl View for WorkerOutcome {
    type V = WorkerOutcomeView;

    open spec fn view(&self) -> WorkerOutcomeView {
        match self {
            WorkerOutcome::Completed(results) => WorkerOutcomeView::Completed(
                result_views(results@),
            ),
            WorkerOutcome::Faulted => WorkerOutcomeView::Faulted,
        }
    }
}

/// The values of a sequence of worker outcomes.
pub open spec fn outcome_views(v: Seq<WorkerOutcome>) -> Seq<WorkerOutcomeView> {
    Seq::new(v.len(), |i: int| v[i]@)
}

/// The values of a sequence of workers.
pub open spec fn worker_views(v: Seq<HostWorker>) -> Seq<WorkerView> {
    Seq::new(v.len(), |i: int| v[i]@)
}

/// The workers that a run starts with: one per host, in the order of the
/// hosts, each with all the commands before it.
pub open spec fn spec_plan(
    hosts: Seq<Seq<char>>,
    commands: Seq<Seq<char>>,
    retries: u32,
) -> Seq<WorkerView> {
    Seq::new(hosts.len(), |i: int| WorkerView::initial(hosts[i], commands, retries))
}

/// The lines of a sequence of records, one per record.
pub open spec fn record_lines(results: Seq<ExecutionResultView>) -> Seq<Seq<char>> {
    Seq::new(results.len(), |i: int| results[i].text())
}

/// The lines that one worker contributes: the lines of its records, or the
/// single line `Error` where the worker broke down.
pub open spec fn outcome_lines(outcome: WorkerOutcomeView) -> Seq<Seq<char>> {
    match outcome {
        WorkerOutcomeView::Completed(results) => record_lines(results),
        WorkerOutcomeView::Faulted => seq!["Error"@],
    }
}

/// The lines of all workers, one worker after the other in the order given.
pub open spec fn spec_collect(outcomes: Seq<WorkerOutcomeView>) -> Seq<Seq<char>>
    decreases outcomes.len(),
{
    if outcomes.len() == 0 {
        Seq::empty()
    } else {
        spec_collect(outcomes.drop_last()) + outcome_lines(outcomes.last())
    }
}

/// The workers for the group `group`: one per host of the group, in the
/// order of its hosts. A group that is empty or not configured gets none.
pub fn plan_workers(
    config: &Config,
    group: &str,
    commands: &Vec<String>,
    retries: u32,
) -> (workers: Vec<HostWorker>)
    ensures
        worker_views(workers@) == spec_plan(
            spec_filter_hosts(config@, group@),
            texts(commands@),
            retries,
        ),
        workers@.len() == spec_filter_hosts(config@, group@).len(),
        forall|i: int| 0 <= i < workers@.len() ==> (#[trigger] workers@[i])@.wf(),
{
    let hosts = filter_hosts(config, group);
    let mut workers: Vec<HostWorker> = Vec::new();
    let mut i: usize = 0;
    while i < hosts.len()
        invariant
            i <= hosts.len(),
            workers.len() == i,
            forall|j: int|
                0 <= j < i ==> (#[trigger] workers@[j])@ == WorkerView::initial(
                    hosts@[j]@,
                    texts(commands@),
                    retries,
                ),
            forall|j: int| 0 <= j < i ==> (#[trigger] workers@[j])@.wf(),
        decreases hosts.len() - i,
    {
        workers.push(HostWorker::new(hosts[i].as_str(), commands, retries));
        i = i + 1;
    }
    assert(worker_views(workers@) =~= spec_plan(texts(hosts@), texts(commands@), retries));
    workers
}

/// The flat list of result lines of a run: for each worker in the order
/// given the lines of its records in their order, or the line `Error` for a
/// worker that broke down.
pub fn collect_results(outcomes: &Vec<WorkerOutcome>) -> (lines: Vec<String>)
    ensures
        texts(lines@) == spec_collect(outcome_views(outcomes@)),
        lines@.len() == spec_collect(outcome_views(outcomes@)).len(),
{
    let mut lines: Vec<String> = Vec::new();
    let mut i: usize = 0;
    assert(outcome_views(outcomes@).take(0) =~= Seq::empty());
    assert(texts(lines@) =~= Seq::empty());
    while i < outcomes.len()
        invariant
            i <= outcomes.len(),
            texts(lines@) == spec_collect(outcome_views(outcomes@).take(i as int)),
        decreases outcomes.len() - i,
    {
        let ghost before = texts(lines@);
        let ghost views = outcome_views(outcomes@);
        match &outcomes[i] {
            WorkerOutcome::Completed(results) => {
                let mut j: usize = 0;
                while j < results.len()
                    invariant
                        j <= results.len(),
                        texts(lines@) == before + record_lines(result_views(results@)).take(
                            j as int,
                        ),
                    decreases results.len() - j,
                {
                    let ghost old_lines = texts(lines@);
                    let line = results[j].render();
                    lines.push(line);
                    assert(texts(lines@) =~= old_lines.push(line@));
                    assert(record_lines(result_views(results@)).take(j + 1) =~= record_lines(
                        result_views(results@),
                    ).take(j as int).push(line@));
                    j = j + 1;
                }
                assert(record_lines(result_views(results@)).take(results.len() as int)
                    =~= record_lines(result_views(results@)));
            },
            WorkerOutcome::Faulted => {
                let line = String::from_str("Error");
                lines.push(line);
                assert(texts(lines@) =~= before + seq!["Error"@]);
            },
        }
        assert(views.take(i + 1).drop_last() =~= views.take(i as int));
        assert(views.take(i + 1).last() == outcomes@[i as int]@);
        i = i + 1;
    }
    assert(outcome_views(outcomes@).take(outcomes.len() as int) =~= outcome_views(outcomes@));
    lines
}

/// Where every worker contributes the same number of lines, the run has that
/// number for each worker.
pub proof fn lemma_collect_len(outcomes: Seq<WorkerOutcomeView>, per_host: nat)
    requires
        forall|i: int|
            0 <= i < outcomes.len() ==> (#[trigger] outcome_lines(outcomes[i])).len() == per_host,
    ensures
        spec_collect(outcomes).len() == outcomes.len() * per_host,
    decreases outcomes.len(),
{
    if outcomes.len() > 0 {
        let head = outcomes.drop_last();
        assert forall|i: int| 0 <= i < head.len() implies (#[trigger] outcome_lines(
            head[i],
        )).len() == per_host by {
            assert(head[i] == outcomes[i]);
        }
        lemma_collect_len(head, per_host);
        assert(outcomes.len() * per_host == head.len() * per_host + per_host)
            by (nonlinear_arith)
            requires
                outcomes.len() == head.len() + 1,
        ;
    } else {
        assert(outcomes.len() * per_host == 0) by (nonlinear_arith)
            requires
                outcomes.len() == 0,
        ;
    }
}

/// What the workers of a run bring back where none of them breaks down and
/// the worker of host `i` is given the attempts `attempts[i]`.
pub open spec fn spec_run_outcomes(
    hosts: Seq<Seq<char>>,
    commands: Seq<Seq<char>>,
    retries: u32,
    attempts: Seq<Seq<AttemptView>>,
) -> Seq<WorkerOutcomeView> {
    Seq::new(
        hosts.len(),
        |i: int|
            WorkerOutcomeView::Completed(
                WorkerView::initial(hosts[i], commands, retries).run(attempts[i]).results,
            ),
    )
}

/// A run in which every worker comes to its end has as many result lines as
/// there are hosts times commands, whatever the attempts came to and however
/// many of them it took: each worker brings one record per command.
pub proof fn lemma_result_count(
    hosts: Seq<Seq<char>>,
    commands: Seq<Seq<char>>,
    retries: u32,
    attempts: Seq<Seq<AttemptView>>,
)
    requires
        attempts.len() == hosts.len(),
        forall|i: int|
            0 <= i < hosts.len() ==> (#[trigger] WorkerView::initial(
                hosts[i],
                commands,
                retries,
            ).run(attempts[i])).done(),
    ensures
        spec_collect(spec_run_outcomes(hosts, commands, retries, attempts)).len() == hosts.len()
            * commands.len(),
{
    let outcomes = spec_run_outcomes(hosts, commands, retries, attempts);
    assert forall|i: int| 0 <= i < outcomes.len() implies (#[trigger] outcome_lines(
        outcomes[i],
    )).len() == commands.len() by {
        let start = WorkerView::initial(hosts[i], commands, retries);
        lemma_run_keeps_order(start, attempts[i]);
        assert(start.run(attempts[i]).done());
    }
    lemma_collect_len(outcomes, commands.len());
}

/// A group without hosts gets no worker, so nothing is attempted on any host,
/// and the run has no result line.
pub proof fn lemma_empty_group(hosts: Seq<Seq<char>>, commands: Seq<Seq<char>>, retries: u32)
    requires
        hosts.len() == 0,
    ensures
        spec_plan(hosts, commands, retries) == Seq::<WorkerView>::empty(),
        spec_collect(spec_run_outcomes(hosts, commands, retries, Seq::empty()))
            == Seq::<Seq<char>>::empty(),
{
    assert(spec_plan(hosts, commands, retries) =~= Seq::<WorkerView>::empty());
    assert(spec_run_outcomes(hosts, commands, retries, Seq::empty()) =~= Seq::empty());
}

} // verus!
