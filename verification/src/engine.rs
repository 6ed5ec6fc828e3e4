//! The engine: one worker invocation per target (connect, then run), driven
//! through the bounded scheduler, aggregated into the ordered report. The
//! whole run is a mathematical function of the targets, the policy, the
//! command and what the outside world contributed per target — which makes
//! determinism and per-target isolation provable, not just testable.

use vstd::prelude::*;
use crate::connect::{decide_connect, spec_connect, ConnDecision, ConnScript};
use crate::data::{
    sat_add, sat_add_ms, CommandSpec, CredentialPolicy, EngineConfig, Target, TaskResult,
};
use crate::executor::{
    decide_run, spec_run_duration, spec_run_exit_code, spec_run_outcome, spec_stream, RunScript,
};
use crate::report::{done_value, finalize_report, RunReport};
use crate::sched::{Scheduler, Slot};

verus! {

/// Everything the outside world contributes to one target's attempt: how
/// the connection went, and how the command went once connected.
pub struct Script {
    pub conn: ConnScript,
    pub run: RunScript,
}

impl Script {
    pub open spec fn wf(self, policy: CredentialPolicy) -> bool {
        self.conn.wf(policy)
    }
}

/// The ghost model of one target's task result.
pub struct TaskModel {
    pub outcome: crate::data::Outcome,
    pub stdout: Seq<u8>,
    pub stderr: Seq<u8>,
    pub exit_code: Option<i32>,
    pub duration_ms: u64,
}

/// What one worker must produce for its target: connect under the connect
/// budget; on success run the command under the per-host budget; surface
/// every failure as a typed outcome.
pub open spec fn spec_task(policy: CredentialPolicy, cmd: CommandSpec, cfg: EngineConfig, s: Script) -> TaskModel {
    match spec_connect(s.conn, cfg.connect_timeout_ms) {
        ConnDecision::Failed { outcome, elapsed_ms } => TaskModel {
            outcome,
            stdout: Seq::empty(),
            stderr: Seq::empty(),
            exit_code: None,
            duration_ms: elapsed_ms,
        },
        ConnDecision::Connected { method_index, elapsed_ms } => {
            let stream = spec_stream(s.run.chunks@, 0, 0, cmd.per_host_timeout_ms);
            TaskModel {
                outcome: spec_run_outcome(s.run, cmd.per_host_timeout_ms),
                stdout: stream.stdout,
                stderr: stream.stderr,
                exit_code: spec_run_exit_code(s.run, cmd.per_host_timeout_ms),
                duration_ms: sat_add(elapsed_ms, spec_run_duration(s.run, cmd.per_host_timeout_ms)),
            }
        },
    }
}

/// A recorded result agrees with a task model for a target.
pub open spec fn result_matches(r: TaskResult, t: Target, m: TaskModel) -> bool {
    &&& r.target@ == t@
    &&& r.outcome == m.outcome
    &&& r.stdout@ == m.stdout
    &&& r.stderr@ == m.stderr
    &&& r.exit_code == m.exit_code
    &&& r.duration_ms == m.duration_ms
}

/// One worker's whole job for one target, exactly as `spec_task` says.
/// Failures come back as typed outcomes; nothing escapes unreported.
pub fn run_target(
    target: &Target,
    policy: &CredentialPolicy,
    cmd: &CommandSpec,
    cfg: &EngineConfig,
    script: &Script,
) -> (r: TaskResult)
    requires
        script.wf(*policy),
    ensures
        result_matches(r, *target, spec_task(*policy, *cmd, *cfg, *script)),
{
    let t = target.duplicate();
    match decide_connect(policy, &script.conn, cfg.connect_timeout_ms) {
        ConnDecision::Failed { outcome, elapsed_ms } => TaskResult {
            target: t,
            outcome,
            stdout: Vec::new(),
            stderr: Vec::new(),
            exit_code: None,
            duration_ms: elapsed_ms,
        },
        ConnDecision::Connected { method_index: _, elapsed_ms } => {
            let er = decide_run(cmd, &script.run);
            TaskResult {
                target: t,
                outcome: er.outcome,
                stdout: er.stdout,
                stderr: er.stderr,
                exit_code: er.exit_code,
                duration_ms: sat_add_ms(elapsed_ms, er.duration_ms),
            }
        },
    }
}

/// The full correctness statement of one run: exactly one result per
/// target, in submission order, each the task model of its own script
/// alone, and the overall status derived from the outcomes.
pub open spec fn report_matches(
    targets: Seq<Target>,
    policy: CredentialPolicy,
    cmd: CommandSpec,
    cfg: EngineConfig,
    scripts: Seq<Script>,
    rep: RunReport,
) -> bool {
    &&& rep.results@.len() == targets.len()
    &&& forall|i: int|
        0 <= i < targets.len() ==> result_matches(
            #[trigger] rep.results@[i],
            targets[i],
            spec_task(policy, cmd, cfg, scripts[i]),
        )
    &&& rep.overall_failed == exists|i: int|
        0 <= i < targets.len() && !((#[trigger] rep.results@[i]).outcome is Success)
}

/// Run the command against every target and aggregate the ordered report.
/// Every target is attempted exactly once; one target's failure has no
/// effect on any other target's scheduling or outcome.
pub fn execute(
    targets: Vec<Target>,
    policy: &CredentialPolicy,
    cmd: &CommandSpec,
    cfg: &EngineConfig,
    scripts: &Vec<Script>,
) -> (rep: RunReport)
    requires
        cfg.wf(),
        scripts@.len() == targets@.len(),
        forall|i: int| 0 <= i < scripts@.len() ==> (#[trigger] scripts@[i]).wf(*policy),
    ensures
        report_matches(targets@, *policy, *cmd, *cfg, scripts@, rep),
{
    let ghost gtargets = targets@;
    let n = targets.len();
    let mut sched = Scheduler::new(targets, cfg.concurrency_limit);
    while sched.next < n
        invariant
            sched.wf(),
            !sched.cancelled,
            sched.running == 0,
            sched.targets@ == gtargets,
            n == gtargets.len(),
            sched.slots@.len() == n,
            scripts@.len() == n,
            cfg.wf(),
            forall|i: int| 0 <= i < n ==> (#[trigger] scripts@[i]).wf(*policy),
            forall|i: int|
                0 <= i < sched.next ==> ((#[trigger] sched.slots@[i]) matches Slot::Done(r)
                    && result_matches(r, gtargets[i], spec_task(*policy, *cmd, *cfg, scripts@[i]))),
        decreases n - sched.next,
    {
        match sched.try_start() {
            Some(i) => {
                let tr = run_target(&sched.targets[i], policy, cmd, cfg, &scripts[i]);
                sched.complete(i, tr);
            },
            None => {
                proof {
                    assert(false);
                }
            },
        }
    }
    proof {
        assert(sched.all_done());
    }
    let rep = finalize_report(sched);
    proof {
        assert forall|i: int| 0 <= i < gtargets.len() implies result_matches(
            #[trigger] rep.results@[i],
            gtargets[i],
            spec_task(*policy, *cmd, *cfg, scripts@[i]),
        ) by {
            assert(rep.results@[i] == done_value(sched.slots@[i]));
        }
    }
    rep
}

/// Completeness law: a report of a run holds exactly one entry per
/// submitted target, in original submission order — no duplicates, no
/// omissions.
pub proof fn lemma_report_complete(
    targets: Seq<Target>,
    policy: CredentialPolicy,
    cmd: CommandSpec,
    cfg: EngineConfig,
    scripts: Seq<Script>,
    rep: RunReport,
)
    requires
        report_matches(targets, policy, cmd, cfg, scripts, rep),
    ensures
        rep.results@.len() == targets.len(),
        forall|i: int| 0 <= i < targets.len() ==> (#[trigger] rep.results@[i]).target@
            == targets[i]@,
{
}

/// Determinism law: two runs of the same command against the same targets
/// with the same scripted world agree on every per-target outcome, exit
/// code and output, and on the overall status.
pub proof fn lemma_run_deterministic(
    targets: Seq<Target>,
    policy: CredentialPolicy,
    cmd: CommandSpec,
    cfg: EngineConfig,
    scripts: Seq<Script>,
    r1: RunReport,
    r2: RunReport,
)
    requires
        report_matches(targets, policy, cmd, cfg, scripts, r1),
        report_matches(targets, policy, cmd, cfg, scripts, r2),
    ensures
        r1.results@.len() == r2.results@.len(),
        forall|i: int|
            0 <= i < targets.len() ==> {
                &&& (#[trigger] r1.results@[i]).outcome == r2.results@[i].outcome
                &&& r1.results@[i].exit_code == r2.results@[i].exit_code
                &&& r1.results@[i].stdout@ == r2.results@[i].stdout@
                &&& r1.results@[i].stderr@ == r2.results@[i].stderr@
                &&& r1.results@[i].duration_ms == r2.results@[i].duration_ms
            },
        r1.overall_failed == r2.overall_failed,
{
    if r1.overall_failed {
        let i0 = choose|i0: int|
            0 <= i0 < targets.len() && !((#[trigger] r1.results@[i0]).outcome is Success);
        assert(!(r2.results@[i0].outcome is Success));
    }
    if r2.overall_failed {
        let i0 = choose|i0: int|
            0 <= i0 < targets.len() && !((#[trigger] r2.results@[i0]).outcome is Success);
        assert(!(r1.results@[i0].outcome is Success));
    }
}

/// Isolation law: change what the world did for one target and nothing in
/// any other target's result changes — one host's failure (or success) has
/// zero effect on every other host's outcome.
pub proof fn lemma_target_isolated(
    targets: Seq<Target>,
    policy: CredentialPolicy,
    cmd: CommandSpec,
    cfg: EngineConfig,
    s1: Seq<Script>,
    s2: Seq<Script>,
    r1: RunReport,
    r2: RunReport,
    t: int,
)
    requires
        report_matches(targets, policy, cmd, cfg, s1, r1),
        report_matches(targets, policy, cmd, cfg, s2, r2),
        forall|j: int| 0 <= j < targets.len() && j != t ==> s1[j] == s2[j],
    ensures
        forall|j: int|
            0 <= j < targets.len() && j != t ==> {
                &&& (#[trigger] r1.results@[j]).outcome == r2.results@[j].outcome
                &&& r1.results@[j].exit_code == r2.results@[j].exit_code
                &&& r1.results@[j].stdout@ == r2.results@[j].stdout@
                &&& r1.results@[j].stderr@ == r2.results@[j].stderr@
                &&& r1.results@[j].duration_ms == r2.results@[j].duration_ms
            },
{
}

} // verus!
