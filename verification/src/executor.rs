//! Command executor: folds the stream of output chunks and the terminal
//! event of one remote command into an outcome, enforcing the per-host
//! command timeout measured from dispatch. Output captured before the
//! timeout fires is preserved; the exit code alone decides success.

use vstd::prelude::*;
use crate::data::{sat_add, CommandSpec, ConnectReason, Outcome};

verus! {

/// One chunk of remote output: which stream it belongs to, its bytes, and
/// how long after the previous event it arrived.
pub struct OutputChunk {
    pub on_stderr: bool,
    pub data: Vec<u8>,
    pub cost_ms: u64,
}

/// How the remote command ended, and how long after the last chunk.
pub enum RunEnd {
    /// The remote process exited with this code.
    Exited { code: i32, cost_ms: u64 },
    /// The transport dropped mid-command: the host went away, it was not slow.
    Dropped { cost_ms: u64 },
}

/// Everything the outside world contributed to one command execution.
pub struct RunScript {
    pub chunks: Vec<OutputChunk>,
    pub end: RunEnd,
}

/// The ghost model of folding the chunk stream under a timeout: whether the
/// budget ran out mid-stream, the bytes captured on each stream before that,
/// and the clock after the last captured chunk.
pub struct StreamModel {
    pub timed_out: bool,
    pub stdout: Seq<u8>,
    pub stderr: Seq<u8>,
    pub elapsed: u64,
}

/// Fold chunks `i..` with `elapsed` already on the clock: a chunk that would
/// land past the budget is not captured and stops the command.
pub open spec fn spec_stream(chunks: Seq<OutputChunk>, i: int, elapsed: u64, timeout: u64) -> StreamModel
    decreases chunks.len() - i,
{
    if i < 0 || i >= chunks.len() {
        StreamModel { timed_out: false, stdout: Seq::empty(), stderr: Seq::empty(), elapsed }
    } else {
        let e2 = sat_add(elapsed, chunks[i].cost_ms);
        if e2 > timeout {
            StreamModel { timed_out: true, stdout: Seq::empty(), stderr: Seq::empty(), elapsed: e2 }
        } else {
            let rest = spec_stream(chunks, i + 1, e2, timeout);
            StreamModel {
                timed_out: rest.timed_out,
                stdout: if chunks[i].on_stderr {
                    rest.stdout
                } else {
                    chunks[i].data@ + rest.stdout
                },
                stderr: if chunks[i].on_stderr {
                    chunks[i].data@ + rest.stderr
                } else {
                    rest.stderr
                },
                elapsed: rest.elapsed,
            }
        }
    }
}

/// The outcome of one command execution under `timeout`: a mid-stream or
/// end-of-stream budget overrun is `TimedOut`; a transport drop is a
/// `ConnectFailed`-class outcome distinct from timeout; otherwise exit code
/// zero is `Success` and any other code is `CommandFailed`.
pub open spec fn spec_run_outcome(script: RunScript, timeout: u64) -> Outcome {
    let stream = spec_stream(script.chunks@, 0, 0, timeout);
    if stream.timed_out {
        Outcome::TimedOut
    } else {
        match script.end {
            RunEnd::Exited { code, cost_ms } => {
                if sat_add(stream.elapsed, cost_ms) > timeout {
                    Outcome::TimedOut
                } else if code == 0 {
                    Outcome::Success
                } else {
                    Outcome::CommandFailed { exit_code: code }
                }
            },
            RunEnd::Dropped { cost_ms } => {
                if sat_add(stream.elapsed, cost_ms) > timeout {
                    Outcome::TimedOut
                } else {
                    Outcome::ConnectFailed { reason: ConnectReason::Dropped }
                }
            },
        }
    }
}

/// The exit code recorded for one command execution: present exactly when
/// the remote process ran to completion within the budget.
pub open spec fn spec_run_exit_code(script: RunScript, timeout: u64) -> Option<i32> {
    match spec_run_outcome(script, timeout) {
        Outcome::Success => Some(0),
        Outcome::CommandFailed { exit_code } => Some(exit_code),
        _ => None,
    }
}

/// How long the execution phase took: the full budget when it timed out,
/// else the clock at the terminal event.
pub open spec fn spec_run_duration(script: RunScript, timeout: u64) -> u64 {
    let stream = spec_stream(script.chunks@, 0, 0, timeout);
    if spec_run_outcome(script, timeout) is TimedOut {
        timeout
    } else {
        match script.end {
            RunEnd::Exited { code, cost_ms } => sat_add(stream.elapsed, cost_ms),
            RunEnd::Dropped { cost_ms } => sat_add(stream.elapsed, cost_ms),
        }
    }
}

/// What a command execution delivers to the worker.
pub struct ExecResult {
    pub outcome: Outcome,
    pub stdout: Vec<u8>,
    pub stderr: Vec<u8>,
    pub exit_code: Option<i32>,
    pub duration_ms: u64,
}

/// Append all of `data` to `out`.
fn append_bytes(out: &mut Vec<u8>, data: &Vec<u8>)
    ensures
        final(out)@ == old(out)@ + data@,
{
    let n = data.len();
    let mut i: usize = 0;
    while i < n
        invariant
            i <= n,
            n == data@.len(),
            out@ == old(out)@ + data@.subrange(0, i as int),
        decreases n - i,
    {
        out.push(data[i]);
        proof {
            assert(out@ =~= old(out)@ + data@.subrange(0, i as int + 1));
        }
        i = i + 1;
    }
    proof {
        assert(data@.subrange(0, n as int) =~= data@);
    }
}

/// Run one command to its scripted end, exactly as the spec functions say:
/// stream chunks under the budget, keep what arrived in time, then classify
/// the terminal event.
pub fn decide_run(cmd: &CommandSpec, script: &RunScript) -> (r: ExecResult)
    ensures
        r.outcome == spec_run_outcome(*script, cmd.per_host_timeout_ms),
        r.stdout@ == spec_stream(script.chunks@, 0, 0, cmd.per_host_timeout_ms).stdout,
        r.stderr@ == spec_stream(script.chunks@, 0, 0, cmd.per_host_timeout_ms).stderr,
        r.exit_code == spec_run_exit_code(*script, cmd.per_host_timeout_ms),
        r.duration_ms == spec_run_duration(*script, cmd.per_host_timeout_ms),
{
    let timeout = cmd.per_host_timeout_ms;
    let ghost whole = spec_stream(script.chunks@, 0, 0, timeout);
    let n = script.chunks.len();
    let mut stdout: Vec<u8> = Vec::new();
    let mut stderr: Vec<u8> = Vec::new();
    let mut elapsed: u64 = 0;
    let mut timed_out = false;
    let mut i: usize = 0;
    while i < n && !timed_out
        invariant
            i <= n,
            n == script.chunks@.len(),
            whole == spec_stream(script.chunks@, 0, 0, timeout),
            !timed_out ==> {
                let rest = spec_stream(script.chunks@, i as int, elapsed, timeout);
                &&& whole.timed_out == rest.timed_out
                &&& whole.stdout == stdout@ + rest.stdout
                &&& whole.stderr == stderr@ + rest.stderr
                &&& whole.elapsed == rest.elapsed
            },
            timed_out ==> {
                &&& whole.timed_out
                &&& whole.stdout == stdout@
                &&& whole.stderr == stderr@
            },
        decreases n - i + (if timed_out { 0int } else { 1int }),
    {
        let chunk_cost = script.chunks[i].cost_ms;
        let e2 = crate::data::sat_add_ms(elapsed, chunk_cost);
        let ghost rest = spec_stream(script.chunks@, i as int, elapsed, timeout);
        if e2 > timeout {
            proof {
                assert(rest.timed_out);
                assert(rest.stdout =~= Seq::<u8>::empty());
                assert(whole.stdout =~= stdout@);
                assert(whole.stderr =~= stderr@);
            }
            timed_out = true;
        } else {
            proof {
                let next = spec_stream(script.chunks@, i as int + 1, e2, timeout);
                assert(rest.stdout == if script.chunks@[i as int].on_stderr {
                    next.stdout
                } else {
                    script.chunks@[i as int].data@ + next.stdout
                });
            }
            if script.chunks[i].on_stderr {
                append_bytes(&mut stderr, &script.chunks[i].data);
            } else {
                append_bytes(&mut stdout, &script.chunks[i].data);
            }
            proof {
                let next = spec_stream(script.chunks@, i as int + 1, e2, timeout);
                assert(whole.stdout =~= stdout@ + next.stdout);
                assert(whole.stderr =~= stderr@ + next.stderr);
            }
            elapsed = e2;
            i = i + 1;
        }
    }
    if !timed_out {
        proof {
            let rest = spec_stream(script.chunks@, i as int, elapsed, timeout);
            assert(rest.stdout =~= Seq::<u8>::empty());
            assert(whole.stdout =~= stdout@);
            assert(whole.stderr =~= stderr@);
        }
    }
    if timed_out {
        return ExecResult {
            outcome: Outcome::TimedOut,
            stdout,
            stderr,
            exit_code: None,
            duration_ms: timeout,
        };
    }
    match &script.end {
        RunEnd::Exited { code, cost_ms } => {
            let e_end = crate::data::sat_add_ms(elapsed, *cost_ms);
            if e_end > timeout {
                ExecResult {
                    outcome: Outcome::TimedOut,
                    stdout,
                    stderr,
                    exit_code: None,
                    duration_ms: timeout,
                }
            } else if *code == 0 {
                ExecResult {
                    outcome: Outcome::Success,
                    stdout,
                    stderr,
                    exit_code: Some(0),
                    duration_ms: e_end,
                }
            } else {
                ExecResult {
                    outcome: Outcome::CommandFailed { exit_code: *code },
                    stdout,
                    stderr,
                    exit_code: Some(*code),
                    duration_ms: e_end,
                }
            }
        },
        RunEnd::Dropped { cost_ms } => {
            let e_end = crate::data::sat_add_ms(elapsed, *cost_ms);
            if e_end > timeout {
                ExecResult {
                    outcome: Outcome::TimedOut,
                    stdout,
                    stderr,
                    exit_code: None,
                    duration_ms: timeout,
                }
            } else {
                ExecResult {
                    outcome: Outcome::ConnectFailed { reason: ConnectReason::Dropped },
                    stdout,
                    stderr,
                    exit_code: None,
                    duration_ms: e_end,
                }
            }
        },
    }
}

} // verus!
