//! End-to-end scenarios for the engine: partial failure, timeout with
//! partial output, credential fallback order, and determinism.

use multissh::connect::{AuthReply, ConnDecision, ConnScript};
use multissh::data::{
    AuthMethod, CommandSpec, ConnectReason, CredentialPolicy, EngineConfig, Outcome, Target,
};
use multissh::engine::{execute, run_target, Script};
use multissh::executor::{OutputChunk, RunEnd, RunScript};
use multissh::report::process_exit_code;

fn policy_password_only() -> CredentialPolicy {
    CredentialPolicy {
        username: "admin".to_string(),
        methods: vec![AuthMethod::Password { secret: "pw".to_string() }],
    }
}

fn cmd(timeout_ms: u64) -> CommandSpec {
    CommandSpec { command: "uname -a".to_string(), per_host_timeout_ms: timeout_ms }
}

fn ok_script(exit_code: i32, stdout: &[u8]) -> Script {
    Script {
        conn: ConnScript {
            transport_error: None,
            transport_ms: 5,
            auth_replies: vec![AuthReply { accept: true, cost_ms: 1 }],
        },
        run: RunScript {
            chunks: vec![OutputChunk { on_stderr: false, data: stdout.to_vec(), cost_ms: 1 }],
            end: RunEnd::Exited { code: exit_code, cost_ms: 1 },
        },
    }
}

fn unreachable_script() -> Script {
    Script {
        conn: ConnScript {
            transport_error: Some(ConnectReason::Unreachable),
            transport_ms: 3,
            auth_replies: vec![AuthReply { accept: false, cost_ms: 0 }],
        },
        run: RunScript { chunks: vec![], end: RunEnd::Exited { code: 0, cost_ms: 0 } },
    }
}

fn targets_abc() -> Vec<Target> {
    vec![
        Target::new("hostA".to_string(), 22),
        Target::new("hostB".to_string(), 22),
        Target::new("hostC".to_string(), 22),
    ]
}

#[test]
fn partial_failure_is_isolated_and_overall_fails() {
    // B is unreachable; A and C succeed with exit code 0.
    let targets = targets_abc();
    let policy = policy_password_only();
    let scripts = vec![ok_script(0, b"a\n"), unreachable_script(), ok_script(0, b"c\n")];
    let rep = execute(targets, &policy, &cmd(1_000), &EngineConfig::default(), &scripts);

    assert_eq!(rep.results.len(), 3);
    assert_eq!(rep.results[0].target.host, "hostA");
    assert_eq!(rep.results[1].target.host, "hostB");
    assert_eq!(rep.results[2].target.host, "hostC");
    assert_eq!(rep.results[0].outcome, Outcome::Success);
    assert_eq!(
        rep.results[1].outcome,
        Outcome::ConnectFailed { reason: ConnectReason::Unreachable }
    );
    assert_eq!(rep.results[2].outcome, Outcome::Success);
    assert!(rep.overall_failed);
    assert_ne!(process_exit_code(&rep), 0);
}

#[test]
fn all_success_means_zero_exit_code() {
    let targets = vec![Target::new("h1".to_string(), 22), Target::new("h2".to_string(), 22)];
    let policy = policy_password_only();
    let scripts = vec![ok_script(0, b"x\n"), ok_script(0, b"y\n")];
    let rep = execute(targets, &policy, &cmd(1_000), &EngineConfig::default(), &scripts);
    assert!(!rep.overall_failed);
    assert_eq!(process_exit_code(&rep), 0);
}

#[test]
fn nonzero_exit_code_is_command_failed() {
    let target = Target::new("h".to_string(), 22);
    let policy = policy_password_only();
    let script = ok_script(3, b"");
    let r = run_target(&target, &policy, &cmd(1_000), &EngineConfig::default(), &script);
    assert_eq!(r.outcome, Outcome::CommandFailed { exit_code: 3 });
    assert_eq!(r.exit_code, Some(3));
}

#[test]
fn command_timeout_preserves_partial_stdout() {
    // The first chunk lands within the budget, the second does not.
    let target = Target::new("slow".to_string(), 22);
    let policy = policy_password_only();
    let script = Script {
        conn: ConnScript {
            transport_error: None,
            transport_ms: 5,
            auth_replies: vec![AuthReply { accept: true, cost_ms: 1 }],
        },
        run: RunScript {
            chunks: vec![
                OutputChunk { on_stderr: false, data: b"partial".to_vec(), cost_ms: 10 },
                OutputChunk { on_stderr: false, data: b" never seen".to_vec(), cost_ms: 5_000 },
            ],
            end: RunEnd::Exited { code: 0, cost_ms: 1 },
        },
    };
    let r = run_target(&target, &policy, &cmd(1_000), &EngineConfig::default(), &script);
    assert_eq!(r.outcome, Outcome::TimedOut);
    assert_eq!(r.stdout, b"partial".to_vec());
    assert_eq!(r.exit_code, None);
    // The execution phase is charged the whole budget, plus the connect time.
    assert_eq!(r.duration_ms, 6 + 1_000);
}

#[test]
fn slow_exit_is_also_a_timeout() {
    let target = Target::new("hang".to_string(), 22);
    let policy = policy_password_only();
    let script = Script {
        conn: ConnScript {
            transport_error: None,
            transport_ms: 0,
            auth_replies: vec![AuthReply { accept: true, cost_ms: 0 }],
        },
        run: RunScript { chunks: vec![], end: RunEnd::Exited { code: 0, cost_ms: 99_999 } },
    };
    let r = run_target(&target, &policy, &cmd(1_000), &EngineConfig::default(), &script);
    assert_eq!(r.outcome, Outcome::TimedOut);
}

#[test]
fn dropped_transport_is_distinct_from_timeout() {
    let target = Target::new("flaky".to_string(), 22);
    let policy = policy_password_only();
    let script = Script {
        conn: ConnScript {
            transport_error: None,
            transport_ms: 1,
            auth_replies: vec![AuthReply { accept: true, cost_ms: 1 }],
        },
        run: RunScript {
            chunks: vec![OutputChunk { on_stderr: false, data: b"so far".to_vec(), cost_ms: 1 }],
            end: RunEnd::Dropped { cost_ms: 1 },
        },
    };
    let r = run_target(&target, &policy, &cmd(1_000), &EngineConfig::default(), &script);
    assert_eq!(r.outcome, Outcome::ConnectFailed { reason: ConnectReason::Dropped });
    assert_eq!(r.stdout, b"so far".to_vec());
}

#[test]
fn stderr_and_stdout_are_kept_apart() {
    let target = Target::new("h".to_string(), 22);
    let policy = policy_password_only();
    let script = Script {
        conn: ConnScript {
            transport_error: None,
            transport_ms: 0,
            auth_replies: vec![AuthReply { accept: true, cost_ms: 0 }],
        },
        run: RunScript {
            chunks: vec![
                OutputChunk { on_stderr: false, data: b"out1".to_vec(), cost_ms: 1 },
                OutputChunk { on_stderr: true, data: b"err1".to_vec(), cost_ms: 1 },
                OutputChunk { on_stderr: false, data: b"out2".to_vec(), cost_ms: 1 },
            ],
            end: RunEnd::Exited { code: 0, cost_ms: 1 },
        },
    };
    let r = run_target(&target, &policy, &cmd(1_000), &EngineConfig::default(), &script);
    assert_eq!(r.stdout, b"out1out2".to_vec());
    assert_eq!(r.stderr, b"err1".to_vec());
}

#[test]
fn key_is_attempted_before_password() {
    // The remote rejects the key and accepts the password: the run succeeds
    // and the winning method is the second of the policy.
    let policy = CredentialPolicy {
        username: "admin".to_string(),
        methods: vec![
            AuthMethod::Key { path: "~/.ssh/id_rsa".to_string(), passphrase: None },
            AuthMethod::Password { secret: "pw".to_string() },
        ],
    };
    let conn = ConnScript {
        transport_error: None,
        transport_ms: 2,
        auth_replies: vec![
            AuthReply { accept: false, cost_ms: 3 },
            AuthReply { accept: true, cost_ms: 4 },
        ],
    };
    let d = multissh::connect::decide_connect(&policy, &conn, 1_000);
    assert_eq!(d, ConnDecision::Connected { method_index: 1, elapsed_ms: 9 });

    let target = Target::new("h".to_string(), 22);
    let script = Script {
        conn,
        run: RunScript { chunks: vec![], end: RunEnd::Exited { code: 0, cost_ms: 1 } },
    };
    let r = run_target(&target, &policy, &cmd(1_000), &EngineConfig::default(), &script);
    assert_eq!(r.outcome, Outcome::Success);
}

#[test]
fn all_methods_rejected_is_auth_failed() {
    let policy = policy_password_only();
    let conn = ConnScript {
        transport_error: None,
        transport_ms: 2,
        auth_replies: vec![AuthReply { accept: false, cost_ms: 3 }],
    };
    let d = multissh::connect::decide_connect(&policy, &conn, 1_000);
    assert_eq!(d, ConnDecision::Failed { outcome: Outcome::AuthFailed, elapsed_ms: 5 });
}

#[test]
fn connect_budget_is_shared_with_auth() {
    // The clock is not reset between transport and authentication: a slow
    // handshake exhausts the connect budget even though the method would
    // have been accepted.
    let policy = policy_password_only();
    let conn = ConnScript {
        transport_error: None,
        transport_ms: 80,
        auth_replies: vec![AuthReply { accept: true, cost_ms: 50 }],
    };
    let d = multissh::connect::decide_connect(&policy, &conn, 100);
    assert_eq!(
        d,
        ConnDecision::Failed {
            outcome: Outcome::ConnectFailed { reason: ConnectReason::Timeout },
            elapsed_ms: 130
        }
    );
}

#[test]
fn slow_transport_is_a_connect_timeout() {
    let policy = policy_password_only();
    let conn = ConnScript {
        transport_error: None,
        transport_ms: 5_000,
        auth_replies: vec![AuthReply { accept: true, cost_ms: 0 }],
    };
    let d = multissh::connect::decide_connect(&policy, &conn, 1_000);
    match d {
        ConnDecision::Failed { outcome, .. } => {
            assert_eq!(outcome, Outcome::ConnectFailed { reason: ConnectReason::Timeout });
        }
        _ => panic!("expected a failure"),
    }
}

#[test]
fn refused_transport_is_connect_failed() {
    let policy = policy_password_only();
    let conn = ConnScript {
        transport_error: Some(ConnectReason::Refused),
        transport_ms: 1,
        auth_replies: vec![AuthReply { accept: false, cost_ms: 0 }],
    };
    let d = multissh::connect::decide_connect(&policy, &conn, 1_000);
    assert_eq!(
        d,
        ConnDecision::Failed {
            outcome: Outcome::ConnectFailed { reason: ConnectReason::Refused },
            elapsed_ms: 1
        }
    );
}

#[test]
fn same_world_twice_gives_identical_reports() {
    // Determinism: two runs against the same scripted targets agree on
    // every outcome and on the exit code.
    let policy = policy_password_only();
    let config = EngineConfig::default();
    let mk = || {
        (
            targets_abc(),
            vec![ok_script(0, b"a\n"), unreachable_script(), ok_script(7, b"c\n")],
        )
    };
    let (t1, s1) = mk();
    let (t2, s2) = mk();
    let r1 = execute(t1, &policy, &cmd(1_000), &config, &s1);
    let r2 = execute(t2, &policy, &cmd(1_000), &config, &s2);
    assert_eq!(r1.results.len(), r2.results.len());
    for i in 0..r1.results.len() {
        assert_eq!(r1.results[i].outcome, r2.results[i].outcome);
        assert_eq!(r1.results[i].exit_code, r2.results[i].exit_code);
        assert_eq!(r1.results[i].stdout, r2.results[i].stdout);
        assert_eq!(r1.results[i].stderr, r2.results[i].stderr);
    }
    assert_eq!(r1.overall_failed, r2.overall_failed);
    assert_eq!(process_exit_code(&r1), process_exit_code(&r2));
}

#[test]
fn empty_run_succeeds_vacuously() {
    let policy = policy_password_only();
    let rep = execute(Vec::new(), &policy, &cmd(1_000), &EngineConfig::default(), &Vec::new());
    assert!(rep.results.is_empty());
    assert!(!rep.overall_failed);
    assert_eq!(process_exit_code(&rep), 0);
}

#[test]
fn huge_chunk_delay_saturates_into_timeout() {
    let target = Target::new("h".to_string(), 22);
    let policy = policy_password_only();
    let script = Script {
        conn: ConnScript {
            transport_error: None,
            transport_ms: 0,
            auth_replies: vec![AuthReply { accept: true, cost_ms: 0 }],
        },
        run: RunScript {
            chunks: vec![OutputChunk { on_stderr: false, data: b"x".to_vec(), cost_ms: u64::MAX }],
            end: RunEnd::Exited { code: 0, cost_ms: u64::MAX },
        },
    };
    let r = run_target(&target, &policy, &cmd(u64::MAX - 1), &EngineConfig::default(), &script);
    assert_eq!(r.outcome, Outcome::TimedOut);
    assert!(r.stdout.is_empty());
}
