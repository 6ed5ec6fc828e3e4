//! Scheduler and reporter behavior: the concurrency cap, cancellation,
//! order-stable reports, and the line-atomic live output path.

use multissh::data::{ConnectReason, Outcome, Target, TaskResult};
use multissh::report::{finalize_report, frame_line, target_prefix, LineBuffer};
use multissh::sched::{Scheduler, Slot};

fn success_result(target: Target) -> TaskResult {
    TaskResult {
        target,
        outcome: Outcome::Success,
        stdout: b"ok\n".to_vec(),
        stderr: Vec::new(),
        exit_code: Some(0),
        duration_ms: 7,
    }
}

fn three_targets() -> Vec<Target> {
    vec![
        Target::new("t0".to_string(), 22),
        Target::new("t1".to_string(), 22),
        Target::new("t2".to_string(), 22),
    ]
}

#[test]
fn cap_blocks_further_starts_until_a_completion() {
    let mut s = Scheduler::new(three_targets(), 1);
    assert_eq!(s.try_start(), Some(0));
    // The cap is one: nothing else may start while the worker runs.
    assert_eq!(s.try_start(), None);
    let t = s.targets[0].duplicate();
    s.complete(0, success_result(t));
    // A completion frees the worker.
    assert_eq!(s.try_start(), Some(1));
}

#[test]
fn starts_follow_submission_order() {
    let mut s = Scheduler::new(three_targets(), 2);
    assert_eq!(s.try_start(), Some(0));
    assert_eq!(s.try_start(), Some(1));
    assert_eq!(s.try_start(), None);
}

#[test]
fn cancel_resolves_queued_targets_and_keeps_finished_ones() {
    let mut s = Scheduler::new(three_targets(), 1);
    let i = s.try_start().unwrap();
    let t = s.targets[i].duplicate();
    s.complete(i, success_result(t));
    let j = s.try_start().unwrap();
    assert_eq!(j, 1);

    // Target 2 is still queued; target 1 is in flight.
    s.cancel();
    assert!(matches!(s.slots[2], Slot::Done(ref r) if r.outcome == Outcome::Cancelled));
    assert!(matches!(s.slots[0], Slot::Done(ref r) if r.outcome == Outcome::Success));
    assert!(matches!(s.slots[1], Slot::Running));
    // No new target starts after cancellation.
    assert_eq!(s.try_start(), None);

    // The in-flight worker still reports (its session was force-closed).
    let t1 = s.targets[1].duplicate();
    s.complete(
        1,
        TaskResult {
            target: t1,
            outcome: Outcome::Cancelled,
            stdout: Vec::new(),
            stderr: Vec::new(),
            exit_code: None,
            duration_ms: 2,
        },
    );
    assert!(s.is_finished());
    let rep = finalize_report(s);
    assert_eq!(rep.results.len(), 3);
    assert_eq!(rep.results[0].outcome, Outcome::Success);
    assert_eq!(rep.results[1].outcome, Outcome::Cancelled);
    assert_eq!(rep.results[2].outcome, Outcome::Cancelled);
    assert!(rep.overall_failed);
}

#[test]
fn report_is_in_submission_order_not_completion_order() {
    let mut s = Scheduler::new(three_targets(), 3);
    assert_eq!(s.try_start(), Some(0));
    assert_eq!(s.try_start(), Some(1));
    assert_eq!(s.try_start(), Some(2));
    // Workers finish out of order: 2, then 0, then 1.
    for i in [2usize, 0, 1] {
        let t = s.targets[i].duplicate();
        s.complete(i, success_result(t));
    }
    assert!(s.is_finished());
    let rep = finalize_report(s);
    assert_eq!(rep.results.len(), 3);
    assert_eq!(rep.results[0].target.host, "t0");
    assert_eq!(rep.results[1].target.host, "t1");
    assert_eq!(rep.results[2].target.host, "t2");
    assert!(!rep.overall_failed);
}

#[test]
fn every_target_gets_exactly_one_entry() {
    let mut s = Scheduler::new(three_targets(), 2);
    while let Some(i) = s.try_start() {
        let t = s.targets[i].duplicate();
        s.complete(i, success_result(t));
    }
    assert!(s.is_finished());
    let rep = finalize_report(s);
    assert_eq!(rep.results.len(), 3);
}

#[test]
fn line_buffer_releases_only_whole_lines() {
    let mut b = LineBuffer::new();
    let none = b.push_chunk(&b"ab".to_vec());
    assert!(none.is_empty());
    let lines = b.push_chunk(&b"c\nde\nf".to_vec());
    assert_eq!(lines, vec![b"abc".to_vec(), b"de".to_vec()]);
    assert_eq!(b.pending, b"f".to_vec());
    let more = b.push_chunk(&b"\n".to_vec());
    assert_eq!(more, vec![b"f".to_vec()]);
    assert_eq!(b.pending, Vec::<u8>::new());
}

#[test]
fn framed_lines_carry_their_target_prefix() {
    let t = Target::new("web1".to_string(), 22);
    let prefix = target_prefix(&t);
    assert_eq!(prefix, b"web1:22: ".to_vec());
    let unit = frame_line(&prefix, &b"hello".to_vec());
    assert_eq!(unit, b"web1:22: hello\n".to_vec());
}

#[test]
fn chunked_concurrent_writers_never_mix_mid_line() {
    // Two slow, chunked writers; the sink receives only framed whole lines,
    // so however their completions interleave, every emitted line belongs
    // to exactly one target.
    let ta = Target::new("a".to_string(), 1);
    let tb = Target::new("b".to_string(), 2);
    let pa = target_prefix(&ta);
    let pb = target_prefix(&tb);
    let mut ba = LineBuffer::new();
    let mut bb = LineBuffer::new();
    let mut sink: Vec<u8> = Vec::new();

    let schedule: Vec<(bool, &[u8])> = vec![
        (true, b"hel"),
        (false, b"wor"),
        (true, b"lo\nxy"),
        (false, b"ld\n"),
        (true, b"z\n"),
    ];
    for (is_a, chunk) in schedule {
        let (buf, prefix) = if is_a { (&mut ba, &pa) } else { (&mut bb, &pb) };
        for line in buf.push_chunk(&chunk.to_vec()) {
            sink.extend_from_slice(&frame_line(prefix, &line));
        }
    }
    let text = String::from_utf8(sink).unwrap();
    for line in text.lines() {
        let from_a = line.starts_with("a:1: ");
        let from_b = line.starts_with("b:2: ");
        assert!(from_a ^ from_b, "line belongs to exactly one target: {line}");
    }
    assert!(text.contains("a:1: hello\n"));
    assert!(text.contains("b:2: world\n"));
    assert!(text.contains("a:1: xyz\n"));
}

#[test]
fn high_port_prefix_renders_all_digits() {
    let t = Target::new("h".to_string(), 65_535);
    assert_eq!(target_prefix(&t), b"h:65535: ".to_vec());
}

#[test]
fn emit_chunk_frames_every_completed_line() {
    let t = Target::new("db".to_string(), 22);
    let prefix = target_prefix(&t);
    let mut b = LineBuffer::new();
    let units = multissh::report::emit_chunk(&mut b, &prefix, &b"one\ntwo\nthr".to_vec());
    assert_eq!(units, vec![b"db:22: one\n".to_vec(), b"db:22: two\n".to_vec()]);
    assert_eq!(b.pending, b"thr".to_vec());
}

#[test]
fn outcome_labels_name_the_kind() {
    assert_eq!(Outcome::Success.label(), "success");
    assert_eq!(Outcome::TimedOut.label(), "timed out");
    assert_eq!(Outcome::Cancelled.label(), "cancelled");
    assert_eq!(Outcome::AuthFailed.label(), "auth failed");
    assert_eq!(Outcome::ConnectFailed { reason: ConnectReason::Refused }.label(), "connect failed");
    assert_eq!(Outcome::CommandFailed { exit_code: 2 }.label(), "command failed");
}
