//! Result aggregation and reporting: the final report in original target
//! order with its derived overall status, and the line-buffered live-output
//! machinery that only ever hands whole, single-target lines to the shared
//! sink — so serialized writes can never interleave two targets mid-line.

use vstd::prelude::*;
use crate::data::{Outcome, Target, TaskResult};
use crate::sched::{Scheduler, Slot};

verus! {

/// The final, ordered report of one run: one result per submitted target,
/// in submission order, plus the derived overall status.
pub struct RunReport {
    pub results: Vec<TaskResult>,
    pub overall_failed: bool,
}

/// The result a finished slot holds.
pub open spec fn done_value(s: Slot) -> TaskResult {
    s->Done_0
}

impl RunReport {
    /// `overall_failed` is true exactly when some target did not succeed.
    pub open spec fn status_wf(self) -> bool {
        self.overall_failed == exists|i: int|
            0 <= i < self.results@.len() && !((#[trigger] self.results@[i]).outcome is Success)
    }
}

/// The process-level exit status for a report: nonzero exactly when some
/// target failed, so shell automation can detect partial failure.
pub fn process_exit_code(rep: &RunReport) -> (c: i32)
    ensures
        c == if rep.overall_failed { 1int } else { 0int },
        (c != 0) == rep.overall_failed,
{
    if rep.overall_failed {
        1
    } else {
        0
    }
}

/// Reconstruct the final report from a finished run: exactly one entry per
/// submitted target, in original submission order regardless of completion
/// order, with `overall_failed` derived from the outcomes.
pub fn finalize_report(sched: Scheduler) -> (rep: RunReport)
    requires
        sched.wf(),
        sched.all_done(),
    ensures
        rep.results@.len() == sched.targets@.len(),
        forall|i: int|
            0 <= i < sched.targets@.len() ==> rep.results@[i] == done_value(sched.slots@[i]),
        forall|i: int|
            0 <= i < sched.targets@.len() ==> (#[trigger] rep.results@[i]).target@
                == sched.targets@[i]@,
        rep.status_wf(),
{
    let ghost orig = sched.slots@;
    let mut sched = sched;
    let n = sched.slots.len();
    let mut results: Vec<TaskResult> = Vec::new();
    let mut failed = false;
    let mut k: usize = 0;
    while k < n
        invariant
            k <= n,
            n == orig.len(),
            sched.slots@ =~= orig.subrange(k as int, n as int),
            forall|i: int| 0 <= i < n ==> (#[trigger] orig[i]) is Done,
            results@.len() == k,
            forall|i: int| 0 <= i < k ==> results@[i] == done_value(orig[i]),
            failed == exists|i: int|
                0 <= i < k && !((#[trigger] results@[i]).outcome is Success),
        decreases n - k,
    {
        let slot = sched.slots.remove(0);
        let ghost prev = results@;
        let ghost prev_failed = failed;
        match slot {
            Slot::Done(r) => {
                let ok = match r.outcome {
                    Outcome::Success => true,
                    _ => false,
                };
                if !ok {
                    failed = true;
                }
                results.push(r);
                proof {
                    if failed {
                        if !ok {
                            assert(!((results@[k as int]).outcome is Success));
                        } else {
                            let i0 = choose|i0: int|
                                0 <= i0 < k && !((#[trigger] prev[i0]).outcome is Success);
                            assert(!((results@[i0]).outcome is Success));
                        }
                    } else {
                        assert forall|i: int|
                            0 <= i < k + 1 implies ((#[trigger] results@[i]).outcome
                            is Success) by {
                            if i < k {
                                assert(results@[i] == prev[i]);
                                if !(prev[i].outcome is Success) {
                                    assert(prev_failed);
                                }
                            } else {
                                assert(results@[i] == r);
                            }
                        }
                    }
                }
            },
            _ => {
                proof {
                    assert(orig[k as int] is Done);
                    assert(false);
                }
            },
        }
        k = k + 1;
    }
    RunReport { results, overall_failed: failed }
}

/// The decimal digits of `n`, most significant first, as ASCII bytes.
pub open spec fn dec_rep(n: int) -> Seq<u8>
    decreases n,
{
    if n < 10 {
        seq![(48 + if n >= 0 { n } else { 0 }) as u8]
    } else {
        dec_rep(n / 10).push((48 + n % 10) as u8)
    }
}

/// Render a port number in decimal, exact against `dec_rep`.
pub fn dec_bytes(n: u16) -> (r: Vec<u8>)
    ensures
        r@ == dec_rep(n as int),
    decreases n,
{
    if n < 10 {
        let mut r: Vec<u8> = Vec::new();
        r.push(48 + (n as u8));
        proof {
            assert(r@ =~= dec_rep(n as int));
        }
        r
    } else {
        let mut r = dec_bytes(n / 10);
        r.push(48 + ((n % 10) as u8));
        r
    }
}

/// The live-output prefix that tags every emitted line with the target it
/// came from: `host:port: `.
pub open spec fn spec_prefix(t: Target) -> Seq<u8> {
    vstd::utf8::encode_utf8(t.host@) + seq![58u8] + dec_rep(t.port as int) + seq![58u8, 32u8]
}

/// Build the target prefix for live output.
pub fn target_prefix(t: &Target) -> (p: Vec<u8>)
    ensures
        p@ == spec_prefix(*t),
{
    let mut p = t.host.as_str().as_bytes_vec();
    p.push(58);
    let digits = dec_bytes(t.port);
    append_to(&mut p, &digits);
    p.push(58);
    p.push(32);
    proof {
        assert(p@ =~= spec_prefix(*t));
    }
    p
}

/// Append all of `data` to `out`.
fn append_to(out: &mut Vec<u8>, data: &Vec<u8>)
    ensures
        final(out)@ == old(out)@ + data@,
{
    let n = data.len();
    let mut i: usize = 0;
    while i < n
        invariant
            i <= n,
            n == data@.len(),
            out@ == old(out)@ + data@.subrange(0, i as int),
        decreases n - i,
    {
        out.push(data[i]);
        proof {
            assert(out@ =~= old(out)@ + data@.subrange(0, i as int + 1));
        }
        i = i + 1;
    }
    proof {
        assert(data@.subrange(0, n as int) =~= data@);
    }
}

/// The newline byte that ends every emitted line.
pub const NL: u8 = 10;

/// Lines joined back into a byte stream, a newline after each line.
pub open spec fn flatten_lines(lines: Seq<Seq<u8>>) -> Seq<u8>
    decreases lines.len(),
{
    if lines.len() == 0 {
        Seq::empty()
    } else {
        flatten_lines(lines.drop_last()) + lines.last() + seq![NL]
    }
}

/// No byte of `s` is a newline.
pub open spec fn newline_free(s: Seq<u8>) -> bool {
    forall|i: int| 0 <= i < s.len() ==> s[i] != NL
}

/// Per-target reassembly of chunked output into whole lines. The buffer
/// holds the bytes of the last unfinished line; every line it releases is
/// complete and newline-free.
pub struct LineBuffer {
    pub pending: Vec<u8>,
}

impl LineBuffer {
    /// The pending bytes never contain a newline.
    pub open spec fn wf(self) -> bool {
        newline_free(self.pending@)
    }

    pub fn new() -> (b: LineBuffer)
        ensures
            b.wf(),
            b.pending@ == Seq::<u8>::empty(),
    {
        LineBuffer { pending: Vec::new() }
    }

    /// Feed one chunk; get back every line it completed. Nothing is lost
    /// and nothing is invented: the old buffer followed by the chunk is
    /// exactly the released lines (each closed by its newline) followed by
    /// the new buffer.
    pub fn push_chunk(&mut self, chunk: &Vec<u8>) -> (lines: Vec<Vec<u8>>)
        requires
            old(self).wf(),
        ensures
            final(self).wf(),
            old(self).pending@ + chunk@ == flatten_lines(lines.deep_view())
                + final(self).pending@,
            forall|i: int| 0 <= i < lines.deep_view().len() ==> newline_free(lines.deep_view()[i]),
    {
        let ghost start = self.pending@ + chunk@;
        let mut lines: Vec<Vec<u8>> = Vec::new();
        let n = chunk.len();
        let mut j: usize = 0;
        while j < n
            invariant
                j <= n,
                n == chunk@.len(),
                newline_free(self.pending@),
                old(self).pending@ + chunk@.subrange(0, j as int) == flatten_lines(
                    lines.deep_view(),
                ) + self.pending@,
                forall|i: int|
                    0 <= i < lines.deep_view().len() ==> newline_free(lines.deep_view()[i]),
            decreases n - j,
        {
            let b = chunk[j];
            if b == NL {
                let mut done: Vec<u8> = Vec::new();
                core::mem::swap(&mut done, &mut self.pending);
                let ghost prev_lines = lines.deep_view();
                proof {
                    assert(done.deep_view() =~= done@);
                }
                lines.push(done);
                proof {
                    assert(chunk@.subrange(0, j as int + 1) =~= chunk@.subrange(
                        0,
                        j as int,
                    ).push(b));
                    assert(lines.deep_view() =~~= prev_lines.push(done@));
                    assert(lines.deep_view().drop_last() =~~= prev_lines);
                    assert(flatten_lines(lines.deep_view()) == flatten_lines(prev_lines) + done@
                        + seq![NL]);
                    assert(old(self).pending@ + chunk@.subrange(0, j as int + 1)
                        =~= flatten_lines(lines.deep_view()) + self.pending@);
                }
            } else {
                let ghost pend0 = self.pending@;
                self.pending.push(b);
                proof {
                    assert(chunk@.subrange(0, j as int + 1) =~= chunk@.subrange(
                        0,
                        j as int,
                    ).push(b));
                    assert(self.pending@ =~= pend0 + seq![b]);
                    let a = old(self).pending@;
                    let f = flatten_lines(lines.deep_view());
                    assert(chunk@.subrange(0, j as int + 1) =~= chunk@.subrange(0, j as int)
                        + seq![b]);
                    assert(a + (chunk@.subrange(0, j as int) + seq![b]) =~= (a + chunk@.subrange(
                        0,
                        j as int,
                    )) + seq![b]);
                    assert((f + pend0) + seq![b] =~= f + (pend0 + seq![b]));
                    assert(old(self).pending@ + chunk@.subrange(0, j as int + 1) == f
                        + self.pending@);
                }
            }
            j = j + 1;
        }
        proof {
            assert(chunk@.subrange(0, n as int) =~= chunk@);
        }
        lines
    }
}

/// One atomic unit for the shared sink: the target prefix, one complete
/// line, and the closing newline.
pub fn frame_line(prefix: &Vec<u8>, line: &Vec<u8>) -> (out: Vec<u8>)
    ensures
        out@ == prefix@ + line@ + seq![NL],
{
    let mut out: Vec<u8> = Vec::new();
    append_to(&mut out, prefix);
    append_to(&mut out, line);
    out.push(NL);
    proof {
        assert(out@ =~= prefix@ + line@ + seq![NL]);
    }
    out
}

/// Feed one freshly arrived chunk of a target's output through its line
/// buffer and frame every completed line with the target's prefix: the
/// atomic units for the shared sink. Nothing is lost, nothing invented,
/// and every unit carries exactly one target's bytes.
pub fn emit_chunk(buf: &mut LineBuffer, prefix: &Vec<u8>, chunk: &Vec<u8>) -> (units: Vec<Vec<u8>>)
    requires
        old(buf).wf(),
    ensures
        final(buf).wf(),
        exists|lines: Seq<Seq<u8>>|
            {
                &&& old(buf).pending@ + chunk@ == flatten_lines(lines) + final(buf).pending@
                &&& units.deep_view().len() == lines.len()
                &&& forall|i: int|
                    0 <= i < lines.len() ==> newline_free(#[trigger] lines[i])
                        && units.deep_view()[i] == prefix@ + lines[i] + seq![NL]
            },
{
    let lines = buf.push_chunk(chunk);
    let ghost ldv = lines.deep_view();
    let n = lines.len();
    let mut units: Vec<Vec<u8>> = Vec::new();
    let mut k: usize = 0;
    while k < n
        invariant
            k <= n,
            n == ldv.len(),
            lines.deep_view() == ldv,
            units.deep_view().len() == k,
            forall|i: int|
                0 <= i < k ==> units.deep_view()[i] == prefix@ + ldv[i] + seq![NL],
        decreases n - k,
    {
        let u = frame_line(prefix, &lines[k]);
        let ghost udv = units.deep_view();
        units.push(u);
        proof {
            assert(units.deep_view() =~~= udv.push(u@));
        }
        k = k + 1;
    }
    proof {
        assert(ldv.len() <= usize::MAX);
    }
    units
}

/// Atomicity law for live output: a framed unit whose prefix and line are
/// newline-free contains exactly one newline, and it is the last byte. A
/// sink that writes such units under mutual exclusion therefore never
/// interleaves two targets' output mid-line: every write boundary is a line
/// boundary.
pub proof fn lemma_frame_line_atomic(prefix: Seq<u8>, line: Seq<u8>)
    requires
        newline_free(prefix),
        newline_free(line),
    ensures
        (prefix + line + seq![NL]).len() == prefix.len() + line.len() + 1,
        (prefix + line + seq![NL]).last() == NL,
        forall|i: int|
            0 <= i < prefix.len() + line.len() ==> (prefix + line + seq![NL])[i] != NL,
{
    let u = prefix + line + seq![NL];
    assert forall|i: int| 0 <= i < prefix.len() + line.len() implies u[i] != NL by {
        if i < prefix.len() {
            assert(u[i] == prefix[i]);
        } else {
            assert(u[i] == line[i - prefix.len()]);
        }
    }
}

} // verus!
