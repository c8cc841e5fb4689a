//! Ping engine: the send pacing, reply correlation and sample collection of
//! both operating modes, as step functions over plain values. The driver owns
//! the transport, the clock and the pacing sleep; it reads the clock as a
//! monotonic nanosecond counter, hands each reading in, performs the send or
//! receive the engine has prepared, and sleeps until the engine's next send
//! time. Any I/O failure or correlation fault is fatal to the run: the driver
//! aborts instead of retrying, since a retried or delayed exchange would
//! corrupt the latency figures.

use vstd::prelude::*;

verus! {

use crate::codec;
use crate::pending::PendingTable;
use vstd::arithmetic::div_mod::{lemma_div_is_ordered, lemma_div_multiples_vanish};
use vstd::bytes::spec_u64_to_le_bytes;

/// One completed latency measurement: which request, and how long it took.
#[derive(Clone, Copy, PartialEq, Eq, Structural, Debug)]
pub struct Sample {
    pub seq: u64,
    pub elapsed_ns: u64,
}

/// The sequence counter after one more send: increments by one and silently
/// wraps at the end of the 64-bit space.
pub open spec fn wrap_inc(seq: u64) -> u64 {
    if seq == u64::MAX {
        0
    } else {
        (seq + 1) as u64
    }
}

/// Saturating addition on nanosecond timestamps.
pub open spec fn sat_add(a: u64, b: u64) -> u64 {
    if a + b <= u64::MAX {
        (a + b) as u64
    } else {
        u64::MAX
    }
}

/// Elapsed nanoseconds between a send stamped `sent_at_ns` and a reply
/// observed at `now_ns`. A monotonic clock never runs backwards, so the
/// difference is well defined; should a reading still come in lower, the
/// elapsed time clamps to zero rather than wrapping.
pub open spec fn spec_elapsed(sent_at_ns: u64, now_ns: u64) -> u64 {
    if now_ns >= sent_at_ns {
        (now_ns - sent_at_ns) as u64
    } else {
        0
    }
}

fn exec_wrap_inc(seq: u64) -> (r: u64)
    ensures
        r == wrap_inc(seq),
{
    if seq == u64::MAX {
        0
    } else {
        seq + 1
    }
}

fn exec_sat_add(a: u64, b: u64) -> (r: u64)
    ensures
        r == sat_add(a, b),
{
    if a <= u64::MAX - b {
        a + b
    } else {
        u64::MAX
    }
}

fn exec_elapsed(sent_at_ns: u64, now_ns: u64) -> (r: u64)
    ensures
        r == spec_elapsed(sent_at_ns, now_ns),
{
    if now_ns >= sent_at_ns {
        now_ns - sent_at_ns
    } else {
        0
    }
}

/// Phase of the synchronous engine's request cycle.
#[derive(Clone, Copy, PartialEq, Eq, Structural, Debug)]
pub enum SyncPhase {
    /// No request outstanding; the next send may be prepared.
    Ready,
    /// A request is on the wire and its echo has not yet been consumed.
    Awaiting,
}

/// Synchronous mode: one outstanding request at a time. Each iteration
/// encodes the sequence number, stamps the send, waits for the echo, appends
/// a sample, and paces the next send one interval after this one. Samples
/// accumulate for end-of-run bulk reporting.
pub struct SyncEngine {
    phase: SyncPhase,
    seq: u64,
    interval_ns: u64,
    started: bool,
    sent_at_ns: u64,
    next_send_at_ns: u64,
    samples: Vec<Sample>,
}

impl SyncEngine {
    /// Whether the engine may prepare the next send.
    pub closed spec fn is_ready(&self) -> bool {
        self.phase is Ready
    }

    /// Whether a request is outstanding.
    pub closed spec fn is_awaiting(&self) -> bool {
        self.phase is Awaiting
    }

    /// The sequence number the next send will carry.
    pub closed spec fn current_seq(&self) -> u64 {
        self.seq
    }

    /// The configured inter-send interval, nanoseconds.
    pub closed spec fn interval(&self) -> u64 {
        self.interval_ns
    }

    /// Whether any send has been prepared yet.
    pub closed spec fn has_sent(&self) -> bool {
        self.started
    }

    /// When the most recent send was stamped.
    pub closed spec fn sent_at(&self) -> u64 {
        self.sent_at_ns
    }

    /// The earliest time the engine accepts the next send.
    pub closed spec fn next_send_at(&self) -> u64 {
        self.next_send_at_ns
    }

    /// The samples collected so far, in completion order.
    pub closed spec fn samples(&self) -> Seq<Sample> {
        self.samples@
    }

    /// Pacing discipline: once a send has happened, the engine refuses the
    /// next one before `sent_at + interval`; before the first send nothing is
    /// outstanding and nothing has been collected under a pacing debt.
    pub open spec fn wf(&self) -> bool {
        &&& (self.has_sent() ==> self.next_send_at() == sat_add(self.sent_at(), self.interval()))
        &&& (!self.has_sent() ==> self.next_send_at() == 0 && self.is_ready())
        &&& (self.is_awaiting() ==> self.has_sent())
    }

    /// A fresh synchronous engine: sequence counter at zero, no samples, no
    /// pacing debt.
    pub fn new(interval_ns: u64) -> (e: SyncEngine)
        ensures
            e.wf(),
            e.is_ready(),
            !e.has_sent(),
            e.current_seq() == 0,
            e.interval() == interval_ns,
            e.samples() == Seq::<Sample>::empty(),
            e.next_send_at() == 0,
    {
        SyncEngine {
            phase: SyncPhase::Ready,
            seq: 0,
            interval_ns,
            started: false,
            sent_at_ns: 0,
            next_send_at_ns: 0,
            samples: Vec::new(),
        }
    }

    /// An engine whose sequence counter starts at `start_seq` instead of
    /// zero, for exercising the wrap boundary at the end of the 64-bit
    /// sequence space; otherwise as `new`.
    pub fn with_seq(interval_ns: u64, start_seq: u64) -> (e: SyncEngine)
        ensures
            e.wf(),
            e.is_ready(),
            !e.has_sent(),
            e.current_seq() == start_seq,
            e.interval() == interval_ns,
            e.samples() == Seq::<Sample>::empty(),
            e.next_send_at() == 0,
    {
        SyncEngine {
            phase: SyncPhase::Ready,
            seq: start_seq,
            interval_ns,
            started: false,
            sent_at_ns: 0,
            next_send_at_ns: 0,
            samples: Vec::new(),
        }
    }

    /// Encode the current sequence number into the payload's prefix and stamp
    /// the send at `now_ns`; the filler bytes are reused as they are. The
    /// engine refuses a send before its pacing deadline, and afterwards will
    /// not accept another until one interval past `now_ns`.
    pub fn prepare_send(&mut self, payload: &mut Vec<u8>, now_ns: u64)
        requires
            old(self).wf(),
            old(self).is_ready(),
            old(payload).len() >= codec::SEQ_BYTES,
            now_ns >= old(self).next_send_at(),
        ensures
            final(self).wf(),
            final(self).is_awaiting(),
            final(self).has_sent(),
            final(self).current_seq() == old(self).current_seq(),
            final(self).interval() == old(self).interval(),
            final(self).samples() == old(self).samples(),
            final(self).sent_at() == now_ns,
            final(self).next_send_at() == sat_add(now_ns, old(self).interval()),
            final(payload).len() == old(payload).len(),
            final(payload)@.subrange(0, 8) == spec_u64_to_le_bytes(old(self).current_seq()),
            final(payload)@.skip(8) == old(payload)@.skip(8),
            codec::payload_seq(final(payload)@) == old(self).current_seq(),
    {
        codec::encode(payload, self.seq);
        self.sent_at_ns = now_ns;
        self.next_send_at_ns = exec_sat_add(now_ns, self.interval_ns);
        self.started = true;
        self.phase = SyncPhase::Awaiting;
    }

    /// Consume the echo of the outstanding request, observed at `now_ns`:
    /// measure the elapsed time, append the sample, advance the sequence
    /// counter (wrapping), and return to the ready phase. The sample's
    /// elapsed time is never negative, and under a monotonic clock it is
    /// exactly the difference between reply and send times.
    pub fn complete_reply(&mut self, now_ns: u64) -> (s: Sample)
        requires
            old(self).wf(),
            old(self).is_awaiting(),
        ensures
            final(self).wf(),
            final(self).is_ready(),
            final(self).has_sent(),
            s.seq == old(self).current_seq(),
            s.elapsed_ns == spec_elapsed(old(self).sent_at(), now_ns),
            now_ns >= old(self).sent_at() ==> s.elapsed_ns == now_ns - old(self).sent_at(),
            final(self).samples() == old(self).samples().push(s),
            final(self).current_seq() == wrap_inc(old(self).current_seq()),
            final(self).interval() == old(self).interval(),
            final(self).sent_at() == old(self).sent_at(),
            final(self).next_send_at() == old(self).next_send_at(),
    {
        let s = Sample { seq: self.seq, elapsed_ns: exec_elapsed(self.sent_at_ns, now_ns) };
        self.samples.push(s);
        self.seq = exec_wrap_inc(self.seq);
        self.phase = SyncPhase::Ready;
        s
    }

    /// The sequence number the next send will carry, for drivers.
    pub fn seq_value(&self) -> (r: u64)
        ensures
            r == self.current_seq(),
    {
        self.seq
    }

    /// The earliest time the engine accepts the next send, for the driver's
    /// pacing sleep.
    pub fn next_send_deadline(&self) -> (r: u64)
        ensures
            r == self.next_send_at(),
    {
        self.next_send_at_ns
    }

    /// Number of samples collected so far.
    pub fn sample_count(&self) -> (n: usize)
        ensures
            n == self.samples().len(),
    {
        self.samples.len()
    }

    /// Drain: hand the accumulated samples over for end-of-run reporting.
    pub fn into_samples(self) -> (v: Vec<Sample>)
        ensures
            v@ == self.samples(),
    {
        self.samples
    }
}

/// Pipelined mode's send path: sends continuously without waiting for
/// replies. Each step encodes the sequence number, records the send time in
/// the shared pending table, and advances the counter; the concurrent receive
/// path correlates echoes through the same table.
pub struct PipelinedSender {
    seq: u64,
    interval_ns: u64,
    started: bool,
    sent_at_ns: u64,
    next_send_at_ns: u64,
}

impl PipelinedSender {
    /// The sequence number the next send will carry.
    pub closed spec fn current_seq(&self) -> u64 {
        self.seq
    }

    /// The configured inter-send interval, nanoseconds.
    pub closed spec fn interval(&self) -> u64 {
        self.interval_ns
    }

    /// Whether any send has been prepared yet.
    pub closed spec fn has_sent(&self) -> bool {
        self.started
    }

    /// When the most recent send was stamped.
    pub closed spec fn sent_at(&self) -> u64 {
        self.sent_at_ns
    }

    /// The earliest time the sender accepts the next send.
    pub closed spec fn next_send_at(&self) -> u64 {
        self.next_send_at_ns
    }

    /// Pacing discipline, as for the synchronous engine.
    pub open spec fn wf(&self) -> bool {
        &&& (self.has_sent() ==> self.next_send_at() == sat_add(self.sent_at(), self.interval()))
        &&& (!self.has_sent() ==> self.next_send_at() == 0)
    }

    /// A fresh pipelined sender: sequence counter at zero, no pacing debt.
    pub fn new(interval_ns: u64) -> (s: PipelinedSender)
        ensures
            s.wf(),
            !s.has_sent(),
            s.current_seq() == 0,
            s.interval() == interval_ns,
            s.next_send_at() == 0,
    {
        PipelinedSender {
            seq: 0,
            interval_ns,
            started: false,
            sent_at_ns: 0,
            next_send_at_ns: 0,
        }
    }

    /// A sender whose sequence counter starts at `start_seq` instead of
    /// zero, for exercising the wrap boundary at the end of the 64-bit
    /// sequence space; otherwise as `new`.
    pub fn with_seq(interval_ns: u64, start_seq: u64) -> (s: PipelinedSender)
        ensures
            s.wf(),
            !s.has_sent(),
            s.current_seq() == start_seq,
            s.interval() == interval_ns,
            s.next_send_at() == 0,
    {
        PipelinedSender {
            seq: start_seq,
            interval_ns,
            started: false,
            sent_at_ns: 0,
            next_send_at_ns: 0,
        }
    }

    /// One send step: encode the current sequence number into the payload,
    /// record the send time under that number in the pending table, and
    /// advance the counter (wrapping). The caller guarantees the number is
    /// not already in flight — true by construction until the counter laps
    /// the full 64-bit space with a request still outstanding.
    pub fn send_step(&mut self, table: &mut PendingTable, payload: &mut Vec<u8>, now_ns: u64)
        requires
            old(self).wf(),
            old(payload).len() >= codec::SEQ_BYTES,
            now_ns >= old(self).next_send_at(),
            !old(table)@.contains_key(old(self).current_seq()),
        ensures
            final(self).wf(),
            final(self).has_sent(),
            final(self).current_seq() == wrap_inc(old(self).current_seq()),
            final(self).interval() == old(self).interval(),
            final(self).sent_at() == now_ns,
            final(self).next_send_at() == sat_add(now_ns, old(self).interval()),
            final(table)@ == old(table)@.insert(old(self).current_seq(), now_ns),
            final(payload).len() == old(payload).len(),
            final(payload)@.subrange(0, 8) == spec_u64_to_le_bytes(old(self).current_seq()),
            final(payload)@.skip(8) == old(payload)@.skip(8),
            codec::payload_seq(final(payload)@) == old(self).current_seq(),
    {
        codec::encode(payload, self.seq);
        table.record(self.seq, now_ns);
        self.sent_at_ns = now_ns;
        self.next_send_at_ns = exec_sat_add(now_ns, self.interval_ns);
        self.started = true;
        self.seq = exec_wrap_inc(self.seq);
    }

    /// The sequence number the next send will carry, for drivers.
    pub fn seq_value(&self) -> (r: u64)
        ensures
            r == self.current_seq(),
    {
        self.seq
    }

    /// The earliest time the sender accepts the next send, for the driver's
    /// pacing sleep.
    pub fn next_send_deadline(&self) -> (r: u64)
        ensures
            r == self.next_send_at(),
    {
        self.next_send_at_ns
    }
}

/// Pipelined mode's receive path, one reply: decode the sequence number, take
/// its entry out of the pending table, and measure the elapsed time. Returns
/// a sample exactly when a matching request is in flight; `None` — a reply
/// for a number never sent, or a duplicate — is a fatal correlation fault,
/// and leaves the table unchanged for diagnosis.
pub fn recv_step(table: &mut PendingTable, reply: &Vec<u8>, now_ns: u64) -> (r: Option<Sample>)
    requires
        reply.len() >= codec::SEQ_BYTES,
    ensures
        ({
            let s = codec::payload_seq(reply@);
            match r {
                Some(smp) => {
                    &&& old(table)@.contains_key(s)
                    &&& smp.seq == s
                    &&& smp.elapsed_ns == spec_elapsed(old(table)@[s], now_ns)
                    &&& (now_ns >= old(table)@[s] ==> smp.elapsed_ns == now_ns - old(table)@[s])
                    &&& final(table)@ == old(table)@.remove(s)
                },
                None => {
                    &&& !old(table)@.contains_key(s)
                    &&& final(table)@ == old(table)@
                },
            }
        }),
{
    let s = codec::decode(reply);
    match table.take(s) {
        Some(sent_at) => Some(Sample { seq: s, elapsed_ns: exec_elapsed(sent_at, now_ns) }),
        None => None,
    }
}

/// Monotonic pacing: after a send stamped at `sent_at`, any time at which the
/// engine accepts the next send lies at least one configured interval later.
/// (The clamp at the far end of the timestamp space is excluded: there the
/// deadline saturates and the gap claim would be vacuous anyway.)
pub proof fn lemma_monotonic_pacing(e: &SyncEngine, now_ns: u64)
    requires
        e.wf(),
        e.has_sent(),
        now_ns >= e.next_send_at(),
        e.sent_at() + e.interval() <= u64::MAX,
    ensures
        now_ns - e.sent_at() >= e.interval(),
{
}

/// Monotonic pacing for the pipelined sender, under the same exclusion.
pub proof fn lemma_monotonic_pacing_pipelined(s: &PipelinedSender, now_ns: u64)
    requires
        s.wf(),
        s.has_sent(),
        now_ns >= s.next_send_at(),
        s.sent_at() + s.interval() <= u64::MAX,
    ensures
        now_ns - s.sent_at() >= s.interval(),
{
}

proof fn lemma_paced_growth(send_times: Seq<u64>, interval_ns: u64, i: int)
    requires
        forall|k: int|
            0 <= k < send_times.len() - 1 ==> #[trigger] send_times[k] + interval_ns
                <= send_times[k + 1],
        0 <= i < send_times.len(),
    ensures
        send_times[i] >= send_times[0] + i * interval_ns,
    decreases i,
{
    if i > 0 {
        lemma_paced_growth(send_times, interval_ns, i - 1);
        assert(send_times[i - 1] + interval_ns <= send_times[i]);
        assert((i - 1) * interval_ns + interval_ns == i * interval_ns) by (nonlinear_arith);
    }
}

/// Duration-bound sample count: in a run paced at `interval_ns` — every send
/// at least one interval after the one before — whose sends all happen by
/// `deadline_ns`, at most `deadline / interval + 1` sends fit, so a
/// synchronous run bounded by that deadline reports at most that many
/// samples.
pub proof fn lemma_duration_bound(send_times: Seq<u64>, interval_ns: u64, deadline_ns: u64)
    requires
        interval_ns > 0,
        forall|k: int|
            0 <= k < send_times.len() - 1 ==> #[trigger] send_times[k] + interval_ns
                <= send_times[k + 1],
        forall|k: int| 0 <= k < send_times.len() ==> #[trigger] send_times[k] <= deadline_ns,
    ensures
        send_times.len() <= deadline_ns as int / interval_ns as int + 1,
{
    let n = send_times.len() as int;
    if n >= 2 {
        lemma_paced_growth(send_times, interval_ns, n - 1);
        assert(send_times[n - 1] <= deadline_ns);
        assert((n - 1) * interval_ns <= deadline_ns);
        assert((n - 1) * interval_ns == interval_ns * (n - 1)) by (nonlinear_arith);
        lemma_div_is_ordered(interval_ns * (n - 1), deadline_ns as int, interval_ns as int);
        lemma_div_multiples_vanish(n - 1, interval_ns as int);
    }
}

proof fn lemma_prompt_growth(send_times: Seq<u64>, step_ns: u64, i: int)
    requires
        forall|k: int|
            0 <= k < send_times.len() - 1 ==> send_times[k + 1] <= #[trigger] send_times[k]
                + step_ns,
        0 <= i < send_times.len(),
    ensures
        send_times[i] <= send_times[0] + i * step_ns,
    decreases i,
{
    if i > 0 {
        lemma_prompt_growth(send_times, step_ns, i - 1);
        assert(send_times[i] <= send_times[i - 1] + step_ns);
        assert((i - 1) * step_ns + step_ns == i * step_ns) by (nonlinear_arith);
    }
}

/// Duration-bound sample count, lower half: in a run that starts at time zero
/// and is prompt — each send at most `step_ns` after the one before, `step`
/// being the pacing interval plus the echo's round trip — and that keeps
/// going until one more paced send would start past `deadline_ns`, at least
/// `deadline / step` sends have happened. Together with
/// `lemma_duration_bound` this pins a timed synchronous run against a prompt
/// peer to `deadline / interval` samples, give or take one.
pub proof fn lemma_duration_lower_bound(send_times: Seq<u64>, step_ns: u64, deadline_ns: u64)
    requires
        step_ns > 0,
        send_times.len() > 0,
        send_times[0] == 0,
        forall|k: int|
            0 <= k < send_times.len() - 1 ==> send_times[k + 1] <= #[trigger] send_times[k]
                + step_ns,
        send_times[send_times.len() - 1] + step_ns >= deadline_ns,
    ensures
        send_times.len() >= deadline_ns as int / step_ns as int,
{
    let n = send_times.len() as int;
    lemma_prompt_growth(send_times, step_ns, n - 1);
    assert(send_times[n - 1] <= (n - 1) * step_ns);
    assert(deadline_ns <= (n - 1) * step_ns + step_ns);
    assert((n - 1) * step_ns + step_ns == n * step_ns) by (nonlinear_arith);
    assert(n * step_ns == step_ns * n) by (nonlinear_arith);
    lemma_div_is_ordered(deadline_ns as int, step_ns * n, step_ns as int);
    lemma_div_multiples_vanish(n, step_ns as int);
}

} // verus!
