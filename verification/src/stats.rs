//! Statistics accumulator: turns an ordered sequence of timed attempts into
//! a loss/min/max/avg summary. Shared by every probe kind that loops over
//! attempts. Latencies are carried as whole microseconds; aggregates are
//! computed only over successful attempts, and an all-failure run yields no
//! statistics block at all rather than zero-valued fields.

use vstd::prelude::*;

verus! {

use vstd::arithmetic::div_mod::{lemma_div_is_ordered, lemma_div_multiples_vanish};
use vstd::arithmetic::mul::lemma_mul_inequality;

/// The outcome of one timed probe attempt. A timeout and an explicit
/// transport failure are treated identically by the accumulator.
#[derive(Clone, Copy, Debug, PartialEq, Eq, Structural)]
pub enum AttemptOutcome {
    /// The attempt got an answer after the given round-trip time.
    Success { rtt_micros: u64 },
    /// The attempt errored before the deadline.
    Failure,
    /// The attempt hit its per-attempt deadline.
    Timeout,
}

impl AttemptOutcome {
    /// Whether this attempt counts as a success.
    pub open spec fn is_success(self) -> bool {
        self is Success
    }

    /// Round-trip time of a successful attempt, in microseconds.
    pub open spec fn rtt(self) -> nat
        recommends
            self.is_success(),
    {
        match self {
            AttemptOutcome::Success { rtt_micros } => rtt_micros as nat,
            _ => 0,
        }
    }
}

/// Number of successful attempts in the sequence.
pub open spec fn succ_count(s: Seq<AttemptOutcome>) -> nat
    decreases s.len(),
{
    if s.len() == 0 {
        0
    } else {
        succ_count(s.drop_last()) + if s.last().is_success() {
            1nat
        } else {
            0nat
        }
    }
}

/// Number of failed attempts (errors and timeouts alike) in the sequence.
pub open spec fn failed_count(s: Seq<AttemptOutcome>) -> nat
    decreases s.len(),
{
    if s.len() == 0 {
        0
    } else {
        failed_count(s.drop_last()) + if s.last().is_success() {
            0nat
        } else {
            1nat
        }
    }
}

/// Sum of the round-trip times of the successful attempts, in microseconds.
pub open spec fn rtt_sum(s: Seq<AttemptOutcome>) -> nat
    decreases s.len(),
{
    if s.len() == 0 {
        0
    } else {
        rtt_sum(s.drop_last()) + if s.last().is_success() {
            s.last().rtt()
        } else {
            0nat
        }
    }
}

/// Smallest round-trip time among the successful attempts.
pub open spec fn min_rtt(s: Seq<AttemptOutcome>) -> nat
    recommends
        succ_count(s) > 0,
    decreases s.len(),
{
    if s.len() == 0 {
        0
    } else if !s.last().is_success() {
        min_rtt(s.drop_last())
    } else if succ_count(s.drop_last()) == 0 {
        s.last().rtt()
    } else {
        vstd::math::min(min_rtt(s.drop_last()) as int, s.last().rtt() as int) as nat
    }
}

/// Largest round-trip time among the successful attempts.
pub open spec fn max_rtt(s: Seq<AttemptOutcome>) -> nat
    recommends
        succ_count(s) > 0,
    decreases s.len(),
{
    if s.len() == 0 {
        0
    } else if !s.last().is_success() {
        max_rtt(s.drop_last())
    } else if succ_count(s.drop_last()) == 0 {
        s.last().rtt()
    } else {
        vstd::math::max(max_rtt(s.drop_last()) as int, s.last().rtt() as int) as nat
    }
}

/// Arithmetic mean (rounded down) of the successful round-trip times.
pub open spec fn avg_rtt(s: Seq<AttemptOutcome>) -> nat
    recommends
        succ_count(s) > 0,
{
    rtt_sum(s) / succ_count(s)
}

/// Loss percentage of a run, rounded down: failed attempts over sent ones.
pub open spec fn loss_percent_of(s: Seq<AttemptOutcome>) -> nat
    recommends
        s.len() > 0,
{
    (((s.len() - succ_count(s)) * 100) / (s.len() as int)) as nat
}

/// Timing summary of one probe run, aggregated over successful attempts only.
pub struct Statistics {
    /// How many attempts were made.
    pub sent: u32,
    /// How many of them succeeded.
    pub succeeded: u32,
    /// Percentage of attempts lost, rounded down; between 0 and 100.
    pub loss_percent: u32,
    /// Smallest successful round-trip time, in microseconds.
    pub min_rtt_micros: u64,
    /// Largest successful round-trip time, in microseconds.
    pub max_rtt_micros: u64,
    /// Mean successful round-trip time (rounded down), in microseconds.
    pub avg_rtt_micros: u64,
}

/// The summary a run over `s` must carry.
pub open spec fn stats_match(s: Seq<AttemptOutcome>, st: Statistics) -> bool {
    &&& st.sent == s.len()
    &&& st.succeeded == succ_count(s)
    &&& st.loss_percent == loss_percent_of(s)
    &&& st.min_rtt_micros == min_rtt(s)
    &&& st.max_rtt_micros == max_rtt(s)
    &&& st.avg_rtt_micros == avg_rtt(s)
}

/// Every attempt is either a success or a failure, so the two tallies
/// always partition the run.
pub proof fn lemma_attempt_partition(s: Seq<AttemptOutcome>)
    ensures
        succ_count(s) + failed_count(s) == s.len(),
    decreases s.len(),
{
    if s.len() > 0 {
        lemma_attempt_partition(s.drop_last());
    }
}

/// The successful round-trip times are bracketed by their minimum and
/// maximum: `succ * min <= sum <= succ * max`.
pub proof fn lemma_rtt_sum_bounds(s: Seq<AttemptOutcome>)
    ensures
        succ_count(s) * min_rtt(s) <= rtt_sum(s),
        rtt_sum(s) <= succ_count(s) * max_rtt(s),
    decreases s.len(),
{
    if s.len() == 0 {
    } else {
        let d = s.drop_last();
        lemma_rtt_sum_bounds(d);
        if !s.last().is_success() {
        } else {
            let r = s.last().rtt();
            if succ_count(d) == 0 {
                lemma_no_success_no_sum(d);
                assert(succ_count(s) == 1);
                assert(succ_count(s) * min_rtt(s) == min_rtt(s)) by (nonlinear_arith)
                    requires
                        succ_count(s) == 1,
                ;
                assert(succ_count(s) * max_rtt(s) == max_rtt(s)) by (nonlinear_arith)
                    requires
                        succ_count(s) == 1,
                ;
            } else {
                // min side: succ(d) * min(s) <= succ(d) * min(d) <= sum(d)
                lemma_mul_inequality(min_rtt(s) as int, min_rtt(d) as int, succ_count(d) as int);
                // max side: sum(d) <= succ(d) * max(d) <= succ(d) * max(s)
                lemma_mul_inequality(max_rtt(d) as int, max_rtt(s) as int, succ_count(d) as int);
                assert((succ_count(d) + 1) * min_rtt(s) == succ_count(d) * min_rtt(s) + min_rtt(
                    s,
                )) by (nonlinear_arith);
                assert((succ_count(d) + 1) * max_rtt(s) == succ_count(d) * max_rtt(s) + max_rtt(
                    s,
                )) by (nonlinear_arith);
                assert(min_rtt(s) <= min_rtt(d) && min_rtt(s) <= r);
                assert(max_rtt(d) <= max_rtt(s) && r <= max_rtt(s));
                assert(succ_count(s) == succ_count(d) + 1);
                assert(rtt_sum(s) == rtt_sum(d) + r);
                assert(succ_count(d) * min_rtt(s) <= succ_count(d) * min_rtt(d));
                assert(succ_count(d) * max_rtt(d) <= succ_count(d) * max_rtt(s));
                assert(succ_count(s) * min_rtt(s) <= rtt_sum(d) + r);
                assert(rtt_sum(d) + r <= succ_count(s) * max_rtt(s));
            }
        }
    }
}

/// A run with no successful attempt has an empty round-trip sum.
pub proof fn lemma_no_success_no_sum(s: Seq<AttemptOutcome>)
    requires
        succ_count(s) == 0,
    ensures
        rtt_sum(s) == 0,
    decreases s.len(),
{
    if s.len() > 0 {
        lemma_no_success_no_sum(s.drop_last());
    }
}

/// Whenever a run has a successful attempt, the mean lies between the
/// minimum and the maximum.
pub proof fn lemma_min_avg_max(s: Seq<AttemptOutcome>)
    requires
        succ_count(s) > 0,
    ensures
        min_rtt(s) <= avg_rtt(s),
        avg_rtt(s) <= max_rtt(s),
{
    let n = succ_count(s) as int;
    lemma_rtt_sum_bounds(s);
    lemma_div_is_ordered(n * min_rtt(s), rtt_sum(s) as int, n);
    lemma_div_is_ordered(rtt_sum(s) as int, n * max_rtt(s), n);
    lemma_div_multiples_vanish(min_rtt(s) as int, n);
    lemma_div_multiples_vanish(max_rtt(s) as int, n);
}

/// The loss percentage can never leave the 0..=100 band.
pub proof fn lemma_loss_percent_bounded(s: Seq<AttemptOutcome>)
    requires
        s.len() > 0,
    ensures
        loss_percent_of(s) <= 100,
{
    let n = s.len() as int;
    lemma_attempt_partition(s);
    lemma_mul_inequality((s.len() - succ_count(s)) as int, n, 100);
    lemma_div_is_ordered((s.len() - succ_count(s)) * 100, n * 100, n);
    lemma_div_multiples_vanish(100, n);
}

/// The round-trip sum never exceeds one maximal value per successful
/// attempt; used to rule out overflow of the running sum.
pub proof fn lemma_rtt_sum_limit(s: Seq<AttemptOutcome>)
    ensures
        rtt_sum(s) <= succ_count(s) * 0xffff_ffff_ffff_ffff,
    decreases s.len(),
{
    if s.len() > 0 {
        lemma_rtt_sum_limit(s.drop_last());
    }
}

/// Aggregate a finished run. Returns `None` exactly when no attempt
/// succeeded (in particular on an empty run): such a run has no defined
/// latency figures and must be reported as a failure by the caller.
pub fn compute_statistics(attempts: &Vec<AttemptOutcome>) -> (r: Option<Statistics>)
    requires
        attempts@.len() <= u32::MAX,
    ensures
        r is Some <==> succ_count(attempts@) > 0,
        r matches Some(st) ==> stats_match(attempts@, st),
{
    let n = attempts.len();
    let mut i: usize = 0;
    let mut succ: u32 = 0;
    let mut sum: u128 = 0;
    let mut mn: u64 = 0;
    let mut mx: u64 = 0;
    while i < n
        invariant
            i <= n,
            n == attempts@.len() <= u32::MAX,
            succ <= i,
            succ == succ_count(attempts@.subrange(0, i as int)),
            sum == rtt_sum(attempts@.subrange(0, i as int)),
            succ > 0 ==> mn == min_rtt(attempts@.subrange(0, i as int)),
            succ > 0 ==> mx == max_rtt(attempts@.subrange(0, i as int)),
        decreases n - i,
    {
        let ghost pre = attempts@.subrange(0, i as int);
        let ghost post = attempts@.subrange(0, i + 1 as int);
        proof {
            assert(post.drop_last() =~= pre);
            assert(post.last() == attempts@[i as int]);
            lemma_rtt_sum_limit(pre);
        }
        match attempts[i] {
            AttemptOutcome::Success { rtt_micros } => {
                proof {
                    assert(succ_count(pre) * 0xffff_ffff_ffff_ffffu64
                        <= 0xffff_ffffu64 * 0xffff_ffff_ffff_ffffu64) by (nonlinear_arith)
                        requires
                            succ_count(pre) <= 0xffff_ffffu64,
                    ;
                }
                if succ == 0 {
                    mn = rtt_micros;
                    mx = rtt_micros;
                } else {
                    if rtt_micros < mn {
                        mn = rtt_micros;
                    }
                    if rtt_micros > mx {
                        mx = rtt_micros;
                    }
                }
                succ = succ + 1;
                sum = sum + rtt_micros as u128;
            },
            AttemptOutcome::Failure => {},
            AttemptOutcome::Timeout => {},
        }
        i = i + 1;
    }
    proof {
        assert(attempts@.subrange(0, n as int) =~= attempts@);
    }
    if succ == 0 {
        None
    } else {
        proof {
            lemma_min_avg_max(attempts@);
            lemma_rtt_sum_bounds(attempts@);
            lemma_div_is_ordered(
                rtt_sum(attempts@) as int,
                (succ_count(attempts@) * max_rtt(attempts@)) as int,
                succ_count(attempts@) as int,
            );
            lemma_div_multiples_vanish(max_rtt(attempts@) as int, succ_count(attempts@) as int);
            lemma_loss_percent_bounded(attempts@);
        }
        let sent = n as u32;
        let avg = (sum / succ as u128) as u64;
        let loss = ((sent - succ) as u64 * 100 / sent as u64) as u32;
        Some(
            Statistics {
                sent,
                succeeded: succ,
                loss_percent: loss,
                min_rtt_micros: mn,
                max_rtt_micros: mx,
                avg_rtt_micros: avg,
            },
        )
    }
}

/// A growing record of one run's attempts, capped by the configured
/// attempt count. Probe drivers record one outcome per attempt and then
/// aggregate the run.
pub struct AttemptLog {
    planned: u32,
    outcomes: Vec<AttemptOutcome>,
}

impl View for AttemptLog {
    type V = Seq<AttemptOutcome>;

    closed spec fn view(&self) -> Seq<AttemptOutcome> {
        self.outcomes@
    }
}

impl AttemptLog {
    /// The attempt count this run was configured with.
    pub closed spec fn planned_count(&self) -> u32 {
        self.planned
    }

    /// A log never holds more outcomes than were planned.
    pub open spec fn well_formed(&self) -> bool {
        self@.len() <= self.planned_count()
    }

    /// Start an empty log for a run of `count` attempts.
    pub fn new(count: u32) -> (r: Self)
        ensures
            r@ =~= Seq::<AttemptOutcome>::empty(),
            r.planned_count() == count,
            r.well_formed(),
    {
        AttemptLog { planned: count, outcomes: Vec::new() }
    }

    /// How many attempts are still to be made.
    pub fn remaining(&self) -> (r: u32)
        requires
            self.well_formed(),
        ensures
            r == self.planned_count() - self@.len(),
    {
        self.planned - self.outcomes.len() as u32
    }

    /// Record the outcome of the next attempt.
    pub fn record(&mut self, outcome: AttemptOutcome)
        requires
            old(self).well_formed(),
            old(self)@.len() < old(self).planned_count(),
        ensures
            final(self)@ == old(self)@.push(outcome),
            final(self).planned_count() == old(self).planned_count(),
            final(self).well_formed(),
    {
        self.outcomes.push(outcome);
    }

    /// Aggregate the recorded run; `None` exactly when nothing succeeded.
    pub fn finish(&self) -> (r: Option<Statistics>)
        requires
            self.well_formed(),
        ensures
            r is Some <==> succ_count(self@) > 0,
            r matches Some(st) ==> stats_match(self@, st),
    {
        compute_statistics(&self.outcomes)
    }
}

} // verus!
