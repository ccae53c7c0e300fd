//! Bounded retry with exponential backoff: the decision core of the fetch
//! cascade.  A driver makes one request per attempt and feeds each outcome
//! to [`CascadeState::on_outcome`]; the returned step says whether to hand
//! the response to the caller, sleep and retry with a rotated proxy, or give
//! up and surface the final transport error.

use vstd::prelude::*;

verus! {

/// Two to the power `k`.
pub open spec fn pow2(k: nat) -> int
    decreases k,
{
    if k == 0 {
        1
    } else {
        2 * pow2((k - 1) as nat)
    }
}

/// Powers of two are positive.
pub proof fn lemma_pow2_pos(k: nat)
    ensures
        pow2(k) >= 1,
    decreases k,
{
    if k > 0 {
        lemma_pow2_pos((k - 1) as nat);
    }
}

/// Powers of two grow with the exponent.
pub proof fn lemma_pow2_mono(a: nat, b: nat)
    requires
        a <= b,
    ensures
        pow2(a) <= pow2(b),
    decreases b,
{
    if a < b {
        lemma_pow2_mono(a, (b - 1) as nat);
        lemma_pow2_pos((b - 1) as nat);
    }
}

/// Retry settings: the attempt bound and the first backoff delay.  The
/// delay before the k-th retry is `initial_delay_ms * 2^(k-1)`, uncapped.
#[derive(Clone, Copy, Debug, PartialEq, Eq, Structural)]
pub struct RetryPolicy {
    /// Maximum number of attempts, at least one.
    pub max_attempts: u64,
    /// Backoff delay before the first retry, in milliseconds.
    pub initial_delay_ms: u64,
}

impl RetryPolicy {
    /// Well-formed settings: at least one attempt, and no backoff delay in
    /// the schedule overflows the millisecond counter.
    pub open spec fn wf(&self) -> bool {
        &&& 1 <= self.max_attempts
        &&& self.initial_delay_ms * pow2((self.max_attempts - 1) as nat) <= u64::MAX
    }

    /// Builds a policy, rejecting settings whose backoff schedule would
    /// overflow.
    pub fn new(max_attempts: u64, initial_delay_ms: u64) -> (r: Option<RetryPolicy>)
        ensures
            r matches Some(p) ==> {
                &&& p.max_attempts == max_attempts
                &&& p.initial_delay_ms == initial_delay_ms
                &&& p.wf()
            },
            r is None ==> !(RetryPolicy { max_attempts, initial_delay_ms }).wf(),
    {
        if max_attempts < 1 {
            return None;
        }
        if initial_delay_ms == 0 {
            proof {
                lemma_pow2_pos((max_attempts - 1) as nat);
            }
            return Some(RetryPolicy { max_attempts, initial_delay_ms });
        }
        let mut delay: u64 = initial_delay_ms;
        let mut k: u64 = 0;
        while k < max_attempts - 1
            invariant
                1 <= max_attempts,
                1 <= initial_delay_ms,
                k <= max_attempts - 1,
                delay == initial_delay_ms * pow2(k as nat),
            decreases max_attempts - 1 - k,
        {
            if delay > u64::MAX / 2 {
                proof {
                    lemma_pow2_mono((k + 1) as nat, (max_attempts - 1) as nat);
                    lemma_pow2_pos(k as nat);
                    assert(initial_delay_ms * pow2((max_attempts - 1) as nat) >= initial_delay_ms
                        * pow2((k + 1) as nat)) by (nonlinear_arith)
                        requires
                            initial_delay_ms >= 1,
                            pow2((k + 1) as nat) <= pow2((max_attempts - 1) as nat),
                    ;
                    assert(initial_delay_ms * pow2((k + 1) as nat) == 2 * delay)
                        by (nonlinear_arith)
                        requires
                            delay == initial_delay_ms * pow2(k as nat),
                            pow2((k + 1) as nat) == 2 * pow2(k as nat),
                    ;
                }
                return None;
            }
            proof {
                assert(initial_delay_ms * pow2((k + 1) as nat) == 2 * delay) by (nonlinear_arith)
                    requires
                        delay == initial_delay_ms * pow2(k as nat),
                        pow2((k + 1) as nat) == 2 * pow2(k as nat),
                ;
            }
            delay = delay * 2;
            k = k + 1;
        }
        Some(RetryPolicy { max_attempts, initial_delay_ms })
    }
}

/// What one attempt produced, as seen by the cascade.
#[derive(Clone, Copy, Debug, PartialEq, Eq, Structural)]
pub enum AttemptOutcome {
    /// The request returned a response with this status code.
    Response { status: u16 },
    /// The request failed below the HTTP layer: connection or timeout.
    TransportFailure,
}

/// A status answered by retrying with a rotated proxy: rate limited (429) or
/// blocked (403).  Every other status, success or not, is handed to the
/// caller unchanged.
pub open spec fn retryable_status(status: u16) -> bool {
    status == 429 || status == 403
}

/// What the cascade does after an attempt.
#[derive(Clone, Copy, Debug, PartialEq, Eq, Structural)]
pub enum CascadeStep {
    /// Hand the response to the caller.
    Accept,
    /// Sleep this many milliseconds, rotate the proxy, and try again.
    RetryAfter { delay_ms: u64 },
    /// Attempts are exhausted: surface the last error.
    GiveUp,
}

/// The running state of one cascade: the policy, how many attempts were
/// made, and the next backoff delay.
pub struct CascadeState {
    /// The retry settings the cascade was started with.
    pub policy: RetryPolicy,
    /// Attempts made so far.
    pub attempts_made: u64,
    /// The delay of the next backoff sleep, in milliseconds.
    pub delay_ms: u64,
}

impl CascadeState {
    /// An active cascade: attempts remain, and the delay stands at
    /// `initial_delay_ms * 2^attempts_made`.
    pub open spec fn wf(&self) -> bool {
        &&& self.policy.wf()
        &&& self.attempts_made < self.policy.max_attempts
        &&& self.delay_ms == self.policy.initial_delay_ms * pow2(self.attempts_made as nat)
    }

    /// The decision after one attempt: accept any response that is not rate
    /// limited or blocked; otherwise retry while attempts remain, else give
    /// up.
    pub open spec fn spec_decision(self, outcome: AttemptOutcome) -> CascadeStep {
        match outcome {
            AttemptOutcome::Response { status } => if !retryable_status(status) {
                CascadeStep::Accept
            } else if self.attempts_made + 1 < self.policy.max_attempts {
                CascadeStep::RetryAfter { delay_ms: self.delay_ms }
            } else {
                CascadeStep::GiveUp
            },
            AttemptOutcome::TransportFailure => if self.attempts_made + 1
                < self.policy.max_attempts {
                CascadeStep::RetryAfter { delay_ms: self.delay_ms }
            } else {
                CascadeStep::GiveUp
            },
        }
    }

    /// The state after one attempt: on a retry, the attempt is counted and
    /// the delay doubles; otherwise the cascade is finished and the state
    /// stays.
    pub open spec fn spec_next(self, outcome: AttemptOutcome) -> CascadeState {
        match self.spec_decision(outcome) {
            CascadeStep::RetryAfter { delay_ms } => CascadeState {
                policy: self.policy,
                attempts_made: (self.attempts_made + 1) as u64,
                delay_ms: (self.delay_ms * 2) as u64,
            },
            _ => self,
        }
    }

    /// Starts a cascade: no attempts made, the first backoff delay pending.
    pub fn start(policy: RetryPolicy) -> (r: CascadeState)
        requires
            policy.wf(),
        ensures
            r.wf(),
            r.policy == policy,
            r.attempts_made == 0,
            r.delay_ms == policy.initial_delay_ms,
    {
        let delay_ms = policy.initial_delay_ms;
        CascadeState { policy, attempts_made: 0, delay_ms }
    }

    /// Feeds one attempt outcome to the cascade and takes its decision.
    pub fn on_outcome(&mut self, outcome: &AttemptOutcome) -> (step: CascadeStep)
        requires
            old(self).wf(),
        ensures
            step == old(self).spec_decision(*outcome),
            *final(self) == old(self).spec_next(*outcome),
            step matches CascadeStep::RetryAfter { delay_ms } ==> {
                &&& final(self).wf()
                &&& delay_ms == old(self).delay_ms
            },
    {
        let retry_possible = self.attempts_made + 1 < self.policy.max_attempts;
        let retryable = match outcome {
            AttemptOutcome::Response { status } => *status == 429 || *status == 403,
            AttemptOutcome::TransportFailure => true,
        };
        if !retryable {
            return CascadeStep::Accept;
        }
        if !retry_possible {
            return CascadeStep::GiveUp;
        }
        let delay = self.delay_ms;
        proof {
            lemma_pow2_mono((self.attempts_made + 1) as nat, (self.policy.max_attempts - 1) as nat);
            assert(self.policy.initial_delay_ms * pow2((self.attempts_made + 1) as nat)
                <= self.policy.initial_delay_ms * pow2((self.policy.max_attempts - 1) as nat))
                by (nonlinear_arith)
                requires
                    self.policy.initial_delay_ms >= 0,
                    pow2((self.attempts_made + 1) as nat) <= pow2(
                        (self.policy.max_attempts - 1) as nat,
                    ),
            ;
            assert(self.policy.initial_delay_ms * pow2((self.attempts_made + 1) as nat) == 2
                * self.delay_ms) by (nonlinear_arith)
                requires
                    self.delay_ms == self.policy.initial_delay_ms * pow2(self.attempts_made as nat),
                    pow2((self.attempts_made + 1) as nat) == 2 * pow2(self.attempts_made as nat),
            ;
        }
        self.delay_ms = self.delay_ms * 2;
        self.attempts_made = self.attempts_made + 1;
        CascadeStep::RetryAfter { delay_ms: delay }
    }
}

/// How many requests the cascade makes when the successive attempts produce
/// `outcomes`: one per outcome consumed, stopping at the first accept or
/// give-up.
pub open spec fn run_calls(m: CascadeState, outcomes: Seq<AttemptOutcome>) -> nat
    decreases outcomes.len(),
{
    if outcomes.len() == 0 {
        0
    } else if m.spec_decision(outcomes[0]) is RetryAfter {
        1 + run_calls(m.spec_next(outcomes[0]), outcomes.drop_first())
    } else {
        1
    }
}

/// The backoff sleeps the cascade performs, in order, when the successive
/// attempts produce `outcomes`.
pub open spec fn run_sleeps(m: CascadeState, outcomes: Seq<AttemptOutcome>) -> Seq<u64>
    decreases outcomes.len(),
{
    if outcomes.len() == 0 {
        Seq::empty()
    } else {
        match m.spec_decision(outcomes[0]) {
            CascadeStep::RetryAfter { delay_ms } => seq![delay_ms] + run_sleeps(
                m.spec_next(outcomes[0]),
                outcomes.drop_first(),
            ),
            _ => Seq::empty(),
        }
    }
}

/// A retry step preserves well-formedness.
proof fn lemma_retry_preserves_wf(m: CascadeState, outcome: AttemptOutcome)
    requires
        m.wf(),
        m.spec_decision(outcome) is RetryAfter,
    ensures
        m.spec_next(outcome).wf(),
{
    assert(m.policy.initial_delay_ms * pow2((m.attempts_made + 1) as nat) == 2 * m.delay_ms)
        by (nonlinear_arith)
        requires
            m.delay_ms == m.policy.initial_delay_ms * pow2(m.attempts_made as nat),
            pow2((m.attempts_made + 1) as nat) == 2 * pow2(m.attempts_made as nat),
    ;
    lemma_pow2_mono((m.attempts_made + 1) as nat, (m.policy.max_attempts - 1) as nat);
    assert(m.policy.initial_delay_ms * pow2((m.attempts_made + 1) as nat)
        <= m.policy.initial_delay_ms * pow2((m.policy.max_attempts - 1) as nat))
        by (nonlinear_arith)
        requires
            m.policy.initial_delay_ms >= 0,
            pow2((m.attempts_made + 1) as nat) <= pow2((m.policy.max_attempts - 1) as nat),
    ;
}

/// Law: however the attempts turn out, an active cascade makes at most as
/// many further calls as it has attempts left; a fresh cascade makes at most
/// `max_attempts` calls.
pub proof fn lemma_calls_bounded(m: CascadeState, outcomes: Seq<AttemptOutcome>)
    requires
        m.wf(),
    ensures
        run_calls(m, outcomes) <= m.policy.max_attempts - m.attempts_made,
    decreases outcomes.len(),
{
    if outcomes.len() > 0 && m.spec_decision(outcomes[0]) is RetryAfter {
        lemma_retry_preserves_wf(m, outcomes[0]);
        lemma_calls_bounded(m.spec_next(outcomes[0]), outcomes.drop_first());
    }
}

/// Law: the j-th backoff sleep (counting from zero) of an active cascade
/// lasts `initial_delay_ms * 2^(attempts_made + j)` milliseconds; from a
/// fresh cascade, the sleep before the k-th retry is
/// `initial_delay_ms * 2^(k-1)`.
pub proof fn lemma_sleep_schedule(m: CascadeState, outcomes: Seq<AttemptOutcome>, j: int)
    requires
        m.wf(),
        0 <= j < run_sleeps(m, outcomes).len(),
    ensures
        run_sleeps(m, outcomes)[j] == m.policy.initial_delay_ms * pow2((m.attempts_made + j) as nat),
    decreases outcomes.len(),
{
    let step = m.spec_decision(outcomes[0]);
    match step {
        CascadeStep::RetryAfter { delay_ms } => {
            if j > 0 {
                lemma_retry_preserves_wf(m, outcomes[0]);
                lemma_sleep_schedule(m.spec_next(outcomes[0]), outcomes.drop_first(), j - 1);
            }
        },
        _ => {},
    }
}

/// Law: a response whose status is not rate limited or blocked — 200 and
/// 404 alike — is accepted on the first attempt, with zero sleeps.
pub proof fn lemma_first_response_accepted(m: CascadeState, outcomes: Seq<AttemptOutcome>)
    requires
        m.wf(),
        outcomes.len() > 0,
        outcomes[0] matches AttemptOutcome::Response { status } && !retryable_status(status),
    ensures
        m.spec_decision(outcomes[0]) == CascadeStep::Accept,
        run_calls(m, outcomes) == 1,
        run_sleeps(m, outcomes) == Seq::<u64>::empty(),
{
}

} // verus!
