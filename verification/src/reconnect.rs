//! The reconnect supervisor: when to retry a failed connection, after
//! what delay, and when to give up.
//!
//! The supervisor watches the connection state. Each failure it observes
//! is answered with a retry after a delay that doubles from one failure to
//! the next, up to a cap, until the permitted number of retries is used
//! up; the next failure is then final. A live connection clears the count.
//! The caller does the waiting and the connecting.

use vstd::prelude::*;
use crate::errors::{ClientError, FailureCause};
use crate::state::ConnectionState;

verus! {

/// What a backoff policy says, as plain numbers.
pub struct PolicyView {
    pub min_delay: nat,
    pub max_delay: nat,
    pub max_attempts: nat,
}

impl PolicyView {
    /// The bounds are the right way round and every number fits its
    /// machine type.
    pub open spec fn valid(self) -> bool {
        self.min_delay <= self.max_delay <= u64::MAX && self.max_attempts <= u32::MAX
    }
}

/// `base` doubled `times` times.
pub open spec fn doubled(base: nat, times: nat) -> nat
    decreases times,
{
    if times == 0 {
        base
    } else {
        2 * doubled(base, (times - 1) as nat)
    }
}

/// The delay before retry number `attempt`, counted from zero: the
/// smallest delay doubled `attempt` times, and no more than the cap.
pub open spec fn delay_for(p: PolicyView, attempt: nat) -> nat {
    if doubled(p.min_delay, attempt) < p.max_delay {
        doubled(p.min_delay, attempt)
    } else {
        p.max_delay
    }
}

/// Exponential backoff with a cap. Delays are in the caller's unit of time.
#[derive(Clone, Copy, Debug, PartialEq, Eq)]
pub struct BackoffPolicy {
    min_delay: u64,
    max_delay: u64,
    max_attempts: u32,
}

impl View for BackoffPolicy {
    type V = PolicyView;

    closed spec fn view(&self) -> PolicyView {
        PolicyView {
            min_delay: self.min_delay as nat,
            max_delay: self.max_delay as nat,
            max_attempts: self.max_attempts as nat,
        }
    }
}

impl BackoffPolicy {
    #[verifier::type_invariant]
    spec fn well_formed(self) -> bool {
        self.min_delay <= self.max_delay
    }

    /// Makes a policy from the delay before the first retry, the cap on
    /// every delay, and the number of retries allowed after a failure.
    /// Refuses bounds that are the wrong way round.
    pub fn new(min_delay: u64, max_delay: u64, max_attempts: u32) -> (r: Option<BackoffPolicy>)
        ensures
            r is Some <==> min_delay <= max_delay,
            r matches Some(p) ==> p@ == (PolicyView {
                min_delay: min_delay as nat,
                max_delay: max_delay as nat,
                max_attempts: max_attempts as nat,
            }),
    {
        if min_delay <= max_delay {
            Some(BackoffPolicy { min_delay, max_delay, max_attempts })
        } else {
            None
        }
    }

    pub fn min_delay(&self) -> (d: u64)
        ensures
            d == self@.min_delay,
            self@.min_delay <= self@.max_delay,
    {
        proof {
            use_type_invariant(self);
        }
        self.min_delay
    }

    pub fn max_delay(&self) -> (d: u64)
        ensures
            d == self@.max_delay,
            self@.min_delay <= self@.max_delay,
    {
        proof {
            use_type_invariant(self);
        }
        self.max_delay
    }

    pub fn max_attempts(&self) -> (n: u32)
        ensures
            n == self@.max_attempts,
    {
        self.max_attempts
    }

    /// The delay before retry number `attempt`, counted from zero.
    pub fn delay(&self, attempt: u32) -> (d: u64)
        ensures
            d == delay_for(self@, attempt as nat),
    {
        proof {
            use_type_invariant(self);
        }
        let mut d: u64 = self.min_delay;
        if d == 0 {
            proof {
                lemma_doubled_zero(attempt as nat);
            }
            return 0;
        }
        let mut k: u32 = 0;
        while k < attempt && d < self.max_delay
            invariant
                k <= attempt,
                0 < self.min_delay <= self.max_delay,
                d == delay_for(self@, k as nat),
            decreases attempt - k,
        {
            d = if d > self.max_delay - d {
                self.max_delay
            } else {
                d + d
            };
            k += 1;
        }
        proof {
            if k < attempt {
                lemma_doubled_grows(self.min_delay as nat, k as nat, attempt as nat);
            }
        }
        d
    }
}

/// Zero stays zero however often it is doubled.
proof fn lemma_doubled_zero(times: nat)
    ensures
        doubled(0, times) == 0,
    decreases times,
{
    if times > 0 {
        lemma_doubled_zero((times - 1) as nat);
    }
}

/// Doubling more often gives no less.
pub proof fn lemma_doubled_grows(base: nat, fewer: nat, more: nat)
    requires
        fewer <= more,
    ensures
        doubled(base, fewer) <= doubled(base, more),
    decreases more,
{
    if fewer < more {
        lemma_doubled_grows(base, fewer, (more - 1) as nat);
    }
}

/// What a supervisor is, as plain values.
pub struct SupervisorView {
    pub policy: PolicyView,
    /// Retries granted since the connection was last live.
    pub attempts: nat,
}

impl SupervisorView {
    /// The policy is valid and no more retries were granted than it allows.
    pub open spec fn valid(self) -> bool {
        self.policy.valid() && self.attempts <= self.policy.max_attempts
    }
}

/// What the supervisor asks of the caller.
#[derive(Clone, Copy, Debug, PartialEq, Eq, Structural)]
pub enum SupervisorAction {
    /// Nothing to do.
    Idle,
    /// Wait for the given delay, then connect again with the same
    /// configuration.
    RetryAfter(u64),
    /// Stop: report this error to the owning process.
    GiveUp(ClientError),
}

/// The supervisor's answer to one observation of the connection state:
/// the supervisor afterwards, and what it asks for.
pub open spec fn spec_observe(s: SupervisorView, state: ConnectionState) -> (
    SupervisorView,
    SupervisorAction,
) {
    match state {
        ConnectionState::Failed(cause) => if s.attempts < s.policy.max_attempts {
            (
                SupervisorView { policy: s.policy, attempts: s.attempts + 1 },
                SupervisorAction::RetryAfter(delay_for(s.policy, s.attempts) as u64),
            )
        } else {
            (
                s,
                SupervisorAction::GiveUp(
                    ClientError::Unrecoverable { cause, attempts: s.attempts as u32 },
                ),
            )
        },
        ConnectionState::Live => (
            SupervisorView { policy: s.policy, attempts: 0 },
            SupervisorAction::Idle,
        ),
        _ => (s, SupervisorAction::Idle),
    }
}

/// Decides whether and when a failed connection is tried again.
#[derive(Clone, Copy, Debug, PartialEq, Eq)]
pub struct ReconnectSupervisor {
    policy: BackoffPolicy,
    attempts: u32,
}

impl View for ReconnectSupervisor {
    type V = SupervisorView;

    closed spec fn view(&self) -> SupervisorView {
        SupervisorView { policy: self.policy@, attempts: self.attempts as nat }
    }
}

impl ReconnectSupervisor {
    #[verifier::type_invariant]
    spec fn well_formed(self) -> bool {
        self.attempts <= self.policy.max_attempts
    }

    /// A supervisor that has granted no retry yet.
    pub fn new(policy: BackoffPolicy) -> (s: ReconnectSupervisor)
        ensures
            s@ == (SupervisorView { policy: policy@, attempts: 0 }),
    {
        ReconnectSupervisor { policy, attempts: 0 }
    }

    pub fn policy(&self) -> (p: BackoffPolicy)
        ensures
            p@ == self@.policy,
    {
        self.policy
    }

    /// Retries granted since the connection was last live.
    pub fn attempts(&self) -> (n: u32)
        ensures
            n == self@.attempts,
            self@.attempts <= self@.policy.max_attempts,
    {
        proof {
            use_type_invariant(self);
        }
        self.attempts
    }

    /// Takes note of the connection state and says what to do about it.
    ///
    /// To be called once for each state the connection enters: a second
    /// look at the same failure counts as a second failure.
    pub fn observe(&mut self, state: ConnectionState) -> (action: SupervisorAction)
        ensures
            (final(self)@, action) == spec_observe(old(self)@, state),
    {
        proof {
            use_type_invariant(&*self);
        }
        match state {
            ConnectionState::Failed(cause) => {
                if self.attempts < self.policy.max_attempts() {
                    let delay = self.policy.delay(self.attempts);
                    self.attempts = self.attempts + 1;
                    SupervisorAction::RetryAfter(delay)
                } else {
                    SupervisorAction::GiveUp(
                        ClientError::Unrecoverable { cause, attempts: self.attempts },
                    )
                }
            },
            ConnectionState::Live => {
                self.attempts = 0;
                SupervisorAction::Idle
            },
            _ => SupervisorAction::Idle,
        }
    }
}

/// The supervisor after it has observed a run of failures, one for each
/// cause in `causes`, in order.
pub open spec fn after_failures(s: SupervisorView, causes: Seq<FailureCause>) -> SupervisorView
    decreases causes.len(),
{
    if causes.len() == 0 {
        s
    } else {
        spec_observe(
            after_failures(s, causes.drop_last()),
            ConnectionState::Failed(causes.last()),
        ).0
    }
}

/// A run of failures leaves the policy alone and counts up to the limit.
proof fn lemma_after_failures(s: SupervisorView, causes: Seq<FailureCause>)
    requires
        s.valid(),
        s.attempts == 0,
    ensures
        after_failures(s, causes) == (SupervisorView {
            policy: s.policy,
            attempts: if causes.len() < s.policy.max_attempts {
                causes.len()
            } else {
                s.policy.max_attempts
            },
        }),
    decreases causes.len(),
{
    if causes.len() > 0 {
        lemma_after_failures(s, causes.drop_last());
    }
}

/// Every delay lies between the two bounds of its policy, and each is the
/// double of the one before it, or the cap where the double would pass it.
pub proof fn law_delay_doubles_to_cap(p: PolicyView, attempt: nat)
    requires
        p.valid(),
    ensures
        delay_for(p, 0) == p.min_delay,
        p.min_delay <= delay_for(p, attempt) <= p.max_delay,
        delay_for(p, attempt + 1) == if 2 * delay_for(p, attempt) < p.max_delay {
            2 * delay_for(p, attempt)
        } else {
            p.max_delay
        },
{
    lemma_doubled_grows(p.min_delay, 0, attempt);
    lemma_doubled_grows(p.min_delay, attempt, attempt + 1);
}

/// When every connect fails: a supervisor that starts fresh answers
/// failure number `k`, counted from zero, with a retry after the delay
/// for attempt `k` as long as `k` is below the permitted number of
/// retries, and gives up on every failure from then on, reporting the
/// cause of that failure and the number of retries it had granted. So
/// with `n` retries permitted there are exactly `n` reconnects, spaced by
/// the delays for attempts `0` to `n - 1`, and the failure after the last
/// of them is reported as unrecoverable.
pub proof fn law_retries_then_gives_up(s: SupervisorView, causes: Seq<FailureCause>, k: int)
    requires
        s.valid(),
        s.attempts == 0,
        0 <= k < causes.len(),
    ensures
        spec_observe(after_failures(s, causes.take(k)), ConnectionState::Failed(causes[k])).1
            == if k < s.policy.max_attempts {
            SupervisorAction::RetryAfter(delay_for(s.policy, k as nat) as u64)
        } else {
            SupervisorAction::GiveUp(
                ClientError::Unrecoverable {
                    cause: causes[k],
                    attempts: s.policy.max_attempts as u32,
                },
            )
        },
{
    lemma_after_failures(s, causes.take(k));
}

/// A live connection clears the count: the failure after it is answered
/// like the first.
pub proof fn law_live_resets(s: SupervisorView, cause: FailureCause)
    requires
        s.valid(),
    ensures
        spec_observe(spec_observe(s, ConnectionState::Live).0, ConnectionState::Failed(cause))
            == spec_observe(
            SupervisorView { policy: s.policy, attempts: 0 },
            ConnectionState::Failed(cause),
        ),
{
}

} // verus!
