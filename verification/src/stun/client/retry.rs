//! When a request is sent again, and when it is given up.

use crate::stun::client::registry::TransactionKey;
use crate::stun::error::Error;
use crate::stun::message::Message;
use vstd::arithmetic::power2::{lemma_pow2_pos, lemma_pow2_unfold, pow2};
use vstd::prelude::*;

verus! {

/// How the timeout grows from one attempt to the next.
#[derive(Debug, Clone, Copy, PartialEq, Eq)]
pub enum Backoff {
    /// Each attempt waits twice as long as the one before.
    Doubling,
    /// As `Doubling`, but the last attempt, where it is not also the first,
    /// waits `multiplier` times as long as the first.
    LastAttempt { multiplier: u32 },
}

/// How often a request is sent, and how long each attempt waits. Times are
/// in milliseconds.
#[derive(Debug, Clone, Copy, PartialEq, Eq)]
pub struct RetryPolicy {
    /// The timeout of the first attempt.
    pub rto: u64,
    /// The number of attempts after which the request is given up.
    pub max_attempts: u32,
    pub backoff: Backoff,
}

/// The least of a number and the greatest value of `u64`.
pub open spec fn saturated(millis: nat) -> nat {
    if millis <= u64::MAX {
        millis
    } else {
        u64::MAX as nat
    }
}

impl RetryPolicy {
    /// The timeout of attempt `attempt`, counted from zero: the first
    /// timeout times two to the power of `attempt`, or what the backoff
    /// says of the last attempt; in each case at most the greatest value
    /// of `u64`.
    pub open spec fn timeout(self, attempt: nat) -> nat {
        match self.backoff {
            Backoff::LastAttempt { multiplier } if attempt >= 1 && attempt + 1
                == self.max_attempts => saturated(self.rto as nat * multiplier as nat),
            _ => saturated(self.rto as nat * pow2(attempt)),
        }
    }

    /// The timeout of attempt `attempt`, counted from zero.
    pub fn timeout_for(&self, attempt: u32) -> (millis: u64)
        ensures
            millis == self.timeout(attempt as nat),
    {
        match self.backoff {
            Backoff::LastAttempt { multiplier } => {
                if attempt >= 1 && self.max_attempts >= 1 && attempt == self.max_attempts - 1 {
                    return match self.rto.checked_mul(multiplier as u64) {
                        Some(millis) => millis,
                        None => u64::MAX,
                    };
                }
            },
            Backoff::Doubling => {},
        }
        let mut millis: u64 = self.rto;
        let mut i: u32 = 0;
        proof {
            lemma_pow2_unfold(1);
            assert(pow2(0) == 1) by {
                vstd::arithmetic::power2::lemma2_to64();
            }
        }
        while i < attempt
            invariant
                i <= attempt,
                millis == saturated(self.rto as nat * pow2(i as nat)),
            decreases attempt - i,
        {
            proof {
                lemma_pow2_unfold((i + 1) as nat);
                lemma_pow2_pos(i as nat);
                assert(self.rto as nat * pow2((i + 1) as nat) == 2 * (self.rto as nat * pow2(
                    i as nat,
                ))) by (nonlinear_arith)
                    requires
                        pow2((i + 1) as nat) == 2 * pow2(i as nat),
                ;
            }
            millis = if millis > u64::MAX / 2 {
                u64::MAX
            } else {
                millis * 2
            };
            i += 1;
        }
        millis
    }
}

/// Where a request stands.
#[derive(Debug, Clone, Copy, PartialEq, Eq)]
pub enum RequestState {
    /// Nothing was done yet.
    Idle,
    /// Attempt `attempt`, counted from zero, is being registered with the
    /// dispatcher; nothing of it was sent yet.
    Registering { attempt: u32, timeout: u64 },
    /// Attempt `attempt`, counted from zero, was sent and waits for up to
    /// `timeout` milliseconds.
    Sent { attempt: u32, timeout: u64 },
    /// The response came.
    Delivered,
    /// Every attempt timed out.
    Exhausted,
    /// The transport failed, or the request was cancelled.
    Failed,
}

/// What happened to a request.
pub enum RequestEvent {
    /// The caller asks for the request to be made.
    Start,
    /// The dispatcher has taken the registration of the attempt.
    Registered,
    /// The response was delivered on the channel.
    Response(Message),
    /// The timeout of the attempt passed without a response.
    Timeout,
    /// The dispatcher has stopped: it took no registration, or the channel
    /// was closed without a response.
    Cancelled,
    /// The transport failed to send the attempt.
    TransportError,
}

/// What is to be done for a request.
pub enum RequestAction {
    /// Register the attempt: where `deregister_first` holds, take the key of
    /// the attempt that timed out from the table; then register the key
    /// with a new channel, and say `Registered` once the dispatcher has it.
    Register { deregister_first: bool },
    /// Transmit the request, with the same transaction identifier in every
    /// attempt; then wait on the channel for up to `timeout` milliseconds.
    Transmit { timeout: u64 },
    /// The request is over: where `deregister` holds, take its key from the
    /// table; then hand `outcome` to the caller.
    Finish { deregister: bool, outcome: Result<Message, Error> },
    /// The event does not belong to where the request stands: nothing is
    /// to be done.
    Ignore,
}

/// The state that follows `state` on `event`, and what is to be done.
pub open spec fn next(policy: RetryPolicy, state: RequestState, event: RequestEvent) -> (
    RequestState,
    RequestAction,
) {
    match (state, event) {
        (RequestState::Idle, RequestEvent::Start) => if policy.max_attempts == 0 {
            (
                RequestState::Exhausted,
                RequestAction::Finish {
                    deregister: false,
                    outcome: Err(Error::ExhaustedRetries { attempts: 0 }),
                },
            )
        } else {
            (
                RequestState::Registering { attempt: 0, timeout: policy.timeout(0) as u64 },
                RequestAction::Register { deregister_first: false },
            )
        },
        (RequestState::Registering { attempt, timeout }, RequestEvent::Registered) => (
            RequestState::Sent { attempt, timeout },
            RequestAction::Transmit { timeout },
        ),
        (RequestState::Registering { attempt, timeout }, RequestEvent::Cancelled) => (
            RequestState::Failed,
            RequestAction::Finish { deregister: false, outcome: Err(Error::Cancelled) },
        ),
        (RequestState::Sent { attempt, timeout }, RequestEvent::Response(message)) => (
            RequestState::Delivered,
            RequestAction::Finish { deregister: false, outcome: Ok(message) },
        ),
        (RequestState::Sent { attempt, timeout }, RequestEvent::Timeout) => if attempt + 1
            < policy.max_attempts {
            (
                RequestState::Registering {
                    attempt: (attempt + 1) as u32,
                    timeout: policy.timeout((attempt + 1) as nat) as u64,
                },
                RequestAction::Register { deregister_first: true },
            )
        } else {
            (
                RequestState::Exhausted,
                RequestAction::Finish {
                    deregister: true,
                    outcome: Err(Error::ExhaustedRetries { attempts: policy.max_attempts }),
                },
            )
        },
        (RequestState::Sent { attempt, timeout }, RequestEvent::Cancelled) => (
            RequestState::Failed,
            RequestAction::Finish { deregister: false, outcome: Err(Error::Cancelled) },
        ),
        (RequestState::Sent { attempt, timeout }, RequestEvent::TransportError) => (
            RequestState::Failed,
            RequestAction::Finish { deregister: true, outcome: Err(Error::Transport) },
        ),
        _ => (state, RequestAction::Ignore),
    }
}

/// Whether a state is one that a request of this policy comes to.
pub open spec fn reachable(policy: RetryPolicy, state: RequestState) -> bool {
    match state {
        RequestState::Registering { attempt, timeout } => attempt < policy.max_attempts
            && timeout == policy.timeout(attempt as nat),
        RequestState::Sent { attempt, timeout } => attempt < policy.max_attempts && timeout
            == policy.timeout(attempt as nat),
        _ => true,
    }
}

/// One request, from the first attempt to its end.
pub struct Request {
    policy: RetryPolicy,
    key: TransactionKey,
    state: RequestState,
}

impl Request {
    #[verifier::type_invariant]
    spec fn inv(self) -> bool {
        reachable(self.policy, self.state)
    }

    /// The policy of the request.
    pub closed spec fn policy(self) -> RetryPolicy {
        self.policy
    }

    /// The key that the responses to the request are matched by: the same
    /// for every attempt.
    pub closed spec fn key(self) -> TransactionKey {
        self.key
    }

    /// Where the request stands.
    pub closed spec fn state(self) -> RequestState {
        self.state
    }

    /// A request of which nothing was done yet.
    pub fn new(policy: RetryPolicy, key: TransactionKey) -> (request: Request)
        ensures
            request.policy() == policy,
            request.key() == key,
            request.state() == RequestState::Idle,
    {
        Request { policy, key, state: RequestState::Idle }
    }

    /// The key that the responses to the request are matched by.
    pub fn transaction_key(&self) -> (key: TransactionKey)
        ensures
            key == self.key(),
    {
        self.key
    }

    /// Where the request stands.
    pub fn current_state(&self) -> (state: RequestState)
        ensures
            state == self.state(),
            reachable(self.policy(), state),
    {
        proof {
            use_type_invariant(self);
        }
        self.state
    }

    /// Whether the request is over.
    pub fn is_finished(&self) -> (finished: bool)
        ensures
            finished == (self.state() is Delivered || self.state() is Exhausted
                || self.state() is Failed),
    {
        match self.state {
            RequestState::Idle => false,
            RequestState::Registering { .. } => false,
            RequestState::Sent { .. } => false,
            _ => true,
        }
    }

    /// Takes one event and says what is to be done. The policy and the key
    /// stay as they are.
    pub fn step(&mut self, event: RequestEvent) -> (action: RequestAction)
        ensures
            final(self).policy() == old(self).policy(),
            final(self).key() == old(self).key(),
            (final(self).state(), action) == next(old(self).policy(), old(self).state(), event),
            reachable(final(self).policy(), final(self).state()),
    {
        proof {
            use_type_invariant(&*self);
        }
        match (self.state, event) {
            (RequestState::Idle, RequestEvent::Start) => {
                if self.policy.max_attempts == 0 {
                    self.state = RequestState::Exhausted;
                    RequestAction::Finish {
                        deregister: false,
                        outcome: Err(Error::ExhaustedRetries { attempts: 0 }),
                    }
                } else {
                    let timeout: u64 = self.policy.timeout_for(0);
                    self.state = RequestState::Registering { attempt: 0, timeout };
                    RequestAction::Register { deregister_first: false }
                }
            },
            (RequestState::Registering { attempt, timeout }, RequestEvent::Registered) => {
                self.state = RequestState::Sent { attempt, timeout };
                RequestAction::Transmit { timeout }
            },
            (RequestState::Registering { .. }, RequestEvent::Cancelled) => {
                self.state = RequestState::Failed;
                RequestAction::Finish { deregister: false, outcome: Err(Error::Cancelled) }
            },
            (RequestState::Sent { .. }, RequestEvent::Response(message)) => {
                self.state = RequestState::Delivered;
                RequestAction::Finish { deregister: false, outcome: Ok(message) }
            },
            (RequestState::Sent { attempt, .. }, RequestEvent::Timeout) => {
                if attempt + 1 < self.policy.max_attempts {
                    let timeout: u64 = self.policy.timeout_for(attempt + 1);
                    self.state = RequestState::Registering { attempt: attempt + 1, timeout };
                    RequestAction::Register { deregister_first: true }
                } else {
                    self.state = RequestState::Exhausted;
                    RequestAction::Finish {
                        deregister: true,
                        outcome: Err(
                            Error::ExhaustedRetries { attempts: self.policy.max_attempts },
                        ),
                    }
                }
            },
            (RequestState::Sent { .. }, RequestEvent::Cancelled) => {
                self.state = RequestState::Failed;
                RequestAction::Finish { deregister: false, outcome: Err(Error::Cancelled) }
            },
            (RequestState::Sent { .. }, RequestEvent::TransportError) => {
                self.state = RequestState::Failed;
                RequestAction::Finish { deregister: true, outcome: Err(Error::Transport) }
            },
            _ => RequestAction::Ignore,
        }
    }
}

/// Registration comes before transmission: a request is transmitted only on
/// the word that the dispatcher has taken its registration, and it waits
/// for a response only once it was transmitted so.
pub proof fn lemma_transmit_follows_registration(
    policy: RetryPolicy,
    state: RequestState,
    event: RequestEvent,
)
    ensures
        next(policy, state, event).1 is Transmit ==> state is Registering
            && event is Registered,
        next(policy, state, event).0 is Sent ==> (state is Registering && event is Registered)
            || state is Sent,
        next(policy, state, event).1 is Register ==> next(policy, state, event).0
            is Registering,
{
}

/// Where a request stands after it was started and `timeouts` attempts in
/// a row were registered and sent and have timed out.
pub open spec fn after_timeouts(policy: RetryPolicy, timeouts: nat) -> RequestState
    decreases timeouts,
{
    if timeouts == 0 {
        next(policy, RequestState::Idle, RequestEvent::Start).0
    } else {
        next(
            policy,
            next(policy, after_timeouts(policy, (timeouts - 1) as nat), RequestEvent::Registered).0,
            RequestEvent::Timeout,
        ).0
    }
}

/// The retry policy as a whole: while fewer attempts have timed out than the
/// policy allows, the next attempt is to be registered, and will wait with
/// the timeout of its number; once as many have timed out as the policy
/// allows, the request is exhausted, the last step says so with the number
/// of attempts and asks for the key to leave the table, and no later timeout
/// changes that.
pub proof fn lemma_timeouts_exhaust(policy: RetryPolicy, timeouts: nat)
    ensures
        timeouts < policy.max_attempts ==> after_timeouts(policy, timeouts) == (
        RequestState::Registering {
            attempt: timeouts as u32,
            timeout: policy.timeout(timeouts) as u64,
        }),
        timeouts >= policy.max_attempts ==> after_timeouts(policy, timeouts)
            == RequestState::Exhausted,
        timeouts == policy.max_attempts && timeouts > 0 ==> next(
            policy,
            next(policy, after_timeouts(policy, (timeouts - 1) as nat), RequestEvent::Registered).0,
            RequestEvent::Timeout,
        ).1 == (RequestAction::Finish {
            deregister: true,
            outcome: Err(Error::ExhaustedRetries { attempts: policy.max_attempts }),
        }),
    decreases timeouts,
{
    if timeouts > 0 {
        lemma_timeouts_exhaust(policy, (timeouts - 1) as nat);
    }
}

} // verus!
