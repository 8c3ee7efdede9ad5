//! The fetcher's retry protocol: what one pass of the retry loop decides from
//! the shutdown flag and the attempt's outcome, and the rotating user-agent
//! pool the requests draw from.

use vstd::prelude::*;

use crate::backoff::{backoff_spec, backoff_strategy};
use crate::model::JobInfo;

verus! {

/// The retry limits a fetcher runs under.
pub struct RetryPolicy {
    pub max_retries: usize,
    pub retry_base_ms: u64,
    pub retry_max_delay_ms: u64,
}

/// What one pass of the retry loop observed: the shutdown flag set before the
/// attempt, or the attempt's outcome.
pub enum FetchEvent {
    ShutdownObserved,
    Succeeded(Vec<JobInfo>),
    Failed,
}

/// What the retry loop does next: return a result, sleep and retry, or give
/// up with a retries-exhausted failure.
pub enum FetchDecision {
    Finish(Vec<JobInfo>),
    RetryAfter(u64),
    GiveUp,
}

/// Decides one pass of the fetch retry loop. A shutdown observed before the
/// attempt finishes the fetch at once with an empty result — a clean exit,
/// neither a failure nor a retry delay. A successful attempt finishes with
/// its jobs. A failed attempt retries after the backoff delay for this
/// attempt if attempts remain, and gives up otherwise.
pub fn fetch_step(policy: &RetryPolicy, attempt: usize, event: FetchEvent) -> (d: FetchDecision)
    requires
        attempt < policy.max_retries,
    ensures
        (event matches FetchEvent::ShutdownObserved ==> d matches FetchDecision::Finish(v)
            && v@.len() == 0),
        (forall|jobs: Vec<JobInfo>|
            event == FetchEvent::Succeeded(jobs) ==> d == FetchDecision::Finish(jobs)),
        (event matches FetchEvent::Failed ==> (if attempt + 1 < policy.max_retries {
            d matches FetchDecision::RetryAfter(ms) && ms == backoff_spec(
                attempt as nat,
                policy.retry_base_ms,
                policy.retry_max_delay_ms,
            )
        } else {
            d matches FetchDecision::GiveUp
        })),
{
    match event {
        FetchEvent::ShutdownObserved => FetchDecision::Finish(Vec::new()),
        FetchEvent::Succeeded(jobs) => FetchDecision::Finish(jobs),
        FetchEvent::Failed => {
            if attempt + 1 < policy.max_retries {
                let ms: u64 = if attempt <= u32::MAX as usize {
                    backoff_strategy(
                        attempt as u32,
                        policy.retry_base_ms,
                        policy.retry_max_delay_ms,
                    )
                } else if policy.retry_base_ms == 0 {
                    proof {
                        crate::backoff::lemma_backoff_zero_base(
                            attempt as nat,
                            policy.retry_max_delay_ms,
                        );
                    }
                    0
                } else {
                    proof {
                        crate::backoff::lemma_backoff_saturated(
                            attempt as nat,
                            policy.retry_base_ms,
                            policy.retry_max_delay_ms,
                        );
                    }
                    policy.retry_max_delay_ms
                };
                FetchDecision::RetryAfter(ms)
            } else {
                FetchDecision::GiveUp
            }
        },
    }
}

/// The fixed pool of user-agent strings requests rotate through.
pub open spec fn user_agent_pool() -> Seq<Seq<char>> {
    seq![
        "Mozilla/5.0 (Windows NT 10.0; Win64; x64) AppleWebKit/537.36 (KHTML, like Gecko) Chrome/91.0.4472.124 Safari/537.36"@,
        "Mozilla/5.0 (Macintosh; Intel Mac OS X 10_15_7) AppleWebKit/605.1.15 (KHTML, like Gecko) Version/14.1.1 Safari/605.1.15"@,
        "Mozilla/5.0 (X11; Linux x86_64) AppleWebKit/537.36 (KHTML, like Gecko) Chrome/92.0.4515.107 Safari/537.36"@,
        "Mozilla/5.0 (iPhone; CPU iPhone OS 14_6 like Mac OS X) AppleWebKit/605.1.15 (KHTML, like Gecko) Version/14.1.1 Mobile/15E148 Safari/604.1"@,
    ]
}

/// Relies on `rand::random`: a word drawn from the thread-local generator.
/// Nothing is promised of the value.
#[verifier::external_body]
fn random_word() -> u64 {
    rand::random()
}

/// Picks one user agent from the pool at random, to vary the outbound
/// fingerprint; whichever the draw lands on, the result is a pool member.
pub fn select_user_agent() -> (r: String)
    ensures
        user_agent_pool().contains(r@),
{
    let roll = random_word();
    let i = roll % 4;
    let s: &str = if i == 0 {
        "Mozilla/5.0 (Windows NT 10.0; Win64; x64) AppleWebKit/537.36 (KHTML, like Gecko) Chrome/91.0.4472.124 Safari/537.36"
    } else if i == 1 {
        "Mozilla/5.0 (Macintosh; Intel Mac OS X 10_15_7) AppleWebKit/605.1.15 (KHTML, like Gecko) Version/14.1.1 Safari/605.1.15"
    } else if i == 2 {
        "Mozilla/5.0 (X11; Linux x86_64) AppleWebKit/537.36 (KHTML, like Gecko) Chrome/92.0.4515.107 Safari/537.36"
    } else {
        "Mozilla/5.0 (iPhone; CPU iPhone OS 14_6 like Mac OS X) AppleWebKit/605.1.15 (KHTML, like Gecko) Version/14.1.1 Mobile/15E148 Safari/604.1"
    };
    proof {
        if i == 0 {
            assert(user_agent_pool()[0] == s@);
        } else if i == 1 {
            assert(user_agent_pool()[1] == s@);
        } else if i == 2 {
            assert(user_agent_pool()[2] == s@);
        } else {
            assert(user_agent_pool()[3] == s@);
        }
    }
    s.to_owned()
}

} // verus!
