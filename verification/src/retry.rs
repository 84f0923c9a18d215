//! Whether a request that failed is made again, and when.

use vstd::prelude::*;

use crate::thread::CompletionMode;

verus! {

/// How often a request is retried at most.
pub const MAX_RETRY_ATTEMPTS: u8 = 4;

/// The seconds before a retry where nothing says more.
pub const BASE_RETRY_DELAY_SECS: u64 = 5;

/// A span of time.
#[derive(Debug, Clone, Copy, PartialEq, Eq, Structural)]
pub struct Delay {
    pub secs: u64,
    pub nanos: u32,
}

/// The way in which a request is retried.
#[derive(Debug, Clone, Copy, PartialEq, Eq, Structural)]
pub enum RetryStrategy {
    ExponentialBackoff { initial_delay: Delay, max_attempts: u8 },
    Fixed { delay: Delay, max_attempts: u8 },
}

/// How a request failed.
#[derive(Debug, Clone, Copy, PartialEq, Eq, Structural)]
pub enum CompletionFailure {
    HttpResponseError { status: u16 },
    ServerOverloaded { retry_after: Option<Delay> },
    RateLimitExceeded { retry_after: Option<Delay> },
    UpstreamProviderError { status: u16, retry_after: Option<Delay> },
    ApiInternalServerError,
    ApiReadResponseError,
    HttpSend,
    DeserializeResponse,
    BadRequestFormat,
    AuthenticationError,
    PermissionError,
    NoApiKey,
    ApiEndpointNotFound,
    PromptTooLarge,
    SerializeRequest,
    BuildRequestBody,
    PaymentRequired,
    ModelRequestLimitReached,
    Other,
}

/// The delay where nothing says more.
pub open spec fn base_delay() -> Delay {
    Delay { secs: BASE_RETRY_DELAY_SECS, nanos: 0 }
}

/// The delay that a server asked for, or else the usual one.
pub open spec fn asked_delay(retry_after: Option<Delay>) -> Delay {
    match retry_after {
        Some(delay) => delay,
        None => base_delay(),
    }
}

/// How often a request is retried after the failure of a provider upstream: as often as there is,
/// where it is overloaded; three times after an internal error; else twice.
pub open spec fn upstream_attempts(status: u16) -> u8 {
    if status == 429 || status == 503 || status == 529 {
        MAX_RETRY_ATTEMPTS
    } else if status == 500 {
        3
    } else {
        2
    }
}

/// The way in which a request is retried after a response with an error status, if it is.
pub open spec fn response_strategy(status: u16) -> Option<RetryStrategy> {
    if status == 429 {
        Some(
            RetryStrategy::ExponentialBackoff {
                initial_delay: base_delay(),
                max_attempts: MAX_RETRY_ATTEMPTS,
            },
        )
    } else if status == 413 || status == 403 || status == 401 {
        None
    } else if 400 <= status <= 599 {
        Some(RetryStrategy::Fixed { delay: base_delay(), max_attempts: 3 })
    } else {
        Some(RetryStrategy::Fixed { delay: base_delay(), max_attempts: 2 })
    }
}

/// The way in which a request is retried after a failure, if it is.
pub open spec fn strategy_for(error: CompletionFailure) -> Option<RetryStrategy> {
    match error {
        CompletionFailure::HttpResponseError { status } => response_strategy(status),
        CompletionFailure::ServerOverloaded { retry_after } => Some(
            RetryStrategy::Fixed {
                delay: asked_delay(retry_after),
                max_attempts: MAX_RETRY_ATTEMPTS,
            },
        ),
        CompletionFailure::RateLimitExceeded { retry_after } => Some(
            RetryStrategy::Fixed {
                delay: asked_delay(retry_after),
                max_attempts: MAX_RETRY_ATTEMPTS,
            },
        ),
        CompletionFailure::UpstreamProviderError { status, retry_after } => Some(
            RetryStrategy::Fixed {
                delay: asked_delay(retry_after),
                max_attempts: upstream_attempts(status),
            },
        ),
        CompletionFailure::ApiInternalServerError
        | CompletionFailure::ApiReadResponseError
        | CompletionFailure::HttpSend
        | CompletionFailure::DeserializeResponse
        | CompletionFailure::BadRequestFormat => Some(
            RetryStrategy::Fixed { delay: base_delay(), max_attempts: 3 },
        ),
        CompletionFailure::AuthenticationError
        | CompletionFailure::PermissionError
        | CompletionFailure::NoApiKey
        | CompletionFailure::ApiEndpointNotFound
        | CompletionFailure::PromptTooLarge
        | CompletionFailure::PaymentRequired
        | CompletionFailure::ModelRequestLimitReached => None,
        CompletionFailure::SerializeRequest
        | CompletionFailure::BuildRequestBody => Some(
            RetryStrategy::Fixed { delay: base_delay(), max_attempts: 1 },
        ),
        CompletionFailure::Other => Some(
            RetryStrategy::Fixed { delay: base_delay(), max_attempts: 2 },
        ),
    }
}

fn base() -> (r: Delay)
    ensures
        r == base_delay(),
{
    Delay { secs: BASE_RETRY_DELAY_SECS, nanos: 0 }
}

fn asked(retry_after: Option<Delay>) -> (r: Delay)
    ensures
        r == asked_delay(retry_after),
{
    match retry_after {
        Some(delay) => delay,
        None => base(),
    }
}

fn fixed(delay: Delay, max_attempts: u8) -> (r: Option<RetryStrategy>)
    ensures
        r == Some(RetryStrategy::Fixed { delay, max_attempts }),
{
    Some(RetryStrategy::Fixed { delay, max_attempts })
}

/// The way in which a request is retried after a failure, if it is.
pub fn retry_strategy_for(error: &CompletionFailure) -> (r: Option<RetryStrategy>)
    ensures
        r == strategy_for(*error),
{
    match error {
        CompletionFailure::HttpResponseError { status } => {
            let status: u16 = *status;
            if status == 429 {
                Some(
                    RetryStrategy::ExponentialBackoff {
                        initial_delay: base(),
                        max_attempts: MAX_RETRY_ATTEMPTS,
                    },
                )
            } else if status == 413 || status == 403 || status == 401 {
                None
            } else if 400 <= status && status <= 599 {
                fixed(base(), 3)
            } else {
                fixed(base(), 2)
            }
        },
        CompletionFailure::ServerOverloaded { retry_after } => fixed(
            asked(*retry_after),
            MAX_RETRY_ATTEMPTS,
        ),
        CompletionFailure::RateLimitExceeded { retry_after } => fixed(
            asked(*retry_after),
            MAX_RETRY_ATTEMPTS,
        ),
        CompletionFailure::UpstreamProviderError { status, retry_after } => {
            let status: u16 = *status;
            if status == 429 || status == 503 || status == 529 {
                fixed(asked(*retry_after), MAX_RETRY_ATTEMPTS)
            } else if status == 500 {
                fixed(asked(*retry_after), 3)
            } else {
                fixed(asked(*retry_after), 2)
            }
        },
        CompletionFailure::ApiInternalServerError
        | CompletionFailure::ApiReadResponseError
        | CompletionFailure::HttpSend
        | CompletionFailure::DeserializeResponse
        | CompletionFailure::BadRequestFormat => fixed(base(), 3),
        CompletionFailure::AuthenticationError
        | CompletionFailure::PermissionError
        | CompletionFailure::NoApiKey
        | CompletionFailure::ApiEndpointNotFound
        | CompletionFailure::PromptTooLarge
        | CompletionFailure::PaymentRequired
        | CompletionFailure::ModelRequestLimitReached => None,
        CompletionFailure::SerializeRequest | CompletionFailure::BuildRequestBody => fixed(
            base(),
            1,
        ),
        CompletionFailure::Other => fixed(base(), 2),
    }
}

/// A retry that is about to be made.
#[derive(Debug, Clone, Copy, PartialEq, Eq, Structural)]
pub struct RetryStatus {
    pub attempt: usize,
    pub max_attempts: usize,
    pub duration: Delay,
}

/// Two to the power of `n`.
pub open spec fn two_to(n: nat) -> nat
    decreases n,
{
    if n == 0 {
        1
    } else {
        2 * two_to((n - 1) as nat)
    }
}

/// The most attempts of a strategy.
pub open spec fn max_attempts_of(strategy: RetryStrategy) -> u8 {
    match strategy {
        RetryStrategy::ExponentialBackoff { initial_delay, max_attempts } => max_attempts,
        RetryStrategy::Fixed { delay, max_attempts } => max_attempts,
    }
}

/// The delay of a strategy before an attempt: a fixed one, or one that doubles with each attempt.
pub open spec fn delay_before(strategy: RetryStrategy, attempt: u8) -> Delay {
    match strategy {
        RetryStrategy::ExponentialBackoff { initial_delay, max_attempts } => Delay {
            secs: (initial_delay.secs * two_to((attempt - 1) as nat)) as u64,
            nanos: 0,
        },
        RetryStrategy::Fixed { delay, max_attempts } => delay,
    }
}

/// The retry after a failure, if there is one: there is none in normal mode, none where it cannot
/// help, and none after the last attempt.
pub open spec fn retry_after(
    mode: CompletionMode,
    error: CompletionFailure,
    attempt: u8,
) -> Option<RetryStatus> {
    if mode == CompletionMode::Normal {
        None
    } else {
        match strategy_for(error) {
            None => None,
            Some(strategy) => if attempt > max_attempts_of(strategy) {
                None
            } else {
                Some(
                    RetryStatus {
                        attempt: attempt as usize,
                        max_attempts: max_attempts_of(strategy) as usize,
                        duration: delay_before(strategy, attempt),
                    },
                )
            },
        }
    }
}

proof fn two_to_is_monotone(a: nat, b: nat)
    requires
        a <= b,
    ensures
        1 <= two_to(a) <= two_to(b),
    decreases b,
{
    if b > 0 {
        if a == b {
            two_to_is_monotone((a - 1) as nat, (b - 1) as nat);
        } else {
            two_to_is_monotone(a, (b - 1) as nat);
        }
    }
}

/// The retry after a failure, if there is one.
pub fn handle_completion_error(
    mode: CompletionMode,
    error: &CompletionFailure,
    attempt: u8,
) -> (r: Option<RetryStatus>)
    requires
        attempt >= 1,
    ensures
        r == retry_after(mode, *error, attempt),
{
    if mode == CompletionMode::Normal {
        return None;
    }
    let strategy = match retry_strategy_for(error) {
        None => return None,
        Some(strategy) => strategy,
    };
    let max_attempts: u8 = match strategy {
        RetryStrategy::ExponentialBackoff { initial_delay: _, max_attempts } => max_attempts,
        RetryStrategy::Fixed { delay: _, max_attempts } => max_attempts,
    };
    if attempt > max_attempts {
        return None;
    }
    let duration = match strategy {
        RetryStrategy::ExponentialBackoff { initial_delay, max_attempts: _ } => {
            assert(initial_delay == base_delay());
            let mut secs: u64 = initial_delay.secs;
            let mut i: u8 = 1;
            proof {
                reveal_with_fuel(two_to, 5);
                two_to_is_monotone((attempt - 1) as nat, 3);
            }
            assert(two_to(3) == 8);
            while i < attempt
                invariant
                    1 <= i <= attempt <= 4,
                    secs == 5 * two_to((i - 1) as nat),
                    two_to((attempt - 1) as nat) <= 8,
                decreases attempt - i,
            {
                proof {
                    two_to_is_monotone((i - 1) as nat, (attempt - 1) as nat);
                    two_to_is_monotone(i as nat, (attempt - 1) as nat);
                }
                secs = secs * 2;
                i = i + 1;
            }
            Delay { secs, nanos: 0 }
        },
        RetryStrategy::Fixed { delay, max_attempts: _ } => delay,
    };
    Some(
        RetryStatus { attempt: attempt as usize, max_attempts: max_attempts as usize, duration },
    )
}

// ---------------------------------------------------------------------------
// Laws
// ---------------------------------------------------------------------------

/// No failure is retried more often than the limit.
pub proof fn retries_are_limited(mode: CompletionMode, error: CompletionFailure, attempt: u8)
    requires
        retry_after(mode, error, attempt) is Some,
    ensures
        attempt <= MAX_RETRY_ATTEMPTS,
        retry_after(mode, error, attempt)->0.max_attempts <= MAX_RETRY_ATTEMPTS,
        mode == CompletionMode::Burn,
{
}

/// In normal mode nothing is retried.
pub proof fn normal_mode_never_retries(error: CompletionFailure, attempt: u8)
    ensures
        retry_after(CompletionMode::Normal, error, attempt) is None,
{
}

/// Each retry of a request that came too often waits twice as long as the one before it.
pub proof fn backoff_doubles(attempt: u8)
    requires
        1 <= attempt < MAX_RETRY_ATTEMPTS,
    ensures
        ({
            let error = CompletionFailure::HttpResponseError { status: 429 };
            let this = retry_after(CompletionMode::Burn, error, attempt)->0.duration;
            let next = retry_after(
                CompletionMode::Burn,
                error,
                (attempt + 1) as u8,
            )->0.duration;
            next.secs == 2 * this.secs
        }),
{
    reveal_with_fuel(two_to, 5);
}

/// The retry of an attempt out of some, after a delay; none is left behind the last of them.
pub open spec fn one_of(attempt: u8, max_attempts: usize, duration: Delay) -> Option<RetryStatus> {
    if attempt <= max_attempts {
        Some(RetryStatus { attempt: attempt as usize, max_attempts, duration })
    } else {
        None
    }
}

/// An overload or a rate limit is waited out: the request is retried as often as a request is, each
/// time after the delay that the server asked for, or else the usual one.
pub proof fn overloads_are_waited_out(asked: Option<Delay>, attempt: u8)
    requires
        1 <= attempt,
    ensures
        ({
            let wait = if asked is Some {
                asked->0
            } else {
                Delay { secs: 5, nanos: 0 }
            };
            &&& retry_after(
                CompletionMode::Burn,
                CompletionFailure::ServerOverloaded { retry_after: asked },
                attempt,
            ) == one_of(attempt, 4, wait)
            &&& retry_after(
                CompletionMode::Burn,
                CompletionFailure::RateLimitExceeded { retry_after: asked },
                attempt,
            ) == one_of(attempt, 4, wait)
        }),
{
}

/// After the failure of a provider upstream the delay that was asked for is kept too. An overload is
/// retried four times, an internal error three times, and anything else twice.
pub proof fn upstream_failures_are_retried(status: u16, asked: Option<Delay>, attempt: u8)
    requires
        1 <= attempt,
    ensures
        ({
            let wait = if asked is Some {
                asked->0
            } else {
                Delay { secs: 5, nanos: 0 }
            };
            let tries = if status == 429 || status == 503 || status == 529 {
                4
            } else if status == 500 {
                3
            } else {
                2
            };
            retry_after(
                CompletionMode::Burn,
                CompletionFailure::UpstreamProviderError { status, retry_after: asked },
                attempt,
            ) == one_of(attempt, tries, wait)
        }),
{
}

/// A failure that may pass is retried: three times where it came from the interface of the model or
/// from the way there, twice where nothing is known of it, and once where the request could not be
/// made.
pub proof fn passing_failures_are_retried(error: CompletionFailure, attempt: u8)
    requires
        1 <= attempt,
    ensures
        ({
            let wait = Delay { secs: 5, nanos: 0 };
            let got = retry_after(CompletionMode::Burn, error, attempt);
            &&& (error is ApiInternalServerError || error is ApiReadResponseError
                || error is HttpSend || error is DeserializeResponse || error is BadRequestFormat)
                ==> got == one_of(attempt, 3, wait)
            &&& error is Other ==> got == one_of(attempt, 2, wait)
            &&& (error is SerializeRequest || error is BuildRequestBody) ==> got == one_of(
                attempt,
                1,
                wait,
            )
        }),
{
}

/// A failure that would come again is never retried: where the key, the right, the address, the money
/// or the request itself is at fault.
pub proof fn lasting_failures_are_not_retried(mode: CompletionMode, error: CompletionFailure, attempt: u8)
    requires
        error is AuthenticationError || error is PermissionError || error is NoApiKey
            || error is ApiEndpointNotFound || error is PromptTooLarge || error is PaymentRequired
            || error is ModelRequestLimitReached || error == (CompletionFailure::HttpResponseError {
            status: 401,
        }) || error == (CompletionFailure::HttpResponseError { status: 403 }) || error == (
        CompletionFailure::HttpResponseError { status: 413 }),
    ensures
        retry_after(mode, error, attempt) is None,
{
}

/// A response with another error status is retried: four times with a delay that doubles where there
/// were too many requests, three times on an error of the request or of the server, else twice.
pub proof fn error_responses_are_retried(status: u16, attempt: u8)
    requires
        1 <= attempt,
        status != 401 && status != 403 && status != 413,
    ensures
        ({
            let got = retry_after(
                CompletionMode::Burn,
                CompletionFailure::HttpResponseError { status },
                attempt,
            );
            let wait = Delay { secs: 5, nanos: 0 };
            &&& status == 429 && attempt == 1 ==> got == one_of(attempt, 4, wait)
            &&& status == 429 && attempt == 2 ==> got == one_of(
                attempt,
                4,
                Delay { secs: 10, nanos: 0 },
            )
            &&& status == 429 && attempt == 3 ==> got == one_of(
                attempt,
                4,
                Delay { secs: 20, nanos: 0 },
            )
            &&& status == 429 && attempt == 4 ==> got == one_of(
                attempt,
                4,
                Delay { secs: 40, nanos: 0 },
            )
            &&& status == 429 && attempt > 4 ==> got is None
            &&& status != 429 && 400 <= status <= 599 ==> got == one_of(attempt, 3, wait)
            &&& status < 400 || status > 599 ==> got == one_of(attempt, 2, wait)
        }),
{
    assert(two_to(0) == 1);
    assert(two_to(1) == 2 * two_to(0));
    assert(two_to(2) == 2 * two_to(1));
    assert(two_to(3) == 2 * two_to(2));
    if 1 <= attempt <= 4 {
        let times = two_to((attempt - 1) as nat);
        assert(attempt == 1 ==> times == 1);
        assert(attempt == 2 ==> times == 2);
        assert(attempt == 3 ==> times == 4);
        assert(attempt == 4 ==> times == 8);
        let secs = base_delay().secs;
        assert(secs * times == 5 * times) by (nonlinear_arith)
            requires
                secs == 5,
        ;
    }
}

/// A request that is retried again was retried before, and the limit stays the same.
pub proof fn retries_come_one_by_one(error: CompletionFailure, attempt: u8)
    requires
        1 <= attempt < u8::MAX,
        retry_after(CompletionMode::Burn, error, (attempt + 1) as u8) is Some,
    ensures
        retry_after(CompletionMode::Burn, error, attempt) is Some,
        retry_after(CompletionMode::Burn, error, attempt)->0.attempt == attempt,
        retry_after(CompletionMode::Burn, error, attempt)->0.max_attempts == retry_after(
            CompletionMode::Burn,
            error,
            (attempt + 1) as u8,
        )->0.max_attempts,
{
}

} // verus!
