//! The rate-limit retry decisions of one search request: the caller sends
//! the request, hands each response's status and `Retry-After` header here,
//! and sleeps, sends again, accepts or fails as told.

use crate::text::chars_of;
use vstd::prelude::*;

verus! {

/// Attempts made for one request before a rate-limit response is final.
pub const MAX_ATTEMPTS: u32 = 3;

/// Seconds to wait when the server advises no usable delay.
pub const FALLBACK_WAIT_SECS: u64 = 5;

/// The status of a rate-limit response.
pub const TOO_MANY_REQUESTS: u16 = 429;

pub open spec fn is_digit(c: char) -> bool {
    '0' <= c && c <= '9'
}

/// The number that a string of decimal digits spells.
pub open spec fn digits_value(s: Seq<char>) -> nat
    decreases s.len(),
{
    if s.len() == 0 {
        0
    } else {
        digits_value(s.drop_last()) * 10 + (s.last() as nat - '0' as nat) as nat
    }
}

/// `s` without one leading `+`.
pub open spec fn unsigned_part(s: Seq<char>) -> Seq<char> {
    if s.len() > 0 && s[0] == '+' {
        s.drop_first()
    } else {
        s
    }
}

pub open spec fn all_digits(s: Seq<char>) -> bool {
    forall|i: int| 0 <= i < s.len() ==> is_digit(#[trigger] s[i])
}

/// `s` read as a `u64` in decimal, with an optional leading `+`.
pub open spec fn parsed_u64(s: Seq<char>) -> Option<u64> {
    let d = unsigned_part(s);
    if d.len() > 0 && all_digits(d) && digits_value(d) <= u64::MAX {
        Some(digits_value(d) as u64)
    } else {
        None
    }
}

/// The wait a rate-limit response advises, in seconds.
pub open spec fn advised_wait(retry_after: Option<Seq<char>>) -> u64 {
    match retry_after {
        Some(h) => match parsed_u64(h) {
            Some(w) => w,
            None => FALLBACK_WAIT_SECS,
        },
        None => FALLBACK_WAIT_SECS,
    }
}

pub open spec fn is_success(status: u16) -> bool {
    200 <= status && status < 300
}

/// What to do after the response to attempt number `attempt` (from 1).
#[derive(Debug, Clone, Copy, PartialEq, Eq)]
pub enum RetryAction {
    /// Sleep this long, then send the request again.
    Retry { wait_secs: u64 },
    /// The response is final and successful.
    Accept,
    /// The response is final and failed with this status.
    Fail { status: u16 },
}

pub open spec fn next_action(attempt: nat, status: u16, retry_after: Option<Seq<char>>) -> RetryAction {
    if status == TOO_MANY_REQUESTS && attempt < MAX_ATTEMPTS {
        RetryAction::Retry { wait_secs: advised_wait(retry_after) }
    } else if is_success(status) {
        RetryAction::Accept
    } else {
        RetryAction::Fail { status }
    }
}

proof fn lemma_digits_prefix(s: Seq<char>, i: int)
    requires
        0 <= i <= s.len(),
    ensures
        digits_value(s.take(i)) <= digits_value(s),
    decreases s.len() - i,
{
    if i < s.len() {
        lemma_digits_prefix(s, i + 1);
        assert(s.take(i + 1).drop_last() =~= s.take(i));
    } else {
        assert(s.take(i) =~= s);
    }
}

/// `s` read as a `u64` in decimal, as `str::parse::<u64>` reads it.
pub fn parse_u64(s: &str) -> (r: Option<u64>)
    ensures
        r == parsed_u64(s@),
{
    let v = chars_of(s);
    let start: usize = if v.len() > 0 && v[0] == '+' {
        1
    } else {
        0
    };
    let ghost d = unsigned_part(s@);
    assert(d =~= v@.subrange(start as int, v@.len() as int));
    if start == v.len() {
        return None;
    }
    let mut acc: u64 = 0;
    let mut i = start;
    while i < v.len()
        invariant
            start <= i <= v@.len(),
            d == v@.subrange(start as int, v@.len() as int),
            d == unsigned_part(s@),
            forall|j: int| 0 <= j < i - start ==> is_digit(#[trigger] d[j]),
            acc == digits_value(d.take(i - start)),
        decreases v@.len() - i,
    {
        let c = v[i];
        if c < '0' || c > '9' {
            assert(d[i - start] == v@[i as int]);
            assert(!is_digit(d[i - start]));
            return None;
        }
        let dv = (c as u32 - '0' as u32) as u64;
        assert(d.take(i - start + 1).drop_last() =~= d.take(i - start));
        if acc > 1844674407370955161 || (acc == 1844674407370955161 && dv > 5) {
            proof {
                assert(digits_value(d.take(i - start + 1)) > u64::MAX);
                lemma_digits_prefix(d, i - start + 1);
            }
            return None;
        }
        acc = acc * 10 + dv;
        i = i + 1;
    }
    assert(d.take(i - start) =~= d);
    Some(acc)
}

/// The wait that a `Retry-After` header value advises.
pub fn retry_wait(retry_after: Option<&str>) -> (r: u64)
    ensures
        r == advised_wait(
            match retry_after {
                Some(h) => Some(h@),
                None => None,
            },
        ),
{
    match retry_after {
        Some(h) => match parse_u64(h) {
            Some(w) => w,
            None => FALLBACK_WAIT_SECS,
        },
        None => FALLBACK_WAIT_SECS,
    }
}

/// The attempts made so far for one search request.
#[derive(Debug)]
pub struct RateLimitRetry {
    pub attempts: u32,
}

impl RateLimitRetry {
    pub fn new() -> (r: RateLimitRetry)
        ensures
            r.attempts == 0,
    {
        RateLimitRetry { attempts: 0 }
    }

    /// Records one more attempt and decides on its response.
    pub fn on_response(&mut self, status: u16, retry_after: Option<&str>) -> (a: RetryAction)
        requires
            old(self).attempts < MAX_ATTEMPTS,
        ensures
            final(self).attempts == old(self).attempts + 1,
            a == next_action(
                final(self).attempts as nat,
                status,
                match retry_after {
                    Some(h) => Some(h@),
                    None => None,
                },
            ),
            a is Retry ==> final(self).attempts < MAX_ATTEMPTS,
    {
        self.attempts = self.attempts + 1;
        if status == TOO_MANY_REQUESTS && self.attempts < MAX_ATTEMPTS {
            RetryAction::Retry { wait_secs: retry_wait(retry_after) }
        } else if 200 <= status && status < 300 {
            RetryAction::Accept
        } else {
            RetryAction::Fail { status }
        }
    }
}

/// A rate-limit response followed by a success: the first attempt is sent
/// again after exactly the wait the server advised, and the second is
/// accepted as the result.
pub proof fn lemma_rate_limit_then_success(
    first_retry_after: Option<Seq<char>>,
    status: u16,
    second_retry_after: Option<Seq<char>>,
)
    requires
        is_success(status),
    ensures
        next_action(1, TOO_MANY_REQUESTS, first_retry_after) == (RetryAction::Retry {
            wait_secs: advised_wait(first_retry_after),
        }),
        next_action(2, status, second_retry_after) == RetryAction::Accept,
{
}

/// Rate-limit responses alone end the request at the third attempt: the
/// first two are retried and the third fails; no attempt from the third on
/// is ever retried.
pub proof fn lemma_rate_limits_end_at_third(
    h1: Option<Seq<char>>,
    h2: Option<Seq<char>>,
    h3: Option<Seq<char>>,
    attempt: nat,
    status: u16,
)
    ensures
        next_action(1, TOO_MANY_REQUESTS, h1) is Retry,
        next_action(2, TOO_MANY_REQUESTS, h2) is Retry,
        next_action(3, TOO_MANY_REQUESTS, h3) == (RetryAction::Fail { status: TOO_MANY_REQUESTS }),
        attempt >= MAX_ATTEMPTS ==> !(next_action(attempt, status, h1) is Retry),
{
}

} // verus!
