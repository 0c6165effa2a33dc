//! Delivering records to the charging endpoint: the request header and the
//! decisions between attempts.

use vstd::prelude::*;
use vstd::arithmetic::power2::{lemma2_to64, pow2};
use vstd::bits::lemma_u64_shl_is_mul;

verus! {

/// How often a record is sent again after its first attempt.
pub const MAX_SEND_RETRIES: u64 = 5;

/// The HTTP status that counts as delivered.
pub const HTTP_OK: u16 = 200;

/// The `Authorization` header value for the endpoint's API token.
pub fn authorization_header(api_token: &String) -> (r: String)
    ensures
        r@ == "Bearer "@ + api_token@,
{
    let mut header = "Bearer ".to_owned();
    header.append(api_token.as_str());
    header
}

/// How one attempt to send a record ended.
pub enum SendOutcome {
    /// The endpoint answered with this HTTP status.
    Answered(u16),
    /// The request did not get an answer.
    Failed,
}

/// What to do after an attempt.
pub enum SendStep {
    /// The record was accepted; go on with the next one.
    Delivered,
    /// Send it again after this many seconds.
    RetryAfter(u64),
    /// Stop trying this record.
    GiveUp,
}

/// The wait after failed attempt number `attempt` (counting from 0):
/// 60 · (2^min(attempt, 4) − 1) seconds.
pub open spec fn send_backoff_secs(attempt: nat) -> nat {
    let e: nat = if attempt < 4 { attempt } else { 4 };
    (60 * (pow2(e) - 1)) as nat
}

/// The decision after attempt number `attempt` (counting from 0): an answer
/// of `HTTP_OK` is delivery; otherwise the last allowed attempt gives up and
/// an earlier one waits before the next.
pub fn after_send_attempt(attempt: u64, outcome: &SendOutcome) -> (r: SendStep)
    requires
        attempt <= MAX_SEND_RETRIES,
    ensures
        match outcome {
            SendOutcome::Answered(status) if *status == HTTP_OK => r is Delivered,
            _ => if attempt == MAX_SEND_RETRIES {
                r is GiveUp
            } else {
                r == SendStep::RetryAfter(send_backoff_secs(attempt as nat) as u64)
            },
        },
{
    match outcome {
        SendOutcome::Answered(status) => {
            if *status == HTTP_OK {
                return SendStep::Delivered;
            }
        },
        SendOutcome::Failed => {},
    }
    if attempt == MAX_SEND_RETRIES {
        return SendStep::GiveUp;
    }
    let e: u64 = if attempt < 4 { attempt } else { 4 };
    proof {
        lemma2_to64();
        lemma_u64_shl_is_mul(1, e);
    }
    SendStep::RetryAfter(60 * ((1u64 << e) - 1))
}

/// The waits between attempts never exceed fifteen minutes, and never
/// shrink from one attempt to the next.
pub proof fn lemma_send_backoff_bounded(a: nat, b: nat)
    requires
        a <= b,
    ensures
        send_backoff_secs(a) <= send_backoff_secs(b),
        send_backoff_secs(b) <= 900,
{
    lemma2_to64();
    let ea: nat = if a < 4 { a } else { 4 };
    let eb: nat = if b < 4 { b } else { 4 };
    assert(ea <= eb);
    assert(pow2(ea) <= pow2(eb)) by {
        if ea < eb {
            vstd::arithmetic::power2::lemma_pow2_strictly_increases(ea, eb);
        }
    }
    assert(pow2(eb) <= 16) by {
        if eb < 4 {
            vstd::arithmetic::power2::lemma_pow2_strictly_increases(eb, 4);
        }
    }
    assert(pow2(ea) >= 1) by {
        vstd::arithmetic::power2::lemma_pow2_pos(ea);
    }
}

} // verus!
