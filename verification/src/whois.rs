//! One probe of a domain, and when it is repeated.
//!
//! The lookup itself is a network call that somebody else makes. This module
//! holds what is decided around it: what a reply means, and whether a failed
//! attempt is followed by another.

use vstd::prelude::*;
use crate::error::DomainError;
use crate::expiry::{expiry_in, parse_expiry_date};
use crate::text::{chars_of, contains, find_first};
use crate::time::{TimeSpan, Timestamp};

verus! {

/// How many lookups one probe makes at most.
pub const MAX_RETRIES: u32 = 3;

/// The seconds to wait between one lookup and the next of the same probe.
pub const RETRY_DELAY_SECS: u64 = 2;

/// What a probe learns of a domain.
#[derive(Debug, Clone, Copy, PartialEq, Eq, Structural)]
pub struct DomainInfo {
    pub expiry_date: Timestamp,
}

/// How one lookup ended.
#[derive(Debug, PartialEq, Eq)]
pub enum LookupReply {
    /// The server answered with this text.
    Text(String),
    /// The lookup failed: a malformed query, no server for the domain, or
    /// the network. Holds the transport's own words.
    Failed(String),
    /// The lookup did not end within the time allowed.
    TimedOut,
    /// The lookup could not be made or awaited at all. Holds the reason.
    Broken(String),
}

/// What becomes of a probe after one lookup.
#[derive(Debug, PartialEq, Eq)]
pub enum RetryStep {
    /// The probe ends with this outcome.
    Finish(Result<DomainInfo, DomainError>),
    /// The probe waits for `delay` and looks up again; `retries` lookups
    /// have failed so far.
    Again { retries: u32, delay: TimeSpan },
}

/// The words by which a server says that it is busy.
pub open spec fn busy_marker() -> Seq<char> {
    "Server is busy"@
}

/// The outcome of a probe whose reply held the expiry date `reading`, or
/// none.
pub open spec fn outcome_of_reading(reading: Option<Timestamp>) -> Result<
    DomainInfo,
    DomainError,
> {
    match reading {
        Some(expiry_date) => Ok(DomainInfo { expiry_date }),
        None => Err(DomainError::ExpiryDateParseError),
    }
}

/// The outcome of a probe whose lookup ended in `reply`. A busy server is
/// recognised before any date is looked for.
pub open spec fn outcome_of(reply: LookupReply) -> Result<DomainInfo, DomainError> {
    match reply {
        LookupReply::TimedOut => Err(DomainError::TimeoutError),
        LookupReply::Failed(words) => Err(DomainError::WhoisError(words)),
        LookupReply::Broken(words) => Err(DomainError::Other(words)),
        LookupReply::Text(text) => if contains(text@, busy_marker()) {
            Err(DomainError::ServerBusyError)
        } else {
            outcome_of_reading(expiry_in(text@))
        },
    }
}

/// What follows a lookup that ended in `outcome`, with `retries` failed
/// lookups before it: a timeout or a busy server is followed by another
/// lookup as long as fewer than `MAX_RETRIES` have been made; anything else
/// ends the probe.
pub open spec fn step_after(retries: u32, outcome: Result<DomainInfo, DomainError>) -> RetryStep {
    match outcome {
        Ok(info) => RetryStep::Finish(Ok(info)),
        Err(e) => if e.is_transient() && retries + 1 < MAX_RETRIES {
            RetryStep::Again {
                retries: (retries + 1) as u32,
                delay: TimeSpan { nanos: (RETRY_DELAY_SECS * 1_000_000_000) as u128 },
            }
        } else {
            RetryStep::Finish(Err(e))
        },
    }
}

/// The outcome of a probe whose reply held the expiry date `reading`, or
/// none.
pub fn reading_outcome(reading: Option<Timestamp>) -> (outcome: Result<DomainInfo, DomainError>)
    ensures
        outcome == outcome_of_reading(reading),
{
    match reading {
        Some(expiry_date) => Ok(DomainInfo { expiry_date }),
        None => Err(DomainError::ExpiryDateParseError),
    }
}

/// Whether the server's reply says that it is busy.
pub fn is_busy(text: &str) -> (yes: bool)
    ensures
        yes == contains(text@, busy_marker()),
{
    let chars: Vec<char> = chars_of(text);
    let marker: Vec<char> = chars_of("Server is busy");
    assert(chars@.subrange(0, chars.len() as int) =~= text@);
    find_first(&chars, 0, chars.len(), &marker).is_some()
}

/// Decides what one lookup came to: the expiry date that the reply holds,
/// or the kind of failure.
pub fn probe_outcome(reply: LookupReply) -> (outcome: Result<DomainInfo, DomainError>)
    ensures
        outcome == outcome_of(reply),
{
    match reply {
        LookupReply::TimedOut => Err(DomainError::TimeoutError),
        LookupReply::Failed(words) => Err(DomainError::WhoisError(words)),
        LookupReply::Broken(words) => Err(DomainError::Other(words)),
        LookupReply::Text(text) => {
            if is_busy(text.as_str()) {
                Err(DomainError::ServerBusyError)
            } else {
                reading_outcome(parse_expiry_date(text.as_str()))
            }
        },
    }
}

/// Decides what follows a lookup that ended in `outcome`, with `retries`
/// failed lookups before it.
pub fn retry_step(retries: u32, outcome: Result<DomainInfo, DomainError>) -> (step: RetryStep)
    ensures
        step == step_after(retries, outcome),
{
    match outcome {
        Ok(info) => RetryStep::Finish(Ok(info)),
        Err(e) => {
            if e.transient() && retries < MAX_RETRIES - 1 {
                RetryStep::Again { retries: retries + 1, delay: TimeSpan::from_secs(RETRY_DELAY_SECS) }
            } else {
                RetryStep::Finish(Err(e))
            }
        },
    }
}

/// One step of the query for a domain: decides what the lookup that has
/// just ended in `reply` came to, and whether the query ends with that or
/// goes on to another lookup after a wait. `retries` lookups of this query
/// have failed before.
pub fn query_domain(retries: u32, reply: LookupReply) -> (step: RetryStep)
    ensures
        step == step_after(retries, outcome_of(reply)),
{
    retry_step(retries, probe_outcome(reply))
}

/// Whether `outcome` is a failure that is worth another lookup.
pub open spec fn is_transient_failure(outcome: Result<DomainInfo, DomainError>) -> bool {
    outcome matches Err(e) && e.is_transient()
}

/// How a probe runs whose lookups end in `outcomes`, one after the other,
/// with `retries` failed lookups before the first of them: the number of
/// lookups that it makes, and the outcome that it ends with (none where
/// `outcomes` is used up before the probe ends).
pub open spec fn probe_run(outcomes: Seq<Result<DomainInfo, DomainError>>, retries: u32) -> (
    nat,
    Option<Result<DomainInfo, DomainError>>,
)
    decreases outcomes.len(),
{
    if outcomes.len() == 0 {
        (0, None)
    } else {
        match step_after(retries, outcomes.first()) {
            RetryStep::Finish(outcome) => (1, Some(outcome)),
            RetryStep::Again { retries: failed, delay } => {
                let rest = probe_run(outcomes.drop_first(), failed);
                (rest.0 + 1, rest.1)
            },
        }
    }
}

/// A probe ends with the first lookup that does not fail transiently, or
/// with the lookup that uses up the allowance, whichever comes first: where
/// `outcomes[k]` is that lookup, the probe makes `k + 1` lookups and ends
/// with `outcomes[k]` as it is.
pub proof fn lemma_probe_ends_at(
    outcomes: Seq<Result<DomainInfo, DomainError>>,
    retries: u32,
    k: int,
)
    requires
        0 <= k < outcomes.len(),
        retries + k < MAX_RETRIES,
        forall|j: int| 0 <= j < k ==> is_transient_failure(outcomes[j]),
        retries + k == MAX_RETRIES - 1 || !is_transient_failure(outcomes[k]),
    ensures
        probe_run(outcomes, retries) == (((k + 1) as nat), Some(outcomes[k])),
    decreases k,
{
    if k > 0 {
        let rest = outcomes.drop_first();
        assert(is_transient_failure(outcomes[0]));
        assert(rest[k - 1] == outcomes[k]);
        assert forall|j: int| 0 <= j < k - 1 implies is_transient_failure(rest[j]) by {
            assert(rest[j] == outcomes[j + 1]);
        }
        lemma_probe_ends_at(rest, (retries + 1) as u32, k - 1);
    }
}

/// No probe makes more than `MAX_RETRIES` lookups.
pub proof fn lemma_probe_is_bounded(outcomes: Seq<Result<DomainInfo, DomainError>>, retries: u32)
    requires
        retries < MAX_RETRIES,
    ensures
        probe_run(outcomes, retries).0 <= MAX_RETRIES - retries,
    decreases outcomes.len(),
{
    if outcomes.len() > 0 {
        if step_after(retries, outcomes.first()) is Again {
            lemma_probe_is_bounded(outcomes.drop_first(), (retries + 1) as u32);
        }
    }
}

/// A server that stays busy, or a lookup that keeps timing out, is asked
/// `MAX_RETRIES` times in all, with `RETRY_DELAY_SECS` seconds between one
/// lookup and the next, and the probe then ends with the last failure as it
/// came.
pub proof fn lemma_transient_failure_is_retried(outcomes: Seq<Result<DomainInfo, DomainError>>)
    requires
        outcomes.len() >= MAX_RETRIES,
        forall|j: int| 0 <= j < MAX_RETRIES ==> is_transient_failure(outcomes[j]),
    ensures
        probe_run(outcomes, 0) == ((MAX_RETRIES as nat), Some(outcomes[MAX_RETRIES - 1])),
        forall|j: int|
            0 <= j < MAX_RETRIES - 1 ==> #[trigger] step_after(j as u32, outcomes[j])
                == (RetryStep::Again {
                retries: (j + 1) as u32,
                delay: TimeSpan { nanos: (RETRY_DELAY_SECS * 1_000_000_000) as u128 },
            }),
        step_after((MAX_RETRIES - 1) as u32, outcomes[MAX_RETRIES - 1]) == RetryStep::Finish(
            outcomes[MAX_RETRIES - 1],
        ),
{
    lemma_probe_ends_at(outcomes, 0, MAX_RETRIES - 1);
}

/// A success, and a failure that is not transient (the lookup itself
/// failed, or no date could be read), ends the probe after that one lookup.
pub proof fn lemma_other_outcome_is_final(outcomes: Seq<Result<DomainInfo, DomainError>>)
    requires
        outcomes.len() >= 1,
        !is_transient_failure(outcomes[0]),
    ensures
        probe_run(outcomes, 0) == (1nat, Some(outcomes[0])),
        forall|retries: u32| #[trigger]
            step_after(retries, outcomes[0]) == RetryStep::Finish(outcomes[0]),
{
    lemma_probe_ends_at(outcomes, 0, 0);
}

} // verus!
