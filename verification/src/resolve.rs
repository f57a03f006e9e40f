//! Answering one request for a domain: from the cache where it can be, else
//! from a probe, whose result is kept for the next request.
//!
//! A request passes through two decisions with the probe between them. The
//! probe is the caller's to make; it reads the clocks, too.

use vstd::prelude::*;
use crate::cache::{fresh_entry, with_entry, CacheEntry, CacheView, DomainCache};
use crate::error::DomainError;
use crate::time::{whole_days_between, MonotonicInstant, TimeSpan, Timestamp};
use crate::whois::DomainInfo;

verus! {

/// What a request is answered with.
#[derive(Debug, Clone, Copy, PartialEq, Eq, Structural)]
pub struct ProbeReport {
    /// Whole days until the domain expires; -1 where the probe failed.
    pub expiry_days: i64,
    /// 1 where the expiry date is known, 0 where the probe failed.
    pub probe_success: i32,
}

/// How a request goes on after the cache has been asked.
#[derive(Debug, Clone, Copy, PartialEq, Eq, Structural)]
pub enum ResolveStep {
    /// The cache had the answer.
    Report(ProbeReport),
    /// The domain has to be probed.
    Probe,
}

/// What a probe came to: the report on it, and whether its expiry date was
/// kept for later requests.
#[derive(Debug, Clone, Copy, PartialEq, Eq, Structural)]
pub struct Settlement {
    pub report: ProbeReport,
    pub kept: bool,
}

/// The report on a domain that expires on `expiry_date`, made at `today`.
pub open spec fn report_of_date(expiry_date: Timestamp, today: Timestamp) -> ProbeReport {
    ProbeReport { expiry_days: expiry_date.spec_days_until(today), probe_success: 1 }
}

/// The report on a domain whose probe failed.
pub open spec fn report_of_failure() -> ProbeReport {
    ProbeReport { expiry_days: -1i64, probe_success: 0 }
}

/// How a request for `domain` goes on when the cache holds `entries`: with
/// the report on a fresh entry, else with a probe.
pub open spec fn step_from_cache(
    entries: Map<Seq<char>, CacheEntry>,
    ttl: TimeSpan,
    domain: Seq<char>,
    now: MonotonicInstant,
    today: Timestamp,
) -> ResolveStep {
    match fresh_entry(entries, ttl, domain, now) {
        Some(entry) => ResolveStep::Report(report_of_date(entry.expiry_date, today)),
        None => ResolveStep::Probe,
    }
}

/// The report on a probe that ended in `outcome`. The kind of a failure
/// does not show in it.
pub open spec fn report_of(outcome: Result<DomainInfo, DomainError>, today: Timestamp)
    -> ProbeReport {
    match outcome {
        Ok(info) => report_of_date(info.expiry_date, today),
        Err(_) => report_of_failure(),
    }
}

/// Whether the outcome of a probe is kept: only an expiry date that does
/// not lie before `today`.
pub open spec fn is_kept(outcome: Result<DomainInfo, DomainError>, today: Timestamp) -> bool {
    outcome matches Ok(info) && whole_days_between(info.expiry_date, today) >= 0
}

/// What the cache holds after a probe of `domain` has ended in `outcome`.
pub open spec fn entries_after(
    entries: Map<Seq<char>, CacheEntry>,
    domain: Seq<char>,
    outcome: Result<DomainInfo, DomainError>,
    now: MonotonicInstant,
    today: Timestamp,
) -> Map<Seq<char>, CacheEntry> {
    if is_kept(outcome, today) {
        with_entry(entries, domain, outcome->Ok_0.expiry_date, now)
    } else {
        entries
    }
}

/// Asks the cache for `domain`: the report on a fresh entry, or the word
/// that the domain has to be probed.
pub fn resolve_cached(
    cache: &DomainCache,
    domain: &str,
    now: MonotonicInstant,
    today: Timestamp,
) -> (step: ResolveStep)
    ensures
        step == step_from_cache(cache@.entries, cache@.ttl, domain@, now, today),
{
    match cache.get(domain, now) {
        Some(entry) => ResolveStep::Report(
            ProbeReport { expiry_days: entry.expiry_date.days_until(today), probe_success: 1 },
        ),
        None => ResolveStep::Probe,
    }
}

/// Reports on a probe of `domain` that ended in `outcome`, and keeps the
/// expiry date for later requests unless it lies before `today`. A date in
/// the past is reported all the same, as a success with a negative count.
pub fn resolve_outcome(
    cache: &mut DomainCache,
    domain: &str,
    outcome: &Result<DomainInfo, DomainError>,
    now: MonotonicInstant,
    today: Timestamp,
) -> (settled: Settlement)
    ensures
        settled.report == report_of(*outcome, today),
        settled.kept == is_kept(*outcome, today),
        final(cache)@ == (CacheView {
            entries: entries_after(old(cache)@.entries, domain@, *outcome, now, today),
            ttl: old(cache)@.ttl,
        }),
{
    match outcome {
        Ok(info) => {
            let days: i64 = info.expiry_date.days_until(today);
            let kept: bool = days >= 0;
            if kept {
                cache.set(String::from_str(domain), info.expiry_date, now);
            }
            Settlement { report: ProbeReport { expiry_days: days, probe_success: 1 }, kept }
        },
        Err(_) => Settlement {
            report: ProbeReport { expiry_days: -1, probe_success: 0 },
            kept: false,
        },
    }
}

/// The day count of a report never wraps: whole days between two instants
/// fit the report's integer.
pub proof fn lemma_days_fit(later: Timestamp, earlier: Timestamp)
    ensures
        later.spec_days_until(earlier) == whole_days_between(later, earlier),
        whole_days_between(later, earlier) >= 0 <==> later.total_nanos()
            >= earlier.total_nanos(),
{
}

/// An expiry date is kept only where it comes from a success and does not
/// lie in the past; whatever else a probe ends in leaves the cache as it
/// was.
pub proof fn lemma_kept_only_if_not_past(
    entries: Map<Seq<char>, CacheEntry>,
    domain: Seq<char>,
    outcome: Result<DomainInfo, DomainError>,
    now: MonotonicInstant,
    today: Timestamp,
)
    ensures
        is_kept(outcome, today) <==> (outcome matches Ok(info) && info.expiry_date.total_nanos()
            >= today.total_nanos()),
        !is_kept(outcome, today) ==> entries_after(entries, domain, outcome, now, today)
            == entries,
{
    if let Ok(info) = outcome {
        lemma_days_fit(info.expiry_date, today);
    }
}

/// A domain that has already expired is reported as a success with its
/// negative day count, and is not kept.
pub proof fn lemma_expired_is_reported_not_kept(
    entries: Map<Seq<char>, CacheEntry>,
    domain: Seq<char>,
    info: DomainInfo,
    now: MonotonicInstant,
    today: Timestamp,
)
    requires
        whole_days_between(info.expiry_date, today) < 0,
    ensures
        report_of(Ok(info), today).probe_success == 1,
        report_of(Ok(info), today).expiry_days == whole_days_between(info.expiry_date, today),
        report_of(Ok(info), today).expiry_days < 0,
        entries_after(entries, domain, Ok(info), now, today) == entries,
{
    lemma_days_fit(info.expiry_date, today);
}

/// A failed probe is reported as -1 days and no success, whatever its
/// kind, and is not kept.
pub proof fn lemma_failure_is_reported_not_kept(
    entries: Map<Seq<char>, CacheEntry>,
    domain: Seq<char>,
    error: DomainError,
    now: MonotonicInstant,
    today: Timestamp,
)
    ensures
        report_of(Err(error), today) == (ProbeReport { expiry_days: -1i64, probe_success: 0 }),
        entries_after(entries, domain, Err(error), now, today) == entries,
{
}

/// After a probe that found an expiry date not in the past, a request for
/// the same domain that comes before the time to live has passed is
/// answered from the cache, with no probe, and with the days that are left
/// by then.
pub proof fn lemma_second_request_needs_no_probe(
    entries: Map<Seq<char>, CacheEntry>,
    ttl: TimeSpan,
    domain: Seq<char>,
    info: DomainInfo,
    first: MonotonicInstant,
    first_today: Timestamp,
    second: MonotonicInstant,
    second_today: Timestamp,
)
    requires
        whole_days_between(info.expiry_date, first_today) >= 0,
        second.spec_elapsed_since(first).nanos < ttl.nanos,
    ensures
        step_from_cache(
            entries_after(entries, domain, Ok(info), first, first_today),
            ttl,
            domain,
            second,
            second_today,
        ) == ResolveStep::Report(report_of_date(info.expiry_date, second_today)),
{
}

} // verus!
