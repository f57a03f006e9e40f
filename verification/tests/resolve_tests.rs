use domain_expiry::cache::DomainCache;
use domain_expiry::error::DomainError;
use domain_expiry::resolve::{resolve_cached, resolve_outcome, ProbeReport, ResolveStep, Settlement};
use domain_expiry::time::{MonotonicInstant, TimeSpan, Timestamp};
use domain_expiry::whois::DomainInfo;

const SEC: u128 = 1_000_000_000;
const DAY: i64 = 86_400;

fn tick(nanos: u128) -> MonotonicInstant {
    MonotonicInstant { nanos }
}

fn date(secs: i64) -> Timestamp {
    Timestamp { secs, nanos: 0 }
}

fn found(secs: i64) -> Result<DomainInfo, DomainError> {
    Ok(DomainInfo { expiry_date: date(secs) })
}

fn report(expiry_days: i64, probe_success: i32) -> ProbeReport {
    ProbeReport { expiry_days, probe_success }
}

fn kept(expiry_days: i64) -> Settlement {
    Settlement { report: report(expiry_days, 1), kept: true }
}

fn not_kept(expiry_days: i64, probe_success: i32) -> Settlement {
    Settlement { report: report(expiry_days, probe_success), kept: false }
}

#[test]
fn an_empty_cache_asks_for_a_probe() {
    let cache = DomainCache::new(TimeSpan::from_secs(60));
    assert_eq!(resolve_cached(&cache, "example.com", tick(0), date(0)), ResolveStep::Probe);
}

#[test]
fn a_success_is_reported_and_kept() {
    let mut cache = DomainCache::new(TimeSpan::from_secs(60));
    let today = date(1_700_000_000);
    let got = resolve_outcome(&mut cache, "example.com", &found(1_700_000_000 + 30 * DAY + 5), tick(SEC), today);
    assert_eq!(got, kept(30));
    assert_eq!(
        cache.get("example.com", tick(SEC)).unwrap().expiry_date,
        date(1_700_000_000 + 30 * DAY + 5)
    );
    assert_eq!(cache.get("example.com", tick(SEC)).unwrap().timestamp, tick(SEC));
}

#[test]
fn the_second_request_needs_no_probe() {
    let mut cache = DomainCache::new(TimeSpan::from_secs(24 * 3600));
    let expiry = 1_700_000_000 + 30 * DAY;
    assert_eq!(resolve_cached(&cache, "example.com", tick(0), date(1_700_000_000)), ResolveStep::Probe);
    resolve_outcome(&mut cache, "example.com", &found(expiry), tick(2 * SEC), date(1_700_000_002));
    // One hour later: from the cache, and with the days that are left by then.
    assert_eq!(
        resolve_cached(&cache, "example.com", tick(3602 * SEC), date(1_700_003_602)),
        ResolveStep::Report(report(29, 1))
    );
    // Just inside the time to live.
    assert_eq!(
        resolve_cached(&cache, "example.com", tick((24 * 3600 + 2) * SEC - 1), date(1_700_000_000 + DAY)),
        ResolveStep::Report(report(29, 1))
    );
    // At the time to live the entry is stale.
    assert_eq!(
        resolve_cached(&cache, "example.com", tick((24 * 3600 + 2) * SEC), date(1_700_000_000 + DAY)),
        ResolveStep::Probe
    );
    // Another domain was never probed.
    assert_eq!(resolve_cached(&cache, "example.org", tick(3 * SEC), date(1_700_000_003)), ResolveStep::Probe);
}

#[test]
fn a_cached_date_that_has_passed_is_still_reported() {
    let mut cache = DomainCache::new(TimeSpan::from_secs(24 * 3600));
    resolve_outcome(&mut cache, "example.com", &found(1_700_000_100), tick(0), date(1_700_000_000));
    assert_eq!(
        resolve_cached(&cache, "example.com", tick(200 * SEC), date(1_700_000_200)),
        ResolveStep::Report(report(-1, 1))
    );
}

#[test]
fn an_expired_domain_is_reported_but_not_kept() {
    let mut cache = DomainCache::new(TimeSpan::from_secs(60));
    let today = date(1_700_000_000);
    let got = resolve_outcome(&mut cache, "example.com", &found(1_700_000_000 - 10 * DAY), tick(0), today);
    assert_eq!(got, not_kept(-10, 1));
    assert_eq!(cache.get("example.com", tick(0)), None);
    assert_eq!(resolve_cached(&cache, "example.com", tick(1), today), ResolveStep::Probe);
}

#[test]
fn a_date_just_past_counts_as_expired() {
    let mut cache = DomainCache::new(TimeSpan::from_secs(60));
    let today = Timestamp { secs: 1_700_000_000, nanos: 1 };
    let got = resolve_outcome(&mut cache, "example.com", &found(1_700_000_000), tick(0), today);
    assert_eq!(got, not_kept(-1, 1));
    assert_eq!(cache.get("example.com", tick(0)), None);
}

#[test]
fn a_date_that_is_now_is_kept() {
    let mut cache = DomainCache::new(TimeSpan::from_secs(60));
    let today = date(1_700_000_000);
    let got = resolve_outcome(&mut cache, "example.com", &found(1_700_000_000), tick(0), today);
    assert_eq!(got, kept(0));
    assert!(cache.get("example.com", tick(0)).is_some());
}

#[test]
fn an_expired_result_does_not_disturb_an_entry() {
    let mut cache = DomainCache::new(TimeSpan::from_secs(60));
    let today = date(1_700_000_000);
    resolve_outcome(&mut cache, "example.com", &found(1_700_000_000 + 5 * DAY), tick(0), today);
    resolve_outcome(&mut cache, "example.com", &found(1_700_000_000 - 5 * DAY), tick(SEC), today);
    assert_eq!(cache.get("example.com", tick(2 * SEC)).unwrap().expiry_date, date(1_700_000_000 + 5 * DAY));
    assert_eq!(cache.get("example.com", tick(2 * SEC)).unwrap().timestamp, tick(0));
}

#[test]
fn every_failure_is_minus_one_and_zero() {
    let mut cache = DomainCache::new(TimeSpan::from_secs(60));
    let today = date(1_700_000_000);
    for error in [
        DomainError::TimeoutError,
        DomainError::ServerBusyError,
        DomainError::ExpiryDateParseError,
        DomainError::WhoisError("refused".to_string()),
        DomainError::Other("lost".to_string()),
    ] {
        assert_eq!(resolve_outcome(&mut cache, "example.com", &Err(error), tick(0), today), not_kept(-1, 0));
        assert_eq!(cache.get("example.com", tick(0)), None);
    }
}

#[test]
fn a_failure_does_not_disturb_an_entry() {
    let mut cache = DomainCache::new(TimeSpan::from_secs(60));
    let today = date(1_700_000_000);
    resolve_outcome(&mut cache, "example.com", &found(1_700_000_000 + 5 * DAY), tick(0), today);
    resolve_outcome(&mut cache, "example.com", &Err(DomainError::TimeoutError), tick(SEC), today);
    assert_eq!(
        resolve_cached(&cache, "example.com", tick(2 * SEC), today),
        ResolveStep::Report(report(5, 1))
    );
}

#[test]
fn a_later_success_renews_the_entry() {
    let mut cache = DomainCache::new(TimeSpan::from_secs(60));
    let today = date(1_700_000_000);
    resolve_outcome(&mut cache, "example.com", &found(1_700_000_000 + 5 * DAY), tick(0), today);
    resolve_outcome(&mut cache, "example.com", &found(1_700_000_000 + 9 * DAY), tick(50 * SEC), today);
    assert_eq!(
        resolve_cached(&cache, "example.com", tick(100 * SEC), today),
        ResolveStep::Report(report(9, 1))
    );
}
