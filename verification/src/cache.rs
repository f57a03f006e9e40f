//! Remembering the expiry date of a domain for a bounded time.
//!
//! The cache reads no clock: every call is told the time, as a reading of a
//! clock that never runs backwards. An entry that has aged past the time to
//! live stays where it is and is treated as absent.

use vstd::prelude::*;
use vstd::hash_map::StringHashMap;
use crate::time::{MonotonicInstant, TimeSpan, Timestamp};

verus! {

/// What the cache holds of one domain.
#[derive(Debug, Clone, Copy, PartialEq, Eq, Structural)]
pub struct CacheEntry {
    /// When the domain expires.
    pub expiry_date: Timestamp,
    /// When the entry was made.
    pub timestamp: MonotonicInstant,
}

/// The expiry dates of domains, each kept for a time to live.
pub struct DomainCache {
    cache: StringHashMap<CacheEntry>,
    ttl: TimeSpan,
}

/// Whether `entry` is still to be used at `now`: its age is strictly less
/// than `ttl`.
pub open spec fn is_fresh(entry: CacheEntry, ttl: TimeSpan, now: MonotonicInstant) -> bool {
    now.spec_elapsed_since(entry.timestamp).nanos < ttl.nanos
}

/// The entry that `entries` has to offer for `domain` at `now`: the one it
/// holds, if that is still fresh.
pub open spec fn fresh_entry(
    entries: Map<Seq<char>, CacheEntry>,
    ttl: TimeSpan,
    domain: Seq<char>,
    now: MonotonicInstant,
) -> Option<CacheEntry> {
    if entries.contains_key(domain) && is_fresh(entries[domain], ttl, now) {
        Some(entries[domain])
    } else {
        None
    }
}

/// `entries` after the expiry date of `domain` has been noted at `now`: the
/// entry for `domain` is new, whatever was there, and no other has changed.
pub open spec fn with_entry(
    entries: Map<Seq<char>, CacheEntry>,
    domain: Seq<char>,
    expiry_date: Timestamp,
    now: MonotonicInstant,
) -> Map<Seq<char>, CacheEntry> {
    entries.insert(domain, CacheEntry { expiry_date, timestamp: now })
}

/// All that a cache is: the entries held, fresh or not, by domain, and how
/// long an entry is used.
#[verifier::ext_equal]
pub struct CacheView {
    pub entries: Map<Seq<char>, CacheEntry>,
    pub ttl: TimeSpan,
}

impl View for DomainCache {
    type V = CacheView;

    closed spec fn view(&self) -> CacheView {
        CacheView { entries: self.cache@, ttl: self.ttl }
    }
}

impl DomainCache {
    /// An empty cache whose entries are used for `ttl`.
    pub fn new(ttl: TimeSpan) -> (cache: Self)
        ensures
            cache@ == (CacheView { entries: Map::<Seq<char>, CacheEntry>::empty(), ttl }),
    {
        DomainCache { cache: StringHashMap::new(), ttl }
    }

    /// How long an entry is used.
    pub fn ttl(&self) -> (ttl: TimeSpan)
        ensures
            ttl == self@.ttl,
    {
        self.ttl
    }

    /// The entry for `domain`, if there is one and it is still fresh at
    /// `now`.
    pub fn get(&self, domain: &str, now: MonotonicInstant) -> (entry: Option<CacheEntry>)
        ensures
            entry == fresh_entry(self@.entries, self@.ttl, domain@, now),
    {
        match self.cache.get(domain) {
            Some(entry) => {
                if now.elapsed_since(entry.timestamp).nanos < self.ttl.nanos {
                    Some(*entry)
                } else {
                    None
                }
            },
            None => None,
        }
    }

    /// Notes at `now` that `domain` expires on `expiry_date`, in place of
    /// whatever was noted of `domain` before.
    pub fn set(&mut self, domain: String, expiry_date: Timestamp, now: MonotonicInstant)
        ensures
            final(self)@ == (CacheView {
                entries: with_entry(old(self)@.entries, domain@, expiry_date, now),
                ttl: old(self)@.ttl,
            }),
    {
        self.cache.insert(domain, CacheEntry { expiry_date, timestamp: now });
    }
}

/// An entry is no longer offered once the time to live has passed since it
/// was made, though it was made and nothing has removed it.
pub proof fn lemma_stale_entry_is_absent(
    entries: Map<Seq<char>, CacheEntry>,
    ttl: TimeSpan,
    domain: Seq<char>,
    expiry_date: Timestamp,
    made: MonotonicInstant,
    now: MonotonicInstant,
)
    requires
        now.spec_elapsed_since(made).nanos >= ttl.nanos,
    ensures
        with_entry(entries, domain, expiry_date, made).contains_key(domain),
        fresh_entry(with_entry(entries, domain, expiry_date, made), ttl, domain, now) is None,
{
}

/// An entry is offered, as it was made, at any time before the time to live
/// has passed since.
pub proof fn lemma_fresh_entry_is_present(
    entries: Map<Seq<char>, CacheEntry>,
    ttl: TimeSpan,
    domain: Seq<char>,
    expiry_date: Timestamp,
    made: MonotonicInstant,
    now: MonotonicInstant,
)
    requires
        now.spec_elapsed_since(made).nanos < ttl.nanos,
    ensures
        fresh_entry(with_entry(entries, domain, expiry_date, made), ttl, domain, now) == Some(
            CacheEntry { expiry_date, timestamp: made },
        ),
{
}

/// Noting the same expiry date of a domain twice leaves one entry for it,
/// the second; while that is fresh, the date offered is the date noted.
pub proof fn lemma_set_twice(
    entries: Map<Seq<char>, CacheEntry>,
    ttl: TimeSpan,
    domain: Seq<char>,
    expiry_date: Timestamp,
    first: MonotonicInstant,
    second: MonotonicInstant,
    now: MonotonicInstant,
)
    requires
        now.spec_elapsed_since(second).nanos < ttl.nanos,
    ensures
        with_entry(with_entry(entries, domain, expiry_date, first), domain, expiry_date, second)
            == with_entry(entries, domain, expiry_date, second),
        fresh_entry(
            with_entry(
                with_entry(entries, domain, expiry_date, first),
                domain,
                expiry_date,
                second,
            ),
            ttl,
            domain,
            now,
        ) matches Some(entry) && entry.expiry_date == expiry_date,
{
    assert(with_entry(with_entry(entries, domain, expiry_date, first), domain, expiry_date, second)
        =~= with_entry(entries, domain, expiry_date, second));
}

/// Noting the expiry date of one domain changes what is offered for no
/// other.
pub proof fn lemma_set_leaves_others(
    entries: Map<Seq<char>, CacheEntry>,
    ttl: TimeSpan,
    domain: Seq<char>,
    expiry_date: Timestamp,
    made: MonotonicInstant,
    other: Seq<char>,
    now: MonotonicInstant,
)
    requires
        other != domain,
    ensures
        fresh_entry(with_entry(entries, domain, expiry_date, made), ttl, other, now)
            == fresh_entry(entries, ttl, other, now),
{
}

} // verus!
