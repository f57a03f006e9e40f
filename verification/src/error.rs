//! The ways in which probing a domain fails.

use vstd::prelude::*;

verus! {

/// Why a probe of a domain failed.
#[derive(Debug, PartialEq, Eq)]
pub enum DomainError {
    /// The lookup itself failed: a malformed query, no server for the
    /// domain, or the network. Holds the transport's own words.
    WhoisError(String),
    /// A reply came, but no expiry date could be read in it.
    ExpiryDateParseError,
    /// The lookup did not end in time.
    TimeoutError,
    /// The server answered that it is busy.
    ServerBusyError,
    /// Anything else, in words.
    Other(String),
}

impl DomainError {
    /// Whether the failure may be gone on a second attempt: only a timeout
    /// and a busy server are.
    pub open spec fn is_transient(self) -> bool {
        self is TimeoutError || self is ServerBusyError
    }

    /// The failure in words.
    pub open spec fn spec_message(self) -> Seq<char> {
        match self {
            DomainError::WhoisError(words) => "WHOIS query failed: "@ + words@,
            DomainError::ExpiryDateParseError => "Could not parse expiry date"@,
            DomainError::TimeoutError => "Domain query timeout"@,
            DomainError::ServerBusyError => "Server is busy"@,
            DomainError::Other(words) => "Other error: "@ + words@,
        }
    }

    /// Whether the failure may be gone on a second attempt.
    pub fn transient(&self) -> (yes: bool)
        ensures
            yes == self.is_transient(),
    {
        match self {
            DomainError::TimeoutError => true,
            DomainError::ServerBusyError => true,
            _ => false,
        }
    }

    /// The failure in words.
    pub fn message(&self) -> (words: String)
        ensures
            words@ == self.spec_message(),
    {
        match self {
            DomainError::WhoisError(inner) => {
                String::from_str("WHOIS query failed: ").concat(inner.as_str())
            },
            DomainError::ExpiryDateParseError => String::from_str("Could not parse expiry date"),
            DomainError::TimeoutError => String::from_str("Domain query timeout"),
            DomainError::ServerBusyError => String::from_str("Server is busy"),
            DomainError::Other(inner) => String::from_str("Other error: ").concat(inner.as_str()),
        }
    }
}

} // verus!
