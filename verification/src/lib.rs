//! Domain-expiry probing: reading the expiry date out of WHOIS text, deciding
//! when a lookup is retried, caching results for a bounded time, and turning
//! all of it into the day count a scraper sees.

pub mod cache;
pub mod calendar;
pub mod config;
pub mod decimal;
pub mod error;
pub mod expiry;
pub mod metrics;
pub mod resolve;
pub mod text;
pub mod time;
pub mod whois;
