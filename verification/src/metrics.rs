//! The answer to a request, as text in the Prometheus exposition format.

use vstd::prelude::*;
use crate::decimal::{decimal_of, render_i64};

verus! {

/// What stands before the domain of the first gauge.
pub open spec fn days_head() -> Seq<char> {
    "# HELP domain_expiry_days Days until domain expiry\n# TYPE domain_expiry_days gauge\ndomain_expiry_days{domain=\""@
}

/// What stands before the domain of the second gauge.
pub open spec fn success_head() -> Seq<char> {
    "\n# HELP domain_probe_success Displays whether or not the domain probe was successful\n# TYPE domain_probe_success gauge\ndomain_probe_success{domain=\""@
}

/// What stands between a domain and the value of its gauge.
pub open spec fn label_end() -> Seq<char> {
    "\"} "@
}

/// The text that reports `expiry_days` and `probe_success` for `domain`:
/// two gauges, each with its help and type lines, each labelled with the
/// domain as it is.
pub open spec fn response_text(domain: Seq<char>, expiry_days: i64, probe_success: i32) -> Seq<
    char,
> {
    days_head() + domain + label_end() + decimal_of(expiry_days as int) + success_head() + domain
        + label_end() + decimal_of(probe_success as int) + "\n"@
}

/// Writes the text that reports `expiry_days` and `probe_success` for
/// `domain`.
pub fn format_response(domain: &str, expiry_days: i64, probe_success: i32) -> (text: String)
    ensures
        text@ == response_text(domain@, expiry_days, probe_success),
{
    let mut text: String = String::from_str(
        "# HELP domain_expiry_days Days until domain expiry\n# TYPE domain_expiry_days gauge\ndomain_expiry_days{domain=\"",
    );
    text.append(domain);
    text.append("\"} ");
    text.append(render_i64(expiry_days).as_str());
    text.append(
        "\n# HELP domain_probe_success Displays whether or not the domain probe was successful\n# TYPE domain_probe_success gauge\ndomain_probe_success{domain=\"",
    );
    text.append(domain);
    text.append("\"} ");
    text.append(render_i64(probe_success as i64).as_str());
    text.append("\n");
    text
}

} // verus!
