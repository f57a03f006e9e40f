use domain_expiry::metrics::format_response;

#[test]
fn the_text_of_a_success() {
    let expected = "# HELP domain_expiry_days Days until domain expiry\n\
# TYPE domain_expiry_days gauge\n\
domain_expiry_days{domain=\"example.com\"} 42\n\
# HELP domain_probe_success Displays whether or not the domain probe was successful\n\
# TYPE domain_probe_success gauge\n\
domain_probe_success{domain=\"example.com\"} 1\n";
    assert_eq!(format_response("example.com", 42, 1), expected);
}

#[test]
fn the_text_of_a_failure() {
    let text = format_response("example.org", -1, 0);
    assert!(text.contains("domain_expiry_days{domain=\"example.org\"} -1\n"));
    assert!(text.ends_with("domain_probe_success{domain=\"example.org\"} 0\n"));
    assert_eq!(text.lines().count(), 6);
}

#[test]
fn the_text_is_what_formatting_gives() {
    for (domain, days, success) in [("a.b", 0i64, 1i32), ("", -400, 0), ("x\"y", i64::MAX, i32::MAX), ("ü.de", i64::MIN, i32::MIN)] {
        let expected = format!(
            "# HELP domain_expiry_days Days until domain expiry\n# TYPE domain_expiry_days gauge\ndomain_expiry_days{{domain=\"{}\"}} {}\n# HELP domain_probe_success Displays whether or not the domain probe was successful\n# TYPE domain_probe_success gauge\ndomain_probe_success{{domain=\"{}\"}} {}\n",
            domain, days, domain, success
        );
        assert_eq!(format_response(domain, days, success), expected);
    }
}
