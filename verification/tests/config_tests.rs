use domain_expiry::config::{seconds_setting, Args, Config, Environment};
use domain_expiry::time::TimeSpan;

fn args() -> Args {
    Args { cache_ttl: 86400, whois_timeout: 10, listen_addr: "0.0.0.0:9222".to_string() }
}

fn nothing() -> Environment {
    Environment { cache_ttl: None, whois_timeout: None, listen_addr: None }
}

fn text(s: &str) -> Option<String> {
    Some(s.to_string())
}

#[test]
fn the_defaults() {
    let config = Config::default();
    assert_eq!(config.cache_ttl, TimeSpan { nanos: 86_400_000_000_000 });
    assert_eq!(config.whois_timeout, TimeSpan { nanos: 10_000_000_000 });
    assert_eq!(config.listen_addr, "0.0.0.0:9222");
    assert_eq!(config, Config::from_args(args(), nothing()));
}

#[test]
fn the_command_line_holds_where_the_environment_is_silent() {
    let given = Args { cache_ttl: 300, whois_timeout: 3, listen_addr: "127.0.0.1:8080".to_string() };
    let config = Config::from_args(given, nothing());
    assert_eq!(config.cache_ttl, TimeSpan::from_secs(300));
    assert_eq!(config.whois_timeout, TimeSpan::from_secs(3));
    assert_eq!(config.listen_addr, "127.0.0.1:8080");
}

#[test]
fn the_environment_wins() {
    let env = Environment { cache_ttl: text("60"), whois_timeout: text("5"), listen_addr: text("[::]:9000") };
    let config = Config::from_args(args(), env);
    assert_eq!(config.cache_ttl, TimeSpan { nanos: 60_000_000_000 });
    assert_eq!(config.whois_timeout, TimeSpan { nanos: 5_000_000_000 });
    assert_eq!(config.listen_addr, "[::]:9000");
}

#[test]
fn each_setting_is_decided_alone() {
    let env = Environment { cache_ttl: None, whois_timeout: text("5"), listen_addr: None };
    let config = Config::from_args(args(), env);
    assert_eq!(config.cache_ttl, TimeSpan::from_secs(86400));
    assert_eq!(config.whois_timeout, TimeSpan::from_secs(5));
    assert_eq!(config.listen_addr, "0.0.0.0:9222");
}

#[test]
fn a_number_that_cannot_be_read_is_passed_over() {
    for bad in ["", "ten", "10s", " 10", "-1", "1.5", "18446744073709551616"] {
        let env = Environment { cache_ttl: text(bad), whois_timeout: text(bad), listen_addr: None };
        let config = Config::from_args(args(), env);
        assert_eq!(config.cache_ttl, TimeSpan::from_secs(86400), "{:?}", bad);
        assert_eq!(config.whois_timeout, TimeSpan::from_secs(10), "{:?}", bad);
    }
}

#[test]
fn an_address_is_taken_as_it_is() {
    let env = Environment { cache_ttl: None, whois_timeout: None, listen_addr: text("") };
    assert_eq!(Config::from_args(args(), env).listen_addr, "");
}

#[test]
fn zero_and_the_largest_number_are_numbers() {
    let env = Environment { cache_ttl: text("0"), whois_timeout: text("18446744073709551615"), listen_addr: None };
    let config = Config::from_args(args(), env);
    assert_eq!(config.cache_ttl, TimeSpan { nanos: 0 });
    assert_eq!(config.whois_timeout, TimeSpan { nanos: u64::MAX as u128 * 1_000_000_000 });
}

#[test]
fn one_setting() {
    assert_eq!(seconds_setting(&None, 7), 7);
    assert_eq!(seconds_setting(&text("9"), 7), 9);
    assert_eq!(seconds_setting(&text("+9"), 7), 9);
    assert_eq!(seconds_setting(&text("nine"), 7), 7);
}
