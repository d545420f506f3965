//! The command line.

use oxrdp::client::cli::{
    invalid_port, log_level, measures_latency, parse_args, parse_port, Cli, LogLevel, USAGE,
};

fn args(values: &[&str]) -> Vec<String> {
    values.iter().map(|s| s.to_string()).collect()
}

#[test]
fn parses_a_valid_command_line() {
    let cli = parse_args(&args(&[
        "127.0.0.1:3390",
        "--pin",
        "ab12",
        "--token-file",
        "/etc/oxrdp/token",
        "--name",
        "my-laptop",
    ]))
    .expect("valid arguments should parse");

    assert_eq!(
        cli,
        Cli {
            host: "127.0.0.1".to_string(),
            port: 3390,
            pin: "ab12".to_string(),
            token_path: "/etc/oxrdp/token".to_string(),
            name: "my-laptop".to_string(),
            headless: false,
        }
    );
}

#[test]
fn defaults_the_client_name_when_omitted() {
    let cli = parse_args(&args(&[
        "host:1",
        "--pin",
        "ab12",
        "--token-file",
        "token.txt",
    ]))
    .expect("valid arguments should parse");

    assert_eq!(cli.name, "oxclient");
    assert!(!cli.headless);
}

#[test]
fn parses_headless_flag() {
    let cli = parse_args(&args(&[
        "host:1",
        "--pin",
        "ab12",
        "--token-file",
        "token.txt",
        "--headless",
    ]))
    .expect("valid arguments should parse");

    assert!(cli.headless);
}

#[test]
fn rejects_token_passed_on_the_command_line() {
    let err = parse_args(&args(&[
        "127.0.0.1:3390",
        "--pin",
        "ab12",
        "--token",
        "s3cret",
    ]))
    .expect_err("--token must be rejected");

    assert!(err.contains("--token"));
    assert!(err.contains("--token-file"));
}

#[test]
fn rejects_missing_host_port() {
    let err = parse_args(&args(&["--pin", "ab12", "--token-file", "token.txt"]))
        .expect_err("missing positional argument must be rejected");
    assert!(err.contains("host:port"));
}

#[test]
fn rejects_unknown_flags() {
    let err = parse_args(&args(&[
        "127.0.0.1:3390",
        "--pin",
        "ab12",
        "--token-file",
        "token.txt",
        "--bogus",
    ]))
    .expect_err("unknown flags must be rejected");
    assert!(err.contains("--bogus"));
}

#[test]
fn rejects_host_port_without_a_colon() {
    let err = parse_args(&args(&[
        "no-colon-here",
        "--pin",
        "ab12",
        "--token-file",
        "token.txt",
    ]))
    .expect_err("a host:port without ':' must be rejected");
    assert!(err.contains(':'));
}

#[test]
fn ports_are_numbers_of_two_bytes() {
    assert_eq!(parse_port("0"), Some(0));
    assert_eq!(parse_port("65535"), Some(65535));
    assert_eq!(parse_port("65536"), None);
    assert_eq!(parse_port("99999999999999999999999"), None);
    assert_eq!(parse_port("+80"), Some(80));
    assert_eq!(parse_port("-80"), None);
    assert_eq!(parse_port(""), None);
    assert_eq!(parse_port("+"), None);
    assert_eq!(parse_port("8o"), None);
    assert_eq!(parse_port("00080"), Some(80));
}

#[test]
fn each_mistake_is_named() {
    let with = |values: &[&str]| parse_args(&args(values)).expect_err("rejected");
    assert_eq!(with(&["host:1", "--pin"]), "--pin requires a value");
    assert_eq!(
        with(&["host:1", "--token-file"]),
        "--token-file requires a value"
    );
    assert_eq!(with(&["host:1", "--name"]), "--name requires a value");
    assert_eq!(
        with(&["host:1", "other:2"]),
        "unexpected extra argument: other:2"
    );
    assert_eq!(with(&[]), "missing <host:port>");
    assert_eq!(with(&[":1"]), "<host:port> is missing a host");
    assert_eq!(with(&["host:\"x"]), "invalid port: \"\\\"x\"");
    assert_eq!(with(&["host:1"]), "missing --pin <spki-hex>");
    assert_eq!(
        with(&["host:1", "--pin", "ab"]),
        "missing --token-file <path>"
    );
    assert_eq!(invalid_port("<shown>"), "invalid port: <shown>");
    assert!(USAGE.contains("--token-file"));
}

#[test]
fn a_host_may_hold_colons() {
    let cli = parse_args(&args(&["::1:3390", "--pin", "ab", "--token-file", "t"]))
        .expect("valid arguments should parse");
    assert_eq!((cli.host.as_str(), cli.port), ("::1", 3390));
}

#[test]
fn the_environment_asks_for_more_or_less() {
    let text = |s: &str| Some(s.to_string());
    assert_eq!(log_level(&None), LogLevel::Warn);
    assert_eq!(log_level(&text("trace")), LogLevel::Trace);
    assert_eq!(log_level(&text("debug")), LogLevel::Debug);
    assert_eq!(log_level(&text("info")), LogLevel::Info);
    assert_eq!(log_level(&text("error")), LogLevel::Error);
    assert_eq!(log_level(&text("off")), LogLevel::Off);
    assert_eq!(log_level(&text("OFF")), LogLevel::Warn);
    assert!(!measures_latency(&None));
    assert!(!measures_latency(&text("0")));
    assert!(!measures_latency(&text("oFf")));
    assert!(measures_latency(&text("1")));
    assert!(measures_latency(&text("")));
    assert!(measures_latency(&text("off ")));
}
