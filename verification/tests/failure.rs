use nix_forecast::failure::Failure;
use nix_forecast::text::{decimal_string, hundredths_string, same_text, signed_decimal_string};

#[test]
fn message_of_an_unexpected_status() {
    assert_eq!(Failure::HTTPFailed(503).message(), "Unstable to complete HTTP request: 503");
    assert_eq!(Failure::HTTPFailed(0).message(), "Unstable to complete HTTP request: 0");
}

#[test]
fn message_of_a_failed_command() {
    assert_eq!(
        Failure::Nix { code: 1, stderr: "error: no such flake".to_string() }.message(),
        "Nix exited with code 1: error: no such flake"
    );
    assert_eq!(
        Failure::Nix { code: -11, stderr: String::new() }.message(),
        "Nix exited with code -11: "
    );
}

#[test]
fn message_of_a_transport_failure() {
    assert_eq!(
        Failure::Transport("connection refused".to_string()).message(),
        "Unable to reach binary cache: connection refused"
    );
}

#[test]
fn message_of_a_path_that_is_no_store_path() {
    assert_eq!(
        Failure::InvalidStorePath("/tmp/x".to_string()).message(),
        "Not a store path: /tmp/x"
    );
}

#[test]
fn message_of_a_run_without_caches() {
    assert_eq!(Failure::NoBinaryCaches.message(), "No binary cache to check");
}

#[test]
fn messages_of_what_nix_build_may_lack() {
    assert_eq!(Failure::NoBuild.message(), "Unable to parse `nix build` output!");
    assert_eq!(
        Failure::NoOutPath { installable: "nixpkgs#hello".to_string() }.message(),
        "Unable to find output `out` for installable nixpkgs#hello"
    );
}

#[test]
fn messages_of_output_that_cannot_be_read() {
    assert_eq!(Failure::InvalidUtf8.message(), "Command output is not valid UTF-8");
    assert_eq!(
        Failure::Json("expected value at line 1 column 1".to_string()).message(),
        "Unable to parse JSON: expected value at line 1 column 1"
    );
}

#[test]
fn numbers_in_decimal_notation() {
    assert_eq!(decimal_string(0), "0");
    assert_eq!(decimal_string(7), "7");
    assert_eq!(decimal_string(10), "10");
    assert_eq!(decimal_string(404), "404");
    assert_eq!(decimal_string(1234567890), "1234567890");
    assert_eq!(decimal_string(u64::MAX), "18446744073709551615");
}

#[test]
fn negative_numbers_in_decimal_notation() {
    assert_eq!(signed_decimal_string(0), "0");
    assert_eq!(signed_decimal_string(-1), "-1");
    assert_eq!(signed_decimal_string(127), "127");
    assert_eq!(signed_decimal_string(i32::MIN as i64), "-2147483648");
    assert_eq!(signed_decimal_string(i64::MIN), "-9223372036854775808");
    assert_eq!(signed_decimal_string(i64::MAX), "9223372036854775807");
}

#[test]
fn hundredths_with_two_decimal_places() {
    assert_eq!(hundredths_string(0), "0.00");
    assert_eq!(hundredths_string(5), "0.05");
    assert_eq!(hundredths_string(50), "0.50");
    assert_eq!(hundredths_string(1234), "12.34");
    assert_eq!(hundredths_string(10000), "100.00");
    assert_eq!(hundredths_string(9901), "99.01");
}

#[test]
fn texts_are_the_same_if_their_characters_are() {
    assert!(same_text("out", "out"));
    assert!(same_text("", ""));
    assert!(!same_text("out", "Out"));
    assert!(!same_text("out", "outs"));
    assert!(!same_text("", " "));
}
