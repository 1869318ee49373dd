//! The worked `Config` builder example, driven end to end.

use checked_builder::config_builder::Builder;
use checked_builder::config_builder::Config;
use checked_builder::config_builder::EnableLogging;
use checked_builder::config_builder::EnableTracing;
use checked_builder::config_builder::Logging;
use checked_builder::config_builder::Tracing;
use checked_builder::config_builder::handoff_set_logging;
use checked_builder::config_builder::partially_builder;

#[test]
fn test_builder() {
    let builder = partially_builder()
        .enable_tracing(true)
        .enable_logging("Info".to_owned())
        .enable_tracing(false);
    let config = builder.build();
    assert_eq!(config.enable_logging, "Info");
    assert_eq!(config.enable_tracing, false);
    assert_eq!(config.default_value, 0);
}

#[test]
fn last_write_wins_typestate() {
    let config = Config::builder()
        .enable_logging("Info".to_owned())
        .enable_tracing(true)
        .enable_logging("Debug".to_owned())
        .build();
    assert_eq!(config.enable_logging, "Debug");
    assert_eq!(config.enable_tracing, true);
}

#[test]
fn order_independence_typestate() {
    let a = Config::builder()
        .enable_logging("Info".to_owned())
        .enable_tracing(true)
        .build();
    let b = Config::builder()
        .enable_tracing(true)
        .enable_logging("Info".to_owned())
        .build();
    assert_eq!(a.enable_logging, b.enable_logging);
    assert_eq!(a.enable_tracing, b.enable_tracing);
    assert_eq!(a.default_value, b.default_value);
}

#[test]
fn idempotent_reset_typestate() {
    let once = Config::builder()
        .enable_tracing(false)
        .enable_logging("Info".to_owned());
    assert_eq!(once.logging(), "Info");
    let twice = Config::builder()
        .enable_tracing(false)
        .enable_logging("Info".to_owned())
        .enable_logging("Info".to_owned());
    assert_eq!(twice.logging(), "Info");
    assert_eq!(once.tracing(), twice.tracing());
    let a = once.build();
    let b = twice.build();
    assert_eq!(a.enable_logging, b.enable_logging);
    assert_eq!(a.enable_tracing, b.enable_tracing);
}

#[test]
fn capability_bound_handoff() {
    // The helper sees the chain only as "a state whose tracing is readable":
    // it may still set any field, and reads only what its bound declares.
    let started = Config::builder().enable_tracing(true);
    let (continued, seen_tracing) = handoff_set_logging(started, "Warn".to_owned());
    assert_eq!(seen_tracing, true);
    let finished = continued.enable_tracing(false);
    assert_eq!(finished.tracing(), false);
    assert_eq!(finished.logging(), "Warn");
    let config = finished.build();
    assert_eq!(config.enable_logging, "Warn");
    assert_eq!(config.enable_tracing, false);
}
