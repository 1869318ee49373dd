//! The runtime-checked chain and build gate, on a four-field aggregate.

use checked_builder::chain::BuildError;
use checked_builder::chain::Chain;
use checked_builder::chain::Value;
use checked_builder::model::AggregateModel;
use checked_builder::model::FieldModel;

const ENABLE_LOGGING: usize = 0;
const ENABLE_TRACING: usize = 1;
const HOST: usize = 2;
const PORT: usize = 3;

fn server_model() -> AggregateModel {
    AggregateModel {
        name: "ServerConfig".to_owned(),
        fields: vec![
            FieldModel { name: "enable_logging".to_owned(), ty: "String".to_owned() },
            FieldModel { name: "enable_tracing".to_owned(), ty: "bool".to_owned() },
            FieldModel { name: "host".to_owned(), ty: "String".to_owned() },
            FieldModel { name: "port".to_owned(), ty: "u16".to_owned() },
        ],
    }
}

fn text(s: &str) -> Value {
    Value::Text(s.to_owned())
}

#[test]
fn build_last_write_wins() {
    let model = server_model();
    let chain = Chain::new()
        .set(ENABLE_LOGGING, text("Info"))
        .set(ENABLE_TRACING, Value::Flag(false))
        .set(HOST, text("localhost"))
        .set(PORT, Value::Int(8080))
        .set(ENABLE_LOGGING, text("Debug"));
    let built = chain.build(&model).unwrap();
    assert_eq!(
        built,
        vec![text("Debug"), Value::Flag(false), text("localhost"), Value::Int(8080)]
    );
}

#[test]
fn build_missing_port() {
    let model = server_model();
    let chain = Chain::new()
        .set(ENABLE_LOGGING, text("Info"))
        .set(ENABLE_TRACING, Value::Flag(true))
        .set(HOST, text("localhost"));
    assert_eq!(
        chain.build(&model),
        Err(BuildError::MissingField("port".to_owned()))
    );
}

#[test]
fn build_reports_first_missing_field() {
    let model = server_model();
    let chain = Chain::new().set(HOST, text("localhost")).set(PORT, Value::Int(80));
    assert_eq!(
        chain.build(&model),
        Err(BuildError::MissingField("enable_logging".to_owned()))
    );
    assert_eq!(
        Chain::new().build(&model),
        Err(BuildError::MissingField("enable_logging".to_owned()))
    );
}

// The runtime form of an interrupted construction: the helper keeps setting
// fields on a chain it did not start.
fn set_warn_logging(chain: Chain) -> Chain {
    chain.set(ENABLE_LOGGING, text("Warn"))
}

#[test]
fn handoff_then_latest_tracing_wins() {
    let model = server_model();
    let chain = Chain::new().set(ENABLE_TRACING, Value::Flag(true));
    let chain = set_warn_logging(chain);
    let chain = chain
        .set(HOST, text("localhost"))
        .set(PORT, Value::Int(8080))
        .set(ENABLE_TRACING, Value::Flag(false));
    assert_eq!(chain.get(ENABLE_TRACING), Some(Value::Flag(false)));
    let built = chain.build(&model).unwrap();
    assert_eq!(built[ENABLE_TRACING], Value::Flag(false));
    assert_eq!(built[ENABLE_LOGGING], text("Warn"));
}

#[test]
fn idempotent_reset_chain() {
    let once = Chain::new().set(PORT, Value::Int(443));
    let twice = Chain::new().set(PORT, Value::Int(443)).set(PORT, Value::Int(443));
    assert_eq!(once.get(PORT), Some(Value::Int(443)));
    assert_eq!(twice.get(PORT), Some(Value::Int(443)));
}

#[test]
fn unset_field_unreadable() {
    let chain = Chain::new().set(HOST, text("localhost"));
    assert!(chain.has_field(HOST));
    assert!(!chain.has_field(PORT));
    assert_eq!(chain.get(PORT), None);
}
