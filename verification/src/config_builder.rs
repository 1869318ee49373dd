//! A worked example of the generated API: a checked builder for a small
//! `Config` aggregate, written out by hand exactly as the generator shapes it.
//!
//! Every construction state carries a ghost chain of the setter calls that
//! produced it. Setters are universal — any state may invoke any of them, so
//! calls may come in any order and a field may be re-set freely — while each
//! getter capability is satisfied directly by the state that set its field
//! last, and forwarded through every other state. The build gate is only
//! callable on states satisfying every getter capability, so an incomplete
//! chain is rejected before the program ever runs.

use vstd::prelude::*;

use crate::chain::EventSpec;
use crate::chain::FieldValue;
use crate::chain::ev;
use crate::chain::lookup;

verus! {

/// Declaration index of the `enable_logging` field.
pub const LOGGING_FIELD: usize = 0;

/// Declaration index of the `enable_tracing` field.
pub const TRACING_FIELD: usize = 1;

/// The base marker capability: every reachable construction state carries it,
/// and knows the chain of setter calls that produced it.
pub trait State: Sized {
    spec fn chain(&self) -> Seq<EventSpec>;
}

/// The unique zero-field root state: it satisfies no getter capability.
#[derive(Debug)]
pub struct Initial;

impl State for Initial {
    closed spec fn chain(&self) -> Seq<EventSpec> {
        Seq::empty()
    }
}

/// The state descriptor recording that `enable_logging` was set, wrapping
/// whatever state was known before. It exclusively owns its predecessor and
/// its own value; neither is ever mutated.
#[derive(Debug)]
pub struct LoggingEnabled<S: State> {
    prev: S,
    level: String,
}

impl<S: State> State for LoggingEnabled<S> {
    closed spec fn chain(&self) -> Seq<EventSpec> {
        self.prev.chain().push(ev(LOGGING_FIELD as nat, FieldValue::Text(self.level@)))
    }
}

/// The state descriptor recording that `enable_tracing` was set.
#[derive(Debug)]
pub struct TracingEnabled<S: State> {
    prev: S,
    enabled: bool,
}

impl<S: State> State for TracingEnabled<S> {
    closed spec fn chain(&self) -> Seq<EventSpec> {
        self.prev.chain().push(ev(TRACING_FIELD as nat, FieldValue::Flag(self.enabled)))
    }
}

/// The setter capability of `enable_logging`: available on every state, so
/// setting is never blocked by prior history and re-setting is always
/// allowed. It adds one link and changes nothing already recorded.
pub trait EnableLogging: State {
    fn enable_logging(self, level: String) -> (r: LoggingEnabled<Self>)
        ensures
            r.chain() == self.chain().push(ev(LOGGING_FIELD as nat, FieldValue::Text(level@))),
    ;
}

impl<S: State> EnableLogging for S {
    fn enable_logging(self, level: String) -> (r: LoggingEnabled<S>) {
        LoggingEnabled { prev: self, level }
    }
}

/// The setter capability of `enable_tracing`: universal, like every setter.
pub trait EnableTracing: State {
    fn enable_tracing(self, enabled: bool) -> (r: TracingEnabled<Self>)
        ensures
            r.chain() == self.chain().push(ev(TRACING_FIELD as nat, FieldValue::Flag(enabled))),
    ;
}

impl<S: State> EnableTracing for S {
    fn enable_tracing(self, enabled: bool) -> (r: TracingEnabled<S>) {
        TracingEnabled { prev: self, enabled }
    }
}

/// The getter capability of `enable_logging`: satisfied by any state whose
/// chain set the field, it yields the value of the newest link that did.
pub trait Logging: State {
    fn logging(&self) -> (r: String)
        ensures
            lookup(self.chain(), LOGGING_FIELD as nat) == Some(FieldValue::Text(r@)),
    ;
}

/// Direct satisfaction: the state that set `enable_logging` returns its own
/// stored value.
impl<S: State> Logging for LoggingEnabled<S> {
    fn logging(&self) -> (r: String) {
        self.level.clone()
    }
}

/// Transitive forwarding: a state that set some other field satisfies
/// `Logging` whenever the state it wraps does, by delegation.
impl<S: State + Logging> Logging for TracingEnabled<S> {
    fn logging(&self) -> (r: String) {
        let r = self.prev.logging();
        proof {
            assert(self.chain().drop_last() =~= self.prev.chain());
        }
        r
    }
}

/// The getter capability of `enable_tracing`.
pub trait Tracing: State {
    fn tracing(&self) -> (r: bool)
        ensures
            lookup(self.chain(), TRACING_FIELD as nat) == Some(FieldValue::Flag(r)),
    ;
}

/// Direct satisfaction for `enable_tracing`.
impl<S: State> Tracing for TracingEnabled<S> {
    fn tracing(&self) -> (r: bool) {
        self.enabled
    }
}

/// Transitive forwarding of `Tracing` through a state that set
/// `enable_logging`.
impl<S: State + Tracing> Tracing for LoggingEnabled<S> {
    fn tracing(&self) -> (r: bool) {
        let r = self.prev.tracing();
        proof {
            assert(self.chain().drop_last() =~= self.prev.chain());
        }
        r
    }
}

/// The example aggregate under construction.
#[derive(Debug, Default)]
pub struct Config {
    pub enable_logging: String,
    pub enable_tracing: bool,
    pub default_value: u8,
}

impl Config {
    /// Start a construction chain at the initial state.
    pub fn builder() -> (r: Initial)
        ensures
            r.chain() == Seq::<EventSpec>::empty(),
    {
        Initial
    }
}

/// The build gate: reachable only from states that satisfy every field's
/// getter capability. It reads each field through its getter — so each comes
/// out as the last value set for it, whatever the call order — and assembles
/// the aggregate.
pub trait Builder: State + Logging + Tracing {
    fn build(self) -> (r: Config)
        ensures
            lookup(self.chain(), LOGGING_FIELD as nat) == Some(
                FieldValue::Text(r.enable_logging@),
            ),
            lookup(self.chain(), TRACING_FIELD as nat) == Some(FieldValue::Flag(r.enable_tracing)),
            r.default_value == 0,
    ;
}

impl<S: State + Logging + Tracing> Builder for S {
    fn build(self) -> (r: Config) {
        Config {
            enable_logging: self.logging(),
            enable_tracing: self.tracing(),
            default_value: 0,
        }
    }
}

/// A chain interrupted part-way: two fields set, one of them twice, handed
/// onward under the base marker alone, its depth and shape hidden. Its chain
/// is exactly the three links made here, so a later read sees logging "Warn"
/// (the earlier "Debug" is shadowed) and tracing `true`.
pub fn partially_builder() -> (r: impl State)
    ensures
        r.chain() == Seq::<EventSpec>::empty().push(
            ev(LOGGING_FIELD as nat, FieldValue::Text("Debug"@)),
        ).push(ev(TRACING_FIELD as nat, FieldValue::Flag(true))).push(
            ev(LOGGING_FIELD as nat, FieldValue::Text("Warn"@)),
        ),
        lookup(r.chain(), LOGGING_FIELD as nat) == Some(FieldValue::Text("Warn"@)),
        lookup(r.chain(), TRACING_FIELD as nat) == Some(FieldValue::Flag(true)),
{
    let b1 = Config::builder().enable_logging("Debug".to_owned());
    let b2 = b1.enable_tracing(true);
    let b = b2.enable_logging("Warn".to_owned());
    proof {
        assert(b.chain().drop_last() =~= b2.chain());
        assert(lookup(b2.chain(), TRACING_FIELD as nat) == Some(FieldValue::Flag(true)));
    }
    b
}

/// Capability-bound hand-off: a chain typed only by the base marker and the
/// tracing getter — a strict subset of its capabilities — can still invoke
/// any setter, and can read the fields its bound declares. The concrete chain
/// shape stays hidden behind the bound.
pub fn handoff_set_logging<S: State + Tracing>(s: S, level: String) -> (r: (
    LoggingEnabled<S>,
    bool,
))
    ensures
        r.0.chain() == s.chain().push(ev(LOGGING_FIELD as nat, FieldValue::Text(level@))),
        lookup(s.chain(), TRACING_FIELD as nat) == Some(FieldValue::Flag(r.1)),
{
    let t = s.tracing();
    (s.enable_logging(level), t)
}

} // verus!
