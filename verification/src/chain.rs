//! Construction chains and the build gate.
//!
//! A chain records the setter calls a consumer of the generated API has made,
//! in order: one link per call, newest last, never mutated. A field's getter
//! capability is satisfied exactly when some link set that field, and it
//! yields the value of the newest such link — last write wins. The build gate
//! assembles the aggregate once every field's getter is satisfied, and
//! otherwise reports the first unset field in declaration order.

use vstd::prelude::*;

use crate::model::AggregateModel;

verus! {

/// A field's value in the abstract: text, a flag, or an integer.
pub enum FieldValue {
    Text(Seq<char>),
    Flag(bool),
    Int(u64),
}

/// One link of a chain, in the abstract: which field (by declaration index)
/// was set, and to what.
pub struct EventSpec {
    pub field: nat,
    pub value: FieldValue,
}

/// A chain satisfies a field's getter capability exactly when some link set
/// that field.
pub open spec fn chain_has(c: Seq<EventSpec>, f: nat) -> bool {
    exists|i: int| 0 <= i < c.len() && (#[trigger] c[i]).field == f
}

/// What reading a field through its getter yields: the value of the newest
/// link that set it, if any — the outermost link resolves its own field
/// directly and forwards every other.
pub open spec fn lookup(c: Seq<EventSpec>, f: nat) -> Option<FieldValue>
    decreases c.len(),
{
    if c.len() == 0 {
        None
    } else if c.last().field == f {
        Some(c.last().value)
    } else {
        lookup(c.drop_last(), f)
    }
}

/// How many links of a chain set a given field.
pub open spec fn count_field(c: Seq<EventSpec>, f: nat) -> nat
    decreases c.len(),
{
    if c.len() == 0 {
        0
    } else {
        count_field(c.drop_last(), f) + if c.last().field == f {
            1nat
        } else {
            0nat
        }
    }
}

/// A getter is satisfied exactly when the read yields a value.
pub proof fn lemma_has_iff_lookup(c: Seq<EventSpec>, f: nat)
    ensures
        chain_has(c, f) <==> lookup(c, f) is Some,
    decreases c.len(),
{
    if c.len() > 0 {
        lemma_has_iff_lookup(c.drop_last(), f);
        if c.last().field == f {
            assert(chain_has(c, f));
        } else {
            if chain_has(c.drop_last(), f) {
                let i = choose|i: int|
                    0 <= i < c.drop_last().len() && c.drop_last()[i].field == f;
                assert(c[i].field == f);
            }
            if chain_has(c, f) {
                let i = choose|i: int| 0 <= i < c.len() && c[i].field == f;
                assert(c.drop_last()[i].field == f);
            }
        }
    }
}

/// The link recording that a field was set to a value.
pub open spec fn ev(f: nat, v: FieldValue) -> EventSpec {
    EventSpec { field: f, value: v }
}

/// The initial state satisfies no getter capability: a required field truly
/// requires at least one explicit set.
pub proof fn lemma_initial_satisfies_nothing(f: nat)
    ensures
        !chain_has(Seq::<EventSpec>::empty(), f),
        lookup(Seq::<EventSpec>::empty(), f) is None,
{
}

/// No link of a chain sets a field that none of its links counts for.
pub proof fn lemma_count_zero(c: Seq<EventSpec>, f: nat)
    requires
        count_field(c, f) == 0,
    ensures
        forall|i: int| 0 <= i < c.len() ==> (#[trigger] c[i]).field != f,
    decreases c.len(),
{
    if c.len() > 0 {
        lemma_count_zero(c.drop_last(), f);
        assert(forall|i: int|
            0 <= i < c.len() - 1 ==> (#[trigger] c[i]) == c.drop_last()[i]);
    }
}

/// When exactly one link sets a field, reading the field yields that link's
/// value, wherever the link stands in the chain.
pub proof fn lemma_unique_set_lookup(c: Seq<EventSpec>, f: nat, i: int)
    requires
        0 <= i < c.len(),
        c[i].field == f,
        count_field(c, f) == 1,
    ensures
        lookup(c, f) == Some(c[i].value),
    decreases c.len(),
{
    if c.last().field == f {
        lemma_count_zero(c.drop_last(), f);
        if i < c.len() - 1 {
            assert(c.drop_last()[i].field == f);
        }
        assert(i == c.len() - 1);
    } else {
        assert(i < c.len() - 1);
        assert(c.drop_last()[i] == c[i]);
        lemma_unique_set_lookup(c.drop_last(), f, i);
    }
}

/// Last write wins, as a law: after a chain sets field `f` to `v1`, then sets
/// any other fields in any order, then sets `f` to `v2`, reading `f` yields
/// `v2`.
pub proof fn lemma_last_write_wins(
    c: Seq<EventSpec>,
    mid: Seq<EventSpec>,
    f: nat,
    v1: FieldValue,
    v2: FieldValue,
)
    requires
        forall|i: int| 0 <= i < mid.len() ==> (#[trigger] mid[i]).field != f,
    ensures
        lookup(c.push(ev(f, v1)) + mid + seq![ev(f, v2)], f) == Some(v2),
{
    let s = c.push(ev(f, v1)) + mid + seq![ev(f, v2)];
    assert(s.last() == ev(f, v2));
}

/// Idempotent re-set, as a law: setting a field to the same value twice in a
/// row is indistinguishable — under every field's getter — from setting it
/// once.
pub proof fn lemma_idempotent_reset(c: Seq<EventSpec>, f: nat, v: FieldValue)
    ensures
        forall|g: nat|
            lookup(c.push(ev(f, v)).push(ev(f, v)), g) == #[trigger] lookup(c.push(ev(f, v)), g),
{
    let once = c.push(ev(f, v));
    let twice = once.push(ev(f, v));
    assert(twice.drop_last() =~= once);
    assert forall|g: nat| lookup(twice, g) == #[trigger] lookup(once, g) by {
        if g != f {
            assert(lookup(twice, g) == lookup(once, g));
        }
    }
}

/// Order independence, as a law: two chains that make the same setter calls
/// in different orders, each field set exactly once, yield the same value
/// under every such field's getter — so the aggregates they build are
/// identical.
pub proof fn lemma_order_independence(c1: Seq<EventSpec>, c2: Seq<EventSpec>, n: nat)
    requires
        c1.to_multiset() == c2.to_multiset(),
        forall|f: nat| f < n ==> count_field(c1, f) == 1 && count_field(c2, f) == 1,
    ensures
        forall|f: nat| f < n ==> lookup(c1, f) == lookup(c2, f),
{
    broadcast use vstd::seq_lib::group_to_multiset_ensures;

    assert forall|f: nat| f < n implies lookup(c1, f) == lookup(c2, f) by {
        lemma_has_iff_lookup(c1, f);
        if count_field(c1, f) == 1 {
            let i1 = lemma_some_set_index(c1, f);
            let e = c1[i1];
            assert(c1.contains(e));
            assert(c1.to_multiset().count(e) > 0);
            assert(c2.to_multiset().count(e) > 0);
            assert(c2.contains(e));
            let i2 = choose|i: int| 0 <= i < c2.len() && c2[i] == e;
            lemma_unique_set_lookup(c1, f, i1);
            lemma_unique_set_lookup(c2, f, i2);
        }
    }
}

/// A field counted at least once is set by some link.
proof fn lemma_some_set_index(c: Seq<EventSpec>, f: nat) -> (i: int)
    requires
        count_field(c, f) >= 1,
    ensures
        0 <= i < c.len(),
        c[i].field == f,
    decreases c.len(),
{
    if c.last().field == f {
        c.len() - 1
    } else {
        let i = lemma_some_set_index(c.drop_last(), f);
        assert(c[i] == c.drop_last()[i]);
        i
    }
}

/// Appending links that set other fields changes neither whether a field's
/// getter is satisfied nor what it yields: the forwarding rule, as a law.
pub proof fn lemma_forwarding_preserves_lookup(c: Seq<EventSpec>, more: Seq<EventSpec>, f: nat)
    requires
        forall|i: int| 0 <= i < more.len() ==> (#[trigger] more[i]).field != f,
    ensures
        lookup(c + more, f) == lookup(c, f),
    decreases more.len(),
{
    if more.len() == 0 {
        assert(c + more =~= c);
    } else {
        let s = c + more;
        assert(s.last() == more.last());
        assert(s.drop_last() =~= c + more.drop_last());
        lemma_forwarding_preserves_lookup(c, more.drop_last(), f);
    }
}

/// A field's value, as a consumer of the generated API supplies it.
#[derive(Debug, PartialEq, Eq)]
pub enum Value {
    Text(String),
    Flag(bool),
    Int(u64),
}

impl View for Value {
    type V = FieldValue;

    open spec fn view(&self) -> FieldValue {
        match self {
            Value::Text(s) => FieldValue::Text(s@),
            Value::Flag(b) => FieldValue::Flag(*b),
            Value::Int(i) => FieldValue::Int(*i),
        }
    }
}

impl Clone for Value {
    fn clone(&self) -> (r: Value)
        ensures
            r == *self,
    {
        match self {
            Value::Text(s) => Value::Text(s.clone()),
            Value::Flag(b) => Value::Flag(*b),
            Value::Int(i) => Value::Int(*i),
        }
    }
}

/// One setter call: the field it set, by declaration index, and the value.
#[derive(Debug, PartialEq, Eq)]
pub struct SetEvent {
    pub field: usize,
    pub value: Value,
}

impl View for SetEvent {
    type V = EventSpec;

    open spec fn view(&self) -> EventSpec {
        EventSpec { field: self.field as nat, value: self.value@ }
    }
}

/// A construction chain: the setter calls made so far, in order, newest last.
/// Each setter call yields a new chain that wraps the one before; no link is
/// ever mutated. Its concrete shape stays hidden: callers reason through the
/// relational contracts alone.
#[derive(Debug)]
pub struct Chain {
    events: Vec<SetEvent>,
}

impl View for Chain {
    type V = Seq<EventSpec>;

    closed spec fn view(&self) -> Seq<EventSpec> {
        self.events@.map_values(|e: SetEvent| e@)
    }
}

/// The rejection of a build attempted before every field was set: it names
/// the first unset field in declaration order.
#[derive(Debug, PartialEq, Eq)]
pub enum BuildError {
    MissingField(String),
}

/// The first field index below `n`, counting from `from`, whose getter the
/// chain does not satisfy.
pub open spec fn first_missing_from(c: Seq<EventSpec>, n: int, from: int) -> Option<int>
    decreases n - from,
{
    if from < 0 || from >= n {
        None
    } else if !chain_has(c, from as nat) {
        Some(from)
    } else {
        first_missing_from(c, n, from + 1)
    }
}

/// The first of the `n` declared fields whose getter the chain does not
/// satisfy, if any: the field a failed build names.
pub open spec fn first_missing(c: Seq<EventSpec>, n: int) -> Option<int> {
    first_missing_from(c, n, 0)
}

/// A field that is unset while every field before it is set is the first
/// missing one.
proof fn lemma_first_missing_at(c: Seq<EventSpec>, n: int, from: int, f: int)
    requires
        0 <= from <= f < n,
        !chain_has(c, f as nat),
        forall|g: int| from <= g < f ==> #[trigger] chain_has(c, g as nat),
    ensures
        first_missing_from(c, n, from) == Some(f),
    decreases f - from,
{
    if from < f {
        lemma_first_missing_at(c, n, from + 1, f);
    }
}

/// When every field is set, none is missing.
proof fn lemma_none_missing(c: Seq<EventSpec>, n: int, from: int)
    requires
        forall|g: int| from <= g < n ==> #[trigger] chain_has(c, g as nat),
    ensures
        first_missing_from(c, n, from) is None,
    decreases n - from,
{
    if 0 <= from < n {
        lemma_none_missing(c, n, from + 1);
    }
}

/// When none is missing, every field is set.
proof fn lemma_none_missing_converse(c: Seq<EventSpec>, n: int, from: int)
    requires
        0 <= from,
        first_missing_from(c, n, from) is None,
    ensures
        forall|g: int| from <= g < n ==> #[trigger] chain_has(c, g as nat),
    decreases n - from,
{
    if from < n {
        lemma_none_missing_converse(c, n, from + 1);
    }
}

/// Insufficiency rejection, as a law: the build gate accepts a chain exactly
/// when every declared field's getter capability is satisfied, so a chain
/// missing at least one required field's setter cannot build.
pub proof fn lemma_build_accepted_iff_complete(c: Seq<EventSpec>, n: int)
    requires
        0 <= n,
    ensures
        first_missing(c, n) is None <==> (forall|g: int|
            0 <= g < n ==> #[trigger] chain_has(c, g as nat)),
{
    if first_missing(c, n) is None {
        lemma_none_missing_converse(c, n, 0);
    } else {
        if forall|g: int| 0 <= g < n ==> #[trigger] chain_has(c, g as nat) {
            lemma_none_missing(c, n, 0);
        }
    }
}

impl Chain {
    /// The initial state: no field set, no getter capability satisfied.
    pub fn new() -> (r: Chain)
        ensures
            r@ == Seq::<EventSpec>::empty(),
    {
        let r = Chain { events: Vec::new() };
        proof {
            assert(r@ =~= Seq::<EventSpec>::empty());
        }
        r
    }

    /// A setter call: always available, whatever was set before. It consumes
    /// the chain and yields a new one with one more link; nothing already
    /// recorded changes.
    pub fn set(self, field: usize, value: Value) -> (r: Chain)
        ensures
            r@ == self@.push(ev(field as nat, value@)),
    {
        let ghost before = self@;
        let mut events = self.events;
        events.push(SetEvent { field, value });
        let r = Chain { events };
        proof {
            assert(r@ =~= before.push(ev(field as nat, r.events@.last().value@)));
        }
        r
    }

    /// Whether this chain satisfies the getter capability of the field at the
    /// given declaration index.
    pub fn has_field(&self, f: usize) -> (r: bool)
        ensures
            r == chain_has(self@, f as nat),
    {
        let mut i: usize = 0;
        while i < self.events.len()
            invariant
                0 <= i <= self.events@.len(),
                self@.len() == self.events@.len(),
                forall|j: int| 0 <= j < self@.len() ==> #[trigger] self@[j] == self.events@[j]@,
                forall|j: int| 0 <= j < i ==> (#[trigger] self@[j]).field != f as nat,
            decreases self.events@.len() - i,
        {
            if self.events[i].field == f {
                proof {
                    assert(self@[i as int].field == f as nat);
                }
                return true;
            }
            i = i + 1;
        }
        false
    }

    /// Read a field through its getter capability: the value of the newest
    /// link that set it, or nothing when no link did.
    pub fn get(&self, f: usize) -> (r: Option<Value>)
        ensures
            match r {
                Some(v) => lookup(self@, f as nat) == Some(v@),
                None => lookup(self@, f as nat) is None,
            },
    {
        let mut i: usize = self.events.len();
        proof {
            assert(self@.take(self.events@.len() as int) =~= self@);
        }
        while i > 0
            invariant
                0 <= i <= self.events@.len(),
                self@.len() == self.events@.len(),
                forall|j: int| 0 <= j < self@.len() ==> #[trigger] self@[j] == self.events@[j]@,
                lookup(self@, f as nat) == lookup(self@.take(i as int), f as nat),
            decreases i,
        {
            let ghost prefix = self@.take(i as int);
            proof {
                assert(prefix.last() == self@[i - 1]);
                assert(prefix.drop_last() =~= self@.take(i - 1));
            }
            if self.events[i - 1].field == f {
                let v = self.events[i - 1].value.clone();
                proof {
                    assert(lookup(prefix, f as nat) == Some(self@[i - 1].value));
                }
                return Some(v);
            }
            i = i - 1;
        }
        proof {
            assert(self@.take(0) =~= Seq::<EventSpec>::empty());
        }
        None
    }

    /// The build gate, in its runtime-checked form: when every declared
    /// field's getter capability is satisfied, it reads every field in
    /// declaration order and yields the assembled values — each the last
    /// value set for its field. Otherwise it rejects the build, naming the
    /// first unset field in declaration order, and assembles nothing.
    pub fn build(&self, m: &AggregateModel) -> (r: Result<Vec<Value>, BuildError>)
        ensures
            (r is Ok) <==> first_missing(self@, m.fields@.len() as int) is None,
            match r {
                Ok(vals) => {
                    &&& vals@.len() == m.fields@.len()
                    &&& forall|f: int|
                        0 <= f < vals@.len() ==> lookup(self@, f as nat) == Some(
                            (#[trigger] vals@[f])@,
                        )
                },
                Err(e) => {
                    &&& e matches BuildError::MissingField(name)
                    &&& first_missing(self@, m.fields@.len() as int) matches Some(f)
                        && name@ == m.fields@[f].name@ && !chain_has(self@, f as nat)
                },
            },
    {
        let n = m.fields.len();
        let mut f: usize = 0;
        while f < n
            invariant
                0 <= f <= n,
                n == m.fields@.len(),
                forall|g: int| 0 <= g < f ==> #[trigger] chain_has(self@, g as nat),
            decreases n - f,
        {
            if !self.has_field(f) {
                proof {
                    lemma_first_missing_at(self@, n as int, 0, f as int);
                }
                return Err(BuildError::MissingField(m.fields[f].name.clone()));
            }
            f = f + 1;
        }
        proof {
            lemma_none_missing(self@, n as int, 0);
        }
        let mut vals: Vec<Value> = Vec::new();
        let mut f: usize = 0;
        while f < n
            invariant
                0 <= f <= n,
                n == m.fields@.len(),
                vals@.len() == f,
                forall|g: int| 0 <= g < n ==> #[trigger] chain_has(self@, g as nat),
                forall|g: int|
                    0 <= g < f ==> lookup(self@, g as nat) == Some((#[trigger] vals@[g])@),
            decreases n - f,
        {
            let v = match self.get(f) {
                Some(v) => v,
                None => {
                    proof {
                        let g = f as int;
                        assert(0 <= g < n);
                        assert(chain_has(self@, g as nat));
                        assert(g as nat == f as nat);
                        lemma_has_iff_lookup(self@, f as nat);
                    }
                    vstd::pervasive::unreached()
                },
            };
            vals.push(v);
            f = f + 1;
        }
        Ok(vals)
    }
}

} // verus!
