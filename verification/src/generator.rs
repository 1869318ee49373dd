//! Derivation of the generated artifacts from a validated aggregate model.
//!
//! For each field the generator yields one state descriptor, one setter
//! capability and one getter capability (with its accessor name); across
//! fields it yields the transitive forwarding relation — one rule per ordered
//! pair of distinct fields — and the build gate. All names follow the
//! deterministic scheme of [`crate::names`].

use vstd::prelude::*;

use crate::model::AggregateDecl;
use crate::model::AggregateModel;
use crate::model::DataShape;
use crate::model::FieldDecl;
use crate::model::FieldModel;
use crate::model::FieldsShape;
use crate::model::GenError;
use crate::model::decl_error;
use crate::model::validate;
use crate::names::builder_state_name;
use crate::names::builder_state_name_spec;
use crate::names::builder_trait_name;
use crate::names::builder_trait_name_spec;
use crate::names::getter_method_name;
use crate::names::getter_method_name_spec;
use crate::names::getter_trait_name;
use crate::names::getter_trait_name_spec;
use crate::names::initial_state_name;
use crate::names::initial_state_name_spec;
use crate::names::module_name;
use crate::names::module_name_spec;
use crate::names::pascal_of;
use crate::names::setter_trait_name;
use crate::names::setter_trait_name_spec;
use crate::names::state_trait_name;
use crate::names::state_trait_name_spec;

verus! {

/// The artifacts derived for one field: the names of its state descriptor,
/// its setter capability, its getter capability and the getter's accessor,
/// alongside the field's own name and value type.
#[derive(Debug)]
pub struct FieldArtifacts {
    pub field_name: String,
    pub ty: String,
    pub state_name: String,
    pub setter_name: String,
    pub getter_name: String,
    pub getter_method: String,
}

/// What one field's artifacts promise: every name follows the deterministic
/// scheme, applied to this aggregate's name and this field's name.
pub open spec fn field_artifacts_match(
    aggregate: Seq<char>,
    name: Seq<char>,
    ty: Seq<char>,
    a: FieldArtifacts,
) -> bool {
    &&& a.field_name@ == name
    &&& a.ty@ == ty
    &&& a.state_name@ == builder_state_name_spec(aggregate, name)
    &&& a.setter_name@ == setter_trait_name_spec(aggregate, name)
    &&& a.getter_name@ == getter_trait_name_spec(aggregate, name)
    &&& a.getter_method@ == getter_method_name_spec(name)
}

/// Derive one field's state descriptor, setter capability and getter
/// capability names.
pub fn field_artifacts(aggregate: &str, field: &FieldModel) -> (r: FieldArtifacts)
    ensures
        field_artifacts_match(aggregate@, field.name@, field.ty@, r),
{
    FieldArtifacts {
        field_name: field.name.clone(),
        ty: field.ty.clone(),
        state_name: builder_state_name(aggregate, field.name.as_str()),
        setter_name: setter_trait_name(aggregate, field.name.as_str()),
        getter_name: getter_trait_name(aggregate, field.name.as_str()),
        getter_method: getter_method_name(field.name.as_str()),
    }
}

/// One forwarding rule: the state descriptor of the field at index `host`
/// re-exposes the getter capability of the (distinct) field at index `getter`
/// whenever the state it wraps already satisfies it.
#[derive(Clone, Copy, Debug, PartialEq, Eq, Structural)]
pub struct ForwardRule {
    pub host: usize,
    pub getter: usize,
}

/// The forwarding rule for one ordered pair of field indices.
pub open spec fn mk_rule(host: int, getter: int) -> ForwardRule {
    ForwardRule { host: host as usize, getter: getter as usize }
}

/// A rule is valid for an aggregate of `n` fields when both indices are in
/// range and differ: a state never forwards the field it itself sets.
pub open spec fn rule_valid(n: int, r: ForwardRule) -> bool {
    &&& 0 <= r.host < n
    &&& 0 <= r.getter < n
    &&& r.host != r.getter
}

/// The forwarding rules for one getter capability, hosted by the state
/// descriptors of the first `n_hosts` fields (the getter's own field hosts
/// none).
pub open spec fn hosts_for(getter: int, n_hosts: int) -> Seq<ForwardRule>
    decreases n_hosts,
{
    if n_hosts <= 0 {
        Seq::empty()
    } else {
        hosts_for(getter, n_hosts - 1) + (if n_hosts - 1 != getter {
            seq![mk_rule(n_hosts - 1, getter)]
        } else {
            Seq::<ForwardRule>::empty()
        })
    }
}

/// The forwarding rules of the first `n_getters` getter capabilities, each
/// hosted by all `n` state descriptors but its own.
pub open spec fn forward_rules_upto(n_getters: int, n: int) -> Seq<ForwardRule>
    decreases n_getters,
{
    if n_getters <= 0 {
        Seq::empty()
    } else {
        forward_rules_upto(n_getters - 1, n) + hosts_for(n_getters - 1, n)
    }
}

/// The whole forwarding relation of an aggregate with `n` fields: for every
/// getter capability, one rule per other field's state descriptor.
pub open spec fn forward_rules_spec(n: int) -> Seq<ForwardRule> {
    forward_rules_upto(n, n)
}

/// Emit the forwarding relation for an aggregate of `n` fields.
pub fn forwarding_rules(n: usize) -> (r: Vec<ForwardRule>)
    ensures
        r@ == forward_rules_spec(n as int),
{
    let mut r: Vec<ForwardRule> = Vec::new();
    let mut fi: usize = 0;
    while fi < n
        invariant
            0 <= fi <= n,
            r@ == forward_rules_upto(fi as int, n as int),
        decreases n - fi,
    {
        let mut gi: usize = 0;
        while gi < n
            invariant
                0 <= fi < n,
                0 <= gi <= n,
                r@ == forward_rules_upto(fi as int, n as int) + hosts_for(fi as int, gi as int),
            decreases n - gi,
        {
            let ghost prefix = forward_rules_upto(fi as int, n as int);
            let ghost before = hosts_for(fi as int, gi as int);
            if gi != fi {
                r.push(ForwardRule { host: gi, getter: fi });
                proof {
                    assert(hosts_for(fi as int, gi as int + 1) =~= before.push(
                        mk_rule(gi as int, fi as int),
                    ));
                    assert((prefix + before).push(mk_rule(gi as int, fi as int)) =~= prefix
                        + before.push(mk_rule(gi as int, fi as int)));
                }
            } else {
                proof {
                    assert(hosts_for(fi as int, gi as int + 1) =~= before);
                }
            }
            gi = gi + 1;
        }
        proof {
            assert(forward_rules_upto(fi as int + 1, n as int) == forward_rules_upto(
                fi as int,
                n as int,
            ) + hosts_for(fi as int, n as int));
        }
        fi = fi + 1;
    }
    proof {
        assert(forward_rules_upto(0, n as int) =~= Seq::<ForwardRule>::empty());
    }
    r
}

/// The rules hosted for one getter: one per other field, each naming that
/// getter, hosts in strictly increasing order.
proof fn lemma_hosts_for_shape(getter: int, n_hosts: int)
    requires
        0 <= getter <= usize::MAX,
        0 <= n_hosts <= usize::MAX,
    ensures
        hosts_for(getter, n_hosts).len() == if 0 <= getter < n_hosts {
            n_hosts - 1
        } else {
            n_hosts
        },
        forall|i: int|
            0 <= i < hosts_for(getter, n_hosts).len() ==> {
                &&& ((#[trigger] hosts_for(getter, n_hosts)[i]).getter as int) == getter
                &&& 0 <= (hosts_for(getter, n_hosts)[i].host as int) < n_hosts
                &&& (hosts_for(getter, n_hosts)[i].host as int) != getter
            },
        forall|i: int, j: int|
            0 <= i < j < hosts_for(getter, n_hosts).len()
                ==> (#[trigger] hosts_for(getter, n_hosts)[i]).host < (#[trigger] hosts_for(
                getter,
                n_hosts,
            )[j]).host,
        forall|g: int|
            0 <= g < n_hosts && g != getter && 0 <= getter ==> hosts_for(
                getter,
                n_hosts,
            ).contains(#[trigger] mk_rule(g, getter)),
    decreases n_hosts,
{
    if n_hosts > 0 {
        lemma_hosts_for_shape(getter, n_hosts - 1);
        let prev = hosts_for(getter, n_hosts - 1);
        let cur = hosts_for(getter, n_hosts);
        if n_hosts - 1 != getter {
            assert(cur =~= prev.push(mk_rule(n_hosts - 1, getter)));
            assert forall|g: int| 0 <= g < n_hosts && g != getter && 0 <= getter implies cur
                .contains(#[trigger] mk_rule(g, getter)) by {
                if g < n_hosts - 1 {
                    let k = choose|k: int| 0 <= k < prev.len() && prev[k] == mk_rule(g, getter);
                    assert(cur[k] == mk_rule(g, getter));
                } else {
                    assert(cur[cur.len() - 1] == mk_rule(g, getter));
                }
            }
        } else {
            assert(cur =~= prev);
        }
    }
}

/// The whole forwarding relation of the first `k` getters: every rule is
/// valid, the rules are pairwise distinct (strictly ordered by getter, then
/// host), every valid pair with getter below `k` occurs, and there are
/// exactly `k * (n - 1)` of them.
proof fn lemma_forward_upto_shape(k: int, n: int)
    requires
        0 <= k <= n <= usize::MAX,
    ensures
        forward_rules_upto(k, n).len() == k * (n - 1),
        forall|i: int|
            0 <= i < forward_rules_upto(k, n).len() ==> rule_valid(
                n,
                #[trigger] forward_rules_upto(k, n)[i],
            ) && (forward_rules_upto(k, n)[i].getter as int) < k,
        forall|i: int, j: int|
            0 <= i < j < forward_rules_upto(k, n).len() ==> (#[trigger] forward_rules_upto(k, n)[i])
                != (#[trigger] forward_rules_upto(k, n)[j]),
        forall|g: int, f: int|
            0 <= g < n && 0 <= f < k && g != f ==> forward_rules_upto(k, n).contains(
                #[trigger] mk_rule(g, f),
            ),
    decreases k,
{
    if k > 0 {
        lemma_forward_upto_shape(k - 1, n);
        lemma_hosts_for_shape(k - 1, n);
        let prev = forward_rules_upto(k - 1, n);
        let block = hosts_for(k - 1, n);
        let cur = forward_rules_upto(k, n);
        assert(cur == prev + block);
        assert(k * (n - 1) == (k - 1) * (n - 1) + (n - 1)) by (nonlinear_arith);
        assert forall|i: int, j: int| 0 <= i < j < cur.len() implies (#[trigger] cur[i])
            != (#[trigger] cur[j]) by {
            if i < prev.len() && j < prev.len() {
                assert(cur[i] == prev[i] && cur[j] == prev[j]);
            } else if i < prev.len() {
                // prev rules name getters below k - 1; block rules name k - 1
                assert(cur[i] == prev[i] && cur[j] == block[j - prev.len()]);
            } else {
                assert(cur[i] == block[i - prev.len()] && cur[j] == block[j - prev.len()]);
            }
        }
        assert forall|g: int, f: int| 0 <= g < n && 0 <= f < k && g != f implies cur.contains(
            #[trigger] mk_rule(g, f),
        ) by {
            if f < k - 1 {
                let idx = choose|idx: int| 0 <= idx < prev.len() && prev[idx] == mk_rule(g, f);
                assert(cur[idx] == mk_rule(g, f));
            } else {
                assert(block.contains(mk_rule(g, k - 1)));
                let idx = choose|idx: int| 0 <= idx < block.len() && block[idx] == mk_rule(g, f);
                assert(cur[prev.len() + idx] == mk_rule(g, f));
            }
        }
    }
}

/// The transitive forwarding relation, as a law: for an aggregate of `n`
/// fields it holds one rule for every ordered pair of distinct fields and
/// nothing else — `n * (n - 1)` pairwise-distinct rules, every one valid,
/// every valid pair present.
pub proof fn lemma_forwarding_relation(n: int)
    requires
        0 <= n <= usize::MAX,
    ensures
        forward_rules_spec(n).len() == n * (n - 1),
        forall|i: int|
            0 <= i < forward_rules_spec(n).len() ==> rule_valid(
                n,
                #[trigger] forward_rules_spec(n)[i],
            ),
        forall|i: int, j: int|
            0 <= i < j < forward_rules_spec(n).len() ==> (#[trigger] forward_rules_spec(n)[i])
                != (#[trigger] forward_rules_spec(n)[j]),
        forall|g: int, f: int|
            0 <= g < n && 0 <= f < n && g != f ==> forward_rules_spec(n).contains(
                #[trigger] mk_rule(g, f),
            ),
{
    lemma_forward_upto_shape(n, n);
}

/// Everything generated for one aggregate: the base marker and initial-state
/// names, the build gate's name, the grouping module's name, the per-field
/// artifacts in declaration order, and the forwarding relation over field
/// indices.
#[derive(Debug)]
pub struct Artifacts {
    pub aggregate_name: String,
    pub state_trait: String,
    pub initial_state: String,
    pub builder_trait: String,
    pub module: String,
    pub fields: Vec<FieldArtifacts>,
    pub forwardings: Vec<ForwardRule>,
}

/// The names of a field sequence, in order.
pub open spec fn names_of(fields: Seq<FieldModel>) -> Seq<Seq<char>> {
    fields.map_values(|f: FieldModel| f.name@)
}

/// The value types of a field sequence, in order.
pub open spec fn tys_of(fields: Seq<FieldModel>) -> Seq<Seq<char>> {
    fields.map_values(|f: FieldModel| f.ty@)
}

/// What the generated artifacts promise for an aggregate with the given name
/// and fields: every aggregate-level name follows the deterministic scheme,
/// there is exactly one artifact bundle per field — the i-th for the i-th
/// field — and the forwarding relation covers every ordered pair of distinct
/// field indices exactly once.
pub open spec fn artifacts_match(
    aggregate: Seq<char>,
    names: Seq<Seq<char>>,
    tys: Seq<Seq<char>>,
    a: Artifacts,
) -> bool {
    &&& a.aggregate_name@ == aggregate
    &&& a.state_trait@ == state_trait_name_spec(aggregate)
    &&& a.initial_state@ == initial_state_name_spec(aggregate)
    &&& a.builder_trait@ == builder_trait_name_spec(aggregate)
    &&& a.module@ == module_name_spec(aggregate)
    &&& a.fields@.len() == names.len()
    &&& forall|i: int|
        0 <= i < names.len() ==> field_artifacts_match(
            aggregate,
            names[i],
            tys[i],
            #[trigger] a.fields@[i],
        )
    &&& a.forwardings@ == forward_rules_spec(names.len() as int)
}

/// Derive every artifact of a validated aggregate model.
pub fn derive_artifacts(m: &AggregateModel) -> (r: Artifacts)
    ensures
        artifacts_match(m.name@, names_of(m.fields@), tys_of(m.fields@), r),
{
    let mut fields: Vec<FieldArtifacts> = Vec::new();
    let mut i: usize = 0;
    while i < m.fields.len()
        invariant
            0 <= i <= m.fields@.len(),
            fields@.len() == i,
            forall|j: int|
                0 <= j < i ==> field_artifacts_match(
                    m.name@,
                    m.fields@[j].name@,
                    m.fields@[j].ty@,
                    #[trigger] fields@[j],
                ),
        decreases m.fields@.len() - i,
    {
        fields.push(field_artifacts(m.name.as_str(), &m.fields[i]));
        i = i + 1;
    }
    let forwardings = forwarding_rules(m.fields.len());
    Artifacts {
        aggregate_name: m.name.clone(),
        state_trait: state_trait_name(m.name.as_str()),
        initial_state: initial_state_name(m.name.as_str()),
        builder_trait: builder_trait_name(m.name.as_str()),
        module: module_name(m.name.as_str()),
        fields,
        forwardings,
    }
}

/// The names of a declared field sequence, each of which is known to carry
/// one.
pub open spec fn decl_names_of(fields: Seq<FieldDecl>) -> Seq<Seq<char>> {
    fields.map_values(|f: FieldDecl| f.name.unwrap()@)
}

/// The value types of a declared field sequence, in order.
pub open spec fn decl_tys_of(fields: Seq<FieldDecl>) -> Seq<Seq<char>> {
    fields.map_values(|f: FieldDecl| f.ty@)
}

/// The whole generation for one declaration: validate its shape, then derive
/// every artifact. An unsupported shape aborts with its fixed diagnostic and
/// nothing is emitted; a supported one yields the full artifact family.
pub fn derive_checked_builder(decl: &AggregateDecl) -> (r: Result<Artifacts, GenError>)
    ensures
        match r {
            Ok(a) => {
                &&& decl_error(*decl) is None
                &&& decl.data matches DataShape::Record(FieldsShape::Named(fs))
                    && artifacts_match(decl.name@, decl_names_of(fs@), decl_tys_of(fs@), a)
            },
            Err(e) => decl_error(*decl) == Some(e),
        },
{
    let model = match validate(decl) {
        Ok(model) => model,
        Err(e) => {
            return Err(e);
        },
    };
    let artifacts = derive_artifacts(&model);
    proof {
        let fs = decl.data->Record_0->Named_0;
        assert(names_of(model.fields@) =~= decl_names_of(fs@));
        assert(tys_of(model.fields@) =~= decl_tys_of(fs@));
    }
    Ok(artifacts)
}

/// Sequences that differ stay different under a common prefix.
proof fn lemma_prefix_keeps_distinct(a: Seq<char>, x: Seq<char>, y: Seq<char>)
    requires
        x != y,
    ensures
        a + x != a + y,
{
    if a + x == a + y {
        assert((a + x).len() == (a + y).len());
        assert(x.len() == y.len());
        assert(x =~= y) by {
            assert forall|k: int| 0 <= k < x.len() implies x[k] == y[k] by {
                assert((a + x)[a.len() + k] == x[k]);
                assert((a + y)[a.len() + k] == y[k]);
            }
        }
    }
}

/// Sequences that differ stay different under a common suffix.
proof fn lemma_suffix_keeps_distinct(x: Seq<char>, y: Seq<char>, c: Seq<char>)
    requires
        x != y,
    ensures
        x + c != y + c,
{
    if x + c == y + c {
        assert((x + c).len() == (y + c).len());
        assert(x.len() == y.len());
        assert(x =~= y) by {
            assert forall|k: int| 0 <= k < x.len() implies x[k] == y[k] by {
                assert((x + c)[k] == x[k]);
                assert((y + c)[k] == y[k]);
            }
        }
    }
}

/// One capability pair per field, as a law: an aggregate with `n` fields gets
/// exactly `n` setter capabilities and `n` getter capabilities — the i-th
/// pair belonging to the i-th field — and when the declared field names are
/// pairwise distinct, so are the fields the pairs belong to. Whenever the
/// fields' Pascal-case renderings are also pairwise distinct, the setter and
/// getter capability names themselves are pairwise distinct. (The renderings
/// alone decide that: two raw names may share one rendering, in which case
/// the generated names collide and the host language's own name clash
/// rejects the output.)
pub proof fn lemma_one_capability_pair_per_field(
    aggregate: Seq<char>,
    names: Seq<Seq<char>>,
    tys: Seq<Seq<char>>,
    a: Artifacts,
)
    requires
        artifacts_match(aggregate, names, tys, a),
        forall|i: int, j: int| 0 <= i < j < names.len() ==> names[i] != names[j],
    ensures
        a.fields@.len() == names.len(),
        forall|i: int| 0 <= i < names.len() ==> (#[trigger] a.fields@[i]).field_name@ == names[i],
        forall|i: int, j: int|
            0 <= i < j < names.len() ==> (#[trigger] a.fields@[i]).field_name@
                != (#[trigger] a.fields@[j]).field_name@,
        (forall|i: int, j: int|
            0 <= i < j < names.len() ==> pascal_of(names[i]) != pascal_of(names[j])) ==> forall|
            i: int,
            j: int,
        |
            0 <= i < j < names.len() ==> {
                &&& (#[trigger] a.fields@[i]).setter_name@ != (#[trigger] a.fields@[j]).setter_name@
                &&& a.fields@[i].getter_name@ != a.fields@[j].getter_name@
            },
{
    if forall|i: int, j: int|
        0 <= i < j < names.len() ==> pascal_of(names[i]) != pascal_of(names[j]) {
        assert forall|i: int, j: int| 0 <= i < j < names.len() implies {
            &&& (#[trigger] a.fields@[i]).setter_name@ != (#[trigger] a.fields@[j]).setter_name@
            &&& a.fields@[i].getter_name@ != a.fields@[j].getter_name@
        } by {
            let base = aggregate + "Builder"@;
            assert(pascal_of(names[i]) != pascal_of(names[j]));
            lemma_prefix_keeps_distinct(base, pascal_of(names[i]), pascal_of(names[j]));
            lemma_suffix_keeps_distinct(
                base + pascal_of(names[i]),
                base + pascal_of(names[j]),
                "Setter"@,
            );
        }
    }
}

} // verus!
