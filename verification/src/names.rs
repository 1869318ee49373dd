//! Deterministic naming of every generated artifact.
//!
//! Each name is derived purely from the aggregate's name and a field's name,
//! so that diagnostics and documentation that mention a generated identifier
//! are reproducible across runs.

use vstd::prelude::*;

verus! {

/// The Pascal-case rendering of an identifier, as `convert_case` computes it.
pub uninterp spec fn pascal_of(s: Seq<char>) -> Seq<char>;

/// The snake-case rendering of an identifier, as `convert_case` computes it.
pub uninterp spec fn snake_of(s: Seq<char>) -> Seq<char>;

/// Relies on convert_case's `Casing::to_case` with `Case::Pascal`: the result
/// is a pure function of the input characters (splitting on the crate's
/// default boundaries).
#[verifier::external_body]
pub(crate) fn to_pascal(s: &str) -> (r: String)
    ensures
        r@ == pascal_of(s@),
{
    convert_case::Casing::to_case(&s, convert_case::Case::Pascal)
}

/// Relies on convert_case's `Casing::to_case` with `Case::Snake`: the result
/// is a pure function of the input characters (splitting on the crate's
/// default boundaries).
#[verifier::external_body]
pub(crate) fn to_snake(s: &str) -> (r: String)
    ensures
        r@ == snake_of(s@),
{
    convert_case::Casing::to_case(&s, convert_case::Case::Snake)
}

/// The name of the base marker capability: `<Aggregate>BuilderState`.
pub open spec fn state_trait_name_spec(aggregate: Seq<char>) -> Seq<char> {
    aggregate + "BuilderState"@
}

pub fn state_trait_name(aggregate: &str) -> (r: String)
    ensures
        r@ == state_trait_name_spec(aggregate@),
{
    aggregate.to_owned().concat("BuilderState")
}

/// The name of the zero-field root state: `<Aggregate>BuilderInitialState`.
pub open spec fn initial_state_name_spec(aggregate: Seq<char>) -> Seq<char> {
    aggregate + "BuilderInitialState"@
}

pub fn initial_state_name(aggregate: &str) -> (r: String)
    ensures
        r@ == initial_state_name_spec(aggregate@),
{
    aggregate.to_owned().concat("BuilderInitialState")
}

/// The name of a field's state descriptor:
/// `<Aggregate>Builder<PascalCase(field)>State`.
pub open spec fn builder_state_name_spec(aggregate: Seq<char>, field: Seq<char>) -> Seq<char> {
    aggregate + "Builder"@ + pascal_of(field) + "State"@
}

pub fn builder_state_name(aggregate: &str, field: &str) -> (r: String)
    ensures
        r@ == builder_state_name_spec(aggregate@, field@),
{
    let pascal = to_pascal(field);
    aggregate.to_owned().concat("Builder").concat(pascal.as_str()).concat("State")
}

/// The name of a field's setter capability:
/// `<Aggregate>Builder<PascalCase(field)>Setter`.
pub open spec fn setter_trait_name_spec(aggregate: Seq<char>, field: Seq<char>) -> Seq<char> {
    aggregate + "Builder"@ + pascal_of(field) + "Setter"@
}

pub fn setter_trait_name(aggregate: &str, field: &str) -> (r: String)
    ensures
        r@ == setter_trait_name_spec(aggregate@, field@),
{
    let pascal = to_pascal(field);
    aggregate.to_owned().concat("Builder").concat(pascal.as_str()).concat("Setter")
}

/// The name of a field's getter capability:
/// `<Aggregate>Builder<PascalCase(field)>`.
pub open spec fn getter_trait_name_spec(aggregate: Seq<char>, field: Seq<char>) -> Seq<char> {
    aggregate + "Builder"@ + pascal_of(field)
}

pub fn getter_trait_name(aggregate: &str, field: &str) -> (r: String)
    ensures
        r@ == getter_trait_name_spec(aggregate@, field@),
{
    let pascal = to_pascal(field);
    aggregate.to_owned().concat("Builder").concat(pascal.as_str())
}

/// The accessor of a field's getter capability: `get_<field>`.
pub open spec fn getter_method_name_spec(field: Seq<char>) -> Seq<char> {
    "get_"@ + field
}

pub fn getter_method_name(field: &str) -> (r: String)
    ensures
        r@ == getter_method_name_spec(field@),
{
    "get_".to_owned().concat(field)
}

/// The name of the build gate: `<Aggregate>Builder`, whose one operation
/// assembles the aggregate once every getter capability is satisfied.
pub open spec fn builder_trait_name_spec(aggregate: Seq<char>) -> Seq<char> {
    aggregate + "Builder"@
}

pub fn builder_trait_name(aggregate: &str) -> (r: String)
    ensures
        r@ == builder_trait_name_spec(aggregate@),
{
    aggregate.to_owned().concat("Builder")
}

/// The name of the module that groups the per-field artifacts:
/// `<snake_case(Aggregate)>_builder`.
pub open spec fn module_name_spec(aggregate: Seq<char>) -> Seq<char> {
    snake_of(aggregate) + "_builder"@
}

pub fn module_name(aggregate: &str) -> (r: String)
    ensures
        r@ == module_name_spec(aggregate@),
{
    let snake = to_snake(aggregate);
    snake.concat("_builder")
}

} // verus!
