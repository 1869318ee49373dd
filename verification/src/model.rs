//! The aggregate model and the shape validation in front of the generator.
//!
//! An incoming declaration (the aggregate's name plus the shape of its data)
//! is either rejected with one fixed diagnostic, or normalized into an
//! [`AggregateModel`]: the name and the ordered list of named, typed fields
//! from which every artifact is derived.

use vstd::prelude::*;

verus! {

/// One declared field as it arrives from the front end: its name, if it has
/// one (a tuple-positioned field has none), and its value type, rendered as
/// text.
#[derive(Debug)]
pub struct FieldDecl {
    pub name: Option<String>,
    pub ty: String,
}

/// The shape of a record declaration's field list.
#[derive(Debug)]
pub enum FieldsShape {
    /// Curly-brace fields; the only shape the generator accepts.
    Named(Vec<FieldDecl>),
    /// Tuple-style (parenthesized, unnamed) fields.
    Unnamed,
    /// No field list at all.
    Unit,
}

/// The shape of the declared data the derive was attached to.
#[derive(Debug)]
pub enum DataShape {
    /// A product type (a struct), with its field list's shape.
    Record(FieldsShape),
    /// A sum type (an enum).
    Sum,
    /// An untagged union.
    Union,
}

/// An aggregate declaration as handed in by the front end, before validation.
#[derive(Debug)]
pub struct AggregateDecl {
    pub name: String,
    pub data: DataShape,
}

/// One normalized field: its name and its value type. Leaf data, no behavior.
#[derive(Debug)]
pub struct FieldModel {
    pub name: String,
    pub ty: String,
}

/// The validated target of generation: the aggregate's name and its ordered
/// sequence of fields. Immutable once derived.
#[derive(Debug)]
pub struct AggregateModel {
    pub name: String,
    pub fields: Vec<FieldModel>,
}

/// The fixed, distinguishable rejections of unsupported declaration shapes.
/// Each aborts the whole generation: no partial output is ever emitted.
#[derive(Clone, Copy, Debug, PartialEq, Eq, Structural)]
pub enum GenError {
    /// The record has tuple-style fields.
    TupleStruct,
    /// The record declares no fields, whether it has no field list at all or
    /// an empty one.
    UnitStruct,
    /// The declaration is a sum type.
    Enum,
    /// The declaration is an untagged union.
    Union,
    /// A field has no name.
    NamelessField,
}

/// The fixed diagnostic text of each rejection.
pub open spec fn message_spec(e: GenError) -> Seq<char> {
    match e {
        GenError::TupleStruct => "CheckedBuilder isn't support tuple structs"@,
        GenError::UnitStruct => "CheckedBuilder isn't support unit structs"@,
        GenError::Enum => "CheckedBuilder isn't support enums"@,
        GenError::Union => "CheckedBuilder isn't support unions"@,
        GenError::NamelessField => "CheckedBuilder don't support nameless fields"@,
    }
}

impl GenError {
    pub fn message(&self) -> (r: &'static str)
        ensures
            r@ == message_spec(*self),
    {
        match self {
            GenError::TupleStruct => "CheckedBuilder isn't support tuple structs",
            GenError::UnitStruct => "CheckedBuilder isn't support unit structs",
            GenError::Enum => "CheckedBuilder isn't support enums",
            GenError::Union => "CheckedBuilder isn't support unions",
            GenError::NamelessField => "CheckedBuilder don't support nameless fields",
        }
    }
}

/// The rejection a declaration earns, if any: tuple-style records, sum types
/// and unions are refused as wholes, and so is any record that declares no
/// fields; a named record is refused as soon as one of its fields carries no
/// name.
pub open spec fn decl_error(d: AggregateDecl) -> Option<GenError> {
    match d.data {
        DataShape::Record(FieldsShape::Named(fs)) => {
            if fs@.len() == 0 {
                Some(GenError::UnitStruct)
            } else if exists|i: int| 0 <= i < fs@.len() && (#[trigger] fs@[i].name) is None {
                Some(GenError::NamelessField)
            } else {
                None
            }
        },
        DataShape::Record(FieldsShape::Unnamed) => Some(GenError::TupleStruct),
        DataShape::Record(FieldsShape::Unit) => Some(GenError::UnitStruct),
        DataShape::Sum => Some(GenError::Enum),
        DataShape::Union => Some(GenError::Union),
    }
}

/// What a successful validation promises: the model keeps the declaration's
/// name and carries, in order, exactly the declared fields' names and types.
pub open spec fn models_decl(d: AggregateDecl, m: AggregateModel) -> bool {
    &&& m.name@ == d.name@
    &&& d.data matches DataShape::Record(FieldsShape::Named(fs))
    &&& m.fields@.len() == fs@.len()
    &&& forall|i: int| 0 <= i < fs@.len() ==> (#[trigger] fs@[i].name) is Some
    &&& forall|i: int|
        0 <= i < fs@.len() ==> {
            &&& (#[trigger] m.fields@[i]).name@ == fs@[i].name.unwrap()@
            &&& m.fields@[i].ty@ == fs@[i].ty@
        }
}

/// Validate a declaration: reject every unsupported shape with its fixed
/// diagnostic, or normalize it into the model the generator works from.
pub fn validate(decl: &AggregateDecl) -> (r: Result<AggregateModel, GenError>)
    ensures
        match r {
            Ok(m) => decl_error(*decl) is None && models_decl(*decl, m),
            Err(e) => decl_error(*decl) == Some(e),
        },
{
    match &decl.data {
        DataShape::Record(FieldsShape::Named(fs)) => {
            if fs.len() == 0 {
                return Err(GenError::UnitStruct);
            }
            let mut fields: Vec<FieldModel> = Vec::new();
            let mut i: usize = 0;
            while i < fs.len()
                invariant
                    decl.data matches DataShape::Record(FieldsShape::Named(v)) && v@ == fs@,
                    0 <= i <= fs@.len(),
                    fields@.len() == i,
                    forall|j: int| 0 <= j < i ==> (#[trigger] fs@[j].name) is Some,
                    forall|j: int|
                        0 <= j < i ==> {
                            &&& (#[trigger] fields@[j]).name@ == fs@[j].name.unwrap()@
                            &&& fields@[j].ty@ == fs@[j].ty@
                        },
                decreases fs@.len() - i,
            {
                match &fs[i].name {
                    Some(name) => {
                        fields.push(FieldModel { name: name.clone(), ty: fs[i].ty.clone() });
                    },
                    None => {
                        proof {
                            let fsv = fs@;
                            assert(fsv[i as int].name is None);
                            assert(exists|j: int|
                                0 <= j < fsv.len() && (#[trigger] fsv[j].name) is None);
                            assert(decl_error(*decl) == Some(GenError::NamelessField));
                        }
                        return Err(GenError::NamelessField);
                    },
                }
                i = i + 1;
            }
            Ok(AggregateModel { name: decl.name.clone(), fields })
        },
        DataShape::Record(FieldsShape::Unnamed) => Err(GenError::TupleStruct),
        DataShape::Record(FieldsShape::Unit) => Err(GenError::UnitStruct),
        DataShape::Sum => Err(GenError::Enum),
        DataShape::Union => Err(GenError::Union),
    }
}

} // verus!
