//! The input schema: an already-parsed, in-memory description of one source
//! type definition — an identifier, generic parameters, annotations, and a
//! shape of named fields, tuple fields, no fields, or enum variants.

use vstd::prelude::*;

use crate::annotations::Annotation;
use crate::types::SrcType;

verus! {

/// One field of a struct, or one positional field: `name` is `None` for a
/// positional field.
pub struct FieldDef {
    pub name: Option<String>,
    pub ty: SrcType,
    pub annots: Vec<Annotation>,
}

/// The data carried by one enum variant.
pub enum VariantKind {
    Unit,
    Tuple(Vec<SrcType>),
    Struct(Vec<(String, SrcType)>),
}

/// One enum variant: a name, its annotations (doc comments are collected
/// from them), and its data.
pub struct VariantDef {
    pub name: String,
    pub annots: Vec<Annotation>,
    pub kind: VariantKind,
}

/// The shape of a type definition.
pub enum Shape {
    NamedFields(Vec<FieldDef>),
    TupleFields(Vec<FieldDef>),
    Unit,
    Enum(Vec<VariantDef>),
}

/// One source type definition, as the translator receives it.
pub struct TypeDef {
    pub name: String,
    pub generics: Vec<String>,
    pub annots: Vec<Annotation>,
    pub shape: Shape,
}

} // verus!
