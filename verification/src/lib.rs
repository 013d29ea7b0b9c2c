//! Translates structural type definitions — structs and enums with fields,
//! generics and doc comments — into textual type declarations for a target
//! language, such that values serialized under the source types' externally
//! tagged wire encoding can be consumed by code generated from the target
//! declarations.
//!
//! The pipeline: [`attrs`] extracts and validates the customization
//! directives and merges documentation comments; [`emit`] builds each
//! definition's declaration, resolving every type reference through
//! [`mapper`] and registering each type name once per generation session;
//! [`render`] turns declarations into text through [`source_builder`];
//! [`wire`] states the wire-tagging convention the declarations mirror.

pub mod annotations;
pub mod attrs;
pub mod emit;
pub mod errors;
pub mod mapper;
pub mod model;
pub mod render;
pub mod source_builder;
pub mod types;
pub mod wire;
