//! Builds an in-memory model of Rust declarations (modules, structs, enums,
//! traits, impls, functions, variables, imports) and renders it as text.
//!
//! Every node renders as a sequence of pieces (text fragments and changes of
//! indentation); the `Formatter` lays them out, indenting each line to the
//! current depth. A `Scope` holds the declarations in order with its own
//! imports, and `Scope::to_string` returns the rendered text.

pub mod formatter;
pub mod ty;
pub mod bound;
pub mod docs;
pub mod type_def;
pub mod field;
pub mod fields;
pub mod struct_def;
pub mod variant;
pub mod enum_def;
pub mod block;
pub mod function;
pub mod trait_def;
pub mod impl_block;
pub mod var_def;
pub mod attr;
pub mod import;
pub mod import_table;
pub mod scope;
pub mod laws;

pub use attr::{Attr, AttrArg};
pub use block::{Block, Body};
pub use bound::{fmt_bound_rhs, fmt_bounds, AssociatedType, Bound};
pub use docs::Docs;
pub use enum_def::Enum;
pub use field::Field;
pub use fields::Fields;
pub use formatter::{fmt_generics, Format, Formatter, Layout, Piece};
pub use function::Function;
pub use impl_block::Impl;
pub use import::Import;
pub use scope::{Imports, Item, Module, Scope};
pub use struct_def::Struct;
pub use trait_def::Trait;
pub use ty::Type;
pub use type_def::TypeDef;
pub use var_def::{VarDef, VarDefKind};
pub use variant::{DisVariant, DiscriminantVariant, EnumVariant, Variant};
