//! Plain models of the Rust items that the attribute macros receive.

use vstd::prelude::*;
use crate::arg::FnArg;
use crate::attr::Attribute;
use crate::rust_type::RustType;

verus! {

/// The signature of a function: its name, its arguments, its return type
/// (`None` for `-> ()` left out) and whether it is `async`.
#[derive(Debug)]
pub struct FnSignature {
    pub ident: String,
    pub inputs: Vec<FnArg>,
    pub output: Option<RustType>,
    pub is_async: bool,
}

/// A function of an `impl` block (or a free function) with its attributes.
#[derive(Debug)]
pub struct ImplItemFn {
    pub attrs: Vec<Attribute>,
    pub sig: FnSignature,
}

/// A constant of an `impl` block: its attributes, name, type, and the
/// printed tokens of its value.
#[derive(Debug)]
pub struct ImplItemConst {
    pub attrs: Vec<Attribute>,
    pub ident: String,
    pub ty: RustType,
    pub expr: String,
}

/// A field of a struct or of an enum variant; `ident` is `None` for a
/// field of a tuple struct.
#[derive(Debug)]
pub struct Field {
    pub attrs: Vec<Attribute>,
    pub ident: Option<String>,
    pub ty: RustType,
}

/// The fields of a struct or enum variant.
#[derive(Debug)]
pub enum Fields {
    Unit,
    Named(Vec<Field>),
    Unnamed(Vec<Field>),
}

/// A variant of an enum with its attributes.
#[derive(Debug)]
pub struct Variant {
    pub attrs: Vec<Attribute>,
    pub ident: String,
    pub fields: Fields,
}

/// A struct with its attributes.
#[derive(Debug)]
pub struct ItemStruct {
    pub attrs: Vec<Attribute>,
    pub ident: String,
    pub fields: Fields,
}

/// An enum with its attributes.
#[derive(Debug)]
pub struct ItemEnum {
    pub attrs: Vec<Attribute>,
    pub ident: String,
    pub variants: Vec<Variant>,
}

} // verus!
