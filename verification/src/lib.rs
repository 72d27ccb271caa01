//! Verified core of a Python stub-metadata generator for PyO3 projects.
//!
//! The library works on plain models of what a procedural macro receives:
//! token trees, attributes, Rust types and Python stub syntax trees.

pub mod parse;
pub mod text;
pub mod tokens;
pub mod rust_syntax;
pub mod signature;
pub mod renaming;
pub mod attr;
pub mod imports;
pub mod gen_stub_attr;
pub mod rust_type;
pub mod arg;
pub mod parameter;
pub mod python;
pub mod python_stub;
pub mod python_parse;
pub mod dedent;
pub mod attr_query;
pub mod item;
pub mod member;
pub mod method;
pub mod pyfunction;
pub mod pymethods;
pub mod stub_parse;
pub mod type_alias;
pub mod variant;
pub mod pyclass;
pub mod codegen;
pub mod macro_input;
