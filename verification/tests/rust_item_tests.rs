//! Rust items, parsed with syn and read into the library's models.

use indexmap::IndexSet;
use proc_macro2::{Delimiter as PmDelimiter, Spacing as PmSpacing, TokenStream};
use quote::ToTokens;

use pyo3_stub_gen_derive::arg::{ArgPattern, FnArg, TypeOrOverride};
use pyo3_stub_gen_derive::attr::{
    attr_path_is, doc_string, extract_deprecated, parse_pyo3_attr, parse_pyo3_attrs, Attr,
    Attribute, DeprecatedInfo, Meta,
};
use pyo3_stub_gen_derive::gen_stub_attr::{
    parse_gen_stub_attrs, AttributeLocation, IgnoreTarget, OverrideTypeAttribute, StubGenAttr,
};
use pyo3_stub_gen_derive::item::{
    Field, Fields, FnSignature, ImplItemConst, ImplItemFn, ItemEnum, ItemStruct, Variant,
};
use pyo3_stub_gen_derive::macro_input::{GenFunctionFromPythonInput, GenTypeAliasFromPythonInput};
use pyo3_stub_gen_derive::member::{MemberInfo, MemberKind};
use pyo3_stub_gen_derive::method::{MethodInfo, MethodType, NewInfo};
use pyo3_stub_gen_derive::parameter::{DefaultExpr, ParameterKind};
use pyo3_stub_gen_derive::parse::ParseError;
use pyo3_stub_gen_derive::pyclass::{
    PyClassAttr, PyClassInfo, PyComplexEnumInfo, PyEnumInfo, StubType, TypeUnionEnumInfo,
};
use pyo3_stub_gen_derive::pyfunction::{PyFunctionAttr, PyFunctionInfo};
use pyo3_stub_gen_derive::pymethods::{ImplItem, ItemImpl, PyMethodsInfo};
use pyo3_stub_gen_derive::renaming::RenamingRule;
use pyo3_stub_gen_derive::rust_type::{
    remove_lifetime, replace_self_type, unwrap_pyresult, GenericArgument, PathArguments,
    PathSegment, RustType,
};
use pyo3_stub_gen_derive::signature::{Signature, SignatureArg};
use pyo3_stub_gen_derive::tokens::{Delimiter, Spacing, TokenTree};
use pyo3_stub_gen_derive::variant::VariantForm;

fn tokens(ts: TokenStream) -> Vec<TokenTree> {
    ts.into_iter()
        .map(|t| match t {
            proc_macro2::TokenTree::Group(g) => {
                let d = match g.delimiter() {
                    PmDelimiter::Parenthesis => Delimiter::Parenthesis,
                    PmDelimiter::Brace => Delimiter::Brace,
                    PmDelimiter::Bracket => Delimiter::Bracket,
                    PmDelimiter::None => Delimiter::NoDelimiter,
                };
                TokenTree::Group(d, tokens(g.stream()))
            }
            proc_macro2::TokenTree::Ident(i) => TokenTree::Ident(i.to_string()),
            proc_macro2::TokenTree::Punct(p) => {
                let s = match p.spacing() {
                    PmSpacing::Alone => Spacing::Alone,
                    PmSpacing::Joint => Spacing::Joint,
                };
                TokenTree::Punct(p.as_char(), s)
            }
            proc_macro2::TokenTree::Literal(l) => TokenTree::Literal(l.to_string()),
        })
        .collect()
}

fn tokens_of(src: &str) -> Vec<TokenTree> {
    tokens(src.parse::<TokenStream>().unwrap())
}

fn attribute(a: &syn::Attribute) -> Attribute {
    let path = a.path();
    let meta = match &a.meta {
        syn::Meta::Path(_) => Meta::Path,
        syn::Meta::List(l) => Meta::List(tokens(l.tokens.clone())),
        syn::Meta::NameValue(nv) => Meta::NameValue(tokens(nv.value.to_token_stream())),
    };
    Attribute {
        path: path.segments.iter().map(|s| s.ident.to_string()).collect(),
        leading_colon: path.leading_colon.is_some(),
        meta,
    }
}

fn attributes(attrs: &[syn::Attribute]) -> Vec<Attribute> {
    attrs.iter().map(attribute).collect()
}

fn rust_type(t: &syn::Type) -> RustType {
    match t {
        syn::Type::Path(p) if p.qself.is_none() => RustType::Path(
            p.path.leading_colon.is_some(),
            p.path
                .segments
                .iter()
                .map(|s| PathSegment {
                    ident: s.ident.to_string(),
                    args: match &s.arguments {
                        syn::PathArguments::None => PathArguments::NoArgs,
                        syn::PathArguments::AngleBracketed(a) => PathArguments::AngleBracketed(
                            a.args
                                .iter()
                                .map(|g| match g {
                                    syn::GenericArgument::Lifetime(l) => {
                                        GenericArgument::Lifetime(l.to_string())
                                    }
                                    syn::GenericArgument::Type(t) => {
                                        GenericArgument::Type(rust_type(t))
                                    }
                                    other => {
                                        GenericArgument::Other(other.to_token_stream().to_string())
                                    }
                                })
                                .collect(),
                        ),
                        syn::PathArguments::Parenthesized(p) => {
                            PathArguments::Parenthesized(p.to_token_stream().to_string())
                        }
                    },
                })
                .collect(),
        ),
        syn::Type::Reference(r) => RustType::Reference(
            r.lifetime.as_ref().map(|l| l.to_string()),
            r.mutability.is_some(),
            Box::new(rust_type(&r.elem)),
        ),
        syn::Type::Tuple(t) => RustType::Tuple(t.elems.iter().map(rust_type).collect()),
        syn::Type::Array(a) => {
            RustType::Array(Box::new(rust_type(&a.elem)), a.len.to_token_stream().to_string())
        }
        other => RustType::Text(other.to_token_stream().to_string()),
    }
}

fn ty(src: &str) -> RustType {
    rust_type(&syn::parse_str::<syn::Type>(src).unwrap())
}

fn fn_arg(a: &syn::FnArg) -> FnArg {
    match a {
        syn::FnArg::Receiver(_) => FnArg::Receiver,
        syn::FnArg::Typed(pt) => {
            let pattern = match &*pt.pat {
                syn::Pat::Ident(pi) => ArgPattern::Ident(pi.ident.to_string()),
                syn::Pat::Wild(_) => ArgPattern::Wild,
                _ => ArgPattern::Other,
            };
            FnArg::Typed(attributes(&pt.attrs), pattern, rust_type(&pt.ty))
        }
    }
}

fn signature(sig: &syn::Signature) -> FnSignature {
    FnSignature {
        ident: sig.ident.to_string(),
        inputs: sig.inputs.iter().map(fn_arg).collect(),
        output: match &sig.output {
            syn::ReturnType::Default => None,
            syn::ReturnType::Type(_, t) => Some(rust_type(t)),
        },
        is_async: sig.asyncness.is_some(),
    }
}

fn item_fn(src: &str) -> ImplItemFn {
    let f: syn::ItemFn = syn::parse_str(src).unwrap();
    ImplItemFn { attrs: attributes(&f.attrs), sig: signature(&f.sig) }
}

fn field(f: &syn::Field) -> Field {
    Field {
        attrs: attributes(&f.attrs),
        ident: f.ident.as_ref().map(|i| i.to_string()),
        ty: rust_type(&f.ty),
    }
}

fn fields(f: &syn::Fields) -> Fields {
    match f {
        syn::Fields::Unit => Fields::Unit,
        syn::Fields::Named(n) => Fields::Named(n.named.iter().map(field).collect()),
        syn::Fields::Unnamed(u) => Fields::Unnamed(u.unnamed.iter().map(field).collect()),
    }
}

fn item_struct(src: &str) -> ItemStruct {
    let s: syn::ItemStruct = syn::parse_str(src).unwrap();
    ItemStruct { attrs: attributes(&s.attrs), ident: s.ident.to_string(), fields: fields(&s.fields) }
}

fn item_enum(src: &str) -> ItemEnum {
    let e: syn::ItemEnum = syn::parse_str(src).unwrap();
    ItemEnum {
        attrs: attributes(&e.attrs),
        ident: e.ident.to_string(),
        variants: e
            .variants
            .iter()
            .map(|v| Variant {
                attrs: attributes(&v.attrs),
                ident: v.ident.to_string(),
                fields: fields(&v.fields),
            })
            .collect(),
    }
}

fn item_impl(src: &str) -> ItemImpl {
    let i: syn::ItemImpl = syn::parse_str(src).unwrap();
    ItemImpl {
        attrs: attributes(&i.attrs),
        self_ty: rust_type(&i.self_ty),
        items: i
            .items
            .iter()
            .map(|it| match it {
                syn::ImplItem::Const(c) => ImplItem::Const(ImplItemConst {
                    attrs: attributes(&c.attrs),
                    ident: c.ident.to_string(),
                    ty: rust_type(&c.ty),
                    expr: c.expr.to_token_stream().to_string(),
                }),
                syn::ImplItem::Fn(f) => ImplItem::Fn(ImplItemFn {
                    attrs: attributes(&f.attrs),
                    sig: signature(&f.sig),
                }),
                _ => ImplItem::Other,
            })
            .collect(),
    }
}

fn rust_type_of(t: &TypeOrOverride) -> &RustType {
    match t {
        TypeOrOverride::RustType { ty } => ty,
        other => panic!("expected a Rust type, got {:?}", other),
    }
}

fn struct_fields(s: &ItemStruct) -> &Vec<Field> {
    match &s.fields {
        Fields::Named(v) | Fields::Unnamed(v) => v,
        Fields::Unit => panic!("no fields"),
    }
}

#[test]
fn test_parse_pyo3_attr() {
    let item = item_struct(
        r#"
            #[pyclass(mapping, module = "my_module", name = "Placeholder")]
            #[pyo3(rename_all = "SCREAMING_SNAKE_CASE")]
            pub struct PyPlaceholder {
                #[pyo3(get)]
                pub name: String,
            }
            "#,
    );
    let attrs = parse_pyo3_attrs(&item.attrs).unwrap();
    assert_eq!(
        attrs,
        vec![
            Attr::Module("my_module".to_string()),
            Attr::Name("Placeholder".to_string()),
            Attr::RenameAll(RenamingRule::ScreamingSnakeCase),
        ]
    );
    let attrs = parse_pyo3_attr(&struct_fields(&item)[0].attrs[0]).unwrap();
    assert_eq!(attrs, vec![Attr::Get]);
}

#[test]
fn test_parse_pyo3_attr_full_path() {
    let item = item_struct(
        r#"
            #[pyo3::pyclass(mapping, module = "my_module", name = "Placeholder")]
            pub struct PyPlaceholder {
                #[pyo3(get)]
                pub name: String,
            }
            "#,
    );
    let attrs = parse_pyo3_attr(&item.attrs[0]).unwrap();
    assert_eq!(
        attrs,
        vec![Attr::Module("my_module".to_string()), Attr::Name("Placeholder".to_string())]
    );
    let attrs = parse_pyo3_attr(&struct_fields(&item)[0].attrs[0]).unwrap();
    assert_eq!(attrs, vec![Attr::Get]);
}

#[test]
fn test_parse_gen_stub_field_attr() {
    let item = item_struct(
        r#"
            pub struct PyPlaceholder {
                #[gen_stub(default = String::from("foo"), skip)]
                pub field0: String,
                #[gen_stub(skip)]
                pub field1: String,
                #[gen_stub(default = 1+2)]
                pub field2: usize,
            }
            "#,
    );
    let fs = struct_fields(&item);
    let none: Vec<String> = vec![];
    let field0_attrs = parse_gen_stub_attrs(&fs[0].attrs, AttributeLocation::Field, &none).unwrap();
    if let StubGenAttr::Default(expr) = &field0_attrs[0] {
        assert_eq!(expr, "String :: from (\"foo\")");
    } else {
        panic!("attr should be Default");
    };
    assert_eq!(&StubGenAttr::Skip, &field0_attrs[1]);
    let field1_attrs = parse_gen_stub_attrs(&fs[1].attrs, AttributeLocation::Field, &none).unwrap();
    assert_eq!(vec![StubGenAttr::Skip], field1_attrs);
    let field2_attrs = parse_gen_stub_attrs(&fs[2].attrs, AttributeLocation::Field, &none).unwrap();
    if let StubGenAttr::Default(expr) = &field2_attrs[0] {
        assert_eq!(expr, "1 + 2");
    } else {
        panic!("attr should be Default");
    };
}

#[test]
fn test_parse_gen_stub_override_type_attr() {
    let item = item_fn(
        r#"
            #[gen_stub_pyfunction]
            #[pyfunction]
            #[gen_stub(override_return_type(type_repr="typing.Never", imports=("typing")))]
            fn say_hello_forever<'a>(
                #[gen_stub(override_type(type_repr="collections.abc.Callable[[str]]", imports=("collections.abc")))]
                cb: Bound<'a, PyAny>,
            ) -> PyResult<()> {
                loop {
                    cb.call1(("Hello!",))?;
                }
            }
            "#,
    );
    let none: Vec<String> = vec![];
    let fn_attrs = parse_gen_stub_attrs(&item.attrs, AttributeLocation::Function, &none).unwrap();
    assert_eq!(fn_attrs.len(), 1);
    if let StubGenAttr::OverrideType(expr) = &fn_attrs[0] {
        assert_eq!(
            *expr,
            OverrideTypeAttribute {
                type_repr: "typing.Never".into(),
                imports: IndexSet::from(["typing".into()])
            }
        );
    } else {
        panic!("attr should be OverrideType");
    };
    if let FnArg::Typed(attrs, _, _) = &item.sig.inputs[0] {
        let arg_attrs = parse_gen_stub_attrs(attrs, AttributeLocation::Argument, &none).unwrap();
        assert_eq!(arg_attrs.len(), 1);
        if let StubGenAttr::OverrideType(expr) = &arg_attrs[0] {
            assert_eq!(
                *expr,
                OverrideTypeAttribute {
                    type_repr: "collections.abc.Callable[[str]]".into(),
                    imports: IndexSet::from(["collections.abc".into()])
                }
            );
        } else {
            panic!("attr should be OverrideType");
        };
    } else {
        panic!("expected a typed argument");
    }
}

#[test]
fn test_unwrap_pyresult() {
    let cases = [
        ("PyResult<i32>", "i32"),
        ("PyResult<&PyString>", "&PyString"),
        ("PyResult<&'a PyString>", "&'a PyString"),
        ("::pyo3::PyResult<i32>", "i32"),
        ("::pyo3::PyResult<&PyString>", "&PyString"),
        ("::pyo3::PyResult<&'a PyString>", "&'a PyString"),
    ];
    for (input, expected) in cases {
        let t = ty(input);
        assert_eq!(unwrap_pyresult(&t), &ty(expected), "{}", input);
    }
    let plain = ty("Vec<i32>");
    assert_eq!(unwrap_pyresult(&plain), &plain);
}

#[test]
fn test_pyclass() {
    let input = item_struct(
        r#"
            #[pyclass(mapping, module = "my_module", name = "Placeholder")]
            #[derive(
                Debug, Clone, PyNeg, PyAdd, PySub, PyMul, PyDiv, PyMod, PyPow, PyCmp, PyIndex, PyPrint,
            )]
            pub struct PyPlaceholder {
                #[pyo3(get)]
                pub name: String,
                #[pyo3(get)]
                pub ndim: usize,
                #[pyo3(get)]
                pub description: Option<String>,
                pub custom_latex: Option<String>,
            }
            "#,
    );
    let info = PyClassInfo::try_from_struct(&input).unwrap();
    assert_eq!(info.pyclass_name, "Placeholder");
    assert_eq!(info.struct_type, ty("PyPlaceholder"));
    let names: Vec<&str> = info.members.iter().map(|m| m.name.as_str()).collect();
    assert_eq!(names, vec!["name", "ndim", "description"]);
    assert_eq!(rust_type_of(&info.members[0].ty), &ty("String"));
    assert_eq!(rust_type_of(&info.members[1].ty), &ty("usize"));
    assert_eq!(rust_type_of(&info.members[2].ty), &ty("Option<String>"));
    for m in &info.members {
        assert_eq!(m.doc, "");
        assert_eq!(m.default, None);
        assert_eq!(m.deprecated, None);
    }
    assert_eq!(info.module, Some("my_module".to_string()));
    assert_eq!(info.doc, "");
    assert!(info.bases.is_empty());
}

#[test]
fn pyclass_complex_enum_test_complex_enum() {
    let input = item_enum(
        r#"
            #[pyclass(mapping, module = "my_module", name = "Placeholder")]
            #[derive(
                Debug, Clone, PyNeg, PyAdd, PySub, PyMul, PyDiv, PyMod, PyPow, PyCmp, PyIndex, PyPrint,
            )]
            pub enum PyPlaceholder {
                #[pyo3(name="Name")]
                name(String),
                #[pyo3(constructor = (_0, _1=1.0))]
                twonum(i32,f64),
                ndim{count: usize},
                description,
            }
            "#,
    );
    let attr = PyClassAttr { module: None, skip_stub_type: false };
    let info = PyComplexEnumInfo::from_item_with_attr(&input, &attr).unwrap();
    assert_eq!(info.pyclass_name, "Placeholder");
    assert_eq!(info.enum_type, ty("PyPlaceholder"));
    assert_eq!(info.module, Some("my_module".to_string()));
    assert_eq!(info.doc, "");
    assert_eq!(info.variants.len(), 4);

    let v = &info.variants[0];
    assert_eq!(v.pyclass_name, "Name");
    assert_eq!(v.form, VariantForm::Tuple);
    assert_eq!(v.module, None);
    assert_eq!(v.fields.len(), 1);
    assert_eq!(v.fields[0].name, "_0");
    assert_eq!(rust_type_of(&v.fields[0].ty), &ty("String"));
    assert_eq!(v.constr_args.len(), 1);
    assert_eq!(v.constr_args[0].name, "_0");
    assert_eq!(rust_type_of(&v.constr_args[0].ty), &ty("String"));
    assert_eq!(v.constr_sig, None);

    let v = &info.variants[1];
    assert_eq!(v.pyclass_name, "twonum");
    assert_eq!(v.form, VariantForm::Tuple);
    let names: Vec<&str> = v.fields.iter().map(|m| m.name.as_str()).collect();
    assert_eq!(names, vec!["_0", "_1"]);
    assert_eq!(rust_type_of(&v.fields[0].ty), &ty("i32"));
    assert_eq!(rust_type_of(&v.fields[1].ty), &ty("f64"));
    assert_eq!(
        v.constr_sig,
        Some(Signature {
            args: vec![
                SignatureArg::Ident("_0".to_string()),
                SignatureArg::Assign("_1".to_string(), "1.0".to_string()),
            ]
        })
    );
    let params = v.parameters().unwrap();
    assert_eq!(params.params.len(), 2);
    assert_eq!(params.params[0].arg_info.name, "_0");
    assert_eq!(params.params[0].kind, ParameterKind::PositionalOrKeyword);
    assert_eq!(params.params[0].default_expr, None);
    assert_eq!(params.params[1].arg_info.name, "_1");
    assert_eq!(params.params[1].default_expr, Some(DefaultExpr::Rust("1.0".to_string())));

    let v = &info.variants[2];
    assert_eq!(v.pyclass_name, "ndim");
    assert_eq!(v.form, VariantForm::Struct);
    assert_eq!(v.fields.len(), 1);
    assert_eq!(v.fields[0].name, "count");
    assert_eq!(rust_type_of(&v.fields[0].ty), &ty("usize"));

    let v = &info.variants[3];
    assert_eq!(v.pyclass_name, "description");
    assert_eq!(v.form, VariantForm::Unit);
    assert!(v.fields.is_empty());
    assert!(v.constr_args.is_empty());
}

#[test]
fn type_union_enum_test() {
    let input = item_enum(
        r#"
            #[derive(FromPyObject)]
            pub enum FunctionAgg {
                S(String),
                I(i32),
                F(f32),
            }
            "#,
    );
    let info = TypeUnionEnumInfo::try_from(&input).unwrap();
    assert_eq!(info.pyclass_name, "FunctionAgg");
    assert_eq!(info.enum_type, ty("FunctionAgg"));
    assert_eq!(info.variants, vec![ty("String"), ty("i32"), ty("f32")]);
    assert_eq!(info.doc, "");
}

// The library's own cases.

#[test]
fn type_union_variant_must_wrap_one_type() {
    let input = item_enum("enum E { A(String), B(i32, i32) }");
    assert_eq!(TypeUnionEnumInfo::try_from(&input).unwrap_err(), ParseError::NotOneTuple);
    let input = item_enum("enum E { A { x: i32 } }");
    assert_eq!(TypeUnionEnumInfo::try_from(&input).unwrap_err(), ParseError::NotOneTuple);
}

#[test]
fn simple_enum_variants_are_renamed() {
    let input = item_enum(
        r#"
            /// Colors
            #[pyclass(rename_all = "UPPERCASE")]
            pub enum Color {
                /// The red one
                Red,
                #[pyo3(name = "verde")]
                Green,
            }
            "#,
    );
    let attr = PyClassAttr { module: Some("colors".to_string()), skip_stub_type: false };
    let info = PyEnumInfo::from_item_with_attr(&input, &attr).unwrap();
    assert_eq!(info.pyclass_name, "Color");
    assert_eq!(info.module, Some("colors".to_string()));
    assert_eq!(info.doc, "Colors");
    assert_eq!(
        info.variants,
        vec![
            ("RED".to_string(), "The red one".to_string()),
            ("VERDE".to_string(), "".to_string())
        ]
    );
    let stub = StubType::from_enum(&info);
    assert_eq!(stub.name, "Color");
    assert_eq!(stub.module, Some("colors".to_string()));
}

#[test]
fn inline_module_wins_over_pyo3_module() {
    let input = item_enum(
        r#"
            #[pyclass(module = "a")]
            pub enum Color { Red }
            "#,
    );
    let attr = PyClassAttr { module: Some("b".to_string()), skip_stub_type: false };
    // The module given inline wins over PyO3's.
    let info = PyEnumInfo::from_item_with_attr(&input, &attr).unwrap();
    assert_eq!(info.module, Some("b".to_string()));
}

#[test]
fn class_with_get_all_and_renaming() {
    let input = item_struct(
        r#"
            /// A point
            #[pyclass(get_all, rename_all = "camelCase", extends = Base)]
            pub struct Point {
                /// the x coordinate
                pub x_value: f64,
                #[pyo3(name = "why")]
                pub y_value: f64,
            }
            "#,
    );
    let info = PyClassInfo::try_from_struct(&input).unwrap();
    assert_eq!(info.pyclass_name, "Point");
    assert_eq!(info.doc, "A point");
    let names: Vec<&str> = info.members.iter().map(|m| m.name.as_str()).collect();
    // `rename_all` renames variants, not the fields of a class.
    assert_eq!(names, vec!["x_value", "why"]);
    assert_eq!(info.members[0].doc, "the x coordinate");
    assert_eq!(info.bases, vec![RustType::Text("Base".to_string())]);
}

#[test]
fn class_attr_is_parsed() {
    assert_eq!(
        PyClassAttr::parse(&tokens_of("module = \"my_mod\", skip_stub_type")).unwrap(),
        PyClassAttr { module: Some("my_mod".to_string()), skip_stub_type: true }
    );
    assert_eq!(
        PyClassAttr::parse(&vec![]).unwrap(),
        PyClassAttr { module: None, skip_stub_type: false }
    );
    assert_eq!(
        PyClassAttr::parse(&tokens_of("unknown")).unwrap_err(),
        ParseError::UnknownParameter("unknown".to_string())
    );
}

#[test]
fn function_attr_is_parsed() {
    let a = PyFunctionAttr::parse(&tokens_of("module = \"m\", python = \"def f() -> int: ...\""))
        .unwrap();
    assert_eq!(a.module, Some("m".to_string()));
    assert_eq!(a.python, Some("def f() -> int: ...".to_string()));
    assert_eq!(a.python_overload, None);
    assert!(!a.no_default_overload);
    let a = PyFunctionAttr::parse(&tokens_of(
        "python_overload = r#\"@overload\ndef f() -> int: ...\"#, no_default_overload = true",
    ))
    .unwrap();
    assert_eq!(a.python_overload, Some("@overload\ndef f() -> int: ...".to_string()));
    assert!(a.no_default_overload);
    assert_eq!(
        PyFunctionAttr::parse(&tokens_of("python = \"a\", python_overload = \"b\"")).unwrap_err(),
        ParseError::PythonAndOverload
    );
    assert_eq!(
        PyFunctionAttr::parse(&tokens_of("no_default_overload = true")).unwrap_err(),
        ParseError::NoDefaultOverloadAlone
    );
    assert_eq!(
        PyFunctionAttr::parse(&tokens_of("unknown = 1")).unwrap_err(),
        ParseError::UnknownParameter("unknown".to_string())
    );
    assert_eq!(
        PyFunctionAttr::parse(&tokens_of("pyhton_overload = \"x\"")).unwrap_err(),
        ParseError::UnknownParameter("pyhton_overload".to_string())
    );
}

#[test]
fn pyfunction_reads_name_signature_and_docs() {
    let f = item_fn(
        r#"
            /// Adds numbers
            #[pyfunction]
            #[pyo3(name = "add_numbers", signature = (a, b = 1, *args))]
            #[deprecated(since = "1.0", note = "use plus")]
            fn add(a: i32, b: &'a str, args: Vec<i32>) -> PyResult<i32> { Ok(a) }
            "#,
    );
    let info = PyFunctionInfo::try_from(&f).unwrap();
    assert_eq!(info.name, "add_numbers");
    assert_eq!(info.doc, "Adds numbers");
    assert_eq!(
        info.deprecated,
        Some(DeprecatedInfo { since: Some("1.0".to_string()), note: Some("use plus".to_string()) })
    );
    let p = &info.parameters.params;
    assert_eq!(p.len(), 3);
    assert_eq!(p[0].arg_info.name, "a");
    assert_eq!(p[0].kind, ParameterKind::PositionalOrKeyword);
    assert_eq!(p[1].arg_info.name, "b");
    assert_eq!(p[1].default_expr, Some(DefaultExpr::Rust("1".to_string())));
    assert_eq!(rust_type_of(&p[1].arg_info.ty), &ty("&str"));
    assert_eq!(p[2].arg_info.name, "args");
    assert_eq!(p[2].kind, ParameterKind::VarPositional);
    // `PyResult<T>` shows as `T`.
    assert_eq!(rust_type_of(info.ret.as_ref().unwrap()), &ty("i32"));
    assert!(!info.is_async);
    assert!(!info.is_overload);
}

#[test]
fn signature_naming_unknown_argument_is_refused() {
    let f = item_fn(
        r#"
            #[pyfunction]
            #[pyo3(signature = (a, c))]
            fn add(a: i32, b: i32) -> i32 { a }
            "#,
    );
    assert_eq!(
        PyFunctionInfo::try_from(&f).unwrap_err(),
        ParseError::UnknownArgument("c".to_string())
    );
}

#[test]
fn gen_stub_errors_by_location() {
    let none: Vec<String> = vec![];
    let f = item_fn("#[gen_stub(override_type(type_repr = \"int\"))] fn f() {}");
    assert_eq!(
        parse_gen_stub_attrs(&f.attrs, AttributeLocation::Function, &none).unwrap_err(),
        ParseError::OverrideTypeOutsideArgument
    );
    let f = item_fn("#[gen_stub(skip)] fn f() {}");
    assert_eq!(
        parse_gen_stub_attrs(&f.attrs, AttributeLocation::Function, &none).unwrap_err(),
        ParseError::SkipOutsideField
    );
    let f = item_fn("#[gen_stub(override_type(imports = (\"typing\")))] fn f() {}");
    assert_eq!(
        parse_gen_stub_attrs(&f.attrs, AttributeLocation::Argument, &none).unwrap_err(),
        ParseError::MissingTypeRepr
    );
    let f = item_fn("#[gen_stub(type_ignore)] fn f() {}");
    assert_eq!(
        parse_gen_stub_attrs(&f.attrs, AttributeLocation::Function, &none).unwrap(),
        vec![StubGenAttr::TypeIgnore(IgnoreTarget::All)]
    );
    let f = item_fn("#[gen_stub(type_ignore = [\"arg-type\", \"misc\"])] fn f() {}");
    assert_eq!(
        parse_gen_stub_attrs(&f.attrs, AttributeLocation::Function, &none).unwrap(),
        vec![StubGenAttr::TypeIgnore(IgnoreTarget::SpecifiedLits(vec![
            "arg-type".to_string(),
            "misc".to_string()
        ]))]
    );
    let f = item_fn("#[gen_stub(type_ignore = [])] fn f() {}");
    assert_eq!(
        parse_gen_stub_attrs(&f.attrs, AttributeLocation::Function, &none).unwrap_err(),
        ParseError::TypeIgnoreEmpty
    );
}

#[test]
fn pymethods_sorts_members_and_methods() {
    let item = item_impl(
        r#"
            #[pymethods]
            impl Counter {
                #[classattr]
                const LIMIT: usize = 10;
                #[new]
                fn new(start: usize) -> Self { todo!() }
                #[getter]
                fn value(&self) -> usize { self.value }
                #[setter(value)]
                fn set_the_value(&mut self, v: usize) { }
                #[staticmethod]
                fn zero() -> usize { 0 }
                #[classmethod]
                fn make(cls: &Bound<'_, PyType>) -> Self { todo!() }
                /// Increments
                fn increment(&mut self, by: usize) -> Self { todo!() }
                #[gen_stub(skip)]
                fn hidden(&self) {}
            }
            "#,
    );
    let info = PyMethodsInfo::try_from(&item).unwrap();
    assert_eq!(info.struct_id, ty("Counter"));
    assert_eq!(info.attrs.len(), 1);
    assert_eq!(info.attrs[0].name, "LIMIT");
    assert_eq!(info.attrs[0].default, Some("10".to_string()));
    assert_eq!(info.getters.len(), 1);
    assert_eq!(info.getters[0].name, "value");
    assert_eq!(info.getters[0].kind, MemberKind::Getter);
    assert_eq!(info.setters.len(), 1);
    assert_eq!(info.setters[0].name, "value");
    assert_eq!(info.setters[0].kind, MemberKind::Setter);
    let kinds: Vec<(&str, MethodType)> =
        info.methods.iter().map(|m| (m.name.as_str(), m.ty)).collect();
    assert_eq!(
        kinds,
        vec![
            ("__new__", MethodType::New),
            ("zero", MethodType::Static),
            ("make", MethodType::Class),
            ("increment", MethodType::Instance),
        ]
    );
    let inc = &info.methods[3];
    assert_eq!(inc.doc, "Increments");
    assert_eq!(inc.args.len(), 1);
    // `Self` in the return type is replaced by the class.
    assert_eq!(rust_type_of(inc.ret.as_ref().unwrap()), &ty("Counter"));
}

#[test]
fn operator_methods_get_their_python_signature() {
    let f = item_fn("fn __eq__(&self, other: &Self) -> bool { true }");
    let m = MethodInfo::try_from(&f).unwrap();
    assert_eq!(m.name, "__eq__");
    assert_eq!(m.ty, MethodType::Instance);
}

#[test]
fn pruning_removes_only_gen_stub_attributes() {
    let mut f = item_fn(
        r#"
            #[pyfunction]
            #[gen_stub(override_return_type(type_repr = "int"))]
            fn f(#[gen_stub(override_type(type_repr = "int"))] #[other] x: i32) -> i32 { x }
            "#,
    );
    pyo3_stub_gen_derive::pyfunction::prune_attrs(&mut f);
    assert_eq!(f.attrs.len(), 1);
    assert!(attr_path_is(&f.attrs[0], "pyfunction"));
    if let FnArg::Typed(attrs, _, _) = &f.sig.inputs[0] {
        assert_eq!(attrs.len(), 1);
        assert!(attr_path_is(&attrs[0], "other"));
    } else {
        panic!("expected a typed argument");
    }
    assert_eq!(f.sig.ident, "f");

    let mut item = item_impl(
        r#"
            #[gen_stub(skip)]
            impl A {
                #[gen_stub(skip)]
                #[getter]
                fn g(&self) -> i32 { 0 }
            }
            "#,
    );
    pyo3_stub_gen_derive::pymethods::prune_attrs(&mut item);
    assert!(item.attrs.is_empty());
    if let ImplItem::Fn(g) = &item.items[0] {
        assert_eq!(g.attrs.len(), 1);
        assert!(attr_path_is(&g.attrs[0], "getter"));
    } else {
        panic!("expected a method");
    }
}

#[test]
fn lifetimes_are_erased() {
    assert_eq!(remove_lifetime(&ty("&'a str")), ty("&str"));
    assert_eq!(remove_lifetime(&ty("Bound<'py, PyAny>")), ty("Bound<'_, PyAny>"));
    assert_eq!(remove_lifetime(&ty("(&'a str, Vec<&'b i32>)")), ty("(&str, Vec<&i32>)"));
    let once = remove_lifetime(&ty("Option<&'a Bound<'py, T>>"));
    assert_eq!(remove_lifetime(&once), once);
}

#[test]
fn self_is_replaced() {
    let c = ty("Counter");
    assert_eq!(replace_self_type(&ty("Self"), &c), c);
    assert_eq!(replace_self_type(&ty("Vec<Self>"), &c), ty("Vec<Counter>"));
    assert_eq!(replace_self_type(&ty("PyRef<'_, Self>"), &c), ty("PyRef<'_, Counter>"));
    assert_eq!(replace_self_type(&ty("i32"), &c), ty("i32"));
}

#[test]
fn docs_and_deprecation_are_read() {
    let f = item_fn(
        r#"
            /// First line
            ///  indented
            #[deprecated(note = "gone")]
            fn f() {}
            "#,
    );
    assert_eq!(doc_string(&f.attrs), "First line\n indented");
    assert_eq!(
        extract_deprecated(&f.attrs),
        Some(DeprecatedInfo { since: None, note: Some("gone".to_string()) })
    );
    // Only the list form `#[deprecated(...)]` is read.
    let g = item_fn("#[deprecated] fn g() {}");
    assert_eq!(extract_deprecated(&g.attrs), None);
    let g = item_fn("#[deprecated = \"gone\"] fn g() {}");
    assert_eq!(extract_deprecated(&g.attrs), None);
    let h = item_fn("fn h() {}");
    assert_eq!(extract_deprecated(&h.attrs), None);
    assert_eq!(doc_string(&h.attrs), "");
}

#[test]
fn macro_inputs_are_parsed() {
    let a = GenFunctionFromPythonInput::parse(&tokens_of("\"def f(): ...\"")).unwrap();
    assert_eq!(a.module, None);
    assert_eq!(a.python_stub, "def f(): ...");
    let a = GenFunctionFromPythonInput::parse(&tokens_of("module = \"m\", \"def f(): ...\""))
        .unwrap();
    assert_eq!(a.module, Some("m".to_string()));
    assert_eq!(a.python_stub, "def f(): ...");
    let a = GenTypeAliasFromPythonInput::parse(&tokens_of("\"m\", r#\"X: TypeAlias = int\"#"))
        .unwrap();
    assert_eq!(a.module, "m");
    assert_eq!(a.python_stub, "X: TypeAlias = int");
    assert!(GenTypeAliasFromPythonInput::parse(&tokens_of("\"only one\"")).is_err());
    assert_eq!(
        GenFunctionFromPythonInput::parse(&tokens_of("modul = \"m\", \"def f(): ...\"")).unwrap_err(),
        ParseError::UnknownParameter("modul".to_string())
    );
}

#[test]
fn constructors_are_read_from_new() {
    let f = item_fn(
        r#"
            /// Makes one
            #[new]
            #[pyo3(signature = (x, y = 0))]
            fn make(x: i32, y: i32) -> Self { todo!() }
            "#,
    );
    assert_eq!(NewInfo::is_candidate(&f), Ok(true));
    let info = NewInfo::try_from(&f).unwrap();
    assert_eq!(info.doc, "Makes one");
    let names: Vec<&str> = info.args.iter().map(|a| a.name.as_str()).collect();
    assert_eq!(names, vec!["x", "y"]);
    assert_eq!(
        info.sig,
        Some(Signature {
            args: vec![
                SignatureArg::Ident("x".to_string()),
                SignatureArg::Assign("y".to_string(), "0".to_string()),
            ]
        })
    );
    let g = item_fn("fn plain(x: i32) -> i32 { x }");
    assert_eq!(NewInfo::is_candidate(&g), Ok(false));
}

#[test]
fn stub_types_name_the_python_class() {
    let input = item_enum("#[derive(FromPyObject)] pub enum Num { I(i32), F(f64) }");
    let info = TypeUnionEnumInfo::try_from(&input).unwrap();
    let stub = StubType::from_union(&info);
    assert_eq!(stub.ty, ty("Num"));
    assert_eq!(stub.name, "Num");
    assert_eq!(stub.module, None);
    let s = item_struct("#[pyclass(name = \"P\", module = \"m\")] struct Point { x: i32 }");
    let c = PyClassInfo::try_from_struct(&s).unwrap();
    let stub = StubType::from_class(&c);
    assert_eq!(stub.ty, ty("Point"));
    assert_eq!(stub.name, "P");
    assert_eq!(stub.module, Some("m".to_string()));
}

#[test]
fn skipped_items_change_nothing() {
    let plain = item_impl(
        r#"
            impl A {
                #[getter]
                fn x(&self) -> i32 { 0 }
                fn f(&self, a: i32) -> i32 { a }
            }
            "#,
    );
    let with_skipped = item_impl(
        r#"
            impl A {
                #[gen_stub(skip)]
                #[classattr]
                const HIDDEN: i32 = 1;
                #[getter]
                fn x(&self) -> i32 { 0 }
                #[gen_stub(skip)]
                #[getter]
                fn y(&self) -> i32 { 0 }
                fn f(&self, a: i32) -> i32 { a }
                #[gen_stub(skip)]
                fn g(&self) {}
            }
            "#,
    );
    let a = PyMethodsInfo::try_from(&plain).unwrap();
    let b = PyMethodsInfo::try_from(&with_skipped).unwrap();
    let names = |i: &PyMethodsInfo| {
        (
            i.attrs.iter().map(|m| m.name.clone()).collect::<Vec<_>>(),
            i.getters.iter().map(|m| m.name.clone()).collect::<Vec<_>>(),
            i.setters.iter().map(|m| m.name.clone()).collect::<Vec<_>>(),
            i.methods.iter().map(|m| m.name.clone()).collect::<Vec<_>>(),
        )
    };
    assert_eq!(names(&a), names(&b));
    assert_eq!(names(&b).3, vec!["f".to_string()]);
}

#[test]
fn getters_and_setters_without_types_are_told_apart() {
    let g = item_fn("#[getter] fn value(&self) {}");
    assert_eq!(MemberInfo::new_getter(&g).unwrap_err(), ParseError::GetterWithoutType);
    let s = item_fn("#[setter] fn set_value(&mut self) {}");
    assert_eq!(MemberInfo::new_setter(&s).unwrap_err(), ParseError::SetterWithoutType);
}

