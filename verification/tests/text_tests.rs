//! Text-level behaviour: dedenting, renaming, Python text of types and
//! values, printed tokens, parameters and the plans of the generated
//! metadata.

use pyo3_stub_gen_derive::arg::{ArgInfo, TypeOrOverride};
use pyo3_stub_gen_derive::attr::{attr_path_is, prune_attrs, Attribute, Meta};
use pyo3_stub_gen_derive::codegen::{
    default_plan_for_param, ArgsWithSignature, DefaultPlan,
};
use pyo3_stub_gen_derive::dedent::{dedent, try_dedent};
use pyo3_stub_gen_derive::imports::import_set_of;
use pyo3_stub_gen_derive::member::{MemberInfo, MemberKind};
use pyo3_stub_gen_derive::parameter::{DefaultExpr, ParameterKind, ParameterWithKind, Parameters};
use pyo3_stub_gen_derive::parse::ParseError;
use pyo3_stub_gen_derive::python::{
    escape_default, expr_to_type_string, extract_rust_type_marker, python_ast_to_python_string,
    PyConstant, PyDictItem, PyExpr, PyUnaryOp,
};
use pyo3_stub_gen_derive::renaming::RenamingRule;
use pyo3_stub_gen_derive::rust_type::RustType;
use pyo3_stub_gen_derive::signature::{Signature, SignatureArg};
use pyo3_stub_gen_derive::tokens::{stream_to_string, Delimiter, Spacing, TokenTree};
use pyo3_stub_gen_derive::type_alias::{collect_rust_type_markers, parsable_markers};

fn name(s: &str) -> PyExpr {
    PyExpr::Name(s.to_string())
}

fn attr(v: PyExpr, a: &str) -> PyExpr {
    PyExpr::Attribute(Box::new(v), a.to_string())
}

fn sub(v: PyExpr, s: PyExpr) -> PyExpr {
    PyExpr::Subscript(Box::new(v), Box::new(s))
}

fn string(s: &str) -> PyExpr {
    PyExpr::Constant(PyConstant::Str(s.to_string()))
}

fn int_lit(s: &str) -> PyExpr {
    PyExpr::Constant(PyConstant::Int(s.to_string()))
}

fn marker(s: &str) -> PyExpr {
    sub(attr(name("pyo3_stub_gen"), "RustType"), string(s))
}

fn rust_arg(n: &str) -> ArgInfo {
    ArgInfo {
        name: n.to_string(),
        ty: TypeOrOverride::RustType { ty: RustType::Text("i32".to_string()) },
    }
}

fn python_arg(n: &str) -> ArgInfo {
    ArgInfo {
        name: n.to_string(),
        ty: TypeOrOverride::OverrideType {
            ty: RustType::Tuple(vec![]),
            type_repr: "bool".to_string(),
            imports: import_set_of(&vec![]),
            rust_type_markers: vec![],
        },
    }
}

fn plain_attr(path: &str) -> Attribute {
    Attribute { path: vec![path.to_string()], leading_colon: false, meta: Meta::Path }
}

// Dedenting.

#[test]
fn dedent_removes_the_shared_margin() {
    assert_eq!(dedent("    a\n      b\n    c"), "a\n  b\nc");
    assert_eq!(dedent("\n    def f():\n        pass\n    "), "\ndef f():\n    pass\n");
}

#[test]
fn dedent_ignores_blank_lines_for_the_margin() {
    assert_eq!(dedent("  a\n\n  b"), "a\n\nb");
    assert_eq!(dedent("    a\n \n    b"), "a\n \nb");
}

#[test]
fn dedent_of_unindented_or_empty_text() {
    assert_eq!(dedent("a\n  b"), "a\n  b");
    assert_eq!(dedent(""), "");
    assert_eq!(dedent("   "), "   ");
    assert_eq!(dedent("x\r\n  y"), "x\n  y");
}

#[test]
fn dedent_counts_bytes_of_wide_white_space() {
    // U+3000 is white space of three bytes: the margin is three bytes.
    assert_eq!(dedent("\u{3000}x\n   y"), "x\ny");
    // A margin of two bytes would cut U+3000 in the middle.
    assert_eq!(try_dedent("\u{3000}x\n  y"), None);
    assert_eq!(try_dedent("  x\n   y"), Some("x\n y".to_string()));
}

// Renaming.

#[test]
fn renaming_rules_are_read_by_their_spelling() {
    let spellings = [
        ("camelCase", RenamingRule::CamelCase),
        ("kebab-case", RenamingRule::KebabCase),
        ("lowercase", RenamingRule::Lowercase),
        ("PascalCase", RenamingRule::PascalCase),
        ("SCREAMING-KEBAB-CASE", RenamingRule::ScreamingKebabCase),
        ("SCREAMING_SNAKE_CASE", RenamingRule::ScreamingSnakeCase),
        ("snake_case", RenamingRule::SnakeCase),
        ("UPPERCASE", RenamingRule::Uppercase),
    ];
    for (s, r) in spellings {
        assert_eq!(RenamingRule::try_new(s), Some(r));
    }
    assert_eq!(RenamingRule::try_new("Camelcase"), None);
    assert_eq!(RenamingRule::try_new(""), None);
}

#[test]
fn renaming_rules_rename() {
    let n = "my_field_name";
    assert_eq!(RenamingRule::CamelCase.apply(n), "myFieldName");
    assert_eq!(RenamingRule::KebabCase.apply(n), "my-field-name");
    assert_eq!(RenamingRule::Lowercase.apply("MyField"), "myfield");
    assert_eq!(RenamingRule::PascalCase.apply(n), "MyFieldName");
    assert_eq!(RenamingRule::ScreamingKebabCase.apply(n), "MY-FIELD-NAME");
    assert_eq!(RenamingRule::ScreamingSnakeCase.apply(n), "MY_FIELD_NAME");
    assert_eq!(RenamingRule::SnakeCase.apply("MyFieldName"), "my_field_name");
    assert_eq!(RenamingRule::Uppercase.apply(n), "MY_FIELD_NAME");
}

// Python text of types and values.

#[test]
fn type_strings() {
    let e = sub(attr(name("typing"), "Optional"), name("int"));
    assert_eq!(expr_to_type_string(&e).unwrap(), "typing.Optional[int]");
    let e = sub(
        name("Callable"),
        PyExpr::Tuple(vec![PyExpr::List(vec![name("str")]), name("int")]),
    );
    assert_eq!(expr_to_type_string(&e).unwrap(), "Callable[[str], int]");
    let e = sub(name("tuple"), PyExpr::Tuple(vec![name("int"), PyExpr::Constant(PyConstant::Ellipsis)]));
    assert_eq!(expr_to_type_string(&e).unwrap(), "tuple[int, ...]");
    let e = sub(attr(name("typing"), "Literal"), PyExpr::Constant(PyConstant::Bool(true)));
    assert_eq!(expr_to_type_string(&e).unwrap(), "typing.Literal[True]");
    assert_eq!(expr_to_type_string(&PyExpr::Constant(PyConstant::NoneValue)).unwrap(), "None");
}

#[test]
fn marker_inside_a_type_is_its_rust_type() {
    assert_eq!(extract_rust_type_marker(&marker("Vec<i32>")).unwrap(), Some("Vec<i32>".to_string()));
    assert_eq!(extract_rust_type_marker(&name("int")).unwrap(), None);
    let bad = sub(attr(name("pyo3_stub_gen"), "RustType"), int_lit("1"));
    assert_eq!(extract_rust_type_marker(&bad).unwrap_err(), ParseError::RustTypeNeedsString);
    let e = sub(name("dict"), PyExpr::Tuple(vec![marker("A"), sub(name("list"), marker("B"))]));
    assert_eq!(collect_rust_type_markers(&e), vec!["A".to_string(), "B".to_string()]);
}

#[test]
fn value_strings() {
    let cases: Vec<(PyExpr, &str)> = vec![
        (PyExpr::Constant(PyConstant::NoneValue), "None"),
        (PyExpr::Constant(PyConstant::Bool(false)), "False"),
        (int_lit("42"), "42"),
        (PyExpr::Constant(PyConstant::Float("1.5".to_string())), "1.5"),
        (string("it's"), "\"it\\'s\""),
        (string("plain"), "'plain'"),
        (PyExpr::Constant(PyConstant::Ellipsis), "..."),
        (PyExpr::Tuple(vec![int_lit("1")]), "(1,)"),
        (PyExpr::Tuple(vec![int_lit("1"), int_lit("2")]), "(1, 2)"),
        (PyExpr::List(vec![]), "[]"),
        (
            PyExpr::Dict(vec![PyDictItem { key: Some(string("a")), value: int_lit("1") }]),
            "{'a': 1}",
        ),
        (PyExpr::Dict(vec![PyDictItem { key: None, value: name("m") }]), "..."),
        (PyExpr::UnaryOp(PyUnaryOp::USub, Box::new(int_lit("3"))), "-3"),
        (PyExpr::UnaryOp(PyUnaryOp::USub, Box::new(name("x"))), "..."),
        (attr(name("Color"), "RED"), "Color.RED"),
        (name("x"), "x"),
    ];
    for (e, expected) in cases {
        assert_eq!(python_ast_to_python_string(&e).unwrap(), expected, "{:?}", e);
    }
    assert_eq!(
        python_ast_to_python_string(&PyExpr::Constant(PyConstant::Bytes)).unwrap_err(),
        ParseError::BytesDefault
    );
}

#[test]
fn escapes_as_str_escape_default() {
    let s: String = escape_default("a\tb\n'\"\\\u{7f}é").into_iter().collect();
    assert_eq!(s, "a\tb\n'\"\\\u{7f}é".escape_default().to_string());
}

// Printed tokens.

#[test]
fn tokens_print_as_proc_macro2_does() {
    let v = vec![
        TokenTree::Ident("String".to_string()),
        TokenTree::Punct(':', Spacing::Joint),
        TokenTree::Punct(':', Spacing::Alone),
        TokenTree::Ident("from".to_string()),
        TokenTree::Group(Delimiter::Parenthesis, vec![TokenTree::Literal("\"foo\"".to_string())]),
    ];
    assert_eq!(stream_to_string(&v), "String :: from (\"foo\")");
    let v = vec![
        TokenTree::Literal("1".to_string()),
        TokenTree::Punct('+', Spacing::Alone),
        TokenTree::Literal("2".to_string()),
    ];
    assert_eq!(stream_to_string(&v), "1 + 2");
    let v = vec![TokenTree::Group(Delimiter::Brace, vec![])];
    assert_eq!(stream_to_string(&v), "{ }");
}

// Parameters and their plans.

#[test]
fn parameters_without_signature_are_positional_or_keyword() {
    let args = vec![rust_arg("a"), rust_arg("b")];
    let p = Parameters::new(&args);
    assert_eq!(p.params.len(), 2);
    assert!(p.params.iter().all(|q| q.kind == ParameterKind::PositionalOrKeyword));
    assert!(p.params.iter().all(|q| q.default_expr.is_none()));
}

#[test]
fn parameters_follow_the_signature() {
    let args = vec![rust_arg("a"), rust_arg("b"), rust_arg("c"), rust_arg("rest"), rust_arg("kw")];
    let sig = Signature {
        args: vec![
            SignatureArg::Ident("a".to_string()),
            SignatureArg::Slash,
            SignatureArg::Assign("b".to_string(), "2".to_string()),
            SignatureArg::Args("rest".to_string()),
            SignatureArg::Ident("c".to_string()),
            SignatureArg::Keywords("kw".to_string()),
        ],
    };
    let p = Parameters::new_with_sig(&args, &sig).unwrap();
    let got: Vec<(&str, ParameterKind)> =
        p.params.iter().map(|q| (q.arg_info.name.as_str(), q.kind)).collect();
    assert_eq!(
        got,
        vec![
            ("a", ParameterKind::PositionalOnly),
            ("b", ParameterKind::PositionalOrKeyword),
            ("rest", ParameterKind::VarPositional),
            ("c", ParameterKind::KeywordOnly),
            ("kw", ParameterKind::VarKeyword),
        ]
    );
    assert_eq!(p.params[1].default_expr, Some(DefaultExpr::Rust("2".to_string())));
    let bad = Signature { args: vec![SignatureArg::Ident("zz".to_string())] };
    assert_eq!(
        Parameters::new_with_sig(&args, &bad).unwrap_err(),
        ParseError::UnknownArgument("zz".to_string())
    );
}

#[test]
fn default_plans() {
    let p = |arg: ArgInfo, d: Option<DefaultExpr>| ParameterWithKind {
        arg_info: arg,
        kind: ParameterKind::PositionalOrKeyword,
        default_expr: d,
    };
    assert_eq!(default_plan_for_param(&p(rust_arg("a"), None)), DefaultPlan::NoDefault);
    assert_eq!(
        default_plan_for_param(&p(rust_arg("a"), Some(DefaultExpr::Rust("None".to_string())))),
        DefaultPlan::NoneText
    );
    assert_eq!(
        default_plan_for_param(&p(rust_arg("a"), Some(DefaultExpr::Rust("1 + 2".to_string())))),
        DefaultPlan::Formatted("1 + 2".to_string())
    );
    assert_eq!(
        default_plan_for_param(&p(python_arg("a"), Some(DefaultExpr::Rust("true".to_string())))),
        DefaultPlan::Text("True".to_string())
    );
    assert_eq!(
        default_plan_for_param(&p(python_arg("a"), Some(DefaultExpr::Rust("false".to_string())))),
        DefaultPlan::Text("False".to_string())
    );
    assert_eq!(
        default_plan_for_param(&p(rust_arg("a"), Some(DefaultExpr::Python("'x'".to_string())))),
        DefaultPlan::Text("'x'".to_string())
    );
}

#[test]
fn signature_plans() {
    let args = vec![rust_arg("x"), python_arg("flag")];
    let sig = Some(Signature {
        args: vec![
            SignatureArg::Ident("x".to_string()),
            SignatureArg::Star,
            SignatureArg::Assign("flag".to_string(), "None".to_string()),
        ],
    });
    let plans = ArgsWithSignature { args: &args, sig: &sig }.parameter_plans().unwrap();
    assert_eq!(plans.len(), 2);
    assert_eq!(plans[0].name, "x");
    assert_eq!(plans[0].default, DefaultPlan::NoDefault);
    assert_eq!(plans[1].name, "flag");
    assert_eq!(plans[1].kind, ParameterKind::KeywordOnly);
    assert_eq!(plans[1].default, DefaultPlan::NoneText);
    let none = None;
    let plans = ArgsWithSignature { args: &args, sig: &none }.parameter_plans().unwrap();
    assert!(plans.iter().all(|p| p.kind == ParameterKind::PositionalOrKeyword));
}

#[test]
fn member_plans() {
    let m = MemberInfo {
        doc: String::new(),
        name: "x".to_string(),
        ty: TypeOrOverride::OverrideType {
            ty: RustType::Tuple(vec![]),
            type_repr: "A".to_string(),
            imports: import_set_of(&vec![]),
            rust_type_markers: vec!["Vec<i32>".to_string(), "not a type (".to_string()],
        },
        default: Some("0".to_string()),
        deprecated: None,
        kind: MemberKind::Setter,
    };
    let plan = m.plan();
    assert!(plan.use_type_input);
    assert_eq!(plan.default, DefaultPlan::Formatted("0".to_string()));
    assert_eq!(plan.marker_types, vec!["Vec<i32>".to_string()]);
    assert!(!MemberKind::Getter.use_type_input());
    assert!(!MemberKind::GetSet.use_type_input());
    assert_eq!(
        parsable_markers(&vec!["i32".to_string(), "".to_string(), "crate::T".to_string()]),
        vec!["i32".to_string(), "crate::T".to_string()]
    );
}

// Import sets and pruning.

#[test]
fn import_sets_keep_first_occurrences_in_order() {
    let s = import_set_of(&vec![
        "typing".to_string(),
        "collections.abc".to_string(),
        "typing".to_string(),
    ]);
    let v: Vec<String> = s.iter().cloned().collect();
    assert_eq!(v, vec!["typing".to_string(), "collections.abc".to_string()]);
}

#[test]
fn pruning_keeps_the_other_attributes_in_order() {
    let mut attrs = vec![
        plain_attr("a"),
        Attribute {
            path: vec!["gen_stub".to_string()],
            leading_colon: false,
            meta: Meta::List(vec![TokenTree::Ident("skip".to_string())]),
        },
        plain_attr("b"),
        Attribute { path: vec!["gen_stub".to_string()], leading_colon: true, meta: Meta::Path },
    ];
    prune_attrs(&mut attrs);
    assert_eq!(attrs.len(), 3);
    assert!(attr_path_is(&attrs[0], "a"));
    assert!(attr_path_is(&attrs[1], "b"));
    // `::gen_stub` is another path and stays.
    assert!(attrs[2].leading_colon);
}

#[test]
fn dedenting_twice_is_dedenting_once() {
    for t in ["    a\n      b\n    c", "  x\n\n   y", "\u{3000}x\n   y", "a\n  b", "  a\r\n  b\r", "  a\rz\r\n    b"] {
        let once = dedent(t);
        assert_eq!(dedent(&once), once, "{:?}", t);
    }
}

#[test]
fn added_indentation_changes_nothing() {
    for t in ["  def f():\n      pass\n  x = 1", "  a\r\n    b\r\n  c\r", "  a\rb\n  c"] {
        for p in ["", " ", "\t", " \t  "] {
            let indented: Vec<String> = t.lines().map(|l| format!("{p}{l}")).collect();
            assert_eq!(dedent(&indented.join("\n")), dedent(t), "{:?} {:?}", t, p);
        }
    }
}
