//! Python stubs, parsed with rustpython and read into the library's models.

use pyo3_stub_gen_derive::arg::{ArgPattern, FnArg, TypeOrOverride};
use pyo3_stub_gen_derive::attr::DeprecatedInfo;
use pyo3_stub_gen_derive::item::{FnSignature, ImplItemFn};
use pyo3_stub_gen_derive::macro_input::GenFunctionFromPythonInput;
use pyo3_stub_gen_derive::method::MethodType;
use pyo3_stub_gen_derive::parameter::{DefaultExpr, ParameterKind, ParameterWithKind};
use pyo3_stub_gen_derive::parse::ParseError;
use pyo3_stub_gen_derive::pyfunction::{PyFunctionAttr, PyFunctionInfo, PyFunctionInfos};
use pyo3_stub_gen_derive::pymethods::PyMethodsInfo;
use pyo3_stub_gen_derive::rust_type::RustType;
use pyo3_stub_gen_derive::stub_parse::PythonClassStub;
use pyo3_stub_gen_derive::type_alias::PythonTypeAliasStub;

// The library reads a stub's text; `None` only where dedenting would cut a
// character, which no stub below does.

fn parse_python_function_stub(text: &str) -> Result<PyFunctionInfo, ParseError> {
    pyo3_stub_gen_derive::stub_parse::parse_python_function_stub(text).expect("dedents")
}

fn parse_python_overload_stubs(text: &str, name: &str) -> Result<Vec<PyFunctionInfo>, ParseError> {
    pyo3_stub_gen_derive::stub_parse::parse_python_overload_stubs(text, name).expect("dedents")
}

fn parse_python_methods_stub(text: &str) -> Result<PyMethodsInfo, ParseError> {
    pyo3_stub_gen_derive::stub_parse::parse_python_methods_stub(text).expect("dedents")
}

fn parse_python_type_alias_stub(text: &str) -> Result<Vec<PythonTypeAliasStub>, ParseError> {
    pyo3_stub_gen_derive::type_alias::parse_python_type_alias_stub(text).expect("dedents")
}

fn text(s: &str) -> &str {
    s
}

/// The Python type and imports of a hand-written type.
fn python_type(t: &TypeOrOverride) -> (String, Vec<String>) {
    match t {
        TypeOrOverride::OverrideType { type_repr, imports, .. } => {
            (type_repr.clone(), imports.iter().cloned().collect())
        }
        TypeOrOverride::RustType { ty } => panic!("expected a Python type, got {:?}", ty),
    }
}

fn rust_type_text(t: &TypeOrOverride) -> String {
    match t {
        TypeOrOverride::RustType { ty: RustType::Text(s) } => s.clone(),
        other => panic!("expected a Rust type, got {:?}", other),
    }
}

fn strings(v: &[&str]) -> Vec<String> {
    v.iter().map(|s| s.to_string()).collect()
}

fn check_param(
    p: &ParameterWithKind,
    name: &str,
    kind: ParameterKind,
    ty: &str,
    imports: &[&str],
) {
    assert_eq!(p.arg_info.name, name);
    assert_eq!(p.kind, kind);
    assert_eq!(python_type(&p.arg_info.ty), (ty.to_string(), strings(imports)));
}

fn check_plain_function(info: &PyFunctionInfo, name: &str, doc: &str) {
    assert_eq!(info.name, name);
    assert_eq!(info.doc, doc);
    assert_eq!(info.module, None);
    assert!(info.type_ignored.is_none());
    assert_eq!(info.index, 0);
}

#[test]
fn pyfunction_test_basic_function() {
    let info = parse_python_function_stub(&text(
        r#"
            def foo(x: int) -> int:
                """A simple function"""
            "#,
    ))
    .unwrap();
    check_plain_function(&info, "foo", "A simple function");
    assert_eq!(info.parameters.params.len(), 1);
    check_param(&info.parameters.params[0], "x", ParameterKind::PositionalOrKeyword, "int", &[]);
    assert!(info.parameters.params[0].default_expr.is_none());
    assert_eq!(python_type(info.ret.as_ref().unwrap()), ("int".to_string(), vec![]));
    assert!(!info.is_async);
    assert_eq!(info.deprecated, None);
    assert!(!info.is_overload);
}

#[test]
fn pyfunction_test_function_with_imports() {
    let info = parse_python_function_stub(&text(
        r#"
            import typing
            from collections.abc import Callable

            def process(func: Callable[[str], int]) -> typing.Optional[int]:
                """Process a callback function"""
            "#,
    ))
    .unwrap();
    check_plain_function(&info, "process", "Process a callback function");
    assert_eq!(info.parameters.params.len(), 1);
    check_param(
        &info.parameters.params[0],
        "func",
        ParameterKind::PositionalOrKeyword,
        "Callable[[str], int]",
        &["typing", "collections.abc"],
    );
    assert_eq!(
        python_type(info.ret.as_ref().unwrap()),
        ("typing.Optional[int]".to_string(), strings(&["typing", "collections.abc"]))
    );
}

#[test]
fn pyfunction_test_complex_types() {
    let info = parse_python_function_stub(&text(
        r#"
            import collections.abc
            import typing

            def fn_override_type(cb: collections.abc.Callable[[str], typing.Any]) -> collections.abc.Callable[[str], typing.Any]:
                """Example function with complex types"""
            "#,
    ))
    .unwrap();
    check_plain_function(&info, "fn_override_type", "Example function with complex types");
    check_param(
        &info.parameters.params[0],
        "cb",
        ParameterKind::PositionalOrKeyword,
        "collections.abc.Callable[[str], typing.Any]",
        &["collections.abc", "typing"],
    );
    assert_eq!(
        python_type(info.ret.as_ref().unwrap()),
        (
            "collections.abc.Callable[[str], typing.Any]".to_string(),
            strings(&["collections.abc", "typing"])
        )
    );
}

#[test]
fn pyfunction_test_multiple_args() {
    let info = parse_python_function_stub(&text(
        r#"
            import typing
            def add(a: int, b: int, c: typing.Optional[int]) -> int: ...
            "#,
    ))
    .unwrap();
    check_plain_function(&info, "add", "");
    let p = &info.parameters.params;
    assert_eq!(p.len(), 3);
    check_param(&p[0], "a", ParameterKind::PositionalOrKeyword, "int", &["typing"]);
    check_param(&p[1], "b", ParameterKind::PositionalOrKeyword, "int", &["typing"]);
    check_param(
        &p[2],
        "c",
        ParameterKind::PositionalOrKeyword,
        "typing.Optional[int]",
        &["typing"],
    );
    assert_eq!(python_type(info.ret.as_ref().unwrap()), ("int".to_string(), strings(&["typing"])));
}

#[test]
fn pyfunction_test_no_return_type() {
    let info = parse_python_function_stub(&text(
        r#"
            def print_hello(name: str):
                """Print a greeting"""
            "#,
    ))
    .unwrap();
    check_plain_function(&info, "print_hello", "Print a greeting");
    check_param(&info.parameters.params[0], "name", ParameterKind::PositionalOrKeyword, "str", &[]);
    assert!(info.ret.is_none());
}

#[test]
fn test_async_function() {
    let info = parse_python_function_stub(&text(
        r#"
            async def fetch_data(url: str) -> str:
                """Fetch data from URL"""
            "#,
    ))
    .unwrap();
    check_plain_function(&info, "fetch_data", "Fetch data from URL");
    check_param(&info.parameters.params[0], "url", ParameterKind::PositionalOrKeyword, "str", &[]);
    assert_eq!(python_type(info.ret.as_ref().unwrap()), ("str".to_string(), vec![]));
    assert!(info.is_async);
}

#[test]
fn test_deprecated_decorator() {
    let info = parse_python_function_stub(&text(
        r#"
            @deprecated
            def old_function(x: int) -> int:
                """This function is deprecated"""
            "#,
    ))
    .unwrap();
    check_plain_function(&info, "old_function", "This function is deprecated");
    check_param(&info.parameters.params[0], "x", ParameterKind::PositionalOrKeyword, "int", &[]);
    assert_eq!(info.deprecated, Some(DeprecatedInfo { since: None, note: None }));
    assert!(!info.is_overload);
}

#[test]
fn test_deprecated_with_message() {
    let info = parse_python_function_stub(&text(
        r#"
            @deprecated("Use new_function instead")
            def old_function(x: int) -> int:
                """This function is deprecated"""
            "#,
    ))
    .unwrap();
    check_plain_function(&info, "old_function", "This function is deprecated");
    assert_eq!(
        info.deprecated,
        Some(DeprecatedInfo { since: None, note: Some("Use new_function instead".to_string()) })
    );
}

#[test]
fn test_rust_type_marker() {
    let info = parse_python_function_stub(&text(
        r#"
            def process_data(x: pyo3_stub_gen.RustType["MyRustType"]) -> pyo3_stub_gen.RustType["MyRustType"]:
                """Process data using Rust type marker"""
            "#,
    ))
    .unwrap();
    check_plain_function(&info, "process_data", "Process data using Rust type marker");
    let p = &info.parameters.params[0];
    assert_eq!(p.arg_info.name, "x");
    assert_eq!(p.kind, ParameterKind::PositionalOrKeyword);
    assert_eq!(rust_type_text(&p.arg_info.ty), "MyRustType");
    assert_eq!(rust_type_text(info.ret.as_ref().unwrap()), "MyRustType");
}

#[test]
fn test_rust_type_marker_with_path() {
    let info = parse_python_function_stub(&text(
        r#"
            def process(x: pyo3_stub_gen.RustType["crate::MyType"]) -> pyo3_stub_gen.RustType["Vec<String>"]:
                """Test with type paths"""
            "#,
    ))
    .unwrap();
    check_plain_function(&info, "process", "Test with type paths");
    assert_eq!(rust_type_text(&info.parameters.params[0].arg_info.ty), "crate::MyType");
    assert_eq!(rust_type_text(info.ret.as_ref().unwrap()), "Vec<String>");
}

#[test]
fn test_keyword_only_args() {
    let info = parse_python_function_stub(&text(
        r#"
            import typing
            def configure(name: str, *, dtype: str, ndim: int, jagged: bool = False) -> None:
                """Test keyword-only parameters"""
            "#,
    ))
    .unwrap();
    check_plain_function(&info, "configure", "Test keyword-only parameters");
    let p = &info.parameters.params;
    assert_eq!(p.len(), 4);
    check_param(&p[0], "name", ParameterKind::PositionalOrKeyword, "str", &["typing"]);
    check_param(&p[1], "dtype", ParameterKind::KeywordOnly, "str", &["typing"]);
    check_param(&p[2], "ndim", ParameterKind::KeywordOnly, "int", &["typing"]);
    check_param(&p[3], "jagged", ParameterKind::KeywordOnly, "bool", &["typing"]);
    assert!(p[0].default_expr.is_none());
    assert_eq!(p[3].default_expr, Some(DefaultExpr::Python("False".to_string())));
    assert_eq!(python_type(info.ret.as_ref().unwrap()), ("None".to_string(), strings(&["typing"])));
}

#[test]
fn test_positional_only_args() {
    let info = parse_python_function_stub(&text(
        r#"
            def func(x: int, y: int, /, z: int) -> int:
                """Test positional-only parameters"""
            "#,
    ))
    .unwrap();
    check_plain_function(&info, "func", "Test positional-only parameters");
    let p = &info.parameters.params;
    assert_eq!(p.len(), 3);
    check_param(&p[0], "x", ParameterKind::PositionalOnly, "int", &[]);
    check_param(&p[1], "y", ParameterKind::PositionalOnly, "int", &[]);
    check_param(&p[2], "z", ParameterKind::PositionalOrKeyword, "int", &[]);
    assert_eq!(python_type(info.ret.as_ref().unwrap()), ("int".to_string(), vec![]));
}

#[test]
fn test_single_overload() {
    let info = parse_python_function_stub(&text(
        r#"
            @overload
            def foo(x: int) -> int:
                """Integer overload"""
            "#,
    ))
    .unwrap();
    check_plain_function(&info, "foo", "Integer overload");
    check_param(&info.parameters.params[0], "x", ParameterKind::PositionalOrKeyword, "int", &[]);
    assert!(info.is_overload);
}

#[test]
fn test_multiple_overloads() {
    let infos = parse_python_overload_stubs(
        &text(
            r#"
            @overload
            def foo(x: int) -> int:
                """Integer overload"""
            @overload
            def foo(x: float) -> float:
                """Float overload"""
            "#,
        ),
        "foo",
    )
    .unwrap();
    assert_eq!(infos.len(), 2);
    check_plain_function(&infos[0], "foo", "Integer overload");
    check_param(&infos[0].parameters.params[0], "x", ParameterKind::PositionalOrKeyword, "int", &[]);
    assert_eq!(python_type(infos[0].ret.as_ref().unwrap()), ("int".to_string(), vec![]));
    assert!(infos[0].is_overload);
    check_plain_function(&infos[1], "foo", "Float overload");
    check_param(
        &infos[1].parameters.params[0],
        "x",
        ParameterKind::PositionalOrKeyword,
        "float",
        &[],
    );
    assert_eq!(python_type(infos[1].ret.as_ref().unwrap()), ("float".to_string(), vec![]));
    assert!(infos[1].is_overload);
}

#[test]
fn test_overload_with_literal_types() {
    let info = parse_python_function_stub(&text(
        r#"
            import typing
            @overload
            def as_tuple(xs: list[int], *, tuple_out: typing.Literal[True]) -> tuple[int, ...]:
                """Return as tuple"""
            "#,
    ))
    .unwrap();
    check_plain_function(&info, "as_tuple", "Return as tuple");
    let p = &info.parameters.params;
    check_param(&p[0], "xs", ParameterKind::PositionalOrKeyword, "list[int]", &["typing"]);
    check_param(&p[1], "tuple_out", ParameterKind::KeywordOnly, "typing.Literal[True]", &["typing"]);
    assert_eq!(
        python_type(info.ret.as_ref().unwrap()),
        ("tuple[int, ...]".to_string(), strings(&["typing"]))
    );
    assert!(info.is_overload);
}

#[test]
fn test_single_method_class() {
    let info = parse_python_methods_stub(&text(
        r#"
            class Incrementer:
                def increment(self, x: int) -> int:
                    """Increment by one"""
            "#,
    ))
    .unwrap();
    assert_eq!(info.methods.len(), 1);
    let m = &info.methods[0];
    assert_eq!(m.name, "increment");
    assert_eq!(m.args.len(), 1);
    assert_eq!(m.args[0].name, "x");
    assert_eq!(python_type(&m.args[0].ty), ("int".to_string(), vec![]));
    assert_eq!(python_type(m.ret.as_ref().unwrap()), ("int".to_string(), vec![]));
    assert_eq!(m.doc, "Increment by one");
    assert_eq!(m.ty, MethodType::Instance);
    assert!(!m.is_async);
    assert_eq!(m.deprecated, None);
    assert!(m.type_ignored.is_none());
    assert_eq!(info.struct_id, RustType::Text("Incrementer".to_string()));
}

#[test]
fn test_multiple_methods_class() {
    let info = parse_python_methods_stub(&text(
        r#"
            class Incrementer:
                def increment_1(self, x: int) -> int:
                    """First method"""
                def increment_2(self, x: float) -> float:
                    """Second method"""
            "#,
    ))
    .unwrap();
    assert_eq!(info.methods.len(), 2);
    assert_eq!(info.methods[0].name, "increment_1");
    assert_eq!(info.methods[1].name, "increment_2");
}

#[test]
fn test_static_method_in_class() {
    let info = parse_python_methods_stub(&text(
        r#"
            class MyClass:
                @staticmethod
                def create(name: str) -> str:
                    """Create something"""
            "#,
    ))
    .unwrap();
    assert_eq!(info.methods.len(), 1);
    let m = &info.methods[0];
    assert_eq!(m.name, "create");
    assert_eq!(m.args.len(), 1);
    assert_eq!(m.args[0].name, "name");
    assert_eq!(python_type(&m.args[0].ty), ("str".to_string(), vec![]));
    assert_eq!(python_type(m.ret.as_ref().unwrap()), ("str".to_string(), vec![]));
    assert_eq!(m.doc, "Create something");
    assert_eq!(m.ty, MethodType::Static);
}

#[test]
fn test_class_method_in_class() {
    let info = parse_python_methods_stub(&text(
        r#"
            class MyClass:
                @classmethod
                def from_string(cls, s: str) -> int:
                    """Create from string"""
            "#,
    ))
    .unwrap();
    assert_eq!(info.methods.len(), 1);
    let m = &info.methods[0];
    assert_eq!(m.name, "from_string");
    assert_eq!(m.args.len(), 1);
    assert_eq!(m.args[0].name, "s");
    assert_eq!(python_type(&m.args[0].ty), ("str".to_string(), vec![]));
    assert_eq!(python_type(m.ret.as_ref().unwrap()), ("int".to_string(), vec![]));
    assert_eq!(m.doc, "Create from string");
    assert_eq!(m.ty, MethodType::Class);
}

#[test]
fn test_new_method_in_class() {
    let info = parse_python_methods_stub(&text(
        r#"
            class MyClass:
                def __new__(cls) -> object:
                    """Constructor"""
            "#,
    ))
    .unwrap();
    assert_eq!(info.methods.len(), 1);
    let m = &info.methods[0];
    assert_eq!(m.name, "__new__");
    assert!(m.args.is_empty());
    assert_eq!(python_type(m.ret.as_ref().unwrap()), ("object".to_string(), vec![]));
    assert_eq!(m.doc, "Constructor");
    assert_eq!(m.ty, MethodType::New);
}

#[test]
fn test_method_with_imports_in_class() {
    let info = parse_python_methods_stub(&text(
        r#"
            import typing
            from collections.abc import Callable
            class MyClass:
                def process(self, func: Callable[[str], int]) -> typing.Optional[int]:
                    """Process a callback"""
            "#,
    ))
    .unwrap();
    assert_eq!(info.methods.len(), 1);
    let m = &info.methods[0];
    assert_eq!(m.name, "process");
    assert_eq!(m.args[0].name, "func");
    assert_eq!(
        python_type(&m.args[0].ty),
        ("Callable[[str], int]".to_string(), strings(&["typing", "collections.abc"]))
    );
    assert_eq!(
        python_type(m.ret.as_ref().unwrap()),
        ("typing.Optional[int]".to_string(), strings(&["typing", "collections.abc"]))
    );
    assert_eq!(m.doc, "Process a callback");
    assert_eq!(m.ty, MethodType::Instance);
}

#[test]
fn test_async_method_in_class() {
    let info = parse_python_methods_stub(&text(
        r#"
            class MyClass:
                async def fetch_data(self, url: str) -> str:
                    """Fetch data asynchronously"""
            "#,
    ))
    .unwrap();
    assert_eq!(info.methods.len(), 1);
    let m = &info.methods[0];
    assert_eq!(m.name, "fetch_data");
    assert_eq!(m.args[0].name, "url");
    assert_eq!(python_type(&m.args[0].ty), ("str".to_string(), vec![]));
    assert_eq!(m.doc, "Fetch data asynchronously");
    assert_eq!(m.ty, MethodType::Instance);
    assert!(m.is_async);
}

// Errors and edge cases.

#[test]
fn function_stub_without_function_is_refused() {
    let r = parse_python_function_stub(&text("import typing\n"));
    assert_eq!(r.unwrap_err(), ParseError::NoFunction);
}

#[test]
fn function_stub_with_two_functions_is_refused() {
    let r = parse_python_function_stub(&text("def a() -> int: ...\ndef b() -> int: ...\n"));
    assert_eq!(r.unwrap_err(), ParseError::MultipleFunctions);
}

#[test]
fn overload_with_another_name_is_refused() {
    let r = parse_python_overload_stubs(&text("@overload\ndef bar(x: int) -> int: ...\n"), "foo");
    assert_eq!(r.unwrap_err(), ParseError::OverloadNameMismatch);
}

#[test]
fn overload_without_decorator_is_refused() {
    let r = parse_python_overload_stubs(&text("def foo(x: int) -> int: ...\n"), "foo");
    assert_eq!(r.unwrap_err(), ParseError::OverloadWithoutDecorator);
}

#[test]
fn overloads_without_function_are_refused() {
    let r = parse_python_overload_stubs(&text("import typing\n"), "foo");
    assert_eq!(r.unwrap_err(), ParseError::NoOverloadFunction);
}

#[test]
fn rust_type_marker_needs_a_string() {
    let r = parse_python_function_stub(&text("def f(x: pyo3_stub_gen.RustType[1]) -> int: ...\n"));
    assert_eq!(r.unwrap_err(), ParseError::RustTypeNeedsString);
}

#[test]
fn rust_type_marker_needs_a_rust_type() {
    let r = parse_python_function_stub(&text(
        "def f(x: pyo3_stub_gen.RustType[\"not a type (\"]) -> int: ...\n",
    ));
    assert_eq!(r.unwrap_err(), ParseError::BadRustType("not a type (".to_string()));
}

#[test]
fn unannotated_parameter_is_any() {
    let info = parse_python_function_stub(&text("def f(x, *args, **kwargs): ...\n")).unwrap();
    let p = &info.parameters.params;
    assert_eq!(p.len(), 3);
    check_param(&p[0], "x", ParameterKind::PositionalOrKeyword, "typing.Any", &["typing"]);
    check_param(&p[1], "args", ParameterKind::VarPositional, "typing.Any", &["typing"]);
    check_param(&p[2], "kwargs", ParameterKind::VarKeyword, "typing.Any", &["typing"]);
}

#[test]
fn python_defaults_are_written_as_python() {
    let info = parse_python_function_stub(&text(
        "def f(a: int = -1, b: str = 'x', c: list[int] = [1, 2], d: dict[str, int] = {'k': 3}, e: float = None) -> None: ...\n",
    ))
    .unwrap();
    let d: Vec<&Option<DefaultExpr>> =
        info.parameters.params.iter().map(|p| &p.default_expr).collect();
    let expected = vec![
            Some(DefaultExpr::Python("-1".to_string())),
            Some(DefaultExpr::Python("'x'".to_string())),
            Some(DefaultExpr::Python("[1, 2]".to_string())),
            Some(DefaultExpr::Python("{'k': 3}".to_string())),
            Some(DefaultExpr::Python("None".to_string())),
        ];
    assert_eq!(d, expected.iter().collect::<Vec<_>>());
}

#[test]
fn bytes_default_is_refused() {
    let r = parse_python_function_stub(&text("def f(a: bytes = b'x') -> None: ...\n"));
    assert_eq!(r.unwrap_err(), ParseError::BytesDefault);
}

#[test]
fn methods_stub_without_class_is_refused() {
    let r = parse_python_methods_stub(&text("def f() -> None: ...\n"));
    assert_eq!(r.unwrap_err(), ParseError::NoClass);
}

#[test]
fn methods_stub_with_two_classes_is_refused() {
    let r = parse_python_methods_stub(&text(
        "class A:\n    def f(self) -> None: ...\nclass B:\n    def g(self) -> None: ...\n",
    ));
    assert_eq!(r.unwrap_err(), ParseError::MultipleClasses);
}

#[test]
fn class_without_method_is_refused() {
    let r = parse_python_methods_stub(&text("class A:\n    x: int\n"));
    assert_eq!(r.unwrap_err(), ParseError::NoMethod);
}

#[test]
fn gen_function_input_keeps_its_module() {
    let input = GenFunctionFromPythonInput {
        module: Some("my_mod".to_string()),
        python_stub: "def foo(x: int) -> int:\n    \"\"\"Doc\"\"\"\n".to_string(),
    };
    let info = pyo3_stub_gen_derive::stub_parse::parse_gen_function_from_python_input(&input)
        .unwrap()
        .unwrap();
    assert_eq!(info.name, "foo");
    assert_eq!(info.module, Some("my_mod".to_string()));
    assert_eq!(info.doc, "Doc");
}

#[test]
fn type_aliases_are_read_with_imports_and_docs() {
    let aliases = parse_python_type_alias_stub(&text(
        r#"
            import typing
            from typing import TypeAlias
            MaybeInt: TypeAlias = typing.Optional[int]
            """An optional integer"""
            type Pair = tuple[int, pyo3_stub_gen.RustType["MyType"]]
            "#,
    ))
    .unwrap();
    assert_eq!(aliases.len(), 2);
    assert_eq!(aliases[0].name, "MaybeInt");
    assert_eq!(aliases[0].type_expr, "typing.Optional[int]");
    assert_eq!(aliases[0].doc, "An optional integer");
    assert_eq!(aliases[0].imports, strings(&["typing", "typing"]));
    assert_eq!(aliases[1].name, "Pair");
    assert_eq!(aliases[1].rust_type_markers, strings(&["MyType"]));
    assert_eq!(aliases[1].doc, "");
}

#[test]
fn type_alias_needs_a_value() {
    let r = parse_python_type_alias_stub(&text("from typing import TypeAlias\nX: TypeAlias\n"));
    assert_eq!(r.unwrap_err(), ParseError::AliasWithoutValue("X".to_string()));
}

#[test]
fn type_alias_needs_the_type_alias_annotation() {
    let r = parse_python_type_alias_stub(&text("X: int = 3\n"));
    assert_eq!(r.unwrap_err(), ParseError::AliasWithoutAnnotation("X".to_string()));
}

#[test]
fn rust_type_marker_error_names_the_text() {
    let r = parse_python_function_stub(&text(
        "def f(x: pyo3_stub_gen.RustType[\"Invalid:::\"]) -> int: ...\n",
    ));
    assert_eq!(r.unwrap_err(), ParseError::BadRustType("Invalid:::".to_string()));
}

#[test]
fn type_alias_stub_without_alias_is_refused() {
    let r = parse_python_type_alias_stub(&text("import typing\n"));
    assert_eq!(r.unwrap_err(), ParseError::NoTypeAlias);
}

#[test]
fn class_name_must_be_a_rust_type() {
    let r = parse_python_methods_stub(&text("class fn:\n    def f(self) -> None: ...\n"));
    assert_eq!(r.unwrap_err(), ParseError::BadClassName);
}

// Entries registered by `#[gen_stub_pyfunction]`.

fn rust_fn(name: &str, arg: &str, ty: &str, ret: &str) -> ImplItemFn {
    ImplItemFn {
        attrs: vec![],
        sig: FnSignature {
            ident: name.to_string(),
            inputs: vec![FnArg::Typed(
                vec![],
                ArgPattern::Ident(arg.to_string()),
                RustType::Text(ty.to_string()),
            )],
            output: Some(RustType::Text(ret.to_string())),
            is_async: false,
        },
    }
}

fn fn_attr(
    module: Option<&str>,
    python: Option<&str>,
    python_overload: Option<&str>,
    no_default_overload: bool,
) -> PyFunctionAttr {
    PyFunctionAttr {
        module: module.map(|s| s.to_string()),
        python: python.map(|s| s.to_string()),
        python_overload: python_overload.map(|s| s.to_string()),
        no_default_overload,
    }
}

fn rust_type_of(t: &TypeOrOverride) -> &RustType {
    match t {
        TypeOrOverride::RustType { ty } => ty,
        other => panic!("expected a Rust type, got {:?}", other),
    }
}

#[test]
fn test_overload_example_1_expansion() {
    let stub = r#"
            @overload
            def overload_example_1(x: int) -> int: ...
            "#;
    let item = rust_fn("overload_example_1", "x", "f64", "f64");
    let attr = fn_attr(None, None, Some(stub), false);
    let infos = PyFunctionInfos::from_parts(&item, &attr).unwrap().unwrap().infos;
    assert_eq!(infos.len(), 2);
    assert_eq!(infos[0].name, "overload_example_1");
    assert_eq!(python_type(&infos[0].parameters.params[0].arg_info.ty).0, "int");
    assert!(infos[0].is_overload);
    assert_eq!(infos[0].index, 0);
    assert_eq!(infos[1].name, "overload_example_1");
    assert_eq!(
        rust_type_of(&infos[1].parameters.params[0].arg_info.ty),
        &RustType::Text("f64".to_string())
    );
    assert!(infos[1].is_overload);
    assert_eq!(infos[1].index, 1);
}

#[test]
fn test_overload_example_2_expansion() {
    let stub = r#"
            @overload
            def overload_example_2(ob: int) -> int:
                """Increments integer by 1"""

            @overload
            def overload_example_2(ob: float) -> float:
                """Increments float by 1"""
            "#;
    let item = rust_fn("overload_example_2", "ob", "Bound<PyAny>", "PyResult<PyObject>");
    let attr = fn_attr(None, None, Some(stub), true);
    let infos = PyFunctionInfos::from_parts(&item, &attr).unwrap().unwrap().infos;
    assert_eq!(infos.len(), 2);
    assert_eq!(python_type(&infos[0].parameters.params[0].arg_info.ty).0, "int");
    assert_eq!(infos[0].doc, "Increments integer by 1");
    assert_eq!(python_type(&infos[1].parameters.params[0].arg_info.ty).0, "float");
    assert_eq!(infos[1].doc, "Increments float by 1");
    for (k, f) in infos.iter().enumerate() {
        assert!(f.is_overload);
        assert_eq!(f.index, k);
        assert_eq!(f.module, None);
    }
}

#[test]
fn test_regular_function_no_overload() {
    let item = rust_fn("regular_function", "x", "i32", "i32");
    let attr = fn_attr(None, None, None, false);
    let infos = PyFunctionInfos::from_parts(&item, &attr).unwrap().unwrap().infos;
    assert_eq!(infos.len(), 1);
    assert_eq!(infos[0].name, "regular_function");
    assert!(!infos[0].is_overload);
    assert_eq!(infos[0].index, 0);
    assert_eq!(infos[0].module, None);
}

#[test]
fn python_stub_replaces_the_rust_signature() {
    let stub = r#"
    import collections.abc
    import typing

    def fn_with_callback(callback: collections.abc.Callable[[str], typing.Any]) -> collections.abc.Callable[[str], typing.Any]:
        """Example using python parameter for complete override."""
"#;
    let item = rust_fn("fn_with_callback", "callback", "Bound<PyAny>", "PyResult<Bound<PyAny>>");
    let attr = fn_attr(Some("my_mod"), Some(stub), None, false);
    let infos = PyFunctionInfos::from_parts(&item, &attr).unwrap().unwrap().infos;
    assert_eq!(infos.len(), 1);
    let f = &infos[0];
    assert_eq!(f.name, "fn_with_callback");
    assert_eq!(f.doc, "Example using python parameter for complete override.");
    assert_eq!(f.module, Some("my_mod".to_string()));
    assert!(!f.is_overload);
    assert_eq!(
        python_type(&f.parameters.params[0].arg_info.ty),
        (
            "collections.abc.Callable[[str], typing.Any]".to_string(),
            strings(&["collections.abc", "typing"])
        )
    );
}

#[test]
fn overload_named_otherwise_is_refused() {
    let stub = "@overload\ndef other(x: int) -> int: ...\n";
    let item = rust_fn("foo", "x", "i32", "i32");
    let attr = fn_attr(None, None, Some(stub), false);
    assert_eq!(
        PyFunctionInfos::from_parts(&item, &attr).unwrap().unwrap_err(),
        ParseError::OverloadNameMismatch
    );
}

#[test]
fn invalid_python_is_a_syntax_error() {
    assert_eq!(parse_python_function_stub("def f(:\n").unwrap_err(), ParseError::PythonSyntax);
    assert_eq!(parse_python_methods_stub("class A(\n").unwrap_err(), ParseError::PythonSyntax);
}

#[test]
fn stub_text_whose_margin_cuts_a_character_is_not_read() {
    // U+3000 is three bytes of white space; a margin of two bytes cuts it.
    let r = pyo3_stub_gen_derive::stub_parse::parse_python_function_stub(
        "\u{3000}def f() -> int: ...\n  x = 1\n",
    );
    assert!(r.is_none());
}

#[test]
fn class_stub_holds_the_class_and_imports() {
    let stub = PythonClassStub::new("import typing\nclass A:\n    def f(self) -> int: ...\n")
        .unwrap()
        .unwrap();
    assert_eq!(stub.class_def.name, "A");
    assert_eq!(stub.imports, vec!["typing".to_string()]);
    let info = PyMethodsInfo::try_from_class_stub(&stub).unwrap();
    assert_eq!(info.methods.len(), 1);
    assert_eq!(info.methods[0].name, "f");
}

