//! Python source text parsed by `rustpython-parser` into the plain model of
//! [`crate::python_stub`].

use vstd::prelude::*;
use rustpython_parser::{ast, Parse};
use crate::python::{PyConstant, PyDictItem, PyExpr, PyUnaryOp};
use crate::python_stub::{PyArg, PyArgWithDefault, PyArguments, PyClassDef, PyFunctionDef, PyStmt};

verus! {

#[verifier::external_type_specification]
#[verifier::external_body]
pub struct ExTextRange(rustpython_parser::text_size::TextRange);

#[verifier::external_type_specification]
#[verifier::external_body]
#[verifier::reject_recursive_types(R)]
pub struct ExStmt<R>(ast::Stmt<R>);

#[verifier::external_type_specification]
#[verifier::external_body]
#[verifier::reject_recursive_types(R)]
pub struct ExExpr<R>(ast::Expr<R>);

#[verifier::external_type_specification]
#[verifier::external_body]
pub struct ExConstant(ast::Constant);

#[verifier::external_type_specification]
#[verifier::external_body]
#[verifier::reject_recursive_types(R)]
pub struct ExArg<R>(ast::Arg<R>);

#[verifier::external_type_specification]
#[verifier::external_body]
#[verifier::reject_recursive_types(R)]
pub struct ExArgWithDefault<R>(ast::ArgWithDefault<R>);

#[verifier::external_type_specification]
#[verifier::external_body]
#[verifier::reject_recursive_types(R)]
pub struct ExArguments<R>(ast::Arguments<R>);

/// The statements of a Python module as `rustpython-parser` reads `text`,
/// in the library's model; `None` when the text is not valid Python.
pub uninterp spec fn python_suite(text: Seq<char>) -> Option<Seq<PyStmt>>;

/// Trusted: `ast::Suite::parse(text, "<stub>")`, with each statement of the
/// result converted one for one into the model. The parse depends on the
/// text alone; what it gives is named, not stated.
#[verifier::external_body]
pub fn parse_python_suite(text: &str) -> (r: Option<Vec<PyStmt>>)
    ensures
        r is None <==> python_suite(text@) is None,
        r matches Some(v) ==> python_suite(text@) == Some(v@),
{
    ast::Suite::parse(text, "<stub>").ok().map(|s| py_stmts(&s))
}

/// Conversion of parsed statements, one for one.
#[verifier::external_body]
fn py_stmts(stmts: &[ast::Stmt]) -> (r: Vec<PyStmt>) {
    stmts.iter().map(py_stmt).collect()
}

/// Conversion of a parsed statement, one variant for one (imports and
/// function definitions here, the others in [`py_other_stmt`]).
#[verifier::external_body]
fn py_stmt(s: &ast::Stmt) -> (r: PyStmt) {
    match s {
        ast::Stmt::Import(i) => PyStmt::Import(i.names.iter().map(|a| a.name.to_string()).collect()),
        ast::Stmt::ImportFrom(i) => PyStmt::ImportFrom(i.module.as_ref().map(|m| m.to_string())),
        ast::Stmt::FunctionDef(f) => PyStmt::FunctionDef(py_function(
            f.name.to_string(), &f.args, &f.body, &f.decorator_list, &f.returns)),
        ast::Stmt::AsyncFunctionDef(f) => PyStmt::AsyncFunctionDef(py_function(
            f.name.to_string(), &f.args, &f.body, &f.decorator_list, &f.returns)),
        _ => py_other_stmt(s),
    }
}

/// Conversion of a parsed class, expression, annotated assignment or
/// `type` statement; any other statement is `Other`.
#[verifier::external_body]
fn py_other_stmt(s: &ast::Stmt) -> (r: PyStmt) {
    match s {
        ast::Stmt::ClassDef(c) => PyStmt::ClassDef(PyClassDef { name: c.name.to_string(), body: py_stmts(&c.body) }),
        ast::Stmt::Expr(e) => PyStmt::Expr(py_expr(&e.value)),
        ast::Stmt::AnnAssign(a) => PyStmt::AnnAssign(py_expr(&a.target), py_expr(&a.annotation), a.value.as_deref().map(py_expr)),
        ast::Stmt::TypeAlias(t) => PyStmt::TypeAlias(py_expr(&t.name), py_expr(&t.value)),
        _ => PyStmt::Other,
    }
}

/// Conversion of the parts of a parsed `def`.
#[verifier::external_body]
fn py_function(
    name: String,
    args: &ast::Arguments,
    body: &[ast::Stmt],
    decorators: &[ast::Expr],
    ret: &Option<Box<ast::Expr>>,
) -> (r: PyFunctionDef) {
    PyFunctionDef {
        name,
        args: py_arguments(args),
        body: py_stmts(body),
        decorator_list: decorators.iter().map(py_expr).collect(),
        returns: ret.as_deref().map(py_expr),
    }
}

/// Conversion of a parsed parameter list, field by field.
#[verifier::external_body]
fn py_arguments(a: &ast::Arguments) -> (r: PyArguments) {
    PyArguments {
        posonlyargs: py_args_with_default(&a.posonlyargs),
        args: py_args_with_default(&a.args),
        vararg: a.vararg.as_deref().map(py_arg),
        kwonlyargs: py_args_with_default(&a.kwonlyargs),
        kwarg: a.kwarg.as_deref().map(py_arg),
    }
}

/// Conversion of parsed parameters with their defaults.
#[verifier::external_body]
fn py_args_with_default(v: &[ast::ArgWithDefault]) -> (r: Vec<PyArgWithDefault>) {
    v.iter().map(|a| PyArgWithDefault { def: py_arg(&a.def), default: a.default.as_deref().map(py_expr) }).collect()
}

/// Conversion of a parsed parameter.
#[verifier::external_body]
fn py_arg(a: &ast::Arg) -> (r: PyArg) {
    PyArg { name: a.arg.to_string(), annotation: a.annotation.as_deref().map(py_expr) }
}

/// Conversion of a parsed expression, one variant for one (names,
/// attributes, subscripts, lists and tuples here, the others in
/// [`py_other_expr`]).
#[verifier::external_body]
fn py_expr(e: &ast::Expr) -> (r: PyExpr) {
    match e {
        ast::Expr::Name(n) => PyExpr::Name(n.id.to_string()),
        ast::Expr::Attribute(a) => PyExpr::Attribute(Box::new(py_expr(&a.value)), a.attr.to_string()),
        ast::Expr::Subscript(s) => PyExpr::Subscript(Box::new(py_expr(&s.value)), Box::new(py_expr(&s.slice))),
        ast::Expr::List(l) => PyExpr::List(l.elts.iter().map(py_expr).collect()),
        ast::Expr::Tuple(t) => PyExpr::Tuple(t.elts.iter().map(py_expr).collect()),
        _ => py_other_expr(e),
    }
}

/// Conversion of a parsed dict display, constant, unary operation or call;
/// any other expression is `Other`.
#[verifier::external_body]
fn py_other_expr(e: &ast::Expr) -> (r: PyExpr) {
    match e {
        ast::Expr::Dict(d) => PyExpr::Dict(py_dict_items(&d.keys, &d.values)),
        ast::Expr::Constant(c) => PyExpr::Constant(py_constant(&c.value)),
        ast::Expr::UnaryOp(u) => PyExpr::UnaryOp(
            if matches!(u.op, ast::UnaryOp::USub) { PyUnaryOp::USub } else { PyUnaryOp::Other },
            Box::new(py_expr(&u.operand))),
        ast::Expr::Call(c) => PyExpr::Call(Box::new(py_expr(&c.func)), c.args.iter().map(py_expr).collect()),
        _ => PyExpr::Other,
    }
}

/// Conversion of the entries of a parsed dict display, key by value.
#[verifier::external_body]
fn py_dict_items(keys: &[Option<ast::Expr>], values: &[ast::Expr]) -> (r: Vec<PyDictItem>) {
    keys.iter().zip(values.iter()).map(|(k, v)| PyDictItem { key: k.as_ref().map(py_expr), value: py_expr(v) }).collect()
}

/// Conversion of a parsed constant, one variant for one. An integer keeps
/// its decimal text (`BigInt`'s `to_string`); a float carries the text of
/// Rust's `f64` `to_string` (so `1.0` becomes `"1"`, not Python's `"1.0"`).
#[verifier::external_body]
fn py_constant(c: &ast::Constant) -> (r: PyConstant) {
    match c {
        ast::Constant::None => PyConstant::NoneValue,
        ast::Constant::Bool(b) => PyConstant::Bool(*b),
        ast::Constant::Str(s) => PyConstant::Str(s.clone()),
        ast::Constant::Bytes(_) => PyConstant::Bytes,
        ast::Constant::Int(i) => PyConstant::Int(i.to_string()),
        ast::Constant::Float(f) => PyConstant::Float(f.to_string()),
        ast::Constant::Ellipsis => PyConstant::Ellipsis,
        other => PyConstant::Other(format!("{:?}", other)),
    }
}

} // verus!
