//! Python stub definitions (functions, methods, classes and type aliases)
//! read into the metadata that stub generation needs.

use vstd::prelude::*;
use indexmap::IndexSet;
use crate::arg::{ArgInfo, ArgInfoView, TypeOrOverride, TypeOrOverrideView, opt_type_view};
use crate::attr::{opt_view, DeprecatedInfo, DeprecatedView};
use crate::imports::{first_occurrences, import_items, import_set_of};
use crate::parameter::{DefaultExpr, DefaultView, ParameterKind, ParameterView, ParameterWithKind, Parameters};
use crate::parse::{lemma_string_with, same_error, string_with, ParseError};
use crate::python::{
    expr_to_type_string, extract_rust_type_marker, python_ast_to_python_string, rust_type_marker,
    type_text, value_text, PyConstant, PyExpr,
};
use crate::rust_syntax::{rust_type_parses, type_parses};
use crate::rust_type::{RustType, TypeView};
use crate::text::str_is;

verus! {

/// A parameter of a Python function: its name and annotation.
#[derive(Debug, PartialEq, Eq)]
pub struct PyArg {
    pub name: String,
    pub annotation: Option<PyExpr>,
}

/// A parameter with its default value.
#[derive(Debug, PartialEq, Eq)]
pub struct PyArgWithDefault {
    pub def: PyArg,
    pub default: Option<PyExpr>,
}

/// The parameters of a Python function, by kind.
#[derive(Debug, PartialEq, Eq)]
pub struct PyArguments {
    pub posonlyargs: Vec<PyArgWithDefault>,
    pub args: Vec<PyArgWithDefault>,
    pub vararg: Option<PyArg>,
    pub kwonlyargs: Vec<PyArgWithDefault>,
    pub kwarg: Option<PyArg>,
}

/// A `def` statement.
#[derive(Debug, PartialEq, Eq)]
pub struct PyFunctionDef {
    pub name: String,
    pub args: PyArguments,
    pub body: Vec<PyStmt>,
    pub decorator_list: Vec<PyExpr>,
    pub returns: Option<PyExpr>,
}

/// A `class` statement.
#[derive(Debug, PartialEq, Eq)]
pub struct PyClassDef {
    pub name: String,
    pub body: Vec<PyStmt>,
}

/// A Python statement, as far as stubs read them: `import a, b` (the
/// module names), `from m import ...` (the module, if named), `def`,
/// `async def`, `class`, an expression, `target: annotation = value`,
/// `type Name = value`, or any other statement.
#[derive(Debug, PartialEq, Eq)]
pub enum PyStmt {
    Import(Vec<String>),
    ImportFrom(Option<String>),
    FunctionDef(PyFunctionDef),
    AsyncFunctionDef(PyFunctionDef),
    ClassDef(PyClassDef),
    Expr(PyExpr),
    AnnAssign(PyExpr, PyExpr, Option<PyExpr>),
    TypeAlias(PyExpr, PyExpr),
    Other,
}

/// The string that a statement is, when it is a string expression.
pub open spec fn stmt_string(s: PyStmt) -> Option<Seq<char>> {
    match s {
        PyStmt::Expr(PyExpr::Constant(PyConstant::Str(t))) => Some(t@),
        _ => None,
    }
}

fn stmt_string_exec(s: &PyStmt) -> (r: Option<String>)
    ensures
        opt_view(r) == stmt_string(*s),
{
    match s {
        PyStmt::Expr(PyExpr::Constant(PyConstant::Str(t))) => Some(t.clone()),
        _ => None,
    }
}

/// The docstring of a function: its first statement when that is a string,
/// else the empty string.
pub open spec fn docstring(f: PyFunctionDef) -> Seq<char> {
    if f.body.len() > 0 && stmt_string(f.body[0]) is Some {
        stmt_string(f.body[0])->0
    } else {
        Seq::empty()
    }
}

/// The docstring of a function (see [`docstring`]).
pub fn extract_docstring(f: &PyFunctionDef) -> (r: String)
    ensures
        r@ == docstring(*f),
{
    if f.body.len() > 0 {
        match stmt_string_exec(&f.body[0]) {
            Some(s) => {
                return s;
            },
            None => {},
        }
    }
    String::new()
}

/// What a decorator says of deprecation: `@deprecated` says so without a
/// note, `@deprecated(...)` with its first argument as note when that is a
/// string; any other decorator says nothing.
pub open spec fn decorator_deprecation(d: PyExpr) -> Option<DeprecatedView> {
    match d {
        PyExpr::Name(n) => if n@ == "deprecated"@ {
            Some(DeprecatedView { since: None, note: None })
        } else {
            None
        },
        PyExpr::Call(f, args) => match *f {
            PyExpr::Name(n) => if n@ == "deprecated"@ {
                Some(
                    DeprecatedView {
                        since: None,
                        note: if args.len() > 0 {
                            match args[0] {
                                PyExpr::Constant(PyConstant::Str(s)) => Some(s@),
                                _ => None,
                            }
                        } else {
                            None
                        },
                    },
                )
            } else {
                None
            },
            _ => None,
        },
        _ => None,
    }
}

/// The deprecation said by the first decorator that says one.
pub open spec fn decorators_deprecation(ds: Seq<PyExpr>) -> Option<DeprecatedView>
    decreases ds.len(),
{
    if ds.len() == 0 {
        None
    } else if decorator_deprecation(ds[0]) is Some {
        decorator_deprecation(ds[0])
    } else {
        decorators_deprecation(ds.drop_first())
    }
}

fn decorator_deprecation_exec(d: &PyExpr) -> (r: Option<DeprecatedInfo>)
    ensures
        match (r, decorator_deprecation(*d)) {
            (Some(a), Some(b)) => a@ == b,
            (None, None) => true,
            _ => false,
        },
{
    match d {
        PyExpr::Name(n) => if str_is(n.as_str(), "deprecated") {
            Some(DeprecatedInfo { since: None, note: None })
        } else {
            None
        },
        PyExpr::Call(f, args) => match &**f {
            PyExpr::Name(n) => if str_is(n.as_str(), "deprecated") {
                let note = if args.len() > 0 {
                    match &args[0] {
                        PyExpr::Constant(PyConstant::Str(s)) => Some(s.clone()),
                        _ => None,
                    }
                } else {
                    None
                };
                Some(DeprecatedInfo { since: None, note })
            } else {
                None
            },
            _ => None,
        },
        _ => None,
    }
}

/// The deprecation that the decorators say (see [`decorators_deprecation`]).
pub fn extract_deprecated_from_decorators(ds: &Vec<PyExpr>) -> (r: Option<DeprecatedInfo>)
    ensures
        match (r, decorators_deprecation(ds@)) {
            (Some(a), Some(b)) => a@ == b,
            (None, None) => true,
            _ => false,
        },
{
    let mut i: usize = 0;
    assert(ds@.subrange(0, ds.len() as int) =~= ds@);
    while i < ds.len()
        invariant
            i <= ds.len(),
            decorators_deprecation(ds@) == decorators_deprecation(ds@.subrange(i as int, ds.len() as int)),
        decreases ds.len() - i,
    {
        let ghost rest = ds@.subrange(i as int, ds.len() as int);
        assert(rest[0] == ds@[i as int]);
        assert(rest.drop_first() =~= ds@.subrange(i + 1, ds.len() as int));
        match decorator_deprecation_exec(&ds[i]) {
            Some(d) => {
                return Some(d);
            },
            None => {},
        }
        i = i + 1;
    }
    None
}

/// Whether a decorator is `@overload` or `@<module>.overload`.
pub open spec fn is_overload_decorator(d: PyExpr) -> bool {
    match d {
        PyExpr::Name(n) => n@ == "overload"@,
        PyExpr::Attribute(_, a) => a@ == "overload"@,
        _ => false,
    }
}

/// Whether some decorator is `@overload` (see [`is_overload_decorator`]).
pub fn has_overload_decorator(ds: &Vec<PyExpr>) -> (r: bool)
    ensures
        r == exists|k: int| 0 <= k < ds.len() && is_overload_decorator(#[trigger] ds@[k]),
{
    let mut i: usize = 0;
    while i < ds.len()
        invariant
            i <= ds.len(),
            forall|k: int| 0 <= k < i ==> !is_overload_decorator(#[trigger] ds@[k]),
        decreases ds.len() - i,
    {
        let hit = match &ds[i] {
            PyExpr::Name(n) => str_is(n.as_str(), "overload"),
            PyExpr::Attribute(_, a) => str_is(a.as_str(), "overload"),
            _ => false,
        };
        if hit {
            assert(is_overload_decorator(ds@[i as int]));
            return true;
        }
        i = i + 1;
    }
    false
}

/// The type with which a hand-written Python type is paired: `()`.
pub open spec fn unit_type() -> TypeView {
    TypeView::Tuple(Seq::empty())
}

fn unit_type_exec() -> (r: RustType)
    ensures
        r@ == unit_type(),
{
    let v: Vec<RustType> = Vec::new();
    let r = RustType::Tuple(v);
    assert(crate::rust_type::types_view(v, 0) =~= Seq::<TypeView>::empty());
    r
}

/// What a Python annotation becomes: the Rust type named by a
/// `RustType["..."]` marker (an error when `syn` does not parse it as a
/// type), else the annotation's text as a hand-written type with all the
/// stub's imports.
pub open spec fn annotation_type(e: PyExpr, imports: Seq<Seq<char>>) -> Result<
    TypeOrOverrideView,
    ParseError,
> {
    match rust_type_marker(e) {
        Err(x) => Err(x),
        Ok(Some(n)) => if rust_type_parses(n) {
            Ok(TypeOrOverrideView::RustType(TypeView::Text(n)))
        } else {
            Err(ParseError::BadRustType(string_with(n)))
        },
        Ok(None) => match type_text(e, false) {
            Err(x) => Err(x),
            Ok(t) => Ok(
                TypeOrOverrideView::OverrideType(
                    unit_type(),
                    t,
                    first_occurrences(imports),
                    Seq::empty(),
                ),
            ),
        },
    }
}

/// The type of an unannotated parameter: `typing.Any`.
pub open spec fn any_type() -> TypeOrOverrideView {
    TypeOrOverrideView::OverrideType(unit_type(), "typing.Any"@, seq!["typing"@], Seq::empty())
}

fn any_type_exec() -> (r: TypeOrOverride)
    ensures
        r@ == any_type(),
{
    let mut v: Vec<String> = Vec::new();
    v.push(String::from_str("typing"));
    let set = import_set_of(&v);
    proof {
        assert(v@.map_values(|s: String| s@) =~= seq!["typing"@]);
        crate::gen_stub_attr::lemma_first_occurrences_of_distinct(seq!["typing"@]);
    }
    let markers: Vec<String> = Vec::new();
    assert(markers@.map_values(|s: String| s@) =~= Seq::<Seq<char>>::empty());
    TypeOrOverride::OverrideType {
        ty: unit_type_exec(),
        type_repr: String::from_str("typing.Any"),
        imports: set,
        rust_type_markers: markers,
    }
}

/// What a Python annotation becomes (see [`annotation_type`]).
pub fn type_annotation_to_type_override(e: &PyExpr, imports: &Vec<String>) -> (r: Result<
    TypeOrOverride,
    ParseError,
>)
    ensures
        match (r, annotation_type(*e, imports@.map_values(|s: String| s@))) {
            (Ok(a), Ok(b)) => a@ == b,
            (Err(x), Err(y)) => same_error(x, y),
            _ => false,
        },
{
    match extract_rust_type_marker(e)? {
        Some(n) => {
            if type_parses(n.as_str()) {
                Ok(TypeOrOverride::RustType { ty: RustType::Text(n) })
            } else {
                proof {
                    lemma_string_with(n);
                }
                Err(ParseError::BadRustType(n))
            }
        },
        None => {
            let t = expr_to_type_string(e)?;
            let markers: Vec<String> = Vec::new();
            assert(markers@.map_values(|s: String| s@) =~= Seq::<Seq<char>>::empty());
            Ok(
                TypeOrOverride::OverrideType {
                    ty: unit_type_exec(),
                    type_repr: t,
                    imports: import_set_of(imports),
                    rust_type_markers: markers,
                },
            )
        },
    }
}

/// The type of a parameter: its annotation's type, or `typing.Any`.
pub open spec fn param_type(a: PyArg, imports: Seq<Seq<char>>) -> Result<
    TypeOrOverrideView,
    ParseError,
> {
    match a.annotation {
        Some(e) => annotation_type(e, imports),
        None => Ok(any_type()),
    }
}

pub(crate) fn param_type_exec(a: &PyArg, imports: &Vec<String>) -> (r: Result<TypeOrOverride, ParseError>)
    ensures
        match (r, param_type(*a, imports@.map_values(|s: String| s@))) {
            (Ok(x), Ok(y)) => x@ == y,
            (Err(x), Err(y)) => same_error(x, y),
            _ => false,
        },
{
    match &a.annotation {
        Some(e) => type_annotation_to_type_override(e, imports),
        None => Ok(any_type_exec()),
    }
}

} // verus!

verus! {

/// The parameter for a Python parameter with its default; `self` and `cls`
/// give none (they are added when the stub is written).
pub open spec fn param_with_default(
    a: PyArgWithDefault,
    kind: ParameterKind,
    imports: Seq<Seq<char>>,
) -> Result<Seq<ParameterView>, ParseError> {
    if a.def.name@ == "self"@ || a.def.name@ == "cls"@ {
        Ok(Seq::empty())
    } else {
        match param_type(a.def, imports) {
            Err(x) => Err(x),
            Ok(t) => match a.default {
                None => Ok(
                    seq![
                        ParameterView {
                            arg: ArgInfoView { name: a.def.name@, ty: t },
                            kind,
                            default: None,
                        },
                    ],
                ),
                Some(d) => match value_text(d) {
                    Err(x) => Err(x),
                    Ok(s) => Ok(
                        seq![
                            ParameterView {
                                arg: ArgInfoView { name: a.def.name@, ty: t },
                                kind,
                                default: Some(DefaultView::Python(s)),
                            },
                        ],
                    ),
                },
            },
        }
    }
}

/// The parameters for a list of Python parameters of one kind.
pub open spec fn params_with_defaults(
    v: Seq<PyArgWithDefault>,
    kind: ParameterKind,
    imports: Seq<Seq<char>>,
) -> Result<Seq<ParameterView>, ParseError>
    decreases v.len(),
{
    if v.len() == 0 {
        Ok(Seq::empty())
    } else {
        crate::parse::cat(
            params_with_defaults(v.drop_last(), kind, imports),
            param_with_default(v.last(), kind, imports),
        )
    }
}

/// The parameter for `*args` or `**kwargs`, if there is one.
pub open spec fn var_param(a: Option<PyArg>, kind: ParameterKind, imports: Seq<Seq<char>>) -> Result<
    Seq<ParameterView>,
    ParseError,
> {
    match a {
        None => Ok(Seq::empty()),
        Some(p) => match param_type(p, imports) {
            Err(x) => Err(x),
            Ok(t) => Ok(
                seq![
                    ParameterView { arg: ArgInfoView { name: p.name@, ty: t }, kind, default: None },
                ],
            ),
        },
    }
}

/// The parameters of a Python function, by kind in Python's order:
/// positional-only, positional-or-keyword, `*args`, keyword-only,
/// `**kwargs`.
pub open spec fn ast_parameters(args: PyArguments, imports: Seq<Seq<char>>) -> Result<
    Seq<ParameterView>,
    ParseError,
> {
    crate::parse::cat(
        crate::parse::cat(
            crate::parse::cat(
                crate::parse::cat(
                    params_with_defaults(args.posonlyargs@, ParameterKind::PositionalOnly, imports),
                    params_with_defaults(args.args@, ParameterKind::PositionalOrKeyword, imports),
                ),
                var_param(args.vararg, ParameterKind::VarPositional, imports),
            ),
            params_with_defaults(args.kwonlyargs@, ParameterKind::KeywordOnly, imports),
        ),
        var_param(args.kwarg, ParameterKind::VarKeyword, imports),
    )
}

fn push_param_with_default(
    out: &mut Vec<ParameterWithKind>,
    a: &PyArgWithDefault,
    kind: ParameterKind,
    imports: &Vec<String>,
) -> (r: Result<(), ParseError>)
    ensures
        match param_with_default(*a, kind, imports@.map_values(|s: String| s@)) {
            Ok(p) => r is Ok && final(out)@.map_values(|x: ParameterWithKind| x@) == old(
                out,
            )@.map_values(|x: ParameterWithKind| x@) + p,
            Err(e) => r matches Err(x) && same_error(x, e),
        },
{
    let ghost before = out@.map_values(|x: ParameterWithKind| x@);
    if str_is(a.def.name.as_str(), "self") || str_is(a.def.name.as_str(), "cls") {
        assert(before + Seq::<ParameterView>::empty() =~= before);
        return Ok(());
    }
    let t = param_type_exec(&a.def, imports)?;
    let default_expr = match &a.default {
        None => None,
        Some(d) => Some(DefaultExpr::Python(python_ast_to_python_string(d)?)),
    };
    let p = ParameterWithKind {
        arg_info: ArgInfo { name: a.def.name.clone(), ty: t },
        kind,
        default_expr,
    };
    let ghost pv = p@;
    out.push(p);
    assert(out@.map_values(|x: ParameterWithKind| x@) =~= before + seq![pv]);
    Ok(())
}

fn push_params_with_defaults(
    out: &mut Vec<ParameterWithKind>,
    v: &Vec<PyArgWithDefault>,
    kind: ParameterKind,
    imports: &Vec<String>,
) -> (r: Result<(), ParseError>)
    ensures
        match params_with_defaults(v@, kind, imports@.map_values(|s: String| s@)) {
            Ok(p) => r is Ok && final(out)@.map_values(|x: ParameterWithKind| x@) == old(
                out,
            )@.map_values(|x: ParameterWithKind| x@) + p,
            Err(e) => r matches Err(x) && same_error(x, e),
        },
{
    let ghost im = imports@.map_values(|s: String| s@);
    let ghost start = out@.map_values(|x: ParameterWithKind| x@);
    let mut i: usize = 0;
    assert(v@.subrange(0, 0) =~= Seq::<PyArgWithDefault>::empty());
    assert(start + Seq::<ParameterView>::empty() =~= start);
    while i < v.len()
        invariant
            i <= v.len(),
            im == imports@.map_values(|s: String| s@),
            params_with_defaults(v@.subrange(0, i as int), kind, im) matches Ok(p) && out@.map_values(
                |x: ParameterWithKind| x@,
            ) == start + p,
        decreases v.len() - i,
    {
        let ghost pre = v@.subrange(0, i as int);
        let ghost cur = out@.map_values(|x: ParameterWithKind| x@);
        assert(v@.subrange(0, i + 1).drop_last() =~= pre);
        assert(v@.subrange(0, i + 1).last() == v@[i as int]);
        match push_param_with_default(out, &v[i], kind, imports) {
            Err(e) => {
                proof {
                    lemma_params_error_stays(v@, (i + 1) as int, kind, im);
                }
                return Err(e);
            },
            Ok(()) => {},
        }
        proof {
            let p = params_with_defaults(pre, kind, im)->Ok_0;
            let q = param_with_default(v@[i as int], kind, im)->Ok_0;
            assert(start + p + q =~= start + (p + q));
        }
        i = i + 1;
    }
    assert(v@.subrange(0, v.len() as int) =~= v@);
    Ok(())
}

pub proof fn lemma_params_error_stays(
    v: Seq<PyArgWithDefault>,
    i: int,
    kind: ParameterKind,
    imports: Seq<Seq<char>>,
)
    requires
        0 <= i <= v.len(),
        params_with_defaults(v.subrange(0, i), kind, imports) is Err,
    ensures
        params_with_defaults(v, kind, imports) == params_with_defaults(v.subrange(0, i), kind, imports),
    decreases v.len() - i,
{
    if i == v.len() {
        assert(v.subrange(0, i) =~= v);
    } else {
        assert(v.subrange(0, i + 1).drop_last() =~= v.subrange(0, i));
        lemma_params_error_stays(v, i + 1, kind, imports);
    }
}

fn push_var_param(
    out: &mut Vec<ParameterWithKind>,
    a: &Option<PyArg>,
    kind: ParameterKind,
    imports: &Vec<String>,
) -> (r: Result<(), ParseError>)
    ensures
        match var_param(*a, kind, imports@.map_values(|s: String| s@)) {
            Ok(p) => r is Ok && final(out)@.map_values(|x: ParameterWithKind| x@) == old(
                out,
            )@.map_values(|x: ParameterWithKind| x@) + p,
            Err(e) => r matches Err(x) && same_error(x, e),
        },
{
    let ghost before = out@.map_values(|x: ParameterWithKind| x@);
    match a {
        None => {
            assert(before + Seq::<ParameterView>::empty() =~= before);
            Ok(())
        },
        Some(p) => {
            let t = param_type_exec(p, imports)?;
            let q = ParameterWithKind {
                arg_info: ArgInfo { name: p.name.clone(), ty: t },
                kind,
                default_expr: None,
            };
            let ghost qv = q@;
            out.push(q);
            assert(out@.map_values(|x: ParameterWithKind| x@) =~= before + seq![qv]);
            Ok(())
        },
    }
}

/// The parameters of a Python function (see [`ast_parameters`]).
pub fn build_parameters_from_ast(args: &PyArguments, imports: &Vec<String>) -> (r: Result<
    Parameters,
    ParseError,
>)
    ensures
        match (r, ast_parameters(*args, imports@.map_values(|s: String| s@))) {
            (Ok(a), Ok(b)) => a@ == b,
            (Err(x), Err(y)) => same_error(x, y),
            _ => false,
        },
{
    let mut out: Vec<ParameterWithKind> = Vec::new();
    assert(out@.map_values(|x: ParameterWithKind| x@) =~= Seq::<ParameterView>::empty());
    let ghost im = imports@.map_values(|s: String| s@);
    push_params_with_defaults(&mut out, &args.posonlyargs, ParameterKind::PositionalOnly, imports)?;
    let ghost a1 = out@.map_values(|x: ParameterWithKind| x@);
    push_params_with_defaults(&mut out, &args.args, ParameterKind::PositionalOrKeyword, imports)?;
    let ghost a2 = out@.map_values(|x: ParameterWithKind| x@);
    push_var_param(&mut out, &args.vararg, ParameterKind::VarPositional, imports)?;
    let ghost a3 = out@.map_values(|x: ParameterWithKind| x@);
    push_params_with_defaults(&mut out, &args.kwonlyargs, ParameterKind::KeywordOnly, imports)?;
    let ghost a4 = out@.map_values(|x: ParameterWithKind| x@);
    push_var_param(&mut out, &args.kwarg, ParameterKind::VarKeyword, imports)?;
    assert(Seq::<ParameterView>::empty() + a1 =~= a1);
    Ok(Parameters::from_vec(out))
}

} // verus!
