//! Reading parsed Python stubs: one function, its overloads, the methods of
//! one class.

use vstd::prelude::*;
use crate::arg::{ArgInfo, ArgInfoView, TypeOrOverride, TypeOrOverrideView};
use crate::attr::{opt_view, DeprecatedView};
use crate::member::opt_deprecated;
use crate::method::{opt_ret, MethodInfo, MethodType, MethodView};
use crate::parameter::{ParameterKind, ParameterView};
use crate::parse::{ParseError, same_error};
use crate::pyfunction::{PyFunctionInfo, PyFunctionView};
use crate::pymethods::{PyMethodsInfo, PyMethodsView};
use crate::python::PyExpr;
use crate::dedent::{dedented, margin_on_char_boundaries, try_dedent, utf8_size};
use crate::imports::first_occurrences;
use crate::macro_input::GenFunctionFromPythonInput;
use crate::python_parse::{parse_python_suite, python_suite};
use crate::python_stub::{
    annotation_type, any_type, ast_parameters, param_with_default, params_with_defaults, var_param,
    PyArg, build_parameters_from_ast, decorators_deprecation, docstring,
    extract_deprecated_from_decorators, extract_docstring, has_overload_decorator,
    is_overload_decorator, param_type, param_type_exec, type_annotation_to_type_override,
    PyArgWithDefault, PyClassDef, PyFunctionDef, PyStmt,
};
use crate::rust_syntax::{rust_type_parses, type_parses};
use crate::rust_type::{RustType, TypeView};
use crate::text::str_is;

verus! {

/// The modules that a statement imports: each name of `import a, b`, the
/// module of `from m import ...`.
pub open spec fn stmt_imports(s: PyStmt) -> Seq<Seq<char>> {
    match s {
        PyStmt::Import(names) => names@.map_values(|n: String| n@),
        PyStmt::ImportFrom(Some(m)) => seq![m@],
        _ => Seq::empty(),
    }
}

/// The modules that the first `n` statements import, in order.
pub open spec fn imports_upto(stmts: Seq<PyStmt>, n: nat) -> Seq<Seq<char>>
    decreases n,
{
    if n == 0 || n > stmts.len() {
        Seq::empty()
    } else {
        imports_upto(stmts, (n - 1) as nat) + stmt_imports(stmts[n - 1])
    }
}

pub(crate) fn push_stmt_imports(out: &mut Vec<String>, s: &PyStmt)
    ensures
        final(out)@.map_values(|n: String| n@) == old(out)@.map_values(|n: String| n@)
            + stmt_imports(*s),
{
    let ghost before = out@.map_values(|n: String| n@);
    match s {
        PyStmt::Import(names) => {
            let mut i: usize = 0;
            while i < names.len()
                invariant
                    i <= names.len(),
                    out@.map_values(|n: String| n@) == before + names@.subrange(0, i as int).map_values(
                        |n: String| n@,
                    ),
                decreases names.len() - i,
            {
                let ghost mid = out@.map_values(|n: String| n@);
                out.push(names[i].clone());
                assert(out@.map_values(|n: String| n@) =~= mid.push(names@[i as int]@));
                assert(names@.subrange(0, i + 1).map_values(|n: String| n@) =~= names@.subrange(
                    0,
                    i as int,
                ).map_values(|n: String| n@).push(names@[i as int]@));
                assert(before + names@.subrange(0, i + 1).map_values(|n: String| n@) =~= (before
                    + names@.subrange(0, i as int).map_values(|n: String| n@)).push(
                    names@[i as int]@,
                ));
                i = i + 1;
            }
            assert(names@.subrange(0, names.len() as int) =~= names@);
        },
        PyStmt::ImportFrom(Some(m)) => {
            out.push(m.clone());
            assert(out@.map_values(|n: String| n@) =~= before + seq![m@]);
        },
        _ => {
            assert(out@.map_values(|n: String| n@) =~= before + Seq::<Seq<char>>::empty());
        },
    }
}

/// The function that a statement defines, and whether it is `async`.
pub open spec fn stmt_def(s: PyStmt) -> Option<(PyFunctionDef, bool)> {
    match s {
        PyStmt::FunctionDef(f) => Some((f, false)),
        PyStmt::AsyncFunctionDef(f) => Some((f, true)),
        _ => None,
    }
}

/// The indices of the function definitions among the first `n` statements.
pub open spec fn defs_upto(stmts: Seq<PyStmt>, n: nat) -> Seq<int>
    decreases n,
{
    if n == 0 || n > stmts.len() {
        Seq::empty()
    } else if stmt_def(stmts[n - 1]) is Some {
        defs_upto(stmts, (n - 1) as nat).push(n - 1)
    } else {
        defs_upto(stmts, (n - 1) as nat)
    }
}

/// The indices of the class definitions among the first `n` statements.
pub open spec fn classes_upto(stmts: Seq<PyStmt>, n: nat) -> Seq<int>
    decreases n,
{
    if n == 0 || n > stmts.len() {
        Seq::empty()
    } else if stmts[n - 1] is ClassDef {
        classes_upto(stmts, (n - 1) as nat).push(n - 1)
    } else {
        classes_upto(stmts, (n - 1) as nat)
    }
}

proof fn lemma_defs_grow(stmts: Seq<PyStmt>, n: nat, m: nat)
    requires
        n <= m <= stmts.len(),
    ensures
        defs_upto(stmts, n).len() <= defs_upto(stmts, m).len(),
        forall|k: int| 0 <= k < defs_upto(stmts, m).len() ==> 0 <= #[trigger] defs_upto(stmts, m)[k] < m,
        forall|k: int| 0 <= k < defs_upto(stmts, m).len() ==> stmt_def(stmts[#[trigger] defs_upto(stmts, m)[k]]) is Some,
    decreases m,
{
    if m > 0 {
        let n2: nat = if n < m {
            n
        } else {
            (m - 1) as nat
        };
        lemma_defs_grow(stmts, n2, (m - 1) as nat);
    }
}

proof fn lemma_classes_grow(stmts: Seq<PyStmt>, n: nat, m: nat)
    requires
        n <= m <= stmts.len(),
    ensures
        classes_upto(stmts, n).len() <= classes_upto(stmts, m).len(),
        forall|k: int| 0 <= k < classes_upto(stmts, m).len() ==> 0 <= #[trigger] classes_upto(stmts, m)[k] < m,
        forall|k: int| 0 <= k < classes_upto(stmts, m).len() ==> stmts[#[trigger] classes_upto(stmts, m)[k]] is ClassDef,
    decreases m,
{
    if m > 0 {
        let n2: nat = if n < m {
            n
        } else {
            (m - 1) as nat
        };
        lemma_classes_grow(stmts, n2, (m - 1) as nat);
    }
}

/// Whether some decorator is `@overload`.
pub open spec fn has_overload(ds: Seq<PyExpr>) -> bool {
    exists|k: int| 0 <= k < ds.len() && is_overload_decorator(#[trigger] ds[k])
}

/// The return type that an annotation gives, if there is one.
pub open spec fn python_return(annotation: Option<PyExpr>, imports: Seq<Seq<char>>) -> Result<
    Option<TypeOrOverrideView>,
    ParseError,
> {
    match annotation {
        None => Ok(None),
        Some(e) => match annotation_type(e, imports) {
            Err(x) => Err(x),
            Ok(t) => Ok(Some(t)),
        },
    }
}

/// The return type of a stub function (see [`python_return`]).
pub fn extract_python_return_type(annotation: &Option<PyExpr>, imports: &Vec<String>) -> (r: Result<
    Option<TypeOrOverride>,
    ParseError,
>)
    ensures
        match (r, python_return(*annotation, imports@.map_values(|s: String| s@))) {
            (Ok(a), Ok(b)) => opt_ret(a) == b,
            (Err(x), Err(y)) => same_error(x, y),
            _ => false,
        },
{
    match annotation {
        None => Ok(None),
        Some(e) => Ok(Some(type_annotation_to_type_override(e, imports)?)),
    }
}

/// The function that a stub definition describes: its parameters by kind,
/// its return type, its docstring, the deprecation its decorators say.
pub open spec fn stub_function(
    f: PyFunctionDef,
    imports: Seq<Seq<char>>,
    is_async: bool,
    is_overload: bool,
) -> Result<PyFunctionView, ParseError> {
    match ast_parameters(f.args, imports) {
        Err(e) => Err(e),
        Ok(params) => match python_return(f.returns, imports) {
            Err(e) => Err(e),
            Ok(ret) => Ok(
                PyFunctionView {
                    name: f.name@,
                    parameters: params,
                    ret,
                    doc: docstring(f),
                    module: None,
                    is_async,
                    deprecated: decorators_deprecation(f.decorator_list@),
                    type_ignored: None,
                    is_overload,
                    index: 0,
                },
            ),
        },
    }
}

pub open spec fn same_function(r: Result<PyFunctionInfo, ParseError>, s: Result<PyFunctionView, ParseError>) -> bool {
    match (r, s) {
        (Ok(a), Ok(b)) => a@ == b,
        (Err(x), Err(y)) => same_error(x, y),
        _ => false,
    }
}

/// The function that a stub definition describes (see [`stub_function`]).
pub fn function_from_def(
    f: &PyFunctionDef,
    imports: &Vec<String>,
    is_async: bool,
    is_overload: bool,
) -> (r: Result<PyFunctionInfo, ParseError>)
    ensures
        same_function(r, stub_function(*f, imports@.map_values(|s: String| s@), is_async, is_overload)),
{
    let doc = extract_docstring(f);
    let parameters = build_parameters_from_ast(&f.args, imports)?;
    let ret = extract_python_return_type(&f.returns, imports)?;
    let deprecated = extract_deprecated_from_decorators(&f.decorator_list);
    Ok(
        PyFunctionInfo {
            name: f.name.clone(),
            parameters,
            ret,
            doc,
            module: None,
            is_async,
            deprecated,
            type_ignored: None,
            is_overload,
            index: 0,
        },
    )
}

/// The one function of a stub: an error when it defines none or more than
/// one; the imports are those of the whole stub.
pub open spec fn function_stub_spec(stmts: Seq<PyStmt>) -> Result<PyFunctionView, ParseError> {
    let d = defs_upto(stmts, stmts.len());
    if d.len() >= 2 {
        Err(ParseError::MultipleFunctions)
    } else if d.len() == 0 {
        Err(ParseError::NoFunction)
    } else {
        let (f, a) = stmt_def(stmts[d[0]])->0;
        stub_function(f, imports_upto(stmts, stmts.len()), a, has_overload(f.decorator_list@))
    }
}

/// The one function of a parsed stub (see [`function_stub_spec`]).
pub fn function_stub_from_statements(stmts: &Vec<PyStmt>) -> (r: Result<PyFunctionInfo, ParseError>)
    ensures
        same_function(r, function_stub_spec(stmts@)),
{
    let mut imports: Vec<String> = Vec::new();
    let mut found: Option<usize> = None;
    let mut i: usize = 0;
    while i < stmts.len()
        invariant
            i <= stmts.len(),
            imports@.map_values(|n: String| n@) == imports_upto(stmts@, i as nat),
            match found {
                Some(k) => defs_upto(stmts@, i as nat) == seq![k as int],
                None => defs_upto(stmts@, i as nat) == Seq::<int>::empty(),
            },
        decreases stmts.len() - i,
    {
        push_stmt_imports(&mut imports, &stmts[i]);
        let is_def = match &stmts[i] {
            PyStmt::FunctionDef(_) => true,
            PyStmt::AsyncFunctionDef(_) => true,
            _ => false,
        };
        if is_def {
            if found.is_some() {
                proof {
                    lemma_defs_grow(stmts@, (i + 1) as nat, stmts.len() as nat);
                }
                return Err(ParseError::MultipleFunctions);
            }
            found = Some(i);
        }
        i = i + 1;
    }
    let k = match found {
        Some(k) => k,
        None => {
            return Err(ParseError::NoFunction);
        },
    };
    proof {
        lemma_defs_grow(stmts@, stmts.len() as nat, stmts.len() as nat);
        assert(defs_upto(stmts@, stmts.len() as nat)[0] == k as int);
    }
    match &stmts[k] {
        PyStmt::FunctionDef(f) => {
            let o = has_overload_decorator(&f.decorator_list);
            function_from_def(f, &imports, false, o)
        },
        PyStmt::AsyncFunctionDef(f) => {
            let o = has_overload_decorator(&f.decorator_list);
            function_from_def(f, &imports, true, o)
        },
        _ => Err(ParseError::NoFunction),
    }
}

/// The overloads that the first `n` statements give, each checked to be
/// named `expected` and decorated with `@overload`; the first failure is
/// the result.
pub open spec fn overload_scan(
    stmts: Seq<PyStmt>,
    n: nat,
    imports: Seq<Seq<char>>,
    expected: Seq<char>,
) -> Result<Seq<PyFunctionView>, ParseError>
    decreases n,
{
    if n == 0 || n > stmts.len() {
        Ok(Seq::empty())
    } else {
        match overload_scan(stmts, (n - 1) as nat, imports, expected) {
            Err(e) => Err(e),
            Ok(prev) => match stmt_def(stmts[n - 1]) {
                None => Ok(prev),
                Some((f, a)) => if f.name@ != expected {
                    Err(ParseError::OverloadNameMismatch)
                } else if !has_overload(f.decorator_list@) {
                    Err(ParseError::OverloadWithoutDecorator)
                } else {
                    match stub_function(f, imports, a, true) {
                        Err(e) => Err(e),
                        Ok(v) => Ok(prev.push(v)),
                    }
                },
            },
        }
    }
}

/// The overloads of a stub given to `python_overload`: an error when it
/// defines no function.
pub open spec fn overloads_spec(stmts: Seq<PyStmt>, expected: Seq<char>) -> Result<
    Seq<PyFunctionView>,
    ParseError,
> {
    if defs_upto(stmts, stmts.len()).len() == 0 {
        Err(ParseError::NoOverloadFunction)
    } else {
        overload_scan(stmts, stmts.len(), imports_upto(stmts, stmts.len()), expected)
    }
}

proof fn lemma_overload_error_stays(
    stmts: Seq<PyStmt>,
    i: nat,
    n: nat,
    imports: Seq<Seq<char>>,
    expected: Seq<char>,
)
    requires
        i <= n <= stmts.len(),
        overload_scan(stmts, i, imports, expected) is Err,
    ensures
        overload_scan(stmts, n, imports, expected) == overload_scan(stmts, i, imports, expected),
    decreases n - i,
{
    if n > i {
        lemma_overload_error_stays(stmts, i, (n - 1) as nat, imports, expected);
    }
}

proof fn lemma_overload_scan_marked(
    stmts: Seq<PyStmt>,
    n: nat,
    imports: Seq<Seq<char>>,
    expected: Seq<char>,
)
    requires
        n <= stmts.len(),
        overload_scan(stmts, n, imports, expected) is Ok,
    ensures
        overload_scan(stmts, n, imports, expected)->Ok_0.len() == defs_upto(stmts, n).len(),
        forall|k: int|
            0 <= k < overload_scan(stmts, n, imports, expected)->Ok_0.len() ==> (
            #[trigger] overload_scan(stmts, n, imports, expected)->Ok_0[k]).name == expected
                && overload_scan(stmts, n, imports, expected)->Ok_0[k].is_overload
                && overload_scan(stmts, n, imports, expected)->Ok_0[k].index == 0,
    decreases n,
{
    if n > 0 {
        lemma_overload_scan_marked(stmts, (n - 1) as nat, imports, expected);
    }
}

/// Every overload read from a `python_overload` stub is named as the Rust
/// function, is marked as an overload and has index 0; there is one for
/// each function the stub defines, in order.
pub proof fn law_overloads_named_and_marked(stmts: Seq<PyStmt>, expected: Seq<char>)
    requires
        overloads_spec(stmts, expected) is Ok,
    ensures
        overloads_spec(stmts, expected)->Ok_0.len() == defs_upto(stmts, stmts.len()).len(),
        forall|k: int|
            0 <= k < overloads_spec(stmts, expected)->Ok_0.len() ==> (
            #[trigger] overloads_spec(stmts, expected)->Ok_0[k]).name == expected
                && overloads_spec(stmts, expected)->Ok_0[k].is_overload
                && overloads_spec(stmts, expected)->Ok_0[k].index == 0,
{
    lemma_overload_scan_marked(stmts, stmts.len(), imports_upto(stmts, stmts.len()), expected);
}

/// Whether a type carries the imports of its stub: a Rust type named by a
/// marker; a hand-written type with every module the stub imports, each
/// once, in order; or the `typing.Any` of an unannotated parameter.
pub open spec fn carries_imports(t: TypeOrOverrideView, imports: Seq<Seq<char>>) -> bool {
    match t {
        TypeOrOverrideView::RustType(_) => true,
        TypeOrOverrideView::OverrideType(_, _, imps, _) => imps == first_occurrences(imports) || t
            == any_type(),
    }
}

pub open spec fn params_carry_imports(ps: Seq<ParameterView>, imports: Seq<Seq<char>>) -> bool {
    forall|k: int| 0 <= k < ps.len() ==> carries_imports(#[trigger] ps[k].arg.ty, imports)
}

proof fn lemma_annotation_carries(e: PyExpr, imports: Seq<Seq<char>>)
    requires
        annotation_type(e, imports) is Ok,
    ensures
        carries_imports(annotation_type(e, imports)->Ok_0, imports),
        annotation_type(e, imports)->Ok_0 is OverrideType ==> annotation_type(
            e,
            imports,
        )->Ok_0->OverrideType_2 == first_occurrences(imports),
{
}

proof fn lemma_param_type_carries(a: PyArg, imports: Seq<Seq<char>>)
    requires
        param_type(a, imports) is Ok,
    ensures
        carries_imports(param_type(a, imports)->Ok_0, imports),
{
    match a.annotation {
        Some(e) => lemma_annotation_carries(e, imports),
        None => {},
    }
}

proof fn lemma_cat_carries(
    x: Result<Seq<ParameterView>, ParseError>,
    y: Result<Seq<ParameterView>, ParseError>,
    imports: Seq<Seq<char>>,
)
    requires
        crate::parse::cat(x, y) is Ok,
        x is Ok ==> params_carry_imports(x->Ok_0, imports),
        y is Ok ==> params_carry_imports(y->Ok_0, imports),
    ensures
        params_carry_imports(crate::parse::cat(x, y)->Ok_0, imports),
{
    let c = crate::parse::cat(x, y)->Ok_0;
    assert forall|k: int| 0 <= k < c.len() implies carries_imports(#[trigger] c[k].arg.ty, imports) by {
        if k < x->Ok_0.len() {
            assert(c[k] == x->Ok_0[k]);
        } else {
            assert(c[k] == y->Ok_0[k - x->Ok_0.len()]);
        }
    }
}

proof fn lemma_params_with_defaults_carry(
    v: Seq<PyArgWithDefault>,
    kind: ParameterKind,
    imports: Seq<Seq<char>>,
)
    requires
        params_with_defaults(v, kind, imports) is Ok,
    ensures
        params_carry_imports(params_with_defaults(v, kind, imports)->Ok_0, imports),
    decreases v.len(),
{
    if v.len() > 0 {
        let a = v.last();
        let x = params_with_defaults(v.drop_last(), kind, imports);
        let y = param_with_default(a, kind, imports);
        if x is Ok {
            lemma_params_with_defaults_carry(v.drop_last(), kind, imports);
        }
        if y is Ok && !(a.def.name@ == "self"@ || a.def.name@ == "cls"@) {
            lemma_param_type_carries(a.def, imports);
        }
        lemma_cat_carries(x, y, imports);
    }
}

proof fn lemma_var_param_carries(a: Option<PyArg>, kind: ParameterKind, imports: Seq<Seq<char>>)
    requires
        var_param(a, kind, imports) is Ok,
    ensures
        params_carry_imports(var_param(a, kind, imports)->Ok_0, imports),
{
    match a {
        Some(p) => lemma_param_type_carries(p, imports),
        None => {},
    }
}

/// Imports are taken from the whole stub: in a function read from a Python
/// stub, every hand-written type of a parameter or of the return value
/// carries each module that the stub imports, once and in order (an
/// unannotated parameter is `typing.Any` with `typing`); a type named by a
/// `RustType["..."]` marker is a Rust type.
pub proof fn law_stub_types_carry_imports(
    f: PyFunctionDef,
    imports: Seq<Seq<char>>,
    is_async: bool,
    is_overload: bool,
)
    requires
        stub_function(f, imports, is_async, is_overload) is Ok,
    ensures
        params_carry_imports(stub_function(f, imports, is_async, is_overload)->Ok_0.parameters, imports),
        stub_function(f, imports, is_async, is_overload)->Ok_0.ret matches Some(t) ==> (t is RustType
            || t->OverrideType_2 == first_occurrences(imports)),
{
    let args = f.args;
    let p1 = params_with_defaults(args.posonlyargs@, ParameterKind::PositionalOnly, imports);
    let p2 = params_with_defaults(args.args@, ParameterKind::PositionalOrKeyword, imports);
    let p3 = var_param(args.vararg, ParameterKind::VarPositional, imports);
    let p4 = params_with_defaults(args.kwonlyargs@, ParameterKind::KeywordOnly, imports);
    let p5 = var_param(args.kwarg, ParameterKind::VarKeyword, imports);
    let c12 = crate::parse::cat(p1, p2);
    let c123 = crate::parse::cat(c12, p3);
    let c1234 = crate::parse::cat(c123, p4);
    if p1 is Ok {
        lemma_params_with_defaults_carry(args.posonlyargs@, ParameterKind::PositionalOnly, imports);
    }
    if p2 is Ok {
        lemma_params_with_defaults_carry(args.args@, ParameterKind::PositionalOrKeyword, imports);
    }
    if p3 is Ok {
        lemma_var_param_carries(args.vararg, ParameterKind::VarPositional, imports);
    }
    if p4 is Ok {
        lemma_params_with_defaults_carry(args.kwonlyargs@, ParameterKind::KeywordOnly, imports);
    }
    if p5 is Ok {
        lemma_var_param_carries(args.kwarg, ParameterKind::VarKeyword, imports);
    }
    lemma_cat_carries(p1, p2, imports);
    lemma_cat_carries(c12, p3, imports);
    lemma_cat_carries(c123, p4, imports);
    lemma_cat_carries(c1234, p5, imports);
    match f.returns {
        Some(e) => lemma_annotation_carries(e, imports),
        None => {},
    }
}

fn overload_from_def(
    f: &PyFunctionDef,
    is_async: bool,
    imports: &Vec<String>,
    expected: &str,
) -> (r: Result<PyFunctionInfo, ParseError>)
    ensures
        same_function(
            r,
            if f.name@ != expected@ {
                Err(ParseError::OverloadNameMismatch)
            } else if !has_overload(f.decorator_list@) {
                Err(ParseError::OverloadWithoutDecorator)
            } else {
                stub_function(*f, imports@.map_values(|s: String| s@), is_async, true)
            },
        ),
{
    if !str_is(f.name.as_str(), expected) {
        return Err(ParseError::OverloadNameMismatch);
    }
    if !has_overload_decorator(&f.decorator_list) {
        return Err(ParseError::OverloadWithoutDecorator);
    }
    function_from_def(f, imports, is_async, true)
}

/// The overloads of a parsed stub given to `python_overload` (see
/// [`overloads_spec`]).
pub fn overload_stubs_from_statements(stmts: &Vec<PyStmt>, expected_function_name: &str) -> (r: Result<
    Vec<PyFunctionInfo>,
    ParseError,
>)
    ensures
        match (r, overloads_spec(stmts@, expected_function_name@)) {
            (Ok(a), Ok(b)) => a@.map_values(|f: PyFunctionInfo| f@) == b,
            (Err(x), Err(y)) => same_error(x, y),
            _ => false,
        },
{
    let mut imports: Vec<String> = Vec::new();
    let mut any_def = false;
    let mut i: usize = 0;
    while i < stmts.len()
        invariant
            i <= stmts.len(),
            imports@.map_values(|n: String| n@) == imports_upto(stmts@, i as nat),
            any_def == (defs_upto(stmts@, i as nat).len() > 0),
        decreases stmts.len() - i,
    {
        push_stmt_imports(&mut imports, &stmts[i]);
        match &stmts[i] {
            PyStmt::FunctionDef(_) => {
                any_def = true;
            },
            PyStmt::AsyncFunctionDef(_) => {
                any_def = true;
            },
            _ => {},
        }
        i = i + 1;
    }
    if !any_def {
        return Err(ParseError::NoOverloadFunction);
    }
    let ghost im = imports@.map_values(|n: String| n@);
    let mut out: Vec<PyFunctionInfo> = Vec::new();
    let mut j: usize = 0;
    assert(out@.map_values(|f: PyFunctionInfo| f@) =~= Seq::<PyFunctionView>::empty());
    while j < stmts.len()
        invariant
            j <= stmts.len(),
            im == imports@.map_values(|n: String| n@),
            im == imports_upto(stmts@, stmts.len() as nat),
            defs_upto(stmts@, stmts.len() as nat).len() > 0,
            overload_scan(stmts@, j as nat, im, expected_function_name@) == Ok::<
                Seq<PyFunctionView>,
                ParseError,
            >(out@.map_values(|f: PyFunctionInfo| f@)),
        decreases stmts.len() - j,
    {
        let step = match &stmts[j] {
            PyStmt::FunctionDef(f) => Some(overload_from_def(f, false, &imports, expected_function_name)),
            PyStmt::AsyncFunctionDef(f) => Some(overload_from_def(f, true, &imports, expected_function_name)),
            _ => None,
        };
        match step {
            None => {},
            Some(Ok(info)) => {
                let ghost before = out@.map_values(|f: PyFunctionInfo| f@);
                let ghost iv = info@;
                out.push(info);
                assert(out@.map_values(|f: PyFunctionInfo| f@) =~= before.push(iv));
            },
            Some(Err(e)) => {
                assert(overload_scan(stmts@, (j + 1) as nat, im, expected_function_name@) is Err
                    && same_error(e, overload_scan(stmts@, (j + 1) as nat, im, expected_function_name@)->Err_0));
                proof {
                    lemma_overload_error_stays(stmts@, (j + 1) as nat, stmts.len() as nat, im, expected_function_name@);
                }
                return Err(e);
            },
        }
        j = j + 1;
    }
    Ok(out)
}

/// The input of `gen_function_from_python!`: an optional module and the
/// stub, parsed.
pub fn gen_function_from_statements(module: Option<String>, stmts: &Vec<PyStmt>) -> (r: Result<
    PyFunctionInfo,
    ParseError,
>)
    ensures
        match (r, function_stub_spec(stmts@)) {
            (Ok(a), Ok(b)) => a@ == (PyFunctionView {
                module: match module {
                    Some(m) => Some(m@),
                    None => b.module,
                },
                ..b
            }),
            (Err(x), Err(y)) => same_error(x, y),
            _ => false,
        },
{
    let mut info = function_stub_from_statements(stmts)?;
    match module {
        Some(m) => {
            info.module = Some(m);
        },
        None => {},
    }
    Ok(info)
}

/// The kind that the first `@staticmethod` or `@classmethod` among the
/// decorators from index `i` on gives, if any.
pub open spec fn decorated_kind(ds: Seq<PyExpr>, i: int) -> Option<MethodType>
    decreases ds.len() - i,
{
    if 0 <= i < ds.len() {
        match ds[i] {
            PyExpr::Name(n) => if n@ == "staticmethod"@ {
                Some(MethodType::Static)
            } else if n@ == "classmethod"@ {
                Some(MethodType::Class)
            } else {
                decorated_kind(ds, i + 1)
            },
            _ => decorated_kind(ds, i + 1),
        }
    } else {
        None
    }
}

/// How Python calls a stub method: as its first `@staticmethod` or
/// `@classmethod` decorator says; else a constructor for `__new__`; else
/// as its first parameter says (`self` for an instance method, `cls` for
/// a class method); else an instance method.
pub open spec fn stub_method_type(f: PyFunctionDef) -> MethodType {
    match decorated_kind(f.decorator_list@, 0) {
        Some(t) => t,
        None => if f.name@ == "__new__"@ {
            MethodType::New
        } else if f.args.args.len() > 0 && f.args.args[0].def.name@ == "self"@ {
            MethodType::Instance
        } else if f.args.args.len() > 0 && f.args.args[0].def.name@ == "cls"@ {
            MethodType::Class
        } else {
            MethodType::Instance
        },
    }
}

/// Determines how Python calls a stub method (see [`stub_method_type`]).
pub fn determine_method_type(f: &PyFunctionDef) -> (r: MethodType)
    ensures
        r == stub_method_type(*f),
{
    let ds = &f.decorator_list;
    let mut i: usize = 0;
    while i < ds.len()
        invariant
            i <= ds.len(),
            ds == &f.decorator_list,
            decorated_kind(ds@, 0) == decorated_kind(ds@, i as int),
        decreases ds.len() - i,
    {
        proof {
            reveal_strlit("staticmethod");
            reveal_strlit("classmethod");
        }
        match &ds[i] {
            PyExpr::Name(n) => {
                if str_is(n.as_str(), "staticmethod") {
                    return MethodType::Static;
                } else if str_is(n.as_str(), "classmethod") {
                    return MethodType::Class;
                }
            },
            _ => {},
        }
        i = i + 1;
    }
    proof {
        reveal_strlit("__new__");
        reveal_strlit("self");
        reveal_strlit("cls");
    }
    if str_is(f.name.as_str(), "__new__") {
        return MethodType::New;
    }
    if f.args.args.len() > 0 {
        let first = &f.args.args[0].def.name;
        if str_is(first.as_str(), "self") {
            return MethodType::Instance;
        } else if str_is(first.as_str(), "cls") {
            return MethodType::Class;
        }
    }
    MethodType::Instance
}

/// Whether the first parameter is the receiver that Python passes itself:
/// `self` of an instance method, `cls` of a class method or constructor.
pub open spec fn is_receiver(mt: MethodType, name: Seq<char>) -> bool {
    ||| mt == MethodType::Instance && name == "self"@
    ||| mt == MethodType::Class && name == "cls"@
    ||| mt == MethodType::New && name == "cls"@
}

/// The arguments that the first `n` positional parameters give, the
/// receiver left out; the first error is the result.
pub open spec fn stub_method_args(
    args: Seq<PyArgWithDefault>,
    imports: Seq<Seq<char>>,
    mt: MethodType,
    n: nat,
) -> Result<Seq<ArgInfoView>, ParseError>
    decreases n,
{
    if n == 0 || n > args.len() {
        Ok(Seq::empty())
    } else {
        match stub_method_args(args, imports, mt, (n - 1) as nat) {
            Err(e) => Err(e),
            Ok(prev) => if n == 1 && is_receiver(mt, args[0].def.name@) {
                Ok(prev)
            } else {
                match param_type(args[n - 1].def, imports) {
                    Err(e) => Err(e),
                    Ok(t) => Ok(prev.push(ArgInfoView { name: args[n - 1].def.name@, ty: t })),
                }
            },
        }
    }
}

proof fn lemma_method_args_error_stays(
    args: Seq<PyArgWithDefault>,
    imports: Seq<Seq<char>>,
    mt: MethodType,
    i: nat,
    n: nat,
)
    requires
        i <= n <= args.len(),
        stub_method_args(args, imports, mt, i) is Err,
    ensures
        stub_method_args(args, imports, mt, n) == stub_method_args(args, imports, mt, i),
    decreases n - i,
{
    if n > i {
        lemma_method_args_error_stays(args, imports, mt, i, (n - 1) as nat);
    }
}

/// The arguments of a stub method (see [`stub_method_args`]).
pub fn extract_args_for_method(
    args: &Vec<PyArgWithDefault>,
    imports: &Vec<String>,
    method_type: MethodType,
) -> (r: Result<Vec<ArgInfo>, ParseError>)
    ensures
        match (r, stub_method_args(args@, imports@.map_values(|s: String| s@), method_type, args.len() as nat)) {
            (Ok(a), Ok(b)) => a@.map_values(|x: ArgInfo| x@) == b,
            (Err(x), Err(y)) => same_error(x, y),
            _ => false,
        },
{
    let ghost im = imports@.map_values(|s: String| s@);
    let mut out: Vec<ArgInfo> = Vec::new();
    assert(out@.map_values(|x: ArgInfo| x@) =~= Seq::<ArgInfoView>::empty());
    let mut i: usize = 0;
    proof {
        reveal_strlit("self");
        reveal_strlit("cls");
    }
    while i < args.len()
        invariant
            i <= args.len(),
            im == imports@.map_values(|s: String| s@),
            stub_method_args(args@, im, method_type, i as nat) == Ok::<Seq<ArgInfoView>, ParseError>(
                out@.map_values(|x: ArgInfo| x@),
            ),
        decreases args.len() - i,
    {
        let name = &args[i].def.name;
        let skip = i == 0 && ((method_type == MethodType::Instance && str_is(name.as_str(), "self"))
            || (method_type == MethodType::Class && str_is(name.as_str(), "cls")) || (method_type
            == MethodType::New && str_is(name.as_str(), "cls")));
        if !skip {
            match param_type_exec(&args[i].def, imports) {
                Ok(t) => {
                    let a = ArgInfo { name: name.clone(), ty: t };
                    let ghost before = out@.map_values(|x: ArgInfo| x@);
                    let ghost av = a@;
                    out.push(a);
                    assert(out@.map_values(|x: ArgInfo| x@) =~= before.push(av));
                },
                Err(e) => {
                    proof {
                        lemma_method_args_error_stays(args@, im, method_type, (i + 1) as nat, args.len() as nat);
                    }
                    return Err(e);
                },
            }
        }
        i = i + 1;
    }
    Ok(out)
}

/// The method that a stub definition in a class describes.
pub open spec fn stub_method(f: PyFunctionDef, imports: Seq<Seq<char>>, is_async: bool) -> Result<
    MethodView,
    ParseError,
> {
    let mt = stub_method_type(f);
    match stub_method_args(f.args.args@, imports, mt, f.args.args.len() as nat) {
        Err(e) => Err(e),
        Ok(args) => match python_return(f.returns, imports) {
            Err(e) => Err(e),
            Ok(ret) => Ok(
                MethodView {
                    name: f.name@,
                    args,
                    sig: None,
                    ret,
                    doc: docstring(f),
                    ty: mt,
                    is_async,
                    deprecated: decorators_deprecation(f.decorator_list@),
                    type_ignored: None,
                },
            ),
        },
    }
}

pub fn method_from_def(f: &PyFunctionDef, imports: &Vec<String>, is_async: bool) -> (r: Result<
    MethodInfo,
    ParseError,
>)
    ensures
        match (r, stub_method(*f, imports@.map_values(|s: String| s@), is_async)) {
            (Ok(a), Ok(b)) => a@ == b,
            (Err(x), Err(y)) => same_error(x, y),
            _ => false,
        },
{
    let doc = extract_docstring(f);
    let mt = determine_method_type(f);
    let args = extract_args_for_method(&f.args.args, imports, mt)?;
    let ret = extract_python_return_type(&f.returns, imports)?;
    let deprecated = extract_deprecated_from_decorators(&f.decorator_list);
    Ok(
        MethodInfo {
            name: f.name.clone(),
            args,
            sig: None,
            ret,
            doc,
            ty: mt,
            is_async,
            deprecated,
            type_ignored: None,
        },
    )
}

/// The methods that the first `n` statements of a class body define; the
/// first error is the result.
pub open spec fn class_methods(body: Seq<PyStmt>, n: nat, imports: Seq<Seq<char>>) -> Result<
    Seq<MethodView>,
    ParseError,
>
    decreases n,
{
    if n == 0 || n > body.len() {
        Ok(Seq::empty())
    } else {
        match class_methods(body, (n - 1) as nat, imports) {
            Err(e) => Err(e),
            Ok(prev) => match stmt_def(body[n - 1]) {
                None => Ok(prev),
                Some((f, a)) => match stub_method(f, imports, a) {
                    Err(e) => Err(e),
                    Ok(m) => Ok(prev.push(m)),
                },
            },
        }
    }
}

proof fn lemma_class_methods_error_stays(body: Seq<PyStmt>, i: nat, n: nat, imports: Seq<Seq<char>>)
    requires
        i <= n <= body.len(),
        class_methods(body, i, imports) is Err,
    ensures
        class_methods(body, n, imports) == class_methods(body, i, imports),
    decreases n - i,
{
    if n > i {
        lemma_class_methods_error_stays(body, i, (n - 1) as nat, imports);
    }
}

/// The one class of a stub and the modules the stub imports: an error
/// when the stub defines no class or more than one.
pub open spec fn class_stub_spec(stmts: Seq<PyStmt>) -> Result<(PyClassDef, Seq<Seq<char>>), ParseError> {
    let c = classes_upto(stmts, stmts.len());
    if c.len() >= 2 {
        Err(ParseError::MultipleClasses)
    } else if c.len() == 0 {
        Err(ParseError::NoClass)
    } else {
        Ok((stmts[c[0]]->ClassDef_0, imports_upto(stmts, stmts.len())))
    }
}

/// What a class of a stub gives: its methods, under its name as a Rust
/// type. An error when the class has no method, or when its name is not a
/// Rust type.
pub open spec fn class_stub_methods(cls: PyClassDef, imports: Seq<Seq<char>>) -> Result<
    PyMethodsView,
    ParseError,
> {
    match class_methods(cls.body@, cls.body.len() as nat, imports) {
        Err(e) => Err(e),
        Ok(ms) => if ms.len() == 0 {
            Err(ParseError::NoMethod)
        } else if !rust_type_parses(cls.name@) {
            Err(ParseError::BadClassName)
        } else {
            Ok(
                PyMethodsView {
                    struct_id: TypeView::Text(cls.name@),
                    attrs: Seq::empty(),
                    getters: Seq::empty(),
                    setters: Seq::empty(),
                    methods: ms,
                },
            )
        },
    }
}

/// What the one class of a stub gives (see [`class_stub_spec`] and
/// [`class_stub_methods`]).
pub open spec fn methods_stub_spec(stmts: Seq<PyStmt>) -> Result<PyMethodsView, ParseError> {
    match class_stub_spec(stmts) {
        Err(e) => Err(e),
        Ok((cls, imports)) => class_stub_methods(cls, imports),
    }
}

fn methods_of_class(cls: &PyClassDef, imports: &Vec<String>) -> (r: Result<Vec<MethodInfo>, ParseError>)
    ensures
        match (r, class_methods(cls.body@, cls.body.len() as nat, imports@.map_values(|s: String| s@))) {
            (Ok(a), Ok(b)) => a@.map_values(|m: MethodInfo| m@) == b,
            (Err(x), Err(y)) => same_error(x, y),
            _ => false,
        },
{
    let ghost im = imports@.map_values(|s: String| s@);
    let body = &cls.body;
    let mut out: Vec<MethodInfo> = Vec::new();
    assert(out@.map_values(|m: MethodInfo| m@) =~= Seq::<MethodView>::empty());
    let mut i: usize = 0;
    while i < body.len()
        invariant
            i <= body.len(),
            im == imports@.map_values(|s: String| s@),
            body == &cls.body,
            class_methods(body@, i as nat, im) == Ok::<Seq<MethodView>, ParseError>(
                out@.map_values(|m: MethodInfo| m@),
            ),
        decreases body.len() - i,
    {
        let step = match &body[i] {
            PyStmt::FunctionDef(f) => Some(method_from_def(f, imports, false)),
            PyStmt::AsyncFunctionDef(f) => Some(method_from_def(f, imports, true)),
            _ => None,
        };
        match step {
            None => {},
            Some(Ok(m)) => {
                let ghost before = out@.map_values(|m: MethodInfo| m@);
                let ghost mv = m@;
                out.push(m);
                assert(out@.map_values(|m: MethodInfo| m@) =~= before.push(mv));
            },
            Some(Err(e)) => {
                assert(class_methods(body@, (i + 1) as nat, im) is Err && same_error(e, class_methods(body@, (i + 1) as nat, im)->Err_0));
                proof {
                    lemma_class_methods_error_stays(body@, (i + 1) as nat, body.len() as nat, im);
                }
                return Err(e);
            },
        }
        i = i + 1;
    }
    Ok(out)
}

/// The class of a Python stub, with the modules the stub imports.
#[derive(Debug)]
pub struct PythonClassStub {
    pub class_def: PyClassDef,
    pub imports: Vec<String>,
}

/// Whether a class stub is the pair that a spec gives.
pub open spec fn same_class_stub(
    r: Result<PythonClassStub, ParseError>,
    s: Result<(PyClassDef, Seq<Seq<char>>), ParseError>,
) -> bool {
    match (r, s) {
        (Ok(a), Ok(b)) => a.class_def == b.0 && a.imports@.map_values(|n: String| n@) == b.1,
        (Err(x), Err(y)) => same_error(x, y),
        _ => false,
    }
}

impl PythonClassStub {
    /// The one class of a parsed stub (see [`class_stub_spec`]).
    pub fn from_statements(stmts: Vec<PyStmt>) -> (r: Result<Self, ParseError>)
        ensures
            same_class_stub(r, class_stub_spec(stmts@)),
    {
        let ghost sv = stmts@;
        let mut v = stmts;
        let mut imports: Vec<String> = Vec::new();
        let mut found: Option<usize> = None;
        let mut i: usize = 0;
        while i < v.len()
            invariant
                i <= v.len(),
                v@ == sv,
                sv == stmts@,
                imports@.map_values(|n: String| n@) == imports_upto(sv, i as nat),
                match found {
                    Some(k) => classes_upto(sv, i as nat) == seq![k as int],
                    None => classes_upto(sv, i as nat) == Seq::<int>::empty(),
                },
            decreases v.len() - i,
        {
            push_stmt_imports(&mut imports, &v[i]);
            let is_class = match &v[i] {
                PyStmt::ClassDef(_) => true,
                _ => false,
            };
            if is_class {
                if found.is_some() {
                    proof {
                        assert(sv[i as int] is ClassDef);
                        assert(classes_upto(sv, (i + 1) as nat).len() == 2);
                        lemma_classes_grow(sv, (i + 1) as nat, sv.len());
                        assert(classes_upto(sv, sv.len()).len() >= 2);
                        assert(class_stub_spec(sv) is Err);
                    }
                    return Err(ParseError::MultipleClasses);
                }
                found = Some(i);
            }
            i = i + 1;
        }
        let k = match found {
            Some(k) => k,
            None => {
                return Err(ParseError::NoClass);
            },
        };
        proof {
            lemma_classes_grow(sv, sv.len(), sv.len());
            assert(classes_upto(sv, sv.len())[0] == k as int);
        }
        match v.remove(k) {
            PyStmt::ClassDef(c) => Ok(PythonClassStub { class_def: c, imports }),
            _ => Err(ParseError::NoClass),
        }
    }

    /// The one class of a stub's text (see [`class_stub_spec`] and
    /// [`on_stub_text`]).
    pub fn new(text: &str) -> (r: Option<Result<Self, ParseError>>)
        requires
            utf8_size(text@) <= usize::MAX,
        ensures
            match (r, on_stub_text(text@, |s: Seq<PyStmt>| class_stub_spec(s))) {
                (None, None) => true,
                (Some(x), Some(y)) => same_class_stub(x, y),
                _ => false,
            },
    {
        match read_stub(text) {
            None => None,
            Some(Err(e)) => Some(Err(e)),
            Some(Ok(stmts)) => Some(PythonClassStub::from_statements(stmts)),
        }
    }
}

impl PyMethodsInfo {
    /// The methods that a class stub gives (see [`class_stub_methods`]).
    pub fn try_from_class_stub(stub: &PythonClassStub) -> (r: Result<PyMethodsInfo, ParseError>)
        ensures
            match (r, class_stub_methods(stub.class_def, stub.imports@.map_values(|n: String| n@))) {
                (Ok(a), Ok(b)) => a@ == b,
                (Err(x), Err(y)) => same_error(x, y),
                _ => false,
            },
    {
        let cls = &stub.class_def;
        let methods = methods_of_class(cls, &stub.imports)?;
        if methods.len() == 0 {
            return Err(ParseError::NoMethod);
        }
        if !type_parses(cls.name.as_str()) {
            return Err(ParseError::BadClassName);
        }
        let attrs: Vec<crate::member::MemberInfo> = Vec::new();
        let getters: Vec<crate::member::MemberInfo> = Vec::new();
        let setters: Vec<crate::member::MemberInfo> = Vec::new();
        let r = PyMethodsInfo {
            struct_id: RustType::Text(cls.name.clone()),
            attrs,
            getters,
            setters,
            methods,
        };
        assert(r@.attrs =~= Seq::<crate::member::MemberView>::empty());
        assert(r@.getters =~= Seq::<crate::member::MemberView>::empty());
        assert(r@.setters =~= Seq::<crate::member::MemberView>::empty());
        Ok(r)
    }
}

/// What the one class of a parsed stub gives (see [`methods_stub_spec`]).
pub fn methods_stub_from_statements(stmts: Vec<PyStmt>) -> (r: Result<PyMethodsInfo, ParseError>)
    ensures
        match (r, methods_stub_spec(stmts@)) {
            (Ok(a), Ok(b)) => a@ == b,
            (Err(x), Err(y)) => same_error(x, y),
            _ => false,
        },
{
    let stub = PythonClassStub::from_statements(stmts)?;
    PyMethodsInfo::try_from_class_stub(&stub)
}

/// The statements of a stub's text: the text dedented (see
/// [`dedented`]), then parsed as Python; an error when it is not valid
/// Python.
pub open spec fn stub_statements(text: Seq<char>) -> Result<Seq<PyStmt>, ParseError> {
    match python_suite(dedented(text)) {
        Some(s) => Ok(s),
        None => Err(ParseError::PythonSyntax),
    }
}

/// What a stub's text gives through `f`: nothing where dedenting would cut
/// a line inside a character (slicing the text there panics), else the
/// parse error or what `f` makes of the statements.
pub open spec fn on_stub_text<T>(
    text: Seq<char>,
    f: spec_fn(Seq<PyStmt>) -> Result<T, ParseError>,
) -> Option<Result<T, ParseError>> {
    if !margin_on_char_boundaries(text) {
        None
    } else {
        Some(
            match stub_statements(text) {
                Err(e) => Err(e),
                Ok(s) => f(s),
            },
        )
    }
}

/// The statements of a stub's text (see [`stub_statements`]); `None` where
/// dedenting would cut a character.
pub fn read_stub(text: &str) -> (r: Option<Result<Vec<PyStmt>, ParseError>>)
    requires
        utf8_size(text@) <= usize::MAX,
    ensures
        r is None <==> !margin_on_char_boundaries(text@),
        r matches Some(x) ==> match (x, stub_statements(text@)) {
            (Ok(v), Ok(s)) => v@ == s,
            (Err(a), Err(b)) => same_error(a, b),
            _ => false,
        },
{
    match try_dedent(text) {
        None => None,
        Some(d) => match parse_python_suite(d.as_str()) {
            None => Some(Err(ParseError::PythonSyntax)),
            Some(v) => Some(Ok(v)),
        },
    }
}

/// The one function of a stub's text (see [`function_stub_spec`] and
/// [`on_stub_text`]).
pub fn parse_python_function_stub(text: &str) -> (r: Option<Result<PyFunctionInfo, ParseError>>)
    requires
        utf8_size(text@) <= usize::MAX,
    ensures
        match (r, on_stub_text(text@, |s: Seq<PyStmt>| function_stub_spec(s))) {
            (None, None) => true,
            (Some(x), Some(y)) => same_function(x, y),
            _ => false,
        },
{
    match read_stub(text) {
        None => None,
        Some(Err(e)) => Some(Err(e)),
        Some(Ok(stmts)) => Some(function_stub_from_statements(&stmts)),
    }
}

/// The overloads of a `python_overload` stub's text (see
/// [`overloads_spec`] and [`on_stub_text`]).
pub fn parse_python_overload_stubs(text: &str, expected_function_name: &str) -> (r: Option<
    Result<Vec<PyFunctionInfo>, ParseError>,
>)
    requires
        utf8_size(text@) <= usize::MAX,
    ensures
        match (r, on_stub_text(text@, |s: Seq<PyStmt>| overloads_spec(s, expected_function_name@))) {
            (None, None) => true,
            (Some(Ok(a)), Some(Ok(b))) => a@.map_values(|f: PyFunctionInfo| f@) == b,
            (Some(Err(x)), Some(Err(y))) => same_error(x, y),
            _ => false,
        },
{
    match read_stub(text) {
        None => None,
        Some(Err(e)) => Some(Err(e)),
        Some(Ok(stmts)) => Some(overload_stubs_from_statements(&stmts, expected_function_name)),
    }
}

/// The methods of the one class of a stub's text (see
/// [`methods_stub_spec`] and [`on_stub_text`]).
pub fn parse_python_methods_stub(text: &str) -> (r: Option<Result<PyMethodsInfo, ParseError>>)
    requires
        utf8_size(text@) <= usize::MAX,
    ensures
        match (r, on_stub_text(text@, |s: Seq<PyStmt>| methods_stub_spec(s))) {
            (None, None) => true,
            (Some(Ok(a)), Some(Ok(b))) => a@ == b,
            (Some(Err(x)), Some(Err(y))) => same_error(x, y),
            _ => false,
        },
{
    match read_stub(text) {
        None => None,
        Some(Err(e)) => Some(Err(e)),
        Some(Ok(stmts)) => Some(methods_stub_from_statements(stmts)),
    }
}

/// What `gen_function_from_python!` makes of its input: the one function
/// of the stub's text, in the input's module when one is given (see
/// [`gen_function_from_statements`] and [`on_stub_text`]).
pub fn parse_gen_function_from_python_input(input: &GenFunctionFromPythonInput) -> (r: Option<
    Result<PyFunctionInfo, ParseError>,
>)
    requires
        utf8_size(input.python_stub@) <= usize::MAX,
    ensures
        match (r, on_stub_text(input.python_stub@, |s: Seq<PyStmt>| function_stub_spec(s))) {
            (None, None) => true,
            (Some(Ok(a)), Some(Ok(b))) => a@ == (PyFunctionView {
                module: match input.module {
                    Some(m) => Some(m@),
                    None => b.module,
                },
                ..b
            }),
            (Some(Err(x)), Some(Err(y))) => same_error(x, y),
            _ => false,
        },
{
    match read_stub(input.python_stub.as_str()) {
        None => None,
        Some(Err(e)) => Some(Err(e)),
        Some(Ok(stmts)) => Some(gen_function_from_statements(input.module.clone(), &stmts)),
    }
}

} // verus!
