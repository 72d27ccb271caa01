//! Function arguments: their Python-facing names and types.

use vstd::prelude::*;
use indexmap::IndexSet;
use crate::attr::Attribute;
use crate::gen_stub_attr::{
    first_override, gen_stub_attrs_spec, parse_gen_stub_override_return_type,
    parse_gen_stub_override_type, AttributeLocation, OverrideTypeAttribute,
};
use crate::imports::import_items;
use crate::parse::{ParseError, Parsed, same_error};
use crate::rust_type::{
    clone_type, erased, last_ident, remove_lifetime, unwrap_pyresult, unwrapped_pyresult,
    GenericArgument, PathArguments, PathSegment, RustType, TypeView,
};
use crate::text::str_is;

verus! {

/// The type of an argument or a return value: a Rust type translated by
/// its `PyStubType` implementation, or a Python type given by hand (with
/// the modules it needs and the Rust types named in it by
/// `RustType["..."]`).
#[derive(Debug)]
pub enum TypeOrOverride {
    RustType { ty: RustType },
    OverrideType {
        ty: RustType,
        type_repr: String,
        imports: IndexSet<String>,
        rust_type_markers: Vec<String>,
    },
}

pub enum TypeOrOverrideView {
    RustType(TypeView),
    OverrideType(TypeView, Seq<char>, Seq<Seq<char>>, Seq<Seq<char>>),
}

impl View for TypeOrOverride {
    type V = TypeOrOverrideView;

    open spec fn view(&self) -> TypeOrOverrideView {
        match self {
            TypeOrOverride::RustType { ty } => TypeOrOverrideView::RustType(ty@),
            TypeOrOverride::OverrideType { ty, type_repr, imports, rust_type_markers } =>
                TypeOrOverrideView::OverrideType(
                ty@,
                type_repr@,
                import_items(*imports),
                rust_type_markers@.map_values(|s: String| s@),
            ),
        }
    }
}

/// A named argument with its type.
#[derive(Debug)]
pub struct ArgInfo {
    pub name: String,
    pub ty: TypeOrOverride,
}

pub struct ArgInfoView {
    pub name: Seq<char>,
    pub ty: TypeOrOverrideView,
}

impl View for ArgInfo {
    type V = ArgInfoView;

    open spec fn view(&self) -> ArgInfoView {
        ArgInfoView { name: self.name@, ty: self.ty@ }
    }
}

/// The pattern of a typed argument: an identifier (kept as its printed
/// text, without `mut`), `_`, or any other pattern.
#[derive(Debug)]
pub enum ArgPattern {
    Ident(String),
    Wild,
    Other,
}

/// An argument of a Rust function: `self` in any form, or
/// `pattern: Type` with the argument's attributes.
#[derive(Debug)]
pub enum FnArg {
    Receiver,
    Typed(Vec<Attribute>, ArgPattern, RustType),
}

/// What an argument becomes: a named argument whose type is overridden by
/// the first `#[gen_stub(override_type(...))]`, if any; `_` for a wildcard;
/// an error for a receiver or another pattern.
pub open spec fn arg_info_spec(a: FnArg) -> Result<ArgInfoView, ParseError> {
    match a {
        FnArg::Typed(attrs, ArgPattern::Ident(name), ty) => match gen_stub_attrs_spec(
            attrs@,
            AttributeLocation::Argument,
            Seq::empty(),
        ) {
            Err(e) => Err(e),
            Ok(s) => match first_override(s) {
                Some(o) => Ok(
                    ArgInfoView {
                        name: name@,
                        ty: TypeOrOverrideView::OverrideType(
                            ty@,
                            o.type_repr,
                            o.imports,
                            Seq::empty(),
                        ),
                    },
                ),
                None => Ok(ArgInfoView { name: name@, ty: TypeOrOverrideView::RustType(ty@) }),
            },
        },
        FnArg::Typed(_, ArgPattern::Wild, ty) => Ok(
            ArgInfoView { name: "_"@, ty: TypeOrOverrideView::RustType(ty@) },
        ),
        _ => Err(ParseError::ExpectedTypedArgument),
    }
}

impl ArgInfo {
    /// The argument as [`arg_info_spec`] says.
    pub fn try_from(value: &FnArg) -> (r: Result<ArgInfo, ParseError>)
        ensures
            match (r, arg_info_spec(*value)) {
                (Ok(a), Ok(b)) => a@ == b,
                (Err(e), Err(f)) => same_error(e, f),
                _ => false,
            },
    {
        match value {
            FnArg::Typed(attrs, ArgPattern::Ident(name), ty) => {
                match parse_gen_stub_override_type(attrs) {
                    Err(e) => Err(e),
                    Ok(Some(o)) => {
                        let markers: Vec<String> = Vec::new();
                        assert(markers@.map_values(|s: String| s@) =~= Seq::<Seq<char>>::empty());
                        Ok(
                            ArgInfo {
                                name: name.clone(),
                                ty: TypeOrOverride::OverrideType {
                                    ty: clone_type(ty),
                                    type_repr: o.type_repr,
                                    imports: o.imports,
                                    rust_type_markers: markers,
                                },
                            },
                        )
                    },
                    Ok(None) => Ok(
                        ArgInfo {
                            name: name.clone(),
                            ty: TypeOrOverride::RustType { ty: clone_type(ty) },
                        },
                    ),
                }
            },
            FnArg::Typed(_, ArgPattern::Wild, ty) => Ok(
                ArgInfo {
                    name: String::from_str("_"),
                    ty: TypeOrOverride::RustType { ty: clone_type(ty) },
                },
            ),
            _ => Err(ParseError::ExpectedTypedArgument),
        }
    }
}

/// The last segment of a path type.
pub open spec fn last_segment(t: RustType) -> Option<PathSegment> {
    match t {
        RustType::Path(_, segs) => if segs.len() > 0 {
            Some(segs[segs.len() - 1])
        } else {
            None
        },
        _ => None,
    }
}

/// Whether the last argument inside `<...>` of a segment is a path type
/// whose last segment is one of `names`.
pub open spec fn last_type_arg_is(seg: PathSegment, names: Seq<Seq<char>>) -> bool {
    match seg.args {
        PathArguments::AngleBracketed(g) => g.len() > 0 && match g[g.len() - 1] {
            GenericArgument::Type(t) => match last_segment(t) {
                Some(s) => names.contains(s.ident@),
                None => false,
            },
            _ => false,
        },
        _ => false,
    }
}

/// Whether the checks of an argument's type reach a path without segments
/// or an empty `<>`, where the macro panics.
pub open spec fn receiver_check_panics(n: int, t: RustType) -> bool {
    match t {
        RustType::Reference(_, _, e) => match *e {
            RustType::Path(_, segs) => segs.len() == 0 || (n == 0 && segs[segs.len() - 1].ident@
                == "Bound"@ && match segs[segs.len() - 1].args {
                PathArguments::AngleBracketed(g) => g.len() > 0 && match g[g.len() - 1] {
                    GenericArgument::Type(RustType::Path(_, s2)) => s2.len() == 0,
                    _ => false,
                },
                _ => false,
            }),
            _ => false,
        },
        RustType::Path(_, segs) => segs.len() == 0 || (n == 0 && segs[segs.len() - 1].ident@
            != "Python"@ && (segs[segs.len() - 1].ident@ == "PyRef"@ || segs[segs.len()
            - 1].ident@ == "PyRefMut"@ || segs[segs.len() - 1].ident@ == "Bound"@ || segs[segs.len()
            - 1].ident@ == "Py"@) && match segs[segs.len() - 1].args {
            PathArguments::AngleBracketed(g) => g.len() == 0 || match g[g.len() - 1] {
                GenericArgument::Type(RustType::Path(_, s2)) => s2.len() == 0,
                _ => false,
            },
            _ => false,
        }),
        _ => false,
    }
}

/// Whether the argument at position `n` (receivers counted) is in fact a
/// receiver or a `Python` token, and so has no place in the stub:
/// `&Bound<'_, PyType>` or `&Bound<'_, Self>` first, a `Python<'_>`
/// anywhere, or `PyRef<'_, Self>`, `PyRefMut<'_, Self>`, `Bound<'_, Self>`
/// or `Py<Self>` first.
pub open spec fn is_receiver_like(n: int, t: RustType) -> bool {
    match t {
        RustType::Reference(_, _, e) => n == 0 && match last_segment(*e) {
            Some(seg) => seg.ident@ == "Bound"@ && last_type_arg_is(seg, seq!["PyType"@, "Self"@]),
            None => false,
        },
        RustType::Path(_, _) => match last_segment(t) {
            Some(seg) => seg.ident@ == "Python"@ || (n == 0 && (seg.ident@ == "PyRef"@ || seg.ident@
                == "PyRefMut"@ || seg.ident@ == "Bound"@ || seg.ident@ == "Py"@)
                && last_type_arg_is(seg, seq!["Self"@])),
            None => false,
        },
        _ => false,
    }
}

/// The arguments from index `i` on that appear in a stub, in order.
pub open spec fn args_from(args: Seq<FnArg>, i: int) -> Parsed<Seq<ArgInfoView>>
    decreases args.len() - i,
{
    if i < 0 || i >= args.len() {
        Parsed::Value(Seq::empty())
    } else {
        match args[i] {
            FnArg::Receiver => args_from(args, i + 1),
            FnArg::Typed(_, _, t) => match arg_info_spec(args[i]) {
                Err(e) => Parsed::Error(e),
                Ok(a) => if receiver_check_panics(i, t) {
                    Parsed::Panic
                } else if is_receiver_like(i, t) {
                    args_from(args, i + 1)
                } else {
                    crate::parse::prepend(seq![a], args_from(args, i + 1))
                },
            },
        }
    }
}


/// Whether an argument is typed by a path whose last segment is `Python`:
/// PyO3's GIL token, which Python callers never pass.
pub open spec fn is_python_token(a: FnArg) -> bool {
    match a {
        FnArg::Typed(_, _, t) => match t {
            RustType::Path(_, segs) => segs.len() > 0 && segs[segs.len() - 1].ident@ == "Python"@,
            _ => false,
        },
        FnArg::Receiver => false,
    }
}

/// Every argument that a stub shows comes, in order of appearance, from an
/// argument of the Rust function that is not a `Python` token, read as
/// that argument: a `Python` argument is left out wherever it stands.
pub proof fn law_python_token_is_left_out(args: Seq<FnArg>, i: int)
    requires
        0 <= i,
    ensures
        args_from(args, i) matches Parsed::Value(s) ==> forall|k: int|
            #![trigger s[k]]
            0 <= k < s.len() ==> exists|j: int|
                i <= j < args.len() && !is_python_token(#[trigger] args[j]) && arg_info_spec(args[j])
                    == Ok::<ArgInfoView, ParseError>(s[k]),
    decreases args.len() - i,
{
    if 0 <= i < args.len() {
        law_python_token_is_left_out(args, i + 1);
        if args_from(args, i) is Value {
            let s = args_from(args, i)->Value_0;
            let kept = match args[i] {
                FnArg::Typed(_, _, t) => !is_receiver_like(i, t),
                FnArg::Receiver => false,
            };
            let r = args_from(args, i + 1)->Value_0;
            if kept {
                assert(args_from(args, i + 1) is Value);
                assert(s == seq![arg_info_spec(args[i])->Ok_0] + r);
            } else {
                assert(s == r);
            }
            assert forall|k: int| #![trigger s[k]] 0 <= k < s.len() implies exists|j: int|
                i <= j < args.len() && !is_python_token(#[trigger] args[j]) && arg_info_spec(args[j])
                    == Ok::<ArgInfoView, ParseError>(s[k]) by {
                if kept && k == 0 {
                    assert(!is_python_token(args[i]));
                } else {
                    let k2 = if kept { k - 1 } else { k };
                    assert(s[k] == r[k2]);
                    let j = choose|j: int|
                        i + 1 <= j < args.len() && !is_python_token(#[trigger] args[j]) && arg_info_spec(
                            args[j],
                        ) == Ok::<ArgInfoView, ParseError>(r[k2]);
                    assert(i <= j);
                }
            }
        }
    }
}

} // verus!

verus! {

fn last_arg_ident(seg: &PathSegment) -> (r: Option<&String>)
    ensures
        forall|names: Seq<Seq<char>>| #![auto] last_type_arg_is(*seg, names) == (match r {
            Some(s) => names.contains(s@),
            None => false,
        }),
{
    match &seg.args {
        PathArguments::AngleBracketed(g) => {
            if g.len() > 0 {
                match &g[g.len() - 1] {
                    GenericArgument::Type(RustType::Path(_, s2)) => {
                        if s2.len() > 0 {
                            Some(&s2[s2.len() - 1].ident)
                        } else {
                            None
                        }
                    },
                    _ => None,
                }
            } else {
                None
            }
        },
        _ => None,
    }
}

fn one_of(s: &String, a: &str, b: &str, c: &str, d: &str) -> (r: bool)
    ensures
        r == (s@ == a@ || s@ == b@ || s@ == c@ || s@ == d@),
{
    str_is(s.as_str(), a) || str_is(s.as_str(), b) || str_is(s.as_str(), c) || str_is(
        s.as_str(),
        d,
    )
}

fn receiver_check_panics_exec(n: usize, t: &RustType) -> (r: bool)
    ensures
        r == receiver_check_panics(n as int, *t),
{
    match t {
        RustType::Reference(_, _, e) => {
            match &**e {
                RustType::Path(_, segs) => {
                    if segs.len() == 0 {
                        return true;
                    }
                    let last = &segs[segs.len() - 1];
                    if n == 0 && str_is(last.ident.as_str(), "Bound") {
                        match &last.args {
                            PathArguments::AngleBracketed(g) => {
                                if g.len() > 0 {
                                    match &g[g.len() - 1] {
                                        GenericArgument::Type(RustType::Path(_, s2)) => s2.len()
                                            == 0,
                                        _ => false,
                                    }
                                } else {
                                    false
                                }
                            },
                            _ => false,
                        }
                    } else {
                        false
                    }
                },
                _ => false,
            }
        },
        RustType::Path(_, segs) => {
            if segs.len() == 0 {
                return true;
            }
            let last = &segs[segs.len() - 1];
            if n == 0 && !str_is(last.ident.as_str(), "Python") && one_of(
                &last.ident,
                "PyRef",
                "PyRefMut",
                "Bound",
                "Py",
            ) {
                match &last.args {
                    PathArguments::AngleBracketed(g) => {
                        if g.len() == 0 {
                            true
                        } else {
                            match &g[g.len() - 1] {
                                GenericArgument::Type(RustType::Path(_, s2)) => s2.len() == 0,
                                _ => false,
                            }
                        }
                    },
                    _ => false,
                }
            } else {
                false
            }
        },
        _ => false,
    }
}

fn is_receiver_like_exec(n: usize, t: &RustType) -> (r: bool)
    ensures
        r == is_receiver_like(n as int, *t),
{
    match t {
        RustType::Reference(_, _, e) => {
            if n != 0 {
                return false;
            }
            match &**e {
                RustType::Path(_, segs) => {
                    if segs.len() == 0 {
                        return false;
                    }
                    let seg = &segs[segs.len() - 1];
                    if !str_is(seg.ident.as_str(), "Bound") {
                        return false;
                    }
                    match last_arg_ident(seg) {
                        Some(s) => {
                            let r = str_is(s.as_str(), "PyType") || str_is(s.as_str(), "Self");
                            assert(seq!["PyType"@, "Self"@].contains(s@) == (s@ == "PyType"@ || s@
                                == "Self"@)) by {
                                if s@ == "Self"@ {
                                    assert(seq!["PyType"@, "Self"@][1] == s@);
                                }
                                if s@ == "PyType"@ {
                                    assert(seq!["PyType"@, "Self"@][0] == s@);
                                }
                            }
                            r
                        },
                        None => false,
                    }
                },
                _ => false,
            }
        },
        RustType::Path(_, segs) => {
            if segs.len() == 0 {
                return false;
            }
            let seg = &segs[segs.len() - 1];
            if str_is(seg.ident.as_str(), "Python") {
                return true;
            }
            if n == 0 && one_of(&seg.ident, "PyRef", "PyRefMut", "Bound", "Py") {
                match last_arg_ident(seg) {
                    Some(s) => {
                        let r = str_is(s.as_str(), "Self");
                        assert(seq!["Self"@].contains(s@) == (s@ == "Self"@)) by {
                            if s@ == "Self"@ {
                                assert(seq!["Self"@][0] == s@);
                            }
                        }
                        r
                    },
                    None => false,
                }
            } else {
                false
            }
        },
        _ => false,
    }
}

/// The arguments of a Rust function as they appear in a stub: receivers,
/// receiver-like first arguments and `Python` tokens are left out (see
/// [`args_from`]). `Panic` marks the inputs on which the macro panics.
pub fn parse_args_outcome(args: &Vec<FnArg>) -> (r: Parsed<Vec<ArgInfo>>)
    ensures
        crate::parse::same_outcome(r, args_from(args@, 0)),
{
    let mut acc: Vec<ArgInfo> = Vec::new();
    let mut i: usize = 0;
    assert(acc@.map_values(|a: ArgInfo| a@) =~= Seq::<ArgInfoView>::empty());
    assert(crate::parse::prepend(Seq::<ArgInfoView>::empty(), args_from(args@, 0)) == args_from(
        args@,
        0,
    )) by {
        match args_from(args@, 0) {
            Parsed::Value(x) => {
                assert(Seq::<ArgInfoView>::empty() + x =~= x);
            },
            _ => {},
        }
    }
    while i < args.len()
        invariant
            i <= args.len(),
            args_from(args@, 0) == crate::parse::prepend(
                acc@.map_values(|a: ArgInfo| a@),
                args_from(args@, i as int),
            ),
        decreases args.len() - i,
    {
        let ghost before = acc@.map_values(|a: ArgInfo| a@);
        match &args[i] {
            FnArg::Receiver => {},
            FnArg::Typed(_, _, t) => {
                match ArgInfo::try_from(&args[i]) {
                    Err(e) => {
                        return Parsed::Error(e);
                    },
                    Ok(a) => {
                        if receiver_check_panics_exec(i, t) {
                            return Parsed::Panic;
                        }
                        if !is_receiver_like_exec(i, t) {
                            let ghost av = a@;
                            acc.push(a);
                            assert(acc@.map_values(|a: ArgInfo| a@) =~= before.push(av));
                            assert forall|r: Seq<ArgInfoView>| #![auto] before + (seq![av] + r)
                                == before.push(av) + r by {
                                assert(before + (seq![av] + r) =~= before.push(av) + r);
                            }
                        }
                    },
                }
            },
        }
        i = i + 1;
    }
    let ghost fin = acc@.map_values(|a: ArgInfo| a@);
    assert(fin + Seq::<ArgInfoView>::empty() =~= fin);
    Parsed::Value(acc)
}

/// The arguments of a Rust function as they appear in a stub (see
/// [`parse_args_outcome`]).
pub fn parse_args(args: &Vec<FnArg>) -> (r: Result<Vec<ArgInfo>, ParseError>)
    requires
        !(args_from(args@, 0) is Panic),
    ensures
        match (r, args_from(args@, 0)) {
            (Ok(v), Parsed::Value(t)) => v@.map_values(|a: ArgInfo| a@) == t,
            (Err(e), Parsed::Error(f)) => same_error(e, f),
            _ => false,
        },
{
    match parse_args_outcome(args) {
        Parsed::Value(v) => Ok(v),
        Parsed::Error(e) => Err(e),
        Parsed::Panic => Err(ParseError::Syntax),
    }
}

/// The return type as a stub shows it: `T` for `PyResult<T>`, lifetimes
/// erased, overridden by the first `#[gen_stub(override_return_type(...))]`
/// at the function location; `None` when the function returns nothing (the
/// attributes are then not read).
pub open spec fn return_type_spec(ret: Option<RustType>, attrs: Seq<Attribute>) -> Result<
    Option<TypeOrOverrideView>,
    ParseError,
> {
    match ret {
        None => Ok(None),
        Some(t) => {
            let ty = erased(unwrapped_pyresult(t));
            match gen_stub_attrs_spec(attrs, AttributeLocation::Function, Seq::empty()) {
                Err(e) => Err(e),
                Ok(s) => match first_override(s) {
                    Some(o) => Ok(
                        Some(
                            TypeOrOverrideView::OverrideType(
                                ty,
                                o.type_repr,
                                o.imports,
                                Seq::empty(),
                            ),
                        ),
                    ),
                    None => Ok(Some(TypeOrOverrideView::RustType(ty))),
                },
            }
        },
    }
}

pub open spec fn opt_type_view(o: Option<TypeOrOverride>) -> Option<TypeOrOverrideView> {
    match o {
        Some(t) => Some(t@),
        None => None,
    }
}

/// The return type as a stub shows it (see [`return_type_spec`]).
pub fn extract_return_type(ret: &Option<RustType>, attrs: &Vec<Attribute>) -> (r: Result<
    Option<TypeOrOverride>,
    ParseError,
>)
    ensures
        match (r, return_type_spec(*ret, attrs@)) {
            (Ok(a), Ok(b)) => opt_type_view(a) == b,
            (Err(e), Err(f)) => same_error(e, f),
            _ => false,
        },
{
    let t = match ret {
        None => {
            return Ok(None);
        },
        Some(t) => t,
    };
    let ty = remove_lifetime(unwrap_pyresult(t));
    match parse_gen_stub_override_return_type(attrs) {
        Err(e) => Err(e),
        Ok(Some(o)) => {
            let markers: Vec<String> = Vec::new();
            assert(markers@.map_values(|s: String| s@) =~= Seq::<Seq<char>>::empty());
            Ok(
                Some(
                    TypeOrOverride::OverrideType {
                        ty,
                        type_repr: o.type_repr,
                        imports: o.imports,
                        rust_type_markers: markers,
                    },
                ),
            )
        },
        Ok(None) => Ok(Some(TypeOrOverride::RustType { ty })),
    }
}

} // verus!

verus! {

/// A copy of a type or override.
pub fn clone_type_or_override(t: &TypeOrOverride) -> (r: TypeOrOverride)
    ensures
        r@ == t@,
{
    match t {
        TypeOrOverride::RustType { ty } => TypeOrOverride::RustType { ty: clone_type(ty) },
        TypeOrOverride::OverrideType { ty, type_repr, imports, rust_type_markers } => {
            TypeOrOverride::OverrideType {
                ty: clone_type(ty),
                type_repr: type_repr.clone(),
                imports: crate::imports::clone_import_set(imports),
                rust_type_markers: crate::imports::clone_strings(rust_type_markers),
            }
        },
    }
}

/// A copy of an argument.
pub fn clone_arg(a: &ArgInfo) -> (r: ArgInfo)
    ensures
        r@ == a@,
{
    ArgInfo { name: a.name.clone(), ty: clone_type_or_override(&a.ty) }
}

} // verus!
