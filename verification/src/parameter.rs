//! Parameters of a Python signature, each with its kind and default.

use vstd::prelude::*;
use crate::arg::{clone_arg, clone_type_or_override, ArgInfo, ArgInfoView, TypeOrOverride, TypeOrOverrideView};
use crate::parse::{lemma_string_with, same_error, string_with, ParseError};
use crate::rust_type::{erased, remove_lifetime};
use crate::signature::{Signature, SignatureArg, SignatureArgView};
use crate::text::str_is;

verus! {

/// The kind of a Python parameter.
#[derive(Debug, Clone, Copy, PartialEq, Eq, Structural)]
pub enum ParameterKind {
    PositionalOnly,
    PositionalOrKeyword,
    KeywordOnly,
    VarPositional,
    VarKeyword,
}

/// A default value: a Rust expression (kept as its text), or a Python
/// expression already written as Python.
#[derive(Debug, PartialEq, Eq)]
pub enum DefaultExpr {
    Rust(String),
    Python(String),
}

pub enum DefaultView {
    Rust(Seq<char>),
    Python(Seq<char>),
}

impl View for DefaultExpr {
    type V = DefaultView;

    open spec fn view(&self) -> DefaultView {
        match self {
            DefaultExpr::Rust(s) => DefaultView::Rust(s@),
            DefaultExpr::Python(s) => DefaultView::Python(s@),
        }
    }
}

/// A parameter: the argument, its kind and its default value.
#[derive(Debug)]
pub struct ParameterWithKind {
    pub arg_info: ArgInfo,
    pub kind: ParameterKind,
    pub default_expr: Option<DefaultExpr>,
}

pub struct ParameterView {
    pub arg: ArgInfoView,
    pub kind: ParameterKind,
    pub default: Option<DefaultView>,
}

impl View for ParameterWithKind {
    type V = ParameterView;

    open spec fn view(&self) -> ParameterView {
        ParameterView {
            arg: self.arg_info@,
            kind: self.kind,
            default: match self.default_expr {
                Some(d) => Some(d@),
                None => None,
            },
        }
    }
}

/// The parameters of a function, in order.
#[derive(Debug)]
pub struct Parameters {
    pub params: Vec<ParameterWithKind>,
}

impl View for Parameters {
    type V = Seq<ParameterView>;

    open spec fn view(&self) -> Seq<ParameterView> {
        self.params@.map_values(|p: ParameterWithKind| p@)
    }
}

/// An argument with the lifetimes of its Rust type erased; an overridden
/// type stays as it is.
pub open spec fn cleaned(a: ArgInfo) -> ArgInfoView {
    match a.ty {
        TypeOrOverride::RustType { ty } => ArgInfoView {
            name: a.name@,
            ty: TypeOrOverrideView::RustType(erased(ty)),
        },
        _ => a@,
    }
}

fn clean_arg(a: &ArgInfo) -> (r: ArgInfo)
    ensures
        r@ == cleaned(*a),
{
    match &a.ty {
        TypeOrOverride::RustType { ty } => ArgInfo {
            name: a.name.clone(),
            ty: TypeOrOverride::RustType { ty: remove_lifetime(ty) },
        },
        _ => clone_arg(a),
    }
}

impl Parameters {
    /// Parameters made from a list already classified.
    pub fn from_vec(params: Vec<ParameterWithKind>) -> (r: Self)
        ensures
            r.params == params,
    {
        Parameters { params }
    }

    /// Parameters without a `signature` attribute: every argument, lifetimes
    /// erased, positional-or-keyword, without default.
    pub fn new(args: &Vec<ArgInfo>) -> (r: Self)
        ensures
            r@.len() == args.len(),
            forall|k: int|
                0 <= k < args.len() ==> #[trigger] r@[k] == (ParameterView {
                    arg: cleaned(args@[k]),
                    kind: ParameterKind::PositionalOrKeyword,
                    default: None,
                }),
    {
        let mut params: Vec<ParameterWithKind> = Vec::new();
        let mut i: usize = 0;
        while i < args.len()
            invariant
                i <= args.len(),
                params.len() == i,
                forall|k: int|
                    0 <= k < i ==> #[trigger] params@[k]@ == (ParameterView {
                        arg: cleaned(args@[k]),
                        kind: ParameterKind::PositionalOrKeyword,
                        default: None,
                    }),
            decreases args.len() - i,
        {
            params.push(
                ParameterWithKind {
                    arg_info: clean_arg(&args[i]),
                    kind: ParameterKind::PositionalOrKeyword,
                    default_expr: None,
                },
            );
            i = i + 1;
        }
        Parameters { params }
    }
}

/// The index of the last argument named `name`, as a map built from the
/// arguments keeps it.
pub open spec fn last_named(args: Seq<ArgInfo>, name: Seq<char>) -> Option<int>
    decreases args.len(),
{
    if args.len() == 0 {
        None
    } else if args.last().name@ == name {
        Some(args.len() - 1)
    } else {
        last_named(args.drop_last(), name)
    }
}

/// The kind of a named entry of a signature, from the state of the scan.
pub open spec fn named_kind(positional_only: bool, after_star: bool) -> ParameterKind {
    if positional_only {
        ParameterKind::PositionalOnly
    } else if after_star {
        ParameterKind::KeywordOnly
    } else {
        ParameterKind::PositionalOrKeyword
    }
}

/// The parameter for entry `name` of a signature, or the error for an
/// argument that the function does not have.
pub open spec fn param_for(
    args: Seq<ArgInfo>,
    name: Seq<char>,
    kind: ParameterKind,
    default: Option<DefaultView>,
) -> Result<ParameterView, ParseError> {
    match last_named(args, name) {
        Some(k) => Ok(ParameterView { arg: cleaned(args[k]), kind, default }),
        None => Err(ParseError::UnknownArgument(string_with(name))),
    }
}

/// The parameters that the signature entries from index `i` on give, with
/// the scan state: still before `/` (positional-only) and after `*`.
pub open spec fn params_from(
    args: Seq<ArgInfo>,
    sig: Seq<SignatureArgView>,
    i: int,
    positional_only: bool,
    after_star: bool,
) -> Result<Seq<ParameterView>, ParseError>
    decreases sig.len() - i,
{
    if i < 0 || i >= sig.len() {
        Ok(Seq::empty())
    } else {
        let (step, po, star): (Result<Option<ParameterView>, ParseError>, bool, bool) = match sig[i] {
            SignatureArgView::Slash => (Ok(None), false, after_star),
            SignatureArgView::Star => (Ok(None), false, true),
            SignatureArgView::Ident(n) => (
                match param_for(args, n, named_kind(positional_only, after_star), None) {
                    Ok(p) => Ok(Some(p)),
                    Err(e) => Err(e),
                },
                positional_only,
                after_star,
            ),
            SignatureArgView::Assign(n, v) => (
                match param_for(
                    args,
                    n,
                    named_kind(positional_only, after_star),
                    Some(DefaultView::Rust(v)),
                ) {
                    Ok(p) => Ok(Some(p)),
                    Err(e) => Err(e),
                },
                positional_only,
                after_star,
            ),
            SignatureArgView::Args(n) => (
                match param_for(args, n, ParameterKind::VarPositional, None) {
                    Ok(p) => Ok(Some(p)),
                    Err(e) => Err(e),
                },
                false,
                true,
            ),
            SignatureArgView::Keywords(n) => (
                match param_for(args, n, ParameterKind::VarKeyword, None) {
                    Ok(p) => Ok(Some(p)),
                    Err(e) => Err(e),
                },
                false,
                after_star,
            ),
        };
        match step {
            Err(e) => Err(e),
            Ok(p) => match params_from(args, sig, i + 1, po, star) {
                Err(e) => Err(e),
                Ok(rest) => Ok(
                    match p {
                        Some(x) => seq![x] + rest,
                        None => rest,
                    },
                ),
            },
        }
    }
}

/// Whether a signature has a `/` entry.
pub open spec fn has_slash(sig: Seq<SignatureArgView>) -> bool {
    exists|k: int| 0 <= k < sig.len() && #[trigger] sig[k] is Slash
}

/// The parameters that a signature forms: scanned from its first entry,
/// positional-only up to a `/` when it has one, and not after `*` yet.
pub open spec fn signature_params(args: Seq<ArgInfo>, sig: Seq<SignatureArgView>) -> Result<
    Seq<ParameterView>,
    ParseError,
> {
    params_from(args, sig, 0, has_slash(sig), false)
}

fn has_slash_exec(sig: &Signature) -> (r: bool)
    ensures
        r == has_slash(sig@),
{
    let mut i: usize = 0;
    while i < sig.args.len()
        invariant
            i <= sig.args.len(),
            forall|k: int| 0 <= k < i ==> !(#[trigger] sig@[k] is Slash),
        decreases sig.args.len() - i,
    {
        assert(sig@[i as int] == sig.args@[i as int]@);
        match &sig.args[i] {
            SignatureArg::Slash => {
                return true;
            },
            _ => {},
        }
        i = i + 1;
    }
    false
}

proof fn lemma_last_named(args: Seq<ArgInfo>, name: Seq<char>)
    ensures
        last_named(args, name) matches Some(j) ==> 0 <= j < args.len() && args[j].name@ == name,
    decreases args.len(),
{
    if args.len() > 0 && args.last().name@ != name {
        lemma_last_named(args.drop_last(), name);
    }
}

/// Whether some parameter of `ps` is named `name` and of kind `kind`.
pub open spec fn has_param(ps: Seq<ParameterView>, name: Seq<char>, kind: ParameterKind) -> bool {
    exists|m: int| 0 <= m < ps.len() && #[trigger] ps[m].kind == kind && ps[m].arg.name == name
}

/// The collecting entries of a signature give collecting parameters: each
/// `**name` entry a parameter `name` of kind `VarKeyword` (shown as
/// `**name`), each `*name` entry a parameter `name` of kind `VarPositional`
/// (shown as `*name`).
pub proof fn law_collector_entries_kinds(
    args: Seq<ArgInfo>,
    sig: Seq<SignatureArgView>,
    i: int,
    positional_only: bool,
    after_star: bool,
)
    requires
        0 <= i,
    ensures
        params_from(args, sig, i, positional_only, after_star) matches Ok(ps) ==> forall|k: int|
            i <= k < sig.len() ==> {
                &&& #[trigger] sig[k] is Keywords ==> has_param(ps, sig[k]->Keywords_0, ParameterKind::VarKeyword)
                &&& sig[k] is Args ==> has_param(ps, sig[k]->Args_0, ParameterKind::VarPositional)
            },
    decreases sig.len() - i,
{
    if i < sig.len() {
        let (po, star): (bool, bool) = match sig[i] {
            SignatureArgView::Slash => (false, after_star),
            SignatureArgView::Star => (false, true),
            SignatureArgView::Ident(_) => (positional_only, after_star),
            SignatureArgView::Assign(_, _) => (positional_only, after_star),
            SignatureArgView::Args(_) => (false, true),
            SignatureArgView::Keywords(_) => (false, after_star),
        };
        law_collector_entries_kinds(args, sig, i + 1, po, star);
        if params_from(args, sig, i, positional_only, after_star) is Ok {
            let ps = params_from(args, sig, i, positional_only, after_star)->Ok_0;
            let rest = params_from(args, sig, i + 1, po, star)->Ok_0;
            assert(params_from(args, sig, i + 1, po, star) is Ok);
            let shift: int = if ps.len() == rest.len() { 0 } else { 1 };
            assert(ps.len() == rest.len() + shift);
            assert forall|m: int| 0 <= m < rest.len() implies #[trigger] ps[m + shift] == rest[m] by {}
            assert forall|k: int| i <= k < sig.len() implies {
                &&& #[trigger] sig[k] is Keywords ==> has_param(ps, sig[k]->Keywords_0, ParameterKind::VarKeyword)
                &&& sig[k] is Args ==> has_param(ps, sig[k]->Args_0, ParameterKind::VarPositional)
            } by {
                if k == i {
                    if sig[i] is Keywords || sig[i] is Args {
                        let n = if sig[i] is Keywords { sig[i]->Keywords_0 } else { sig[i]->Args_0 };
                        lemma_last_named(args, n);
                        let j = last_named(args, n)->0;
                        assert(ps[0].arg == cleaned(args[j]));
                        assert(ps[0].arg.name == n);
                        if sig[i] is Keywords {
                            assert(ps[0].kind == ParameterKind::VarKeyword);
                        } else {
                            assert(ps[0].kind == ParameterKind::VarPositional);
                        }
                    }
                } else {
                    if sig[k] is Keywords {
                        let m = choose|m: int|
                            0 <= m < rest.len() && #[trigger] rest[m].kind == ParameterKind::VarKeyword
                                && rest[m].arg.name == sig[k]->Keywords_0;
                        assert(ps[m + shift] == rest[m]);
                        assert(ps[m + shift].kind == ParameterKind::VarKeyword);
                    }
                    if sig[k] is Args {
                        let m = choose|m: int|
                            0 <= m < rest.len() && #[trigger] rest[m].kind == ParameterKind::VarPositional
                                && rest[m].arg.name == sig[k]->Args_0;
                        assert(ps[m + shift] == rest[m]);
                        assert(ps[m + shift].kind == ParameterKind::VarPositional);
                    }
                }
            }
        }
    }
}

/// Each parameter that a signature forms is an argument of the function of
/// the same name (lifetimes erased); none is made up.
pub proof fn law_signature_params_are_args(
    args: Seq<ArgInfo>,
    sig: Seq<SignatureArgView>,
    i: int,
    positional_only: bool,
    after_star: bool,
)
    requires
        params_from(args, sig, i, positional_only, after_star) is Ok,
    ensures
        forall|k: int|
            0 <= k < params_from(args, sig, i, positional_only, after_star)->Ok_0.len() ==> exists|j: int|
                0 <= j < args.len() && #[trigger] params_from(
                    args,
                    sig,
                    i,
                    positional_only,
                    after_star,
                )->Ok_0[k].arg == cleaned(args[j]) && args[j].name@ == params_from(
                    args,
                    sig,
                    i,
                    positional_only,
                    after_star,
                )->Ok_0[k].arg.name,
    decreases sig.len() - i,
{
    if 0 <= i < sig.len() {
        let (po, star): (bool, bool) = match sig[i] {
            SignatureArgView::Slash => (false, after_star),
            SignatureArgView::Star => (false, true),
            SignatureArgView::Ident(_) => (positional_only, after_star),
            SignatureArgView::Assign(_, _) => (positional_only, after_star),
            SignatureArgView::Args(_) => (false, true),
            SignatureArgView::Keywords(_) => (false, after_star),
        };
        law_signature_params_are_args(args, sig, i + 1, po, star);
        let name = match sig[i] {
            SignatureArgView::Ident(n) => n,
            SignatureArgView::Assign(n, _) => n,
            SignatureArgView::Args(n) => n,
            SignatureArgView::Keywords(n) => n,
            _ => Seq::empty(),
        };
        lemma_last_named(args, name);
    }
}

fn find_last_named(args: &Vec<ArgInfo>, name: &String) -> (r: Option<usize>)
    ensures
        match (r, last_named(args@, name@)) {
            (Some(a), Some(b)) => a == b && a < args.len(),
            (None, None) => true,
            _ => false,
        },
{
    let mut i: usize = args.len();
    assert(args@.subrange(0, args.len() as int) =~= args@);
    while i > 0
        invariant
            i <= args.len(),
            last_named(args@, name@) == last_named(args@.subrange(0, i as int), name@),
        decreases i,
    {
        let ghost pre = args@.subrange(0, i as int);
        assert(pre.drop_last() =~= args@.subrange(0, i - 1));
        assert(pre.last() == args@[i - 1]);
        if str_is(args[i - 1].name.as_str(), name.as_str()) {
            return Some(i - 1);
        }
        i = i - 1;
    }
    None
}

/// A parameter for a named entry, or the error.
fn param_exec(
    args: &Vec<ArgInfo>,
    name: &String,
    kind: ParameterKind,
    default_expr: Option<DefaultExpr>,
) -> (r: Result<ParameterWithKind, ParseError>)
    ensures
        match (
            r,
            param_for(
                args@,
                name@,
                kind,
                match default_expr {
                    Some(d) => Some(d@),
                    None => None,
                },
            ),
        ) {
            (Ok(a), Ok(b)) => a@ == b,
            (Err(e), Err(f)) => same_error(e, f),
            _ => false,
        },
{
    match find_last_named(args, name) {
        Some(k) => Ok(ParameterWithKind { arg_info: clean_arg(&args[k]), kind, default_expr }),
        None => {
            proof {
                lemma_string_with(*name);
            }
            Err(ParseError::UnknownArgument(name.clone()))
        },
    }
}

impl Parameters {
    /// Parameters as a `signature` attribute gives them (see
    /// [`signature_params`]): in a signature with `/`, the entries before it
    /// are positional-only; entries after `*` or `*args` are keyword-only,
    /// the others positional-or-keyword; `*args` and `**kwargs` have their own
    /// kinds; each entry takes the last argument of its name, lifetimes
    /// erased. An entry without argument is an error.
    pub fn new_with_sig(args: &Vec<ArgInfo>, sig: &Signature) -> (r: Result<Self, ParseError>)
        ensures
            match (r, signature_params(args@, sig@)) {
                (Ok(a), Ok(b)) => a@ == b,
                (Err(e), Err(f)) => same_error(e, f),
                _ => false,
            },
    {
        let mut positional_only = has_slash_exec(sig);
        let ghost po0 = positional_only;
        let mut after_star = false;
        let mut params: Vec<ParameterWithKind> = Vec::new();
        let mut i: usize = 0;
        let ghost sv = sig@;
        assert(params@.map_values(|p: ParameterWithKind| p@) =~= Seq::<ParameterView>::empty());
        assert(params_from(args@, sv, 0, po0, false) == (match params_from(
            args@,
            sv,
            0,
            po0,
            false,
        ) {
            Ok(rest) => Ok(Seq::<ParameterView>::empty() + rest),
            Err(e) => Err(e),
        })) by {
            match params_from(args@, sv, 0, po0, false) {
                Ok(rest) => {
                    assert(Seq::<ParameterView>::empty() + rest =~= rest);
                },
                _ => {},
            }
        }
        while i < sig.args.len()
            invariant
                i <= sig.args.len(),
                sv == sig@,
                sv.len() == sig.args.len(),
                po0 == has_slash(sv),
                params_from(args@, sv, 0, po0, false) == (match params_from(
                    args@,
                    sv,
                    i as int,
                    positional_only,
                    after_star,
                ) {
                    Ok(rest) => Ok(params@.map_values(|p: ParameterWithKind| p@) + rest),
                    Err(e) => Err(e),
                }),
            decreases sig.args.len() - i,
        {
            let ghost before = params@.map_values(|p: ParameterWithKind| p@);
            assert(sv[i as int] == sig.args@[i as int]@);
            let step: Option<ParameterWithKind> = match &sig.args[i] {
                SignatureArg::Slash => {
                    positional_only = false;
                    None
                },
                SignatureArg::Star => {
                    positional_only = false;
                    after_star = true;
                    None
                },
                SignatureArg::Ident(n) => {
                    let kind = if positional_only {
                        ParameterKind::PositionalOnly
                    } else if after_star {
                        ParameterKind::KeywordOnly
                    } else {
                        ParameterKind::PositionalOrKeyword
                    };
                    match param_exec(args, n, kind, None) {
                        Ok(p) => Some(p),
                        Err(e) => {
                            return Err(e);
                        },
                    }
                },
                SignatureArg::Assign(n, v) => {
                    let kind = if positional_only {
                        ParameterKind::PositionalOnly
                    } else if after_star {
                        ParameterKind::KeywordOnly
                    } else {
                        ParameterKind::PositionalOrKeyword
                    };
                    match param_exec(args, n, kind, Some(DefaultExpr::Rust(v.clone()))) {
                        Ok(p) => Some(p),
                        Err(e) => {
                            return Err(e);
                        },
                    }
                },
                SignatureArg::Args(n) => {
                    positional_only = false;
                    after_star = true;
                    match param_exec(args, n, ParameterKind::VarPositional, None) {
                        Ok(p) => Some(p),
                        Err(e) => {
                            return Err(e);
                        },
                    }
                },
                SignatureArg::Keywords(n) => {
                    positional_only = false;
                    match param_exec(args, n, ParameterKind::VarKeyword, None) {
                        Ok(p) => Some(p),
                        Err(e) => {
                            return Err(e);
                        },
                    }
                },
            };
            match step {
                Some(p) => {
                    let ghost pv = p@;
                    params.push(p);
                    assert(params@.map_values(|p: ParameterWithKind| p@) =~= before.push(pv));
                    assert forall|r: Seq<ParameterView>| #![auto] before + (seq![pv] + r)
                        == before.push(pv) + r by {
                        assert(before + (seq![pv] + r) =~= before.push(pv) + r);
                    }
                },
                None => {},
            }
            i = i + 1;
        }
        let ghost fin = params@.map_values(|p: ParameterWithKind| p@);
        assert(fin + Seq::<ParameterView>::empty() =~= fin);
        Ok(Parameters { params })
    }
}

} // verus!
