//! What the generated metadata says of parameters, members and default
//! values, decided before any code is written.

use vstd::prelude::*;
use crate::arg::{ArgInfo, ArgInfoView, TypeOrOverride, TypeOrOverrideView};
use crate::member::{MemberInfo, MemberKind};
use crate::parameter::{
    cleaned, signature_params, DefaultExpr, DefaultView, ParameterKind, ParameterView, ParameterWithKind,
    Parameters,
};
use crate::parse::{ParseError, same_error};
use crate::signature::Signature;
use crate::text::{chars_from, str_is};
use crate::type_alias::{parsable, parsable_markers};

verus! {

/// How a default value is shown in a stub: none; the text `None`; the
/// value of a Rust expression (given as its text) formatted as Python at
/// run time; or a Python text as it is.
#[derive(Debug, PartialEq, Eq)]
pub enum DefaultPlan {
    NoDefault,
    NoneText,
    Formatted(String),
    Text(String),
}

pub enum DefaultPlanView {
    NoDefault,
    NoneText,
    Formatted(Seq<char>),
    Text(Seq<char>),
}

impl View for DefaultPlan {
    type V = DefaultPlanView;

    open spec fn view(&self) -> DefaultPlanView {
        match self {
            DefaultPlan::NoDefault => DefaultPlanView::NoDefault,
            DefaultPlan::NoneText => DefaultPlanView::NoneText,
            DefaultPlan::Formatted(s) => DefaultPlanView::Formatted(s@),
            DefaultPlan::Text(s) => DefaultPlanView::Text(s@),
        }
    }
}

/// A Rust default expression: the text `None` stays `None`; any other value
/// is formatted as Python from its value at run time.
pub open spec fn rust_default(text: Seq<char>) -> DefaultPlanView {
    if text == "None"@ {
        DefaultPlanView::NoneText
    } else {
        DefaultPlanView::Formatted(text)
    }
}

fn rust_default_exec(text: &String) -> (r: DefaultPlan)
    ensures
        r@ == rust_default(text@),
{
    if str_is(text.as_str(), "None") {
        proof {
            reveal_strlit("None");
        }
        DefaultPlan::NoneText
    } else {
        DefaultPlan::Formatted(text.clone())
    }
}

/// The Python text of a Rust literal given for a hand-written type: `false`
/// and `true` become `False` and `True`; any other text stays.
pub open spec fn python_literal(text: Seq<char>) -> Seq<char> {
    if text == "false"@ {
        "False"@
    } else if text == "true"@ {
        "True"@
    } else {
        text
    }
}

/// How the default of a parameter is shown: a Rust default of a translated
/// type as [`rust_default`] says; a Rust default of a hand-written type as
/// Python text (see [`python_literal`]); a Python default as it is.
pub open spec fn parameter_default(p: ParameterView) -> DefaultPlanView {
    match p.default {
        None => DefaultPlanView::NoDefault,
        Some(DefaultView::Python(s)) => DefaultPlanView::Text(s),
        Some(DefaultView::Rust(s)) => match p.arg.ty {
            TypeOrOverrideView::RustType(_) => rust_default(s),
            TypeOrOverrideView::OverrideType(..) => DefaultPlanView::Text(python_literal(s)),
        },
    }
}

/// How the default of a parameter is shown (see [`parameter_default`]).
pub fn default_plan_for_param(p: &ParameterWithKind) -> (r: DefaultPlan)
    ensures
        r@ == parameter_default(p@),
{
    match &p.default_expr {
        None => DefaultPlan::NoDefault,
        Some(DefaultExpr::Python(s)) => DefaultPlan::Text(s.clone()),
        Some(DefaultExpr::Rust(s)) => match &p.arg_info.ty {
            TypeOrOverride::RustType { .. } => rust_default_exec(s),
            TypeOrOverride::OverrideType { .. } => {
                proof {
                    reveal_strlit("false");
                    reveal_strlit("true");
                    reveal_strlit("False");
                    reveal_strlit("True");
                }
                if str_is(s.as_str(), "false") {
                    DefaultPlan::Text(String::from_str("False"))
                } else if str_is(s.as_str(), "true") {
                    DefaultPlan::Text(String::from_str("True"))
                } else {
                    DefaultPlan::Text(s.clone())
                }
            },
        },
    }
}

/// How the default of a member is shown: none, or as [`rust_default`]
/// says.
pub open spec fn member_default(d: Option<Seq<char>>) -> DefaultPlanView {
    match d {
        None => DefaultPlanView::NoDefault,
        Some(s) => rust_default(s),
    }
}

/// What the metadata of a member says besides its name and documentation:
/// whether its type is the one Python passes in, how its default is
/// shown, and the Rust types of its `RustType["..."]` markers that parse.
pub struct MemberPlan {
    pub use_type_input: bool,
    pub default: DefaultPlan,
    pub marker_types: Vec<String>,
}

/// The markers of a hand-written type, else none.
pub open spec fn type_markers(t: TypeOrOverrideView) -> Seq<Seq<char>> {
    match t {
        TypeOrOverrideView::OverrideType(_, _, _, m) => m,
        _ => Seq::empty(),
    }
}

impl MemberInfo {
    /// What the member's metadata says (see [`MemberPlan`]): the input type
    /// for a setter only, the default as [`member_default`] says, the
    /// parsable markers of a hand-written type.
    pub fn plan(&self) -> (r: MemberPlan)
        ensures
            r.use_type_input == (self.kind == MemberKind::Setter),
            r.default@ == member_default(crate::attr::opt_view(self.default)),
            r.marker_types@.map_values(|s: String| s@) == parsable(type_markers(self.ty@)),
    {
        let default = match &self.default {
            None => DefaultPlan::NoDefault,
            Some(s) => rust_default_exec(s),
        };
        let marker_types = match &self.ty {
            TypeOrOverride::OverrideType { rust_type_markers, .. } => parsable_markers(rust_type_markers),
            TypeOrOverride::RustType { .. } => {
                let v: Vec<String> = Vec::new();
                assert(v@.map_values(|s: String| s@) =~= parsable(Seq::<Seq<char>>::empty()));
                v
            },
        };
        MemberPlan { use_type_input: self.kind.use_type_input(), default, marker_types }
    }
}

/// One parameter as the metadata of a method or constructor shows it.
#[derive(Debug)]
pub struct ParamPlan {
    pub name: String,
    pub kind: ParameterKind,
    pub ty: TypeOrOverride,
    pub default: DefaultPlan,
}

pub struct ParamPlanView {
    pub name: Seq<char>,
    pub kind: ParameterKind,
    pub ty: TypeOrOverrideView,
    pub default: DefaultPlanView,
}

impl View for ParamPlan {
    type V = ParamPlanView;

    open spec fn view(&self) -> ParamPlanView {
        ParamPlanView { name: self.name@, kind: self.kind, ty: self.ty@, default: self.default@ }
    }
}

/// The plan of a parameter formed from a signature: a default given in the
/// signature is a Rust expression shown as [`rust_default`] says, whatever
/// the type.
pub open spec fn signature_param_plan(p: ParameterView) -> ParamPlanView {
    ParamPlanView {
        name: p.arg.name,
        kind: p.kind,
        ty: p.arg.ty,
        default: match p.default {
            None => DefaultPlanView::NoDefault,
            Some(DefaultView::Rust(s)) => rust_default(s),
            Some(DefaultView::Python(s)) => DefaultPlanView::Text(s),
        },
    }
}

/// The arguments of a method or constructor with its signature, if any.
pub struct ArgsWithSignature<'a> {
    pub args: &'a Vec<ArgInfo>,
    pub sig: &'a Option<Signature>,
}

impl<'a> ArgsWithSignature<'a> {
    /// The parameters that the metadata shows: those the signature forms
    /// (see [`Parameters::new_with_sig`]), else every argument
    /// positional-or-keyword (see [`Parameters::new`]); lifetimes erased
    /// from Rust types; defaults as [`signature_param_plan`] says. An entry
    /// of the signature without argument is an error.
    pub fn parameter_plans(&self) -> (r: Result<Vec<ParamPlan>, ParseError>)
        ensures
            match *self.sig {
                Some(sig) => match (r, signature_params(self.args@, sig@)) {
                    (Ok(a), Ok(b)) => a@.map_values(|x: ParamPlan| x@) == b.map_values(
                        |p: ParameterView| signature_param_plan(p),
                    ),
                    (Err(x), Err(y)) => same_error(x, y),
                    _ => false,
                },
                None => r matches Ok(a) && a@.map_values(|x: ParamPlan| x@) == self.args@.map_values(
                    |x: ArgInfo|
                        signature_param_plan(
                            ParameterView {
                                arg: cleaned(x),
                                kind: ParameterKind::PositionalOrKeyword,
                                default: None,
                            },
                        ),
                ),
            },
    {
        let params = match self.sig {
            Some(sig) => Parameters::new_with_sig(self.args, sig)?,
            None => Parameters::new(self.args),
        };
        let ghost pv = params@;
        let mut out: Vec<ParamPlan> = Vec::new();
        let mut i: usize = 0;
        assert(out@.map_values(|x: ParamPlan| x@) =~= pv.subrange(0, 0).map_values(
            |p: ParameterView| signature_param_plan(p),
        ));
        while i < params.params.len()
            invariant
                i <= params.params.len(),
                pv == params@,
                out@.map_values(|x: ParamPlan| x@) == pv.subrange(0, i as int).map_values(
                    |p: ParameterView| signature_param_plan(p),
                ),
            decreases params.params.len() - i,
        {
            let p = &params.params[i];
            assert(pv[i as int] == p@);
            let default = match &p.default_expr {
                None => DefaultPlan::NoDefault,
                Some(DefaultExpr::Rust(s)) => rust_default_exec(s),
                Some(DefaultExpr::Python(s)) => DefaultPlan::Text(s.clone()),
            };
            let plan = ParamPlan {
                name: p.arg_info.name.clone(),
                kind: p.kind,
                ty: crate::arg::clone_type_or_override(&p.arg_info.ty),
                default,
            };
            let ghost before = out@.map_values(|x: ParamPlan| x@);
            let ghost v = plan@;
            out.push(plan);
            assert(out@.map_values(|x: ParamPlan| x@) =~= before.push(v));
            assert(pv.subrange(0, i + 1).map_values(|p: ParameterView| signature_param_plan(p))
                =~= pv.subrange(0, i as int).map_values(|p: ParameterView| signature_param_plan(p)).push(
                signature_param_plan(pv[i as int]),
            ));
            i = i + 1;
        }
        assert(pv.subrange(0, params.params.len() as int) =~= pv);
        proof {
            if self.sig is None {
                assert(pv =~= self.args@.map_values(
                    |x: ArgInfo|
                        ParameterView {
                            arg: cleaned(x),
                            kind: ParameterKind::PositionalOrKeyword,
                            default: None,
                        },
                ));
                assert(pv.map_values(|p: ParameterView| signature_param_plan(p)) =~= self.args@.map_values(
                    |x: ArgInfo|
                        signature_param_plan(
                            ParameterView {
                                arg: cleaned(x),
                                kind: ParameterKind::PositionalOrKeyword,
                                default: None,
                            },
                        ),
                ));
            }
        }
        Ok(out)
    }
}

} // verus!
