//! The inputs of `gen_function_from_python!` and
//! `gen_type_alias_from_python!`, read from their tokens.

use vstd::prelude::*;
use crate::attr::opt_view;
use crate::parse::{ParseError, same_error};
use crate::pyfunction::{str_lit_at, eq_at};
use crate::rust_syntax::{ident_accepted, literal_string_value, rust_ident_accepted};
use crate::text::str_is;
use crate::tokens::{is_punct, token_is_punct, TokenTree};

verus! {

/// The input of `gen_function_from_python!`: an optional module and the
/// Python stub, as the value of its string literal.
#[derive(Debug, PartialEq, Eq)]
pub struct GenFunctionFromPythonInput {
    pub module: Option<String>,
    pub python_stub: String,
}

/// The input of `gen_type_alias_from_python!`: the module and the Python
/// stub, as the values of their string literals.
#[derive(Debug, PartialEq, Eq)]
pub struct GenTypeAliasFromPythonInput {
    pub module: String,
    pub python_stub: String,
}

/// Whether the token at index `i` is a comma.
pub open spec fn comma_at(v: Vec<TokenTree>, i: int) -> bool {
    0 <= i < v.len() && is_punct(v[i], ',')
}

/// The input of `gen_function_from_python!` read from its tokens: either
/// one string literal, or `module = "..." , "..."`. Another leading
/// identifier is an unknown parameter; anything else out of place, or
/// left over, is a syntax error.
pub open spec fn function_input_spec(v: Vec<TokenTree>) -> Result<
    (Option<Seq<char>>, Seq<char>),
    ParseError,
> {
    if v.len() > 0 && v[0] is Ident && rust_ident_accepted(v[0]->Ident_0@) {
        if v[0]->Ident_0@ != "module"@ {
            Err(ParseError::UnknownParameter(v[0]->Ident_0))
        } else if !eq_at(v, 1) || str_lit_at(v, 2) is None || !comma_at(v, 3) || str_lit_at(
            v,
            4,
        ) is None || v.len() != 5 {
            Err(ParseError::Syntax)
        } else {
            Ok((str_lit_at(v, 2), str_lit_at(v, 4)->0))
        }
    } else if str_lit_at(v, 0) is None || v.len() != 1 {
        Err(ParseError::Syntax)
    } else {
        Ok((None, str_lit_at(v, 0)->0))
    }
}

/// The input of `gen_type_alias_from_python!` read from its tokens:
/// `"module" , "stub"` and nothing more.
pub open spec fn alias_input_spec(v: Vec<TokenTree>) -> Result<(Seq<char>, Seq<char>), ParseError> {
    if str_lit_at(v, 0) is None || !comma_at(v, 1) || str_lit_at(v, 2) is None || v.len() != 3 {
        Err(ParseError::Syntax)
    } else {
        Ok((str_lit_at(v, 0)->0, str_lit_at(v, 2)->0))
    }
}

fn str_lit(v: &Vec<TokenTree>, i: usize) -> (r: Option<String>)
    ensures
        opt_view(r) == str_lit_at(*v, i as int),
{
    if i < v.len() {
        match &v[i] {
            TokenTree::Literal(l) => literal_string_value(l.as_str()),
            _ => None,
        }
    } else {
        None
    }
}

fn comma(v: &Vec<TokenTree>, i: usize) -> (r: bool)
    ensures
        r == comma_at(*v, i as int),
{
    i < v.len() && token_is_punct(&v[i], ',')
}

impl GenFunctionFromPythonInput {
    /// Reads the input of `gen_function_from_python!` (see
    /// [`function_input_spec`]).
    pub fn parse(v: &Vec<TokenTree>) -> (r: Result<Self, ParseError>)
        ensures
            match (r, function_input_spec(*v)) {
                (Ok(a), Ok((m, s))) => opt_view(a.module) == m && a.python_stub@ == s,
                (Err(x), Err(y)) => same_error(x, y),
                _ => false,
            },
    {
        let key = if v.len() > 0 {
            match &v[0] {
                TokenTree::Ident(k) => if ident_accepted(k.as_str()) {
                    Some(k)
                } else {
                    None
                },
                _ => None,
            }
        } else {
            None
        };
        match key {
            Some(k) => {
                proof {
                    reveal_strlit("module");
                }
                if !str_is(k.as_str(), "module") {
                    return Err(ParseError::UnknownParameter(k.clone()));
                }
                if !(v.len() > 1 && token_is_punct(&v[1], '=')) {
                    return Err(ParseError::Syntax);
                }
                let module = match str_lit(v, 2) {
                    Some(m) => m,
                    None => {
                        return Err(ParseError::Syntax);
                    },
                };
                if !comma(v, 3) {
                    return Err(ParseError::Syntax);
                }
                let stub = match str_lit(v, 4) {
                    Some(s) => s,
                    None => {
                        return Err(ParseError::Syntax);
                    },
                };
                if v.len() != 5 {
                    return Err(ParseError::Syntax);
                }
                Ok(GenFunctionFromPythonInput { module: Some(module), python_stub: stub })
            },
            None => {
                let stub = match str_lit(v, 0) {
                    Some(s) => s,
                    None => {
                        return Err(ParseError::Syntax);
                    },
                };
                if v.len() != 1 {
                    return Err(ParseError::Syntax);
                }
                Ok(GenFunctionFromPythonInput { module: None, python_stub: stub })
            },
        }
    }
}

impl GenTypeAliasFromPythonInput {
    /// Reads the input of `gen_type_alias_from_python!` (see
    /// [`alias_input_spec`]).
    pub fn parse(v: &Vec<TokenTree>) -> (r: Result<Self, ParseError>)
        ensures
            match (r, alias_input_spec(*v)) {
                (Ok(a), Ok((m, s))) => a.module@ == m && a.python_stub@ == s,
                (Err(x), Err(y)) => same_error(x, y),
                _ => false,
            },
    {
        let module = match str_lit(v, 0) {
            Some(m) => m,
            None => {
                return Err(ParseError::Syntax);
            },
        };
        if !comma(v, 1) {
            return Err(ParseError::Syntax);
        }
        let stub = match str_lit(v, 2) {
            Some(s) => s,
            None => {
                return Err(ParseError::Syntax);
            },
        };
        if v.len() != 3 {
            return Err(ParseError::Syntax);
        }
        Ok(GenTypeAliasFromPythonInput { module, python_stub: stub })
    }
}

} // verus!
