//! Outcomes and errors shared by the parsers of this crate.

use vstd::prelude::*;

verus! {

/// The outcome of running a parser: a value, a reported error, or a stop
/// that the parser does not recover from (the macro panics there).
#[derive(Debug)]
pub enum Parsed<T> {
    Value(T),
    Error(ParseError),
    Panic,
}

/// Why a parser refused its input.
#[derive(Debug, PartialEq, Eq)]
pub enum ParseError {
    /// The Rust syntax did not parse.
    Syntax,
    /// `override_type(...)` outside an argument.
    OverrideTypeOutsideArgument,
    /// `override_return_type(...)` outside a function or method.
    OverrideReturnTypeOutsideFunction,
    /// `skip` outside a field or method.
    SkipOutsideField,
    /// `default = ...` outside a field or function.
    DefaultOutsideFieldOrFunction,
    /// `type_ignore` outside a function or method.
    TypeIgnoreOutsideFunction,
    /// `type_ignore = []` with no rule.
    TypeIgnoreEmpty,
    /// A keyword that `#[gen_stub(...)]` does not know, at an argument.
    UnsupportedInArgument,
    /// A keyword that `#[gen_stub(...)]` does not know, at a field.
    UnsupportedInField,
    /// A keyword that `#[gen_stub(...)]` does not know, at a function.
    UnsupportedInFunction,
    /// `override_type(...)` without `type_repr`.
    MissingTypeRepr,
    /// A `signature` names an argument that the function does not have;
    /// the name.
    UnknownArgument(String),
    /// The text of a Python stub is not valid Python.
    PythonSyntax,
    /// A Python stub holds no function definition.
    NoFunction,
    /// A `python_overload` stub holds no function definition.
    NoOverloadFunction,
    /// A Python stub holds more than one function definition.
    MultipleFunctions,
    /// An overload stub names another function.
    OverloadNameMismatch,
    /// An overload stub lacks the `@overload` decorator.
    OverloadWithoutDecorator,
    /// A Python stub holds no class definition.
    NoClass,
    /// A Python stub holds more than one class definition.
    MultipleClasses,
    /// A class stub holds no method.
    NoMethod,
    /// A class name is not a Rust type.
    BadClassName,
    /// `RustType[...]` without a string literal.
    RustTypeNeedsString,
    /// The name in `RustType["..."]` is not a Rust type; the name.
    BadRustType(String),
    /// A constant default value that a stub cannot show (not bytes).
    UnsupportedDefault,
    /// A bytes literal given as a default value.
    BytesDefault,
    /// A type alias without a `TypeAlias` annotation; the alias's name.
    AliasWithoutAnnotation(String),
    /// A type alias without a value; the alias's name.
    AliasWithoutValue(String),
    /// A Python stub holds no type alias.
    NoTypeAlias,
    /// Both `python` and `python_overload` were given.
    PythonAndOverload,
    /// `no_default_overload` without `python_overload`.
    NoDefaultOverloadAlone,
    /// An unknown parameter of a macro's arguments; the parameter's name.
    UnknownParameter(String),
    /// A getter (or class attribute) that returns no type.
    GetterWithoutType,
    /// A setter without a typed value argument.
    SetterWithoutType,
    /// A variant with unnamed fields where a class needs named ones.
    UnnamedFields,
    /// A type-union variant that is not a 1-tuple.
    NotOneTuple,
    /// A function argument that is neither a receiver nor `name: Type`.
    ExpectedTypedArgument,
}

/// A string whose characters are `s`. Where an error is built from the
/// text of a string, one exists, and it has those characters (see
/// [`lemma_string_with`]).
pub open spec fn string_with(s: Seq<char>) -> String {
    choose|x: String| x@ == s
}

/// The string that [`string_with`] picks for the characters of `x` has
/// those characters.
pub proof fn lemma_string_with(x: String)
    ensures
        string_with(x@)@ == x@,
{
}

/// Whether `e` and `f` are the same error: the same variant, holding the
/// same text where the variant holds one.
pub open spec fn same_error(e: ParseError, f: ParseError) -> bool {
    match (e, f) {
        (ParseError::UnknownArgument(a), ParseError::UnknownArgument(b)) => a@ == b@,
        (ParseError::BadRustType(a), ParseError::BadRustType(b)) => a@ == b@,
        (ParseError::AliasWithoutAnnotation(a), ParseError::AliasWithoutAnnotation(b)) => a@ == b@,
        (ParseError::AliasWithoutValue(a), ParseError::AliasWithoutValue(b)) => a@ == b@,
        (ParseError::UnknownParameter(a), ParseError::UnknownParameter(b)) => a@ == b@,
        _ => e == f,
    }
}

/// Whether an executable result is the mathematical result `s`: the same
/// value, or the same error (see [`same_error`]).
pub open spec fn same_result<T>(r: Result<T, ParseError>, s: Result<T, ParseError>) -> bool {
    match (r, s) {
        (Ok(a), Ok(b)) => a == b,
        (Err(e), Err(f)) => same_error(e, f),
        _ => false,
    }
}

/// Prepends already-read items to the outcome of reading the rest.
pub open spec fn prepend<T>(acc: Seq<T>, rest: Parsed<Seq<T>>) -> Parsed<Seq<T>> {
    match rest {
        Parsed::Value(r) => Parsed::Value(acc + r),
        Parsed::Error(e) => Parsed::Error(e),
        Parsed::Panic => Parsed::Panic,
    }
}

/// Runs a first step and, when it gives items, the rest after it.
pub open spec fn then_rest<T>(first: Parsed<Seq<T>>, rest: Parsed<Seq<T>>) -> Parsed<Seq<T>> {
    match first {
        Parsed::Value(a) => prepend(a, rest),
        Parsed::Error(e) => Parsed::Error(e),
        Parsed::Panic => Parsed::Panic,
    }
}

} // verus!

verus! {

/// Whether an executable outcome holding a vector is the mathematical
/// outcome `s`.
pub open spec fn same_outcome<A: View>(r: Parsed<Vec<A>>, s: Parsed<Seq<A::V>>) -> bool {
    match (r, s) {
        (Parsed::Value(v), Parsed::Value(t)) => v@.map_values(|a: A| a@) == t,
        (Parsed::Error(e), Parsed::Error(f)) => same_error(e, f),
        (Parsed::Panic, Parsed::Panic) => true,
        _ => false,
    }
}

} // verus!

verus! {

/// Two results in turn: the first error, or both lists one after the other.
pub open spec fn cat<T>(a: Result<Seq<T>, ParseError>, b: Result<Seq<T>, ParseError>) -> Result<
    Seq<T>,
    ParseError,
> {
    match a {
        Err(e) => Err(e),
        Ok(x) => match b {
            Err(e) => Err(e),
            Ok(y) => Ok(x + y),
        },
    }
}

} // verus!
