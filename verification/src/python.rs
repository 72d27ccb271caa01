//! A plain model of Python stub syntax, and the Python text that stubs
//! show for types and default values.

use vstd::prelude::*;
use crate::parse::{ParseError, same_error};
use crate::text::{chars_from, join, join_chars, push_chars, push_str, str_is};

verus! {

/// A Python constant; an integer or a float is kept as the text Python
/// code shows for it, another constant as its debug text.
#[derive(Debug, PartialEq, Eq)]
pub enum PyConstant {
    NoneValue,
    Bool(bool),
    Str(String),
    Bytes,
    Int(String),
    Float(String),
    Ellipsis,
    Other(String),
}

/// A unary operator: negation, or any other.
#[derive(Debug, Clone, Copy, PartialEq, Eq, Structural)]
pub enum PyUnaryOp {
    USub,
    Other,
}

/// A Python expression, as far as stubs read them.
#[derive(Debug, PartialEq, Eq)]
pub enum PyExpr {
    Name(String),
    Attribute(Box<PyExpr>, String),
    Subscript(Box<PyExpr>, Box<PyExpr>),
    List(Vec<PyExpr>),
    Tuple(Vec<PyExpr>),
    Dict(Vec<PyDictItem>),
    Constant(PyConstant),
    UnaryOp(PyUnaryOp, Box<PyExpr>),
    Call(Box<PyExpr>, Vec<PyExpr>),
    Other,
}

/// One `key: value` entry of a dict display; `None` for `**mapping`.
#[derive(Debug, PartialEq, Eq)]
pub struct PyDictItem {
    pub key: Option<PyExpr>,
    pub value: PyExpr,
}

/// The name inside `pyo3_stub_gen.RustType["..."]`, when the expression is
/// that marker; an error when the marker holds anything but a string.
pub open spec fn rust_type_marker(e: PyExpr) -> Result<Option<Seq<char>>, ParseError> {
    match e {
        PyExpr::Subscript(v, s) => match *v {
            PyExpr::Attribute(v2, attr) => if attr@ == "RustType"@ && (match *v2 {
                PyExpr::Name(n) => n@ == "pyo3_stub_gen"@,
                _ => false,
            }) {
                match *s {
                    PyExpr::Constant(PyConstant::Str(x)) => Ok(Some(x@)),
                    _ => Err(ParseError::RustTypeNeedsString),
                }
            } else {
                Ok(None)
            },
            _ => Ok(None),
        },
        _ => Ok(None),
    }
}

/// Exec form of [`rust_type_marker`].
pub fn extract_rust_type_marker(e: &PyExpr) -> (r: Result<Option<String>, ParseError>)
    ensures
        match (r, rust_type_marker(*e)) {
            (Ok(a), Ok(b)) => crate::attr::opt_view(a) == b,
            (Err(x), Err(y)) => same_error(x, y),
            _ => false,
        },
{
    match e {
        PyExpr::Subscript(v, s) => match &**v {
            PyExpr::Attribute(v2, attr) => {
                let module_ok = match &**v2 {
                    PyExpr::Name(n) => str_is(n.as_str(), "pyo3_stub_gen"),
                    _ => false,
                };
                if str_is(attr.as_str(), "RustType") && module_ok {
                    match &**s {
                        PyExpr::Constant(PyConstant::Str(x)) => Ok(Some(x.clone())),
                        _ => Err(ParseError::RustTypeNeedsString),
                    }
                } else {
                    Ok(None)
                }
            },
            _ => Ok(None),
        },
        _ => Ok(None),
    }
}

/// The text of a Python type expression, as a stub writes it; `sub` tells
/// whether the expression is the slice of a subscript, where a tuple is
/// written without parentheses. A `RustType["T"]` marker stands for `T`.
/// Constants are written as Python writes them (`True`, `None`, `...`,
/// quoted strings); any other expression stands for `Any`.
pub open spec fn type_text(e: PyExpr, sub: bool) -> Result<Seq<char>, ParseError>
    decreases e, 0nat,
{
    match rust_type_marker(e) {
        Err(x) => Err(x),
        Ok(Some(n)) => Ok(n),
        Ok(None) => match e {
            PyExpr::Name(id) => Ok(id@),
            PyExpr::Attribute(v, a) => match type_text(*v, false) {
                Ok(b) => Ok(b + seq!['.'] + a@),
                Err(x) => Err(x),
            },
            PyExpr::Subscript(v, s) => match type_text(*v, false) {
                Err(x) => Err(x),
                Ok(b) => match type_text(*s, true) {
                    Ok(t) => Ok(b + seq!['['] + t + seq![']']),
                    Err(x) => Err(x),
                },
            },
            PyExpr::List(v) => match type_texts(v, v.len() as nat, false) {
                Ok(p) => Ok(seq!['['] + join(p, ", "@) + seq![']']),
                Err(x) => Err(x),
            },
            PyExpr::Tuple(v) => match type_texts(v, v.len() as nat, sub) {
                Ok(p) => Ok(
                    if sub {
                        join(p, ", "@)
                    } else {
                        seq!['('] + join(p, ", "@) + seq![')']
                    },
                ),
                Err(x) => Err(x),
            },
            PyExpr::Constant(c) => Ok(
                match c {
                    PyConstant::Int(i) => i@,
                    PyConstant::Str(s) => seq!['"'] + s@ + seq!['"'],
                    PyConstant::Bool(b) => if b {
                        "True"@
                    } else {
                        "False"@
                    },
                    PyConstant::NoneValue => "None"@,
                    PyConstant::Ellipsis => "..."@,
                    _ => "Any"@,
                },
            ),
            _ => Ok("Any"@),
        },
    }
}

/// The texts of the first `n` expressions of `v`, in order; the first error
/// ends the list.
pub open spec fn type_texts(v: Vec<PyExpr>, n: nat, sub: bool) -> Result<Seq<Seq<char>>, ParseError>
    decreases v, n,
{
    if n == 0 || n > v.len() {
        Ok(Seq::empty())
    } else {
        match type_texts(v, (n - 1) as nat, sub) {
            Err(x) => Err(x),
            Ok(prev) => match type_text(v[n - 1], sub) {
                Ok(t) => Ok(prev.push(t)),
                Err(x) => Err(x),
            },
        }
    }
}

/// The text of an integer constant, empty for any other expression.
pub open spec fn int_text(e: PyExpr) -> Seq<char> {
    match e {
        PyExpr::Constant(PyConstant::Int(i)) => i@,
        _ => Seq::empty(),
    }
}

proof fn lemma_int_texts(cs: Vec<PyExpr>, n: nat, sub: bool)
    requires
        n <= cs.len(),
        forall|k: int| 0 <= k < cs.len() ==> #[trigger] cs[k] matches PyExpr::Constant(PyConstant::Int(_)),
    ensures
        type_texts(cs, n, sub) == Ok::<Seq<Seq<char>>, ParseError>(
            cs@.subrange(0, n as int).map_values(|c: PyExpr| int_text(c)),
        ),
    decreases n,
{
    if n > 0 {
        lemma_int_texts(cs, (n - 1) as nat, sub);
        let c = cs[n - 1];
        assert(c matches PyExpr::Constant(PyConstant::Int(_)));
        assert(type_text(c, sub) == Ok::<Seq<char>, ParseError>(int_text(c)));
        assert(cs@[n - 1] == c);
        assert(cs@.subrange(0, n as int).map_values(|c: PyExpr| int_text(c)) =~= cs@.subrange(
            0,
            n - 1,
        ).map_values(|c: PyExpr| int_text(c)).push(int_text(cs[n - 1])));
    } else {
        assert(cs@.subrange(0, 0).map_values(|c: PyExpr| int_text(c)) =~= Seq::<Seq<char>>::empty());
    }
}

/// An integer constant in a type is written as its own text, never as
/// `Any`: alone, as the slice of a subscript (`Literal[1]`), and as the
/// entries of a tuple slice (`Literal[1, 2]`).
pub proof fn law_integer_constants_keep_their_text(n: String, i: String, cs: Vec<PyExpr>, sub: bool)
    requires
        forall|k: int| 0 <= k < cs.len() ==> #[trigger] cs[k] matches PyExpr::Constant(PyConstant::Int(_)),
    ensures
        type_text(PyExpr::Constant(PyConstant::Int(i)), sub) == Ok::<Seq<char>, ParseError>(i@),
        type_text(
            PyExpr::Subscript(
                Box::new(PyExpr::Name(n)),
                Box::new(PyExpr::Constant(PyConstant::Int(i))),
            ),
            sub,
        ) == Ok::<Seq<char>, ParseError>(n@ + seq!['['] + i@ + seq![']']),
        type_text(PyExpr::Subscript(Box::new(PyExpr::Name(n)), Box::new(PyExpr::Tuple(cs))), sub)
            == Ok::<Seq<char>, ParseError>(
            n@ + seq!['['] + join(cs@.map_values(|c: PyExpr| int_text(c)), ", "@) + seq![']'],
        ),
{
    lemma_int_texts(cs, cs.len() as nat, true);
    assert(cs@.subrange(0, cs.len() as int) =~= cs@);
    let name = PyExpr::Name(n);
    let c = PyExpr::Constant(PyConstant::Int(i));
    assert(type_text(name, false) == Ok::<Seq<char>, ParseError>(n@));
    assert(type_text(c, true) == Ok::<Seq<char>, ParseError>(i@));
    assert(type_text(c, sub) == Ok::<Seq<char>, ParseError>(i@));
    let t = PyExpr::Tuple(cs);
    assert(type_text(t, true) == Ok::<Seq<char>, ParseError>(
        join(cs@.map_values(|c: PyExpr| int_text(c)), ", "@),
    ));
    assert(rust_type_marker(PyExpr::Subscript(Box::new(name), Box::new(c))) is Ok);
    assert(rust_type_marker(PyExpr::Subscript(Box::new(name), Box::new(t))) is Ok);
}

fn type_text_exec(e: &PyExpr, sub: bool) -> (r: Result<Vec<char>, ParseError>)
    ensures
        match (r, type_text(*e, sub)) {
            (Ok(a), Ok(b)) => a@ == b,
            (Err(x), Err(y)) => same_error(x, y),
            _ => false,
        },
    decreases e, 0nat,
{
    match extract_rust_type_marker(e) {
        Err(x) => {
            return Err(x);
        },
        Ok(Some(n)) => {
            return Ok(chars_from(n.as_str()));
        },
        Ok(None) => {},
    }
    match e {
        PyExpr::Name(id) => Ok(chars_from(id.as_str())),
        PyExpr::Attribute(v, a) => {
            let mut b = type_text_exec(v, false)?;
            b.push('.');
            push_str(&mut b, a.as_str());
            Ok(b)
        },
        PyExpr::Subscript(v, s) => {
            let mut b = type_text_exec(v, false)?;
            let t = type_text_exec(s, true)?;
            b.push('[');
            push_chars(&mut b, &t);
            b.push(']');
            Ok(b)
        },
        PyExpr::List(v) => {
            let parts = type_texts_exec(v, false)?;
            let mut out: Vec<char> = Vec::new();
            out.push('[');
            let j = join_chars(&parts, ", ");
            push_chars(&mut out, &j);
            out.push(']');
            Ok(out)
        },
        PyExpr::Tuple(v) => {
            let parts = type_texts_exec(v, sub)?;
            let j = join_chars(&parts, ", ");
            if sub {
                Ok(j)
            } else {
                let mut out: Vec<char> = Vec::new();
                out.push('(');
                push_chars(&mut out, &j);
                out.push(')');
                Ok(out)
            }
        },
        PyExpr::Constant(c) => Ok(
            match c {
                PyConstant::Int(i) => chars_from(i.as_str()),
                PyConstant::Str(s) => {
                    let mut out: Vec<char> = Vec::new();
                    out.push('"');
                    push_str(&mut out, s.as_str());
                    out.push('"');
                    out
                },
                PyConstant::Bool(b) => if *b {
                    chars_from("True")
                } else {
                    chars_from("False")
                },
                PyConstant::NoneValue => chars_from("None"),
                PyConstant::Ellipsis => chars_from("..."),
                _ => chars_from("Any"),
            },
        ),
        _ => Ok(chars_from("Any")),
    }
}

pub proof fn lemma_type_texts_error_stays(v: Vec<PyExpr>, i: nat, n: nat, sub: bool)
    requires
        i <= n <= v.len(),
        type_texts(v, i, sub) is Err,
    ensures
        type_texts(v, n, sub) == type_texts(v, i, sub),
    decreases n - i,
{
    if n > i {
        lemma_type_texts_error_stays(v, i, (n - 1) as nat, sub);
    }
}

fn type_texts_exec(v: &Vec<PyExpr>, sub: bool) -> (r: Result<Vec<Vec<char>>, ParseError>)
    ensures
        match (r, type_texts(*v, v.len() as nat, sub)) {
            (Ok(a), Ok(b)) => a@.map_values(|p: Vec<char>| p@) == b,
            (Err(x), Err(y)) => same_error(x, y),
            _ => false,
        },
    decreases v, 0nat,
{
    let mut out: Vec<Vec<char>> = Vec::new();
    let mut i: usize = 0;
    assert(out@.map_values(|p: Vec<char>| p@) =~= Seq::<Seq<char>>::empty());
    while i < v.len()
        invariant
            i <= v.len(),
            type_texts(*v, i as nat, sub) == Ok::<Seq<Seq<char>>, ParseError>(
                out@.map_values(|p: Vec<char>| p@),
            ),
        decreases v.len() - i,
    {
        let t = match type_text_exec(&v[i], sub) {
            Ok(t) => t,
            Err(x) => {
                proof {
                    lemma_type_texts_error_stays(*v, (i + 1) as nat, v.len() as nat, sub);
                }
                return Err(x);
            },
        };
        let ghost before = out@.map_values(|p: Vec<char>| p@);
        let ghost tv = t@;
        out.push(t);
        assert(out@.map_values(|p: Vec<char>| p@) =~= before.push(tv));
        i = i + 1;
    }
    Ok(out)
}

/// The text of a Python type expression (see [`type_text`]).
pub fn expr_to_type_string(e: &PyExpr) -> (r: Result<String, ParseError>)
    ensures
        match (r, type_text(*e, false)) {
            (Ok(a), Ok(b)) => a@ == b,
            (Err(x), Err(y)) => same_error(x, y),
            _ => false,
        },
{
    let v = type_text_exec(e, false)?;
    Ok(crate::text::string_of(&v))
}

} // verus!

verus! {

/// The lowercase hexadecimal digit for `d < 16`.
pub open spec fn hex_digit(d: nat) -> char {
    if d == 0 {
        '0'
    } else if d == 1 {
        '1'
    } else if d == 2 {
        '2'
    } else if d == 3 {
        '3'
    } else if d == 4 {
        '4'
    } else if d == 5 {
        '5'
    } else if d == 6 {
        '6'
    } else if d == 7 {
        '7'
    } else if d == 8 {
        '8'
    } else if d == 9 {
        '9'
    } else if d == 10 {
        'a'
    } else if d == 11 {
        'b'
    } else if d == 12 {
        'c'
    } else if d == 13 {
        'd'
    } else if d == 14 {
        'e'
    } else {
        'f'
    }
}

/// The lowercase hexadecimal digits of `n`, without leading zeros.
pub open spec fn hex_text(n: nat) -> Seq<char>
    decreases n,
{
    if n < 16 {
        seq![hex_digit(n)]
    } else {
        hex_text(n / 16).push(hex_digit(n % 16))
    }
}

/// How `char::escape_default` writes a character: `\t`, `\r`, `\n`, `\\`,
/// `\'` and `\"` for those six, printable ASCII as itself, anything else as
/// `\u{...}` with lowercase hexadecimal digits.
pub open spec fn escape_char(c: char) -> Seq<char> {
    if c == '\t' {
        seq!['\\', 't']
    } else if c == '\r' {
        seq!['\\', 'r']
    } else if c == '\n' {
        seq!['\\', 'n']
    } else if c == '\\' {
        seq!['\\', '\\']
    } else if c == '\'' {
        seq!['\\', '\'']
    } else if c == '"' {
        seq!['\\', '"']
    } else if 0x20 <= (c as u32) <= 0x7e {
        seq![c]
    } else {
        seq!['\\', 'u', '{'] + hex_text(c as u32 as nat) + seq!['}']
    }
}

/// How `str::escape_default` writes a string: each character escaped.
pub open spec fn escaped(s: Seq<char>) -> Seq<char>
    decreases s.len(),
{
    if s.len() == 0 {
        Seq::empty()
    } else {
        escaped(s.drop_last()) + escape_char(s.last())
    }
}

fn hex_digit_exec(d: u32) -> (c: char)
    requires
        d < 16,
    ensures
        c == hex_digit(d as nat),
{
    if d == 0 {
        '0'
    } else if d == 1 {
        '1'
    } else if d == 2 {
        '2'
    } else if d == 3 {
        '3'
    } else if d == 4 {
        '4'
    } else if d == 5 {
        '5'
    } else if d == 6 {
        '6'
    } else if d == 7 {
        '7'
    } else if d == 8 {
        '8'
    } else if d == 9 {
        '9'
    } else if d == 10 {
        'a'
    } else if d == 11 {
        'b'
    } else if d == 12 {
        'c'
    } else if d == 13 {
        'd'
    } else if d == 14 {
        'e'
    } else {
        'f'
    }
}

fn hex_chars(n: u32) -> (r: Vec<char>)
    ensures
        r@ == hex_text(n as nat),
    decreases n,
{
    if n < 16 {
        let mut v: Vec<char> = Vec::new();
        v.push(hex_digit_exec(n));
        v
    } else {
        let mut v = hex_chars(n / 16);
        v.push(hex_digit_exec(n % 16));
        v
    }
}

fn push_escaped_char(out: &mut Vec<char>, c: char)
    ensures
        final(out)@ == old(out)@ + escape_char(c),
{
    let ghost before = out@;
    if c == '\t' {
        out.push('\\');
        out.push('t');
    } else if c == '\r' {
        out.push('\\');
        out.push('r');
    } else if c == '\n' {
        out.push('\\');
        out.push('n');
    } else if c == '\\' {
        out.push('\\');
        out.push('\\');
    } else if c == '\'' {
        out.push('\\');
        out.push('\'');
    } else if c == '"' {
        out.push('\\');
        out.push('"');
    } else if 0x20 <= (c as u32) && (c as u32) <= 0x7e {
        out.push(c);
    } else {
        out.push('\\');
        out.push('u');
        out.push('{');
        let h = hex_chars(c as u32);
        push_chars(out, &h);
        out.push('}');
    }
    assert(out@ =~= before + escape_char(c));
}

/// `str::escape_default`, as [`escaped`] says.
pub fn escape_default(s: &str) -> (r: Vec<char>)
    ensures
        r@ == escaped(s@),
{
    let cs = chars_from(s);
    let mut out: Vec<char> = Vec::new();
    let mut i: usize = 0;
    while i < cs.len()
        invariant
            i <= cs.len(),
            cs@ == s@,
            out@ == escaped(cs@.subrange(0, i as int)),
        decreases cs.len() - i,
    {
        push_escaped_char(&mut out, cs[i]);
        assert(cs@.subrange(0, i + 1).drop_last() =~= cs@.subrange(0, i as int));
        i = i + 1;
    }
    assert(cs@.subrange(0, cs.len() as int) =~= cs@);
    out
}

/// A Python string literal for `s`: in double quotes when `s` holds a
/// single quote and no double quote, else in single quotes; escaped.
pub open spec fn quoted(s: Seq<char>) -> Seq<char> {
    if s.contains('\'') && !s.contains('"') {
        seq!['"'] + escaped(s) + seq!['"']
    } else {
        seq!['\''] + escaped(s) + seq!['\'']
    }
}

/// The Python text of a default value: constants, lists, tuples, dicts,
/// names, dotted names and negated numbers are written out; any other
/// expression is `...`; bytes and other constants are refused.
pub open spec fn value_text(e: PyExpr) -> Result<Seq<char>, ParseError>
    decreases e, 0nat,
{
    match e {
        PyExpr::Constant(c) => match c {
            PyConstant::NoneValue => Ok("None"@),
            PyConstant::Bool(b) => Ok(
                if b {
                    "True"@
                } else {
                    "False"@
                },
            ),
            PyConstant::Int(i) => Ok(i@),
            PyConstant::Float(f) => Ok(f@),
            PyConstant::Str(s) => Ok(quoted(s@)),
            PyConstant::Bytes => Err(ParseError::BytesDefault),
            PyConstant::Ellipsis => Ok("..."@),
            PyConstant::Other(_) => Err(ParseError::UnsupportedDefault),
        },
        PyExpr::List(v) => match value_texts(v, v.len() as nat) {
            Ok(p) => Ok(seq!['['] + join(p, ", "@) + seq![']']),
            Err(x) => Err(x),
        },
        PyExpr::Tuple(v) => match value_texts(v, v.len() as nat) {
            Ok(p) => Ok(
                if p.len() == 1 {
                    seq!['('] + p[0] + seq![',', ')']
                } else {
                    seq!['('] + join(p, ", "@) + seq![')']
                },
            ),
            Err(x) => Err(x),
        },
        PyExpr::Dict(items) => match dict_texts(items, items.len() as nat) {
            DictTexts::Entries(p) => Ok(seq!['{'] + join(p, ", "@) + seq!['}']),
            DictTexts::Unpacked => Ok("..."@),
            DictTexts::Failed(x) => Err(x),
        },
        PyExpr::Name(id) => Ok(id@),
        PyExpr::Attribute(_, _) => type_text(e, false),
        PyExpr::UnaryOp(op, operand) => Ok(
            if op == PyUnaryOp::USub {
                match *operand {
                    PyExpr::Constant(PyConstant::Int(i)) => seq!['-'] + i@,
                    PyExpr::Constant(PyConstant::Float(f)) => seq!['-'] + f@,
                    _ => "..."@,
                }
            } else {
                "..."@
            },
        ),
        _ => Ok("..."@),
    }
}

/// The texts of the first `n` expressions of `v`, in order.
pub open spec fn value_texts(v: Vec<PyExpr>, n: nat) -> Result<Seq<Seq<char>>, ParseError>
    decreases v, n,
{
    if n == 0 || n > v.len() {
        Ok(Seq::empty())
    } else {
        match value_texts(v, (n - 1) as nat) {
            Err(x) => Err(x),
            Ok(prev) => match value_text(v[n - 1]) {
                Ok(t) => Ok(prev.push(t)),
                Err(x) => Err(x),
            },
        }
    }
}

/// The entries of a dict display read so far: `key: value` texts, a stop
/// at `**mapping` (the whole dict is then `...`), or an error.
pub enum DictTexts {
    Entries(Seq<Seq<char>>),
    Unpacked,
    Failed(ParseError),
}

/// The first `n` entries of a dict display.
pub open spec fn dict_texts(items: Vec<PyDictItem>, n: nat) -> DictTexts
    decreases items, n,
{
    if n == 0 || n > items.len() {
        DictTexts::Entries(Seq::empty())
    } else {
        match dict_texts(items, (n - 1) as nat) {
            DictTexts::Entries(prev) => match items[n - 1].key {
                None => DictTexts::Unpacked,
                Some(k) => match value_text(k) {
                    Err(x) => DictTexts::Failed(x),
                    Ok(ks) => match value_text(items[n - 1].value) {
                        Err(x) => DictTexts::Failed(x),
                        Ok(vs) => DictTexts::Entries(prev.push(ks + seq![':', ' '] + vs)),
                    },
                },
            },
            other => other,
        }
    }
}

pub proof fn lemma_value_texts_error_stays(v: Vec<PyExpr>, i: nat, n: nat)
    requires
        i <= n <= v.len(),
        value_texts(v, i) is Err,
    ensures
        value_texts(v, n) == value_texts(v, i),
    decreases n - i,
{
    if n > i {
        lemma_value_texts_error_stays(v, i, (n - 1) as nat);
    }
}

pub proof fn lemma_dict_texts_stop_stays(items: Vec<PyDictItem>, i: nat, n: nat)
    requires
        i <= n <= items.len(),
        !(dict_texts(items, i) is Entries),
    ensures
        dict_texts(items, n) == dict_texts(items, i),
    decreases n - i,
{
    if n > i {
        lemma_dict_texts_stop_stays(items, i, (n - 1) as nat);
    }
}

fn contains_char(v: &Vec<char>, c: char) -> (r: bool)
    ensures
        r == v@.contains(c),
{
    let mut i: usize = 0;
    while i < v.len()
        invariant
            i <= v.len(),
            forall|k: int| 0 <= k < i ==> v@[k] != c,
        decreases v.len() - i,
    {
        if v[i] == c {
            assert(v@[i as int] == c);
            return true;
        }
        i = i + 1;
    }
    false
}

fn value_text_exec(e: &PyExpr) -> (r: Result<Vec<char>, ParseError>)
    ensures
        match (r, value_text(*e)) {
            (Ok(a), Ok(b)) => a@ == b,
            (Err(x), Err(y)) => same_error(x, y),
            _ => false,
        },
    decreases e, 0nat,
{
    match e {
        PyExpr::Constant(c) => match c {
            PyConstant::NoneValue => Ok(chars_from("None")),
            PyConstant::Bool(b) => Ok(
                if *b {
                    chars_from("True")
                } else {
                    chars_from("False")
                },
            ),
            PyConstant::Int(i) => Ok(chars_from(i.as_str())),
            PyConstant::Float(f) => Ok(chars_from(f.as_str())),
            PyConstant::Str(s) => {
                let cs = chars_from(s.as_str());
                let q = if contains_char(&cs, '\'') && !contains_char(&cs, '"') {
                    '"'
                } else {
                    '\''
                };
                let mut out: Vec<char> = Vec::new();
                out.push(q);
                let esc = escape_default(s.as_str());
                push_chars(&mut out, &esc);
                out.push(q);
                Ok(out)
            },
            PyConstant::Bytes => Err(ParseError::BytesDefault),
            PyConstant::Ellipsis => Ok(chars_from("...")),
            PyConstant::Other(_) => Err(ParseError::UnsupportedDefault),
        },
        PyExpr::List(v) => {
            let parts = value_texts_exec(v)?;
            let mut out: Vec<char> = Vec::new();
            out.push('[');
            let j = join_chars(&parts, ", ");
            push_chars(&mut out, &j);
            out.push(']');
            Ok(out)
        },
        PyExpr::Tuple(v) => {
            let parts = value_texts_exec(v)?;
            let mut out: Vec<char> = Vec::new();
            out.push('(');
            if parts.len() == 1 {
                push_chars(&mut out, &parts[0]);
                out.push(',');
            } else {
                let j = join_chars(&parts, ", ");
                push_chars(&mut out, &j);
            }
            out.push(')');
            Ok(out)
        },
        PyExpr::Dict(items) => dict_text_exec(items),
        PyExpr::Name(id) => Ok(chars_from(id.as_str())),
        PyExpr::Attribute(_, _) => type_text_exec(e, false),
        PyExpr::UnaryOp(op, operand) => {
            if *op == PyUnaryOp::USub {
                match &**operand {
                    PyExpr::Constant(PyConstant::Int(i)) => {
                        let mut out: Vec<char> = Vec::new();
                        out.push('-');
                        push_str(&mut out, i.as_str());
                        Ok(out)
                    },
                    PyExpr::Constant(PyConstant::Float(f)) => {
                        let mut out: Vec<char> = Vec::new();
                        out.push('-');
                        push_str(&mut out, f.as_str());
                        Ok(out)
                    },
                    _ => Ok(chars_from("...")),
                }
            } else {
                Ok(chars_from("..."))
            }
        },
        _ => Ok(chars_from("...")),
    }
}

fn value_texts_exec(v: &Vec<PyExpr>) -> (r: Result<Vec<Vec<char>>, ParseError>)
    ensures
        match (r, value_texts(*v, v.len() as nat)) {
            (Ok(a), Ok(b)) => a@.map_values(|p: Vec<char>| p@) == b,
            (Err(x), Err(y)) => same_error(x, y),
            _ => false,
        },
    decreases v, 0nat,
{
    let mut out: Vec<Vec<char>> = Vec::new();
    let mut i: usize = 0;
    assert(out@.map_values(|p: Vec<char>| p@) =~= Seq::<Seq<char>>::empty());
    while i < v.len()
        invariant
            i <= v.len(),
            value_texts(*v, i as nat) == Ok::<Seq<Seq<char>>, ParseError>(
                out@.map_values(|p: Vec<char>| p@),
            ),
        decreases v.len() - i,
    {
        let t = match value_text_exec(&v[i]) {
            Ok(t) => t,
            Err(x) => {
                proof {
                    lemma_value_texts_error_stays(*v, (i + 1) as nat, v.len() as nat);
                }
                return Err(x);
            },
        };
        let ghost before = out@.map_values(|p: Vec<char>| p@);
        let ghost tv = t@;
        out.push(t);
        assert(out@.map_values(|p: Vec<char>| p@) =~= before.push(tv));
        i = i + 1;
    }
    Ok(out)
}

fn dict_text_exec(items: &Vec<PyDictItem>) -> (r: Result<Vec<char>, ParseError>)
    ensures
        match (r, value_text(PyExpr::Dict(*items))) {
            (Ok(a), Ok(b)) => a@ == b,
            (Err(x), Err(y)) => same_error(x, y),
            _ => false,
        },
    decreases items, 0nat,
{
    let mut parts: Vec<Vec<char>> = Vec::new();
    let mut i: usize = 0;
    assert(parts@.map_values(|p: Vec<char>| p@) =~= Seq::<Seq<char>>::empty());
    while i < items.len()
        invariant
            i <= items.len(),
            dict_texts(*items, i as nat) == DictTexts::Entries(parts@.map_values(|p: Vec<char>| p@)),
        decreases items.len() - i,
    {
        match &items[i].key {
            None => {
                proof {
                    lemma_dict_texts_stop_stays(*items, (i + 1) as nat, items.len() as nat);
                }
                return Ok(chars_from("..."));
            },
            Some(k) => {
                let ks = match value_text_exec(k) {
                    Ok(t) => t,
                    Err(x) => {
                        proof {
                            lemma_dict_texts_stop_stays(*items, (i + 1) as nat, items.len() as nat);
                        }
                        return Err(x);
                    },
                };
                let vs = match value_text_exec(&items[i].value) {
                    Ok(t) => t,
                    Err(x) => {
                        proof {
                            lemma_dict_texts_stop_stays(*items, (i + 1) as nat, items.len() as nat);
                        }
                        return Err(x);
                    },
                };
                let ghost ksv = ks@;
                let mut entry = ks;
                entry.push(':');
                entry.push(' ');
                push_chars(&mut entry, &vs);
                assert(entry@ =~= ksv + seq![':', ' '] + vs@);
                let ghost before = parts@.map_values(|p: Vec<char>| p@);
                let ghost ev = entry@;
                parts.push(entry);
                assert(parts@.map_values(|p: Vec<char>| p@) =~= before.push(ev));
            },
        }
        i = i + 1;
    }
    let mut out: Vec<char> = Vec::new();
    out.push('{');
    let j = join_chars(&parts, ", ");
    push_chars(&mut out, &j);
    out.push('}');
    Ok(out)
}

/// The Python text of a default value (see [`value_text`]).
pub fn python_ast_to_python_string(e: &PyExpr) -> (r: Result<String, ParseError>)
    ensures
        match (r, value_text(*e)) {
            (Ok(a), Ok(b)) => a@ == b,
            (Err(x), Err(y)) => same_error(x, y),
            _ => false,
        },
{
    let v = value_text_exec(e)?;
    Ok(crate::text::string_of(&v))
}

} // verus!
