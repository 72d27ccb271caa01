//! Renaming rules of `#[pyo3(rename_all = "...")]`.

use vstd::prelude::*;
use heck::{
    ToKebabCase, ToLowerCamelCase, ToShoutyKebabCase, ToShoutySnakeCase, ToSnakeCase,
    ToUpperCamelCase,
};
use crate::text::str_is;

verus! {

/// Available renaming rules.
#[derive(Clone, Copy, Debug, PartialEq, Eq, Structural)]
pub enum RenamingRule {
    CamelCase,
    KebabCase,
    Lowercase,
    PascalCase,
    ScreamingKebabCase,
    ScreamingSnakeCase,
    SnakeCase,
    Uppercase,
}

/// The rule that `name` denotes, if any.
pub open spec fn rule_named(name: Seq<char>) -> Option<RenamingRule> {
    if name == "camelCase"@ {
        Some(RenamingRule::CamelCase)
    } else if name == "kebab-case"@ {
        Some(RenamingRule::KebabCase)
    } else if name == "lowercase"@ {
        Some(RenamingRule::Lowercase)
    } else if name == "PascalCase"@ {
        Some(RenamingRule::PascalCase)
    } else if name == "SCREAMING-KEBAB-CASE"@ {
        Some(RenamingRule::ScreamingKebabCase)
    } else if name == "SCREAMING_SNAKE_CASE"@ {
        Some(RenamingRule::ScreamingSnakeCase)
    } else if name == "snake_case"@ {
        Some(RenamingRule::SnakeCase)
    } else if name == "UPPERCASE"@ {
        Some(RenamingRule::Uppercase)
    } else {
        None
    }
}

impl RenamingRule {
    /// The rule that `name` denotes, as PyO3 spells it; `None` for any
    /// other name.
    pub fn try_new(name: &str) -> (r: Option<Self>)
        ensures
            r == rule_named(name@),
    {
        if str_is(name, "camelCase") {
            Some(RenamingRule::CamelCase)
        } else if str_is(name, "kebab-case") {
            Some(RenamingRule::KebabCase)
        } else if str_is(name, "lowercase") {
            Some(RenamingRule::Lowercase)
        } else if str_is(name, "PascalCase") {
            Some(RenamingRule::PascalCase)
        } else if str_is(name, "SCREAMING-KEBAB-CASE") {
            Some(RenamingRule::ScreamingKebabCase)
        } else if str_is(name, "SCREAMING_SNAKE_CASE") {
            Some(RenamingRule::ScreamingSnakeCase)
        } else if str_is(name, "snake_case") {
            Some(RenamingRule::SnakeCase)
        } else if str_is(name, "UPPERCASE") {
            Some(RenamingRule::Uppercase)
        } else {
            None
        }
    }
}

/// The name by which PyO3 spells a rule in `rename_all = "..."`.
pub open spec fn rule_spelling(rule: RenamingRule) -> Seq<char> {
    match rule {
        RenamingRule::CamelCase => "camelCase"@,
        RenamingRule::KebabCase => "kebab-case"@,
        RenamingRule::Lowercase => "lowercase"@,
        RenamingRule::PascalCase => "PascalCase"@,
        RenamingRule::ScreamingKebabCase => "SCREAMING-KEBAB-CASE"@,
        RenamingRule::ScreamingSnakeCase => "SCREAMING_SNAKE_CASE"@,
        RenamingRule::SnakeCase => "snake_case"@,
        RenamingRule::Uppercase => "UPPERCASE"@,
    }
}

/// Each rule is read back from its spelling, and only a rule's spelling
/// names a rule: [`RenamingRule::try_new`] accepts exactly the eight
/// spellings.
pub proof fn law_rule_spellings(rule: RenamingRule, name: Seq<char>)
    ensures
        rule_named(rule_spelling(rule)) == Some(rule),
        rule_named(name) == Some(rule) ==> name == rule_spelling(rule),
{
    reveal_strlit("camelCase");
    reveal_strlit("kebab-case");
    reveal_strlit("lowercase");
    reveal_strlit("PascalCase");
    reveal_strlit("SCREAMING-KEBAB-CASE");
    reveal_strlit("SCREAMING_SNAKE_CASE");
    reveal_strlit("snake_case");
    reveal_strlit("UPPERCASE");
    assert("camelCase"@[0] == 'c');
    assert("kebab-case"@[0] == 'k');
    assert("lowercase"@[0] == 'l');
    assert("PascalCase"@[0] == 'P');
    assert("SCREAMING-KEBAB-CASE"@[0] == 'S');
    assert("SCREAMING_SNAKE_CASE"@[0] == 'S');
    assert("snake_case"@[0] == 's');
    assert("UPPERCASE"@[0] == 'U');
    assert("SCREAMING-KEBAB-CASE"@[9] == '-');
    assert("SCREAMING_SNAKE_CASE"@[9] == '_');
}

/// What `heck`'s `to_lower_camel_case` makes of a string.
pub uninterp spec fn lower_camel_case(s: Seq<char>) -> Seq<char>;

/// What `heck`'s `to_kebab_case` makes of a string.
pub uninterp spec fn kebab_case(s: Seq<char>) -> Seq<char>;

/// What `heck`'s `to_upper_camel_case` makes of a string.
pub uninterp spec fn upper_camel_case(s: Seq<char>) -> Seq<char>;

/// What `heck`'s `to_shouty_kebab_case` makes of a string.
pub uninterp spec fn shouty_kebab_case(s: Seq<char>) -> Seq<char>;

/// What `heck`'s `to_shouty_snake_case` makes of a string.
pub uninterp spec fn shouty_snake_case(s: Seq<char>) -> Seq<char>;

/// What `heck`'s `to_snake_case` makes of a string.
pub uninterp spec fn snake_case(s: Seq<char>) -> Seq<char>;

/// What `str::to_lowercase` makes of a string.
pub uninterp spec fn lowercase(s: Seq<char>) -> Seq<char>;

/// What `str::to_uppercase` makes of a string.
pub uninterp spec fn uppercase(s: Seq<char>) -> Seq<char>;

/// Trusted: `heck::ToLowerCamelCase::to_lower_camel_case`; its result is
/// named, not stated.
#[verifier::external_body]
fn to_lower_camel(s: &str) -> (r: String)
    ensures
        r@ == lower_camel_case(s@),
{
    s.to_lower_camel_case()
}

/// Trusted: `heck::ToKebabCase::to_kebab_case`; its result is named, not
/// stated.
#[verifier::external_body]
fn to_kebab(s: &str) -> (r: String)
    ensures
        r@ == kebab_case(s@),
{
    s.to_kebab_case()
}

/// Trusted: `heck::ToUpperCamelCase::to_upper_camel_case`; its result is
/// named, not stated.
#[verifier::external_body]
fn to_upper_camel(s: &str) -> (r: String)
    ensures
        r@ == upper_camel_case(s@),
{
    s.to_upper_camel_case()
}

/// Trusted: `heck::ToShoutyKebabCase::to_shouty_kebab_case`; its result is
/// named, not stated.
#[verifier::external_body]
fn to_shouty_kebab(s: &str) -> (r: String)
    ensures
        r@ == shouty_kebab_case(s@),
{
    s.to_shouty_kebab_case()
}

/// Trusted: `heck::ToShoutySnakeCase::to_shouty_snake_case`; its result is
/// named, not stated.
#[verifier::external_body]
fn to_shouty_snake(s: &str) -> (r: String)
    ensures
        r@ == shouty_snake_case(s@),
{
    s.to_shouty_snake_case()
}

/// Trusted: `heck::ToSnakeCase::to_snake_case`; its result is named, not
/// stated.
#[verifier::external_body]
fn to_snake(s: &str) -> (r: String)
    ensures
        r@ == snake_case(s@),
{
    s.to_snake_case()
}

/// Trusted: `str::to_lowercase` (Unicode lowercase mapping); its result is
/// named, not stated.
#[verifier::external_body]
fn to_lower(s: &str) -> (r: String)
    ensures
        r@ == lowercase(s@),
{
    s.to_lowercase()
}

/// Trusted: `str::to_uppercase` (Unicode uppercase mapping); its result is
/// named, not stated.
#[verifier::external_body]
fn to_upper(s: &str) -> (r: String)
    ensures
        r@ == uppercase(s@),
{
    s.to_uppercase()
}

/// A name renamed by a rule.
pub open spec fn renamed_by(rule: RenamingRule, name: Seq<char>) -> Seq<char> {
    match rule {
        RenamingRule::CamelCase => lower_camel_case(name),
        RenamingRule::KebabCase => kebab_case(name),
        RenamingRule::Lowercase => lowercase(name),
        RenamingRule::PascalCase => upper_camel_case(name),
        RenamingRule::ScreamingKebabCase => shouty_kebab_case(name),
        RenamingRule::ScreamingSnakeCase => shouty_snake_case(name),
        RenamingRule::SnakeCase => snake_case(name),
        RenamingRule::Uppercase => uppercase(name),
    }
}

impl RenamingRule {
    /// `name` renamed by the rule: camelCase, PascalCase, kebab-case and
    /// the snake and screaming forms as `heck` writes them, lowercase and
    /// UPPERCASE as `str` maps them.
    pub fn apply(self, name: &str) -> (r: String)
        ensures
            r@ == renamed_by(self, name@),
    {
        match self {
            RenamingRule::CamelCase => to_lower_camel(name),
            RenamingRule::KebabCase => to_kebab(name),
            RenamingRule::Lowercase => to_lower(name),
            RenamingRule::PascalCase => to_upper_camel(name),
            RenamingRule::ScreamingKebabCase => to_shouty_kebab(name),
            RenamingRule::ScreamingSnakeCase => to_shouty_snake(name),
            RenamingRule::SnakeCase => to_snake(name),
            RenamingRule::Uppercase => to_upper(name),
        }
    }
}

} // verus!
