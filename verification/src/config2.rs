//! The template repository's configuration schema (the `petridish.yaml`
//! flavour): the prompts to ask, and the name of the entry directory.
//!
//! Parsing the file is (de)serialization and lives with the caller; this
//! module owns the bare types and the validation every parsed configuration
//! must pass: a prompt's name must be a valid variable name.

use vstd::prelude::*;

use crate::literal_value::{LiteralFalse, LiteralTrue};
use crate::strutil::{concat3, int_dec_seq, to_decimal_i64, to_owned_string};

verus! {

/// What can go wrong while loading a prompt configuration.
#[derive(Debug)]
pub enum ConfigError {
    /// The file did not parse; the parser's report.
    ParseFailed(String),
    /// A field held an unacceptable value.
    ValidateFailed { field: String, error: String },
    /// The file could not be read; the path and the OS error text.
    LoadConfigFailed { path: String, detail: String },
}

impl ConfigError {
    /// The human-readable description of the error, character by character.
    pub open spec fn message_spec(&self) -> Seq<char> {
        match self {
            ConfigError::ParseFailed(detail) => "Parse error: "@ + detail@,
            ConfigError::ValidateFailed { field, error } => "Validate field '"@ + field@
                + "' failed: "@ + error@,
            ConfigError::LoadConfigFailed { path, detail } => "Load config '"@ + path@
                + "' failed: "@ + detail@,
        }
    }

    /// Renders the error as a human-readable message.
    pub fn message(&self) -> (r: String)
        ensures
            r@ == self.message_spec(),
    {
        match self {
            ConfigError::ParseFailed(detail) => crate::strutil::concat2(
                "Parse error: ",
                detail.as_str(),
            ),
            ConfigError::ValidateFailed { field, error } => concat3(
                "Validate field '",
                field.as_str(),
                "' failed: ",
            ).concat(error.as_str()),
            ConfigError::LoadConfigFailed { path, detail } => concat3(
                "Load config '",
                path.as_str(),
                "' failed: ",
            ).concat(detail.as_str()),
        }
    }
}

/// The entry directory name an empty configuration gets.
pub fn default_entry_dir() -> (r: String)
    ensures
        r@ == "{{ repo_name }}"@,
{
    to_owned_string("{{ repo_name }}")
}

/// A value a prompt's default can hold: a number or a string. (Numbers are
/// carried as integers; fractional defaults are the prompting front end's
/// concern.)
#[derive(Debug, Clone)]
pub enum Value {
    Number(i64),
    String(String),
}

impl Value {
    /// The value's text, as it is shown to the user: a number in decimal, a
    /// string as it is.
    pub fn text(&self) -> (r: String)
        ensures
            ({
                match self {
                    Value::Number(n) => r@ == int_dec_seq(*n as int),
                    Value::String(s) => r@ == s@,
                }
            }),
    {
        match self {
            Value::Number(n) => to_decimal_i64(*n),
            Value::String(s) => s.clone(),
        }
    }
}

/// A single-choice prompt: `multi`, if present, must be the literal `false`.
#[derive(Debug)]
pub struct SingleSelect<T> {
    pub default: Option<T>,
    pub choices: Vec<T>,
    pub multi: Option<LiteralFalse>,
}

/// A multiple-choice prompt: `multi`, if present, must be the literal `true`.
#[derive(Debug)]
pub struct MultiSelect<T> {
    pub default: Option<Vec<T>>,
    pub choices: Vec<T>,
    pub multi: Option<LiteralTrue>,
}

/// A single-choice prompt over strings or numbers.
#[derive(Debug)]
pub enum SingleSelectType {
    String(SingleSelect<String>),
    Number(SingleSelect<i64>),
}

/// A multiple-choice prompt over strings or numbers.
#[derive(Debug)]
pub enum MultiSelectType {
    String(MultiSelect<String>),
    Number(MultiSelect<i64>),
}

/// What kind of prompt an item asks.
#[derive(Debug)]
pub enum PromptKind {
    SingleSelect(SingleSelectType),
    MultiSelect(MultiSelectType),
    Confirm { confirm: LiteralTrue, default: bool },
    Default { default: Option<Value> },
}

/// One prompt of the configuration: the variable it binds, the message shown,
/// and its kind.
#[derive(Debug)]
pub struct PromptItem {
    pub name: String,
    pub message: Option<String>,
    pub kind: PromptKind,
}

/// True for the characters that may start a variable name: a letter, `_` or
/// `$`.
pub open spec fn is_var_start(c: char) -> bool {
    (('a' as u32) <= (c as u32) && (c as u32) <= ('z' as u32)) || (('A' as u32) <= (c as u32) && (
    c as u32) <= ('Z' as u32)) || c == '_' || c == '$'
}

/// True for the characters that may continue a variable name: a starter or a
/// digit.
pub open spec fn is_var_char(c: char) -> bool {
    is_var_start(c) || (('0' as u32) <= (c as u32) && (c as u32) <= ('9' as u32))
}

/// True when `s` is a valid variable name: non-empty, starting with a letter,
/// `_` or `$`, continuing with those or digits.
pub open spec fn is_var_name(s: Seq<char>) -> bool {
    s.len() > 0 && is_var_start(s[0]) && (forall|i: int| 0 < i < s.len() ==> is_var_char(s[i]))
}

/// Checks whether `s` is a valid variable name.
pub fn check_var_name(s: &str) -> (r: bool)
    ensures
        r == is_var_name(s@),
{
    let n = s.unicode_len();
    if n == 0 {
        return false;
    }
    let c0 = s.get_char(0);
    let c0u = c0 as u32;
    if !((97 <= c0u && c0u <= 122) || (65 <= c0u && c0u <= 90) || c0 == '_' || c0 == '$') {
        return false;
    }
    let mut i: usize = 1;
    while i < n
        invariant
            1 <= i <= n,
            n == s@.len(),
            forall|j: int| 0 < j < i ==> is_var_char(s@[j]),
        decreases n - i,
    {
        let c = s.get_char(i);
        let cu = c as u32;
        if !((97 <= cu && cu <= 122) || (65 <= cu && cu <= 90) || (48 <= cu && cu <= 57) || c
            == '_' || c == '$') {
            return false;
        }
        i += 1;
    }
    true
}

impl PromptItem {
    /// Accepts the item when its name is a valid variable name (the rule the
    /// pattern `^[a-zA-Z_$][a-zA-Z_$0-9]*$` spells out), and reports which
    /// field failed otherwise.
    pub fn validate(&self) -> (r: Result<(), ConfigError>)
        ensures
            r is Ok <==> is_var_name(self.name@),
            r is Err ==> (r->Err_0 matches ConfigError::ValidateFailed { field, error }
                && field@ == "name"@ && error@ == "must match '^[a-zA-Z_$][a-zA-Z_$0-9]*$'"@),
    {
        if check_var_name(self.name.as_str()) {
            Ok(())
        } else {
            Err(
                ConfigError::ValidateFailed {
                    field: to_owned_string("name"),
                    error: to_owned_string("must match '^[a-zA-Z_$][a-zA-Z_$0-9]*$'"),
                },
            )
        }
    }
}

/// The whole prompt configuration: the prompts, and the (possibly parametric)
/// name of the entry directory.
#[derive(Debug)]
pub struct PromptConfig {
    pub prompts: Vec<PromptItem>,
    pub entry_dir: String,
}

impl PromptConfig {
    /// Accepts the configuration when every prompt's name is a valid variable
    /// name; the first offender's report comes back otherwise.
    pub fn validate(&self) -> (r: Result<(), ConfigError>)
        ensures
            r is Ok <==> (forall|i: int|
                0 <= i < self.prompts@.len() ==> is_var_name(self.prompts@[i].name@)),
            r is Err ==> (r->Err_0 matches ConfigError::ValidateFailed { field, error }
                && field@ == "name"@ && error@ == "must match '^[a-zA-Z_$][a-zA-Z_$0-9]*$'"@),
    {
        let n = self.prompts.len();
        let mut i: usize = 0;
        while i < n
            invariant
                0 <= i <= n,
                n == self.prompts@.len(),
                forall|j: int| 0 <= j < i ==> is_var_name(self.prompts@[j].name@),
            decreases n - i,
        {
            match self.prompts[i].validate() {
                Ok(_) => {},
                Err(e) => {
                    return Err(e);
                },
            }
            i += 1;
        }
        Ok(())
    }
}

} // verus!
