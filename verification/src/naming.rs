//! The names under which the parts of an interface are rendered.
//!
//! Changing the case of a name is left to the `convert_case` crate and replacing
//! by pattern to the `regex` crate. The functions that call them are believed,
//! not proved; each says which outside function it stands for.

use crate::components::EntryPoint;
use crate::module::ExecutionModel;
use crate::text::{holds_at, occurs_at};
use crate::types::{Member, Structure};
use crate::utilities::execution_model::stage_name;
use crate::utilities::execution_model_to_string;
use vstd::prelude::*;

verus! {

/// What `convert_case` makes of `name` in snake case.
pub uninterp spec fn snake_case(name: Seq<char>) -> Seq<char>;

/// What `convert_case` makes of `name` in upper camel case.
pub uninterp spec fn upper_camel_case(name: Seq<char>) -> Seq<char>;

/// What `regex` makes of `text` when every match of `pattern` in it is replaced
/// by `replacement`; nothing where `pattern` is no regular expression.
pub uninterp spec fn pattern_replaced(
    pattern: Seq<char>,
    text: Seq<char>,
    replacement: Seq<char>,
) -> Option<Seq<char>>;

/// Calls `convert_case::Casing::to_case` with `convert_case::Case::Snake`.
///
/// The contract only names the result: it is what `snake_case` stands for.
#[verifier::external_body]
fn to_snake_case(name: &str) -> (converted: String)
    ensures
        converted@ == snake_case(name@),
{
    convert_case::Casing::to_case(&name, convert_case::Case::Snake)
}

/// Calls `convert_case::Casing::to_case` with `convert_case::Case::UpperCamel`.
///
/// The contract only names the result: it is what `upper_camel_case` stands for.
#[verifier::external_body]
fn to_upper_camel_case(name: &str) -> (converted: String)
    ensures
        converted@ == upper_camel_case(name@),
{
    convert_case::Casing::to_case(&name, convert_case::Case::UpperCamel)
}

/// Calls `regex::Regex::new` on `pattern` and, where that succeeds,
/// `regex::Regex::replace_all` on `text` with `replacement`.
///
/// The contract only names the result: it is what `pattern_replaced` stands for.
#[verifier::external_body]
fn replace_pattern(pattern: &str, text: &str, replacement: &str) -> (replaced: Option<String>)
    ensures
        match pattern_replaced(pattern@, text@, replacement@) {
            Some(value) => replaced is Some && replaced->0@ == value,
            None => replaced is None,
        },
{
    match regex::Regex::new(pattern) {
        Ok(expression) => Some(expression.replace_all(text, replacement).into_owned()),
        Err(_) => None,
    }
}

/// Whether `text` starts with `prefix`.
pub open spec fn starts_with(text: Seq<char>, prefix: Seq<char>) -> bool {
    occurs_at(text, prefix, 0)
}

/// The name of the module that holds an entry point named `name` of the stage
/// `model`: the name in snake case, with the name of the stage and `_` before it
/// unless it starts with the name of the stage.
pub open spec fn entry_point_module(name: Seq<char>, model: ExecutionModel) -> Seq<char> {
    if starts_with(snake_case(name), stage_name(model)) {
        snake_case(name)
    } else {
        stage_name(model) + "_"@ + snake_case(name)
    }
}

/// The name of the module that holds the bindings of the file with the stem
/// `stem`: every run of characters that cannot stand in an identifier, and any
/// run of digits at the start, is replaced by `_`, and the result is put in
/// snake case.
pub open spec fn file_module(stem: Seq<char>) -> Option<Seq<char>> {
    match pattern_replaced("(^[^a-zA-Z_]+|[^a-zA-Z0-9_]+)"@, stem, "_"@) {
        Some(clean) => Some(snake_case(clean)),
        None => None,
    }
}

/// Names the module that holds the bindings of the file with the stem `stem`.
pub fn module_name(stem: &str) -> (name: Option<String>)
    ensures
        match file_module(stem@) {
            Some(value) => name is Some && name->0@ == value,
            None => name is None,
        },
{
    match replace_pattern("(^[^a-zA-Z_]+|[^a-zA-Z0-9_]+)", stem, "_") {
        Some(clean) => Some(to_snake_case(clean.as_str())),
        None => None,
    }
}

impl Structure {
    /// The name of the type that renders the structure: its name in upper camel case.
    pub fn name_ident(&self) -> (name: String)
        ensures
            name@ == upper_camel_case(self@.name),
    {
        to_upper_camel_case(self.name.as_str())
    }
}

impl Member {
    /// The name of the field that renders the member: its name in snake case.
    pub fn field_ident(&self) -> (name: String)
        ensures
            name@ == snake_case(self@.name),
    {
        to_snake_case(self.name.as_str())
    }
}

impl EntryPoint {
    /// The name of the module that renders the entry point.
    pub fn module_ident(&self) -> (name: String)
        ensures
            name@ == entry_point_module(self@.name, self@.execution_model),
    {
        let stage = execution_model_to_string(&self.execution_model);
        let snake = to_snake_case(self.name.as_str());
        let width: usize = stage.unicode_len();
        let length: usize = snake.as_str().unicode_len();
        if width <= length && holds_at(snake.as_str(), stage, 0) {
            snake
        } else {
            let mut name = String::from_str(stage);
            name.append("_");
            name.append(snake.as_str());
            name
        }
    }
}

} // verus!
