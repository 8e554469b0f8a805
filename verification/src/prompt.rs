//! An earlier, flatter shape of the prompt schema, kept for configurations
//! written against it: one struct per prompt with its kind flattened in.
//! Number prompts carry floating-point bounds and live with the prompting
//! front end; the string and boolean shapes are modelled here.

use vstd::prelude::*;

use crate::literal_value::LiteralTrue;

verus! {

/// The prompts that produce a string variable.
#[derive(Debug)]
pub enum StringPrompt {
    MultiSelector { multi: LiteralTrue, choices: Vec<String>, default: Option<Vec<String>> },
    SingleSelector { choices: Vec<String>, default: Option<String> },
    Normal { default: Option<String>, regex: Option<String> },
}

/// A yes/no prompt.
#[derive(Debug)]
pub struct BoolPrompt {
    pub default: bool,
}

impl BoolPrompt {
    /// The answer assumed when the user just confirms.
    pub fn default_answer(&self) -> (r: bool)
        ensures
            r == self.default,
    {
        self.default
    }
}

} // verus!
