//! The template repository's configuration schema (the `petridish.toml`
//! flavour): overall settings and the prompts it asks before rendering.
//!
//! Parsing the file is (de)serialization and lives with the caller; this
//! module owns the bare types, their defaults, and the prompt bookkeeping
//! that can be computed (which choice a default picks).

use vstd::prelude::*;

use crate::literal_value::LiteralTrue;
use crate::strutil::{contains_str, seq_contains_str, str_eq, strs_view, to_owned_string};

verus! {

/// The message shown when asking for the project's name, when the
/// configuration gives none.
pub fn default_prompt_message_for_project_name() -> (r: String)
    ensures
        r@ == "project name?"@,
{
    to_owned_string("project name?")
}

/// The variable name the project's name is bound to, when the configuration
/// gives none.
pub fn default_project_var_name() -> (r: String)
    ensures
        r@ == "project_name"@,
{
    to_owned_string("project_name")
}

/// The overall settings of a template repository.
#[derive(Debug)]
pub struct PetridishConfig {
    pub project_prompt: String,
    pub project_var_name: String,
    pub short_description: Option<String>,
    pub long_description: Option<String>,
}

impl Default for PetridishConfig {
    /// The settings an empty configuration gets.
    fn default() -> (r: Self)
        ensures
            r.project_prompt@ == "project name?"@,
            r.project_var_name@ == "project_name"@,
            r.short_description is None,
            r.long_description is None,
    {
        PetridishConfig {
            project_prompt: default_prompt_message_for_project_name(),
            project_var_name: default_project_var_name(),
            short_description: None,
            long_description: None,
        }
    }
}

/// A free-text prompt for a string variable, with an optional default (itself
/// a template) and an optional pattern the answer must match.
#[derive(Debug)]
pub struct StringInput {
    pub name: String,
    pub prompt: Option<String>,
    pub default: Option<String>,
    pub regex: Option<String>,
}

/// A single-choice prompt.
#[derive(Debug)]
pub struct Select<T> {
    pub name: String,
    pub prompt: Option<String>,
    pub choices: Vec<T>,
    pub default: Option<T>,
}

/// A multiple-choice prompt; the `multi` marker is what distinguishes it from
/// `Select` in the configuration file.
#[derive(Debug)]
pub struct MultiSelect<T> {
    pub multi: LiteralTrue,
    pub name: String,
    pub prompt: Option<String>,
    pub choices: Vec<T>,
    pub default: Option<Vec<T>>,
    pub emptyable: bool,
}

/// A yes/no prompt.
#[derive(Debug)]
pub struct Confirm {
    pub name: String,
    pub prompt: Option<String>,
    pub default: bool,
}

/// The prompts that produce a string variable.
#[derive(Debug)]
pub enum StringPrompt {
    MultiSelect(MultiSelect<String>),
    Select(Select<String>),
    Input(StringInput),
}

/// The prompts that produce a boolean variable.
#[derive(Debug)]
pub enum BoolPrompt {
    Confirm(Confirm),
}

impl Select<String> {
    /// Where the cursor starts: the first choice equal to the default, or the
    /// first choice when there is no default or it matches nothing.
    pub fn default_index(&self) -> (r: usize)
        ensures
            ({
                let cs = strs_view(self.choices@);
                match self.default {
                    None => r == 0,
                    Some(d) => if seq_contains_str(cs, d@) {
                        r < cs.len() && cs[r as int] == d@ && (forall|j: int|
                            0 <= j < r ==> cs[j] != d@)
                    } else {
                        r == 0
                    },
                }
            }),
    {
        match &self.default {
            None => 0,
            Some(d) => {
                let n = self.choices.len();
                let mut i: usize = 0;
                while i < n
                    invariant
                        0 <= i <= n,
                        n == self.choices@.len(),
                        self.default == Some(*d),
                        forall|j: int| 0 <= j < i ==> strs_view(self.choices@)[j] != d@,
                    decreases n - i,
                {
                    if str_eq(self.choices[i].as_str(), d.as_str()) {
                        assert(strs_view(self.choices@)[i as int] == d@);
                        return i;
                    }
                    i += 1;
                }
                0
            },
        }
    }
}

/// The indexes of the choices that `defaults` names, in order.
pub open spec fn selected_indexes(cs: Seq<Seq<char>>, defaults: Seq<Seq<char>>) -> Seq<int>
    decreases cs.len(),
{
    if cs.len() == 0 {
        Seq::empty()
    } else {
        let pre = selected_indexes(cs.drop_last(), defaults);
        if seq_contains_str(defaults, cs.last()) {
            pre.push(cs.len() - 1)
        } else {
            pre
        }
    }
}

impl MultiSelect<String> {
    /// The indexes of the choices the default list pre-selects (none when
    /// there is no default list).
    pub fn default_indexes(&self) -> (r: Vec<usize>)
        ensures
            ({
                let cs = strs_view(self.choices@);
                match self.default {
                    None => r@.len() == 0,
                    Some(ds) => r@.map_values(|x: usize| x as int) == selected_indexes(
                        cs,
                        strs_view(ds@),
                    ),
                }
            }),
    {
        match &self.default {
            None => Vec::new(),
            Some(ds) => {
                let ghost cs = strs_view(self.choices@);
                let ghost dv = strs_view(ds@);
                let n = self.choices.len();
                let mut out: Vec<usize> = Vec::new();
                let mut i: usize = 0;
                proof {
                    assert(cs.subrange(0, 0) =~= Seq::<Seq<char>>::empty());
                    assert(out@.map_values(|x: usize| x as int) =~= Seq::<int>::empty());
                }
                while i < n
                    invariant
                        0 <= i <= n,
                        n == self.choices@.len(),
                        self.default == Some(*ds),
                        cs == strs_view(self.choices@),
                        dv == strs_view(ds@),
                        out@.map_values(|x: usize| x as int) == selected_indexes(
                            cs.subrange(0, i as int),
                            dv,
                        ),
                    decreases n - i,
                {
                    proof {
                        assert(cs.subrange(0, i + 1).drop_last() =~= cs.subrange(0, i as int));
                        assert(cs.subrange(0, i + 1).last() == cs[i as int]);
                    }
                    let ghost before = out@;
                    if contains_str(ds, self.choices[i].as_str()) {
                        out.push(i);
                        proof {
                            assert(out@.drop_last() =~= before);
                            assert(out@.map_values(|x: usize| x as int) =~= before.map_values(
                                |x: usize| x as int,
                            ).push(i as int));
                        }
                    }
                    i += 1;
                }
                proof {
                    assert(cs.subrange(0, n as int) =~= cs);
                }
                out
            },
        }
    }
}

} // verus!
