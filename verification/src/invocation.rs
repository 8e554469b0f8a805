//! The decisions the command-line front end needs: splitting an `auth`
//! argument, recognising a cached-template name, and turning a project
//! variable into the entry directory's parametric name (and back).

use vstd::prelude::*;

use crate::error::Error;
use crate::strutil::{
    concat3, count_char, count_char_seq, find_char, first_index_of, is_prefix, is_suffix,
    lemma_count_char_none, lemma_first_index_of, starts_with, ends_with, to_owned_string,
};

verus! {

/// Splits an `auth` argument of the shape `<username>:<password>`: accepted
/// exactly when it holds one `:`.
pub fn parse_auth(auth: &str) -> (r: Result<(String, String), Error>)
    ensures
        r is Ok <==> count_char_seq(auth@, ':') == 1,
        r is Ok ==> ({
            let cut = first_index_of(auth@, ':');
            r->Ok_0.0@ == auth@.subrange(0, cut) && r->Ok_0.1@ == auth@.subrange(
                cut + 1,
                auth@.len() as int,
            )
        }),
        r is Err ==> (r->Err_0 matches Error::ArgsError(m) && m@ == "auth '"@ + auth@
            + "' is invalid, should be like <username>:<password>"@),
{
    let slen = auth.unicode_len();
    match find_char(auth, ':') {
        None => {
            proof {
                lemma_count_char_none(auth@, ':');
            }
            Err(
                Error::ArgsError(
                    concat3(
                        "auth '",
                        auth,
                        "' is invalid, should be like <username>:<password>",
                    ),
                ),
            )
        },
        Some(i) => {
            let cnt = count_char(auth, ':');
            if cnt == 1 {
                proof {
                    lemma_first_index_of(auth@, ':', i as int);
                }
                Ok(
                    (
                        to_owned_string(auth.substring_char(0, i)),
                        to_owned_string(auth.substring_char(i + 1, slen)),
                    ),
                )
            } else {
                Err(
                    Error::ArgsError(
                        concat3(
                            "auth '",
                            auth,
                            "' is invalid, should be like <username>:<password>",
                        ),
                    ),
                )
            }
        },
    }
}

/// True for the characters a cached-template name may hold: letters, digits,
/// `_` and `-`.
pub open spec fn is_cache_name_char(c: char) -> bool {
    (('a' as u32) <= (c as u32) && (c as u32) <= ('z' as u32)) || (('A' as u32) <= (c as u32) && (
    c as u32) <= ('Z' as u32)) || (('0' as u32) <= (c as u32) && (c as u32) <= ('9' as u32)) || c
        == '_' || c == '-'
}

/// True when `s` can be the name of a cached template: non-empty, made of
/// letters, digits, `_` and `-` alone.
pub open spec fn is_cache_name_seq(s: Seq<char>) -> bool {
    s.len() > 0 && (forall|i: int| 0 <= i < s.len() ==> is_cache_name_char(s[i]))
}

/// Checks whether `s` can be the name of a cached template.
pub fn is_cache_name(s: &str) -> (r: bool)
    ensures
        r == is_cache_name_seq(s@),
{
    let n = s.unicode_len();
    if n == 0 {
        return false;
    }
    let mut i: usize = 0;
    while i < n
        invariant
            0 <= i <= n,
            n == s@.len(),
            forall|j: int| 0 <= j < i ==> is_cache_name_char(s@[j]),
        decreases n - i,
    {
        let c = s.get_char(i);
        let cu = c as u32;
        if !((97 <= cu && cu <= 122) || (65 <= cu && cu <= 90) || (48 <= cu && cu <= 57) || c
            == '_' || c == '-') {
            return false;
        }
        i += 1;
    }
    true
}

/// The entry directory's parametric name for a project variable:
/// `{{ <var> }}`.
pub fn entry_dir_name_of(var: &str) -> (r: String)
    ensures
        r@ == "{{ "@ + var@ + " }}"@,
{
    concat3("{{ ", var, " }}")
}

/// True for the whitespace the variable-name extraction trims.
pub open spec fn is_space(c: char) -> bool {
    c == ' ' || c == '\t' || c == '\n' || c == '\r'
}

/// How many whitespace characters stand at the front of `s`.
pub open spec fn leading_spaces(s: Seq<char>) -> nat
    decreases s.len(),
{
    if s.len() > 0 && is_space(s[0]) {
        1 + leading_spaces(s.subrange(1, s.len() as int))
    } else {
        0
    }
}

/// How many whitespace characters stand at the end of `s`.
pub open spec fn trailing_spaces(s: Seq<char>) -> nat
    decreases s.len(),
{
    if s.len() > 0 && is_space(s.last()) {
        1 + trailing_spaces(s.drop_last())
    } else {
        0
    }
}

/// `s` with its leading and trailing whitespace removed.
pub open spec fn trim_seq(s: Seq<char>) -> Seq<char> {
    if leading_spaces(s) == s.len() {
        Seq::empty()
    } else {
        s.subrange(leading_spaces(s) as int, s.len() - trailing_spaces(s))
    }
}

/// Checks whether `c` is whitespace the trim removes.
fn is_space_char(c: char) -> (r: bool)
    ensures
        r == is_space(c),
{
    c == ' ' || c == '\t' || c == '\n' || c == '\r'
}

proof fn lemma_leading_spaces(s: Seq<char>, k: int)
    requires
        0 <= k <= s.len(),
        forall|j: int| 0 <= j < k ==> is_space(s[j]),
        k < s.len() ==> !is_space(s[k]),
    ensures
        leading_spaces(s) == k,
    decreases s.len(),
{
    if k > 0 {
        lemma_leading_spaces(s.subrange(1, s.len() as int), k - 1);
    }
}

proof fn lemma_trailing_spaces(s: Seq<char>, k: int)
    requires
        0 <= k <= s.len(),
        forall|j: int| s.len() - k <= j < s.len() ==> is_space(s[j]),
        k < s.len() ==> !is_space(s[s.len() - k - 1]),
    ensures
        trailing_spaces(s) == k,
    decreases s.len(),
{
    if k > 0 {
        lemma_trailing_spaces(s.drop_last(), k - 1);
    }
}

/// `s` with its leading and trailing whitespace removed.
pub fn trim(s: &str) -> (r: String)
    ensures
        r@ == trim_seq(s@),
{
    let n = s.unicode_len();
    let mut start: usize = 0;
    while start < n && is_space_char(s.get_char(start))
        invariant
            0 <= start <= n,
            n == s@.len(),
            forall|j: int| 0 <= j < start ==> is_space(s@[j]),
        decreases n - start,
    {
        start += 1;
    }
    if start == n {
        proof {
            lemma_leading_spaces(s@, n as int);
        }
        return String::new();
    }
    proof {
        lemma_leading_spaces(s@, start as int);
    }
    let mut end: usize = n;
    while end > start && is_space_char(s.get_char(end - 1))
        invariant
            start <= end <= n,
            n == s@.len(),
            start < n,
            !is_space(s@[start as int]),
            forall|j: int| end <= j < n ==> is_space(s@[j]),
        decreases end,
    {
        end -= 1;
    }
    proof {
        if end == start {
            assert(is_space(s@[start as int]));
        }
        lemma_trailing_spaces(s@, n - end);
    }
    to_owned_string(s.substring_char(start, end))
}

/// The variable a parametric entry directory name such as `{{ repo_name }}`
/// refers to; nothing when the name is not of that shape.
pub fn entry_dir_var_name(entry_dir: &str) -> (r: Option<String>)
    ensures
        ({
            let s = entry_dir@;
            if is_prefix(s, "{{"@) && is_suffix(s.subrange("{{"@.len() as int, s.len() as int), "}}"@) {
                let inner = s.subrange("{{"@.len() as int, s.len() - "}}"@.len());
                r is Some && r->0@ == trim_seq(inner)
            } else {
                r is None
            }
        }),
{
    let n = entry_dir.unicode_len();
    if !starts_with(entry_dir, "{{") {
        return None;
    }
    let plen = "{{".unicode_len();
    let rest = entry_dir.substring_char(plen, n);
    if !ends_with(rest, "}}") {
        return None;
    }
    let slen = "}}".unicode_len();
    let rest_n = rest.unicode_len();
    let inner = rest.substring_char(0, rest_n - slen);
    proof {
        assert(rest@.subrange(0, rest@.len() - "}}"@.len()) =~= entry_dir@.subrange(
            "{{"@.len() as int,
            entry_dir@.len() - "}}"@.len(),
        ));
    }
    Some(trim(inner))
}

} // verus!
