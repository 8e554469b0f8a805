//! Verified helpers over `&str` and `String`, with contracts stated over
//! `Seq<char>` views.

use vstd::prelude::*;

verus! {

/// True when `pre` is a prefix of `s`.
pub open spec fn is_prefix(s: Seq<char>, pre: Seq<char>) -> bool {
    pre.len() <= s.len() && s.subrange(0, pre.len() as int) == pre
}

/// True when `suf` is a suffix of `s`.
pub open spec fn is_suffix(s: Seq<char>, suf: Seq<char>) -> bool {
    suf.len() <= s.len() && s.subrange(s.len() - suf.len(), s.len() as int) == suf
}

/// `s` with every copy of the suffix `suf` peeled off the end, as
/// `str::trim_end_matches` does.
pub open spec fn strip_suffix_rep_seq(s: Seq<char>, suf: Seq<char>) -> Seq<char>
    decreases s.len(),
{
    if suf.len() > 0 && is_suffix(s, suf) {
        strip_suffix_rep_seq(s.subrange(0, s.len() - suf.len()), suf)
    } else {
        s
    }
}

/// `s` with every copy of the prefix `pre` peeled off the front, as
/// `str::trim_start_matches` does.
pub open spec fn strip_prefix_rep_seq(s: Seq<char>, pre: Seq<char>) -> Seq<char>
    decreases s.len(),
{
    if pre.len() > 0 && is_prefix(s, pre) {
        strip_prefix_rep_seq(s.subrange(pre.len() as int, s.len() as int), pre)
    } else {
        s
    }
}

/// How often the character `c` occurs in `s`.
pub open spec fn count_char_seq(s: Seq<char>, c: char) -> nat
    decreases s.len(),
{
    if s.len() == 0 {
        0
    } else {
        count_char_seq(s.drop_last(), c) + if s.last() == c { 1nat } else { 0nat }
    }
}

/// True when `c` occurs somewhere in `s`.
pub open spec fn contains_char(s: Seq<char>, c: char) -> bool {
    exists|i: int| 0 <= i < s.len() && s[i] == c
}

/// Compares the slice of `s` that starts at `off` with `pat`, character by
/// character.
fn match_at(s: &str, off: usize, pat: &str) -> (r: bool)
    requires
        off + pat@.len() <= s@.len(),
    ensures
        r == (s@.subrange(off as int, off + pat@.len()) == pat@),
{
    let slen = s.unicode_len();
    let plen = pat.unicode_len();
    let mut j: usize = 0;
    while j < plen
        invariant
            0 <= j <= plen,
            plen == pat@.len(),
            slen == s@.len(),
            off + plen <= slen,
            forall|k: int| 0 <= k < j ==> s@[off + k] == pat@[k],
        decreases plen - j,
    {
        if s.get_char(off + j) != pat.get_char(j) {
            assert(s@.subrange(off as int, off + pat@.len())[j as int] == s@[off + j]);
            return false;
        }
        j += 1;
    }
    proof {
        assert(s@.subrange(off as int, off + pat@.len()) =~= pat@);
    }
    true
}

/// True when `s` starts with `pre`.
pub fn starts_with(s: &str, pre: &str) -> (r: bool)
    ensures
        r == is_prefix(s@, pre@),
{
    let slen = s.unicode_len();
    let plen = pre.unicode_len();
    if plen > slen {
        return false;
    }
    match_at(s, 0, pre)
}

/// True when `s` ends with `suf`.
pub fn ends_with(s: &str, suf: &str) -> (r: bool)
    ensures
        r == is_suffix(s@, suf@),
{
    let slen = s.unicode_len();
    let plen = suf.unicode_len();
    if plen > slen {
        return false;
    }
    match_at(s, slen - plen, suf)
}

/// True when the two strings hold the same characters.
pub fn str_eq(a: &str, b: &str) -> (r: bool)
    ensures
        r == (a@ == b@),
{
    let alen = a.unicode_len();
    let blen = b.unicode_len();
    if alen != blen {
        return false;
    }
    let r = match_at(a, 0, b);
    proof {
        assert(a@.subrange(0, b@.len() as int) =~= a@);
    }
    r
}

/// The least index of `c` in `s`, if any.
pub fn find_char(s: &str, c: char) -> (r: Option<usize>)
    ensures
        match r {
            Some(i) => i < s@.len() && s@[i as int] == c && forall|j: int|
                0 <= j < i ==> s@[j] != c,
            None => forall|j: int| 0 <= j < s@.len() ==> s@[j] != c,
        },
{
    let slen = s.unicode_len();
    let mut i: usize = 0;
    while i < slen
        invariant
            0 <= i <= slen,
            slen == s@.len(),
            forall|j: int| 0 <= j < i ==> s@[j] != c,
        decreases slen - i,
    {
        if s.get_char(i) == c {
            return Some(i);
        }
        i += 1;
    }
    None
}

/// The greatest index of `c` in `s`, if any.
pub fn rfind_char(s: &str, c: char) -> (r: Option<usize>)
    ensures
        match r {
            Some(i) => i < s@.len() && s@[i as int] == c && forall|j: int|
                i < j < s@.len() ==> s@[j] != c,
            None => forall|j: int| 0 <= j < s@.len() ==> s@[j] != c,
        },
{
    let slen = s.unicode_len();
    let mut i: usize = slen;
    while i > 0
        invariant
            0 <= i <= slen,
            slen == s@.len(),
            forall|j: int| i <= j < s@.len() ==> s@[j] != c,
        decreases i,
    {
        i -= 1;
        if s.get_char(i) == c {
            return Some(i);
        }
    }
    None
}

/// How often `c` occurs in `s`.
pub fn count_char(s: &str, c: char) -> (r: usize)
    ensures
        r == count_char_seq(s@, c),
{
    let slen = s.unicode_len();
    let mut i: usize = 0;
    let mut cnt: usize = 0;
    while i < slen
        invariant
            0 <= i <= slen,
            slen == s@.len(),
            cnt <= i,
            cnt == count_char_seq(s@.subrange(0, i as int), c),
        decreases slen - i,
    {
        proof {
            assert(s@.subrange(0, i + 1).drop_last() =~= s@.subrange(0, i as int));
            assert(s@.subrange(0, i + 1).last() == s@[i as int]);
        }
        if s.get_char(i) == c {
            cnt += 1;
        }
        i += 1;
    }
    proof {
        assert(s@.subrange(0, slen as int) =~= s@);
    }
    cnt
}

/// A copy of `s` as an owned string.
pub fn to_owned_string(s: &str) -> (r: String)
    ensures
        r@ == s@,
{
    String::from_str(s)
}

/// The concatenation of `a` and `b`.
pub fn concat2(a: &str, b: &str) -> (r: String)
    ensures
        r@ == a@ + b@,
{
    String::from_str(a).concat(b)
}

/// The concatenation of `a`, `b` and `c`.
pub fn concat3(a: &str, b: &str, c: &str) -> (r: String)
    ensures
        r@ == a@ + b@ + c@,
{
    String::from_str(a).concat(b).concat(c)
}

/// `s` with every copy of the suffix `suf` removed from the end.
pub fn strip_suffix_rep(s: &str, suf: &str) -> (r: String)
    ensures
        r@ == strip_suffix_rep_seq(s@, suf@),
{
    let slen = s.unicode_len();
    let plen = suf.unicode_len();
    let mut end: usize = slen;
    proof {
        assert(s@.subrange(0, slen as int) =~= s@);
    }
    loop
        invariant
            end <= slen,
            slen == s@.len(),
            plen == suf@.len(),
            strip_suffix_rep_seq(s@, suf@) == strip_suffix_rep_seq(
                s@.subrange(0, end as int),
                suf@,
            ),
        ensures
            end <= slen,
            slen == s@.len(),
            strip_suffix_rep_seq(s@, suf@) == s@.subrange(0, end as int),
        decreases end,
    {
        if plen == 0 || end < plen {
            proof {
                assert(strip_suffix_rep_seq(s@.subrange(0, end as int), suf@) == s@.subrange(
                    0,
                    end as int,
                ));
            }
            break;
        }
        if !match_at(s, end - plen, suf) {
            proof {
                let cur = s@.subrange(0, end as int);
                assert(cur.subrange(cur.len() - plen, cur.len() as int) =~= s@.subrange(
                    end - plen,
                    end as int,
                ));
                assert(strip_suffix_rep_seq(cur, suf@) == cur);
            }
            break;
        }
        proof {
            let cur = s@.subrange(0, end as int);
            assert(cur.subrange(cur.len() - plen, cur.len() as int) =~= s@.subrange(
                end - plen,
                end as int,
            ));
            assert(is_suffix(cur, suf@));
            assert(cur.subrange(0, cur.len() - plen) =~= s@.subrange(0, end - plen));
        }
        end = end - plen;
    }
    let r = s.substring_char(0, end);
    to_owned_string(r)
}

/// `s` with every copy of the prefix `pre` removed from the front.
pub fn strip_prefix_rep(s: &str, pre: &str) -> (r: String)
    ensures
        r@ == strip_prefix_rep_seq(s@, pre@),
{
    let slen = s.unicode_len();
    let plen = pre.unicode_len();
    let mut start: usize = 0;
    proof {
        assert(s@.subrange(0, slen as int) =~= s@);
    }
    loop
        invariant
            start <= slen,
            slen == s@.len(),
            plen == pre@.len(),
            strip_prefix_rep_seq(s@, pre@) == strip_prefix_rep_seq(
                s@.subrange(start as int, slen as int),
                pre@,
            ),
        ensures
            start <= slen,
            slen == s@.len(),
            strip_prefix_rep_seq(s@, pre@) == s@.subrange(start as int, slen as int),
        decreases slen - start,
    {
        if plen == 0 || slen - start < plen {
            proof {
                assert(strip_prefix_rep_seq(s@.subrange(start as int, slen as int), pre@)
                    == s@.subrange(start as int, slen as int));
            }
            break;
        }
        if !match_at(s, start, pre) {
            proof {
                let cur = s@.subrange(start as int, slen as int);
                assert(cur.subrange(0, plen as int) =~= s@.subrange(
                    start as int,
                    start + plen,
                ));
                assert(strip_prefix_rep_seq(cur, pre@) == cur);
            }
            break;
        }
        proof {
            let cur = s@.subrange(start as int, slen as int);
            assert(cur.subrange(0, plen as int) =~= s@.subrange(start as int, start + plen));
            assert(is_prefix(cur, pre@));
            assert(cur.subrange(plen as int, cur.len() as int) =~= s@.subrange(
                start + plen,
                slen as int,
            ));
        }
        start = start + plen;
    }
    let r = s.substring_char(start, slen);
    to_owned_string(r)
}

/// `s` with every leading occurrence of the character `c` removed.
pub fn strip_leading_char(s: &str, c: char) -> (r: String)
    ensures
        r@ == s@.subrange(leading_char_count(s@, c) as int, s@.len() as int),
{
    let slen = s.unicode_len();
    let mut start: usize = 0;
    while start < slen && s.get_char(start) == c
        invariant
            0 <= start <= slen,
            slen == s@.len(),
            forall|j: int| 0 <= j < start ==> s@[j] == c,
        decreases slen - start,
    {
        start += 1;
    }
    proof {
        lemma_leading_char_count(s@, c, start as int);
    }
    let r = s.substring_char(start, slen);
    to_owned_string(r)
}

/// The character for a decimal digit.
pub open spec fn digit_char(d: nat) -> char {
    ((48 + d) as u8) as char
}

/// The decimal representation of a natural number.
pub open spec fn dec_seq(n: nat) -> Seq<char>
    decreases n,
{
    if n < 10 {
        seq![digit_char(n)]
    } else {
        dec_seq(n / 10).push(digit_char(n % 10))
    }
}

/// The decimal representation of an integer, with a leading `-` when it is
/// negative.
pub open spec fn int_dec_seq(i: int) -> Seq<char> {
    if i < 0 {
        seq!['-'] + dec_seq((-i) as nat)
    } else {
        dec_seq(i as nat)
    }
}

/// The one-character string for a decimal digit.
fn digit_str(d: u64) -> (r: String)
    requires
        d < 10,
    ensures
        r@ == seq![digit_char(d as nat)],
{
    let r = match d {
        0 => to_owned_string("0"),
        1 => to_owned_string("1"),
        2 => to_owned_string("2"),
        3 => to_owned_string("3"),
        4 => to_owned_string("4"),
        5 => to_owned_string("5"),
        6 => to_owned_string("6"),
        7 => to_owned_string("7"),
        8 => to_owned_string("8"),
        _ => to_owned_string("9"),
    };
    proof {
        reveal_strlit("0");
        reveal_strlit("1");
        reveal_strlit("2");
        reveal_strlit("3");
        reveal_strlit("4");
        reveal_strlit("5");
        reveal_strlit("6");
        reveal_strlit("7");
        reveal_strlit("8");
        reveal_strlit("9");
        assert(r@ =~= seq![digit_char(d as nat)]);
    }
    r
}

/// Writes a natural number in decimal.
pub fn to_decimal_u64(n: u64) -> (r: String)
    ensures
        r@ == dec_seq(n as nat),
    decreases n,
{
    if n < 10 {
        digit_str(n)
    } else {
        let r = to_decimal_u64(n / 10).concat(digit_str(n % 10).as_str());
        proof {
            assert(r@ =~= dec_seq(n as nat));
        }
        r
    }
}

/// Writes an integer in decimal, with a leading `-` when it is negative.
pub fn to_decimal_i64(n: i64) -> (r: String)
    ensures
        r@ == int_dec_seq(n as int),
{
    if n >= 0 {
        to_decimal_u64(n as u64)
    } else {
        // The magnitude is computed without overflowing at the smallest
        // value.
        let magnitude = ((-(n + 1)) as u64) + 1;
        proof {
            assert(magnitude as int == -(n as int));
        }
        let r = concat2("-", to_decimal_u64(magnitude).as_str());
        proof {
            reveal_strlit("-");
            assert("-"@ =~= seq!['-']);
        }
        r
    }
}

/// The index of the first occurrence of `c` in `s`, or -1.
pub open spec fn first_index_of(s: Seq<char>, c: char) -> int
    decreases s.len(),
{
    if s.len() == 0 {
        -1
    } else if s[0] == c {
        0
    } else {
        let t = first_index_of(s.subrange(1, s.len() as int), c);
        if t == -1 {
            -1
        } else {
            t + 1
        }
    }
}

/// The index of the last occurrence of `c` in `s`, or -1.
pub open spec fn last_index_of(s: Seq<char>, c: char) -> int
    decreases s.len(),
{
    if s.len() == 0 {
        -1
    } else if s.last() == c {
        s.len() - 1
    } else {
        last_index_of(s.drop_last(), c)
    }
}

pub proof fn lemma_first_index_of(s: Seq<char>, c: char, i: int)
    requires
        0 <= i < s.len(),
        s[i] == c,
        forall|j: int| 0 <= j < i ==> s[j] != c,
    ensures
        first_index_of(s, c) == i,
    decreases i,
{
    if i > 0 {
        let tail = s.subrange(1, s.len() as int);
        lemma_first_index_of(tail, c, i - 1);
    }
}

pub proof fn lemma_last_index_of(s: Seq<char>, c: char, i: int)
    requires
        0 <= i < s.len(),
        s[i] == c,
        forall|j: int| i < j < s.len() ==> s[j] != c,
    ensures
        last_index_of(s, c) == i,
    decreases s.len(),
{
    if i < s.len() - 1 {
        lemma_last_index_of(s.drop_last(), c, i);
    }
}

pub proof fn lemma_last_index_of_none(s: Seq<char>, c: char)
    requires
        forall|j: int| 0 <= j < s.len() ==> s[j] != c,
    ensures
        last_index_of(s, c) == -1,
    decreases s.len(),
{
    if s.len() > 0 {
        lemma_last_index_of_none(s.drop_last(), c);
    }
}

/// A string that holds no `c` has none to count.
pub proof fn lemma_count_char_none(s: Seq<char>, c: char)
    requires
        forall|j: int| 0 <= j < s.len() ==> s[j] != c,
    ensures
        count_char_seq(s, c) == 0,
    decreases s.len(),
{
    if s.len() > 0 {
        lemma_count_char_none(s.drop_last(), c);
    }
}

/// The views of a vector of strings.
pub open spec fn strs_view(v: Seq<String>) -> Seq<Seq<char>> {
    v.map_values(|s: String| s@)
}

/// True when `x` is one of the strings in `v`.
pub open spec fn seq_contains_str(v: Seq<Seq<char>>, x: Seq<char>) -> bool {
    exists|i: int| 0 <= i < v.len() && v[i] == x
}

/// True when `x` equals one of the strings in `v`.
pub fn contains_str(v: &Vec<String>, x: &str) -> (r: bool)
    ensures
        r == seq_contains_str(strs_view(v@), x@),
{
    let n = v.len();
    let mut i: usize = 0;
    while i < n
        invariant
            0 <= i <= n,
            n == v@.len(),
            forall|j: int| 0 <= j < i ==> strs_view(v@)[j] != x@,
        decreases n - i,
    {
        if str_eq(v[i].as_str(), x) {
            assert(strs_view(v@)[i as int] == x@);
            return true;
        }
        i += 1;
    }
    false
}

/// The number of copies of `c` at the front of `s`.
pub open spec fn leading_char_count(s: Seq<char>, c: char) -> nat
    decreases s.len(),
{
    if s.len() > 0 && s[0] == c {
        1 + leading_char_count(s.subrange(1, s.len() as int), c)
    } else {
        0
    }
}

proof fn lemma_leading_char_count(s: Seq<char>, c: char, k: int)
    requires
        0 <= k <= s.len(),
        forall|j: int| 0 <= j < k ==> s[j] == c,
        k < s.len() ==> s[k] != c,
    ensures
        leading_char_count(s, c) == k,
    decreases s.len(),
{
    if k == 0 {
    } else {
        let tail = s.subrange(1, s.len() as int);
        lemma_leading_char_count(tail, c, k - 1);
    }
}

} // verus!
