//! The name under which a translation unit keeps its static variables.

use crate::text::chars_of;
use vstd::prelude::*;
use vstd::string::*;

verus! {

/// What `str::to_lowercase` returns for a string of these characters.
pub uninterp spec fn lowercase_of(s: Seq<char>) -> Seq<char>;

/// What `str::to_uppercase` returns for a string of these characters.
pub uninterp spec fn uppercase_of(s: Seq<char>) -> Seq<char>;

/// Calls `str::to_lowercase`. Nothing is proved of Unicode's case mapping:
/// the contract only gives the result its name.
#[verifier::external_body]
fn to_lowercase(s: &str) -> (res: String)
    ensures
        res@ == lowercase_of(s@),
{
    s.to_lowercase()
}

/// Calls `str::to_uppercase`. Nothing is proved of Unicode's case mapping:
/// the contract only gives the result its name.
#[verifier::external_body]
fn to_uppercase(s: &str) -> (res: String)
    ensures
        res@ == uppercase_of(s@),
{
    s.to_uppercase()
}

/// What follows the last `/` of a path; the whole path if it has none.
pub open spec fn last_component(path: Seq<char>) -> Seq<char>
    decreases path.len(),
{
    if path.len() == 0 || path.last() == '/' {
        Seq::empty()
    } else {
        last_component(path.drop_last()).push(path.last())
    }
}

/// `s` with every occurrence of `pattern` taken out, found from the left and
/// without overlap. An empty pattern occurs nowhere.
pub open spec fn without_pattern(s: Seq<char>, pattern: Seq<char>) -> Seq<char>
    decreases s.len(),
{
    if pattern.len() == 0 || s.len() < pattern.len() {
        s
    } else if s.take(pattern.len() as int) == pattern {
        without_pattern(s.skip(pattern.len() as int), pattern)
    } else {
        seq![s[0]] + without_pattern(s.skip(1), pattern)
    }
}

/// The file name of a path without the extension `.vm`.
pub open spec fn stem_of(path: Seq<char>) -> Seq<char> {
    without_pattern(last_component(path), ".vm"@)
}

/// `lowered` with its first character replaced by `capital`.
pub open spec fn with_capital(capital: Seq<char>, lowered: Seq<char>) -> Seq<char> {
    if lowered.len() == 0 {
        Seq::empty()
    } else {
        capital + lowered.skip(1)
    }
}

/// The name of the unit that was read from the file at `path`: the stem in
/// lower case, but for its first character, which is in upper case.
pub open spec fn unit_name(path: Seq<char>) -> Seq<char> {
    let lowered = lowercase_of(stem_of(path));
    with_capital(uppercase_of(lowered.take(1)), lowered)
}

proof fn lemma_last_component(path: Seq<char>, k: int)
    requires
        0 <= k <= path.len(),
        forall|j: int| k <= j < path.len() ==> path[j] != '/',
        k == 0 || path[k - 1] == '/',
    ensures
        last_component(path) == path.skip(k),
    decreases path.len(),
{
    if k == path.len() {
        assert(path.skip(k) =~= Seq::<char>::empty());
    } else {
        lemma_last_component(path.drop_last(), k);
        assert(path.drop_last().skip(k).push(path.last()) =~= path.skip(k));
    }
}

/// Tells whether `pattern` stands in `text` at position `at`.
fn occurs_at(text: &Vec<char>, pattern: &Vec<char>, at: usize) -> (res: bool)
    requires
        at + pattern.len() <= text.len(),
    ensures
        res == (text@.subrange(at as int, at + pattern.len()) == pattern@),
{
    let mut k: usize = 0;
    while k < pattern.len()
        invariant
            k <= pattern.len(),
            at + pattern.len() <= text.len(),
            forall|j: int| 0 <= j < k ==> text@[at + j] == pattern@[j],
        decreases pattern.len() - k,
    {
        if text[at + k] != pattern[k] {
            assert(text@.subrange(at as int, at + pattern.len())[k as int] != pattern@[k as int]);
            return false;
        }
        k += 1;
    }
    assert(text@.subrange(at as int, at + pattern.len()) =~= pattern@);
    true
}

/// Takes every occurrence of `pattern` out of `s`.
pub fn remove_all(s: &str, pattern: &str) -> (res: String)
    ensures
        res@ == without_pattern(s@, pattern@),
{
    let text = chars_of(s);
    let pat = chars_of(pattern);
    let n = text.len();
    let m = pat.len();
    if m == 0 {
        return s.to_owned();
    }
    let mut res = String::new();
    let mut start: usize = 0;
    let mut i: usize = 0;
    assert(res@ + s@.subrange(0, 0) + without_pattern(s@.skip(0), pattern@) =~= without_pattern(
        s@,
        pattern@,
    )) by {
        assert(s@.skip(0) =~= s@);
    }
    while n - i >= m
        invariant
            start <= i <= n,
            n == s@.len(),
            m == pattern@.len(),
            m > 0,
            text@ == s@,
            pat@ == pattern@,
            without_pattern(s@, pattern@) == res@ + s@.subrange(start as int, i as int)
                + without_pattern(s@.skip(i as int), pattern@),
        decreases n - i,
    {
        let ghost rest = s@.skip(i as int);
        assert(rest.take(m as int) =~= s@.subrange(i as int, i + m));
        if occurs_at(&text, &pat, i) {
            res.append(s.substring_char(start, i));
            i += m;
            start = i;
            assert(rest.skip(m as int) =~= s@.skip(i as int));
            assert(s@.subrange(start as int, i as int) =~= Seq::<char>::empty());
        } else {
            assert(rest.skip(1) =~= s@.skip(i + 1));
            assert(s@.subrange(start as int, i as int) + seq![rest[0]] =~= s@.subrange(
                start as int,
                i + 1,
            ));
            i += 1;
        }
    }
    res.append(s.substring_char(start, n));
    assert(s@.subrange(start as int, i as int) + s@.skip(i as int) =~= s@.subrange(
        start as int,
        n as int,
    ));
    res
}

/// The file name of `path` without the extension `.vm`.
pub fn file_stem(path: &str) -> (res: String)
    ensures
        res@ == stem_of(path@),
{
    let chars = chars_of(path);
    let mut k: usize = chars.len();
    while k > 0 && chars[k - 1] != '/'
        invariant
            k <= chars.len(),
            chars@ == path@,
            forall|j: int| k <= j < chars.len() ==> path@[j] != '/',
        decreases k,
    {
        k -= 1;
    }
    proof {
        lemma_last_component(path@, k as int);
    }
    remove_all(path.substring_char(k, chars.len()), ".vm")
}

/// Puts `capital` in the place of the first character of `lowered`.
pub fn capitalize_with(capital: &str, lowered: &str) -> (res: String)
    ensures
        res@ == with_capital(capital@, lowered@),
{
    let n = lowered.unicode_len();
    if n == 0 {
        String::new()
    } else {
        capital.to_owned().concat(lowered.substring_char(1, n))
    }
}

/// The name of the unit that was read from the file `filename`.
pub fn camel_case_filename_without_extention(filename: &str) -> (res: String)
    ensures
        res@ == unit_name(filename@),
{
    let stem = file_stem(filename);
    let lowered = to_lowercase(stem.as_str());
    if lowered.as_str().unicode_len() == 0 {
        return String::new();
    }
    let capital = to_uppercase(lowered.as_str().substring_char(0, 1));
    capitalize_with(capital.as_str(), lowered.as_str())
}

} // verus!
