//! Characters, decimal numerals and small string helpers.

use vstd::prelude::*;

verus! {

/// Whether `c` has the Unicode property `White_Space`.
pub open spec fn is_whitespace(c: char) -> bool {
    let n = c as u32;
    (0x09 <= n && n <= 0x0d) || n == 0x20 || n == 0x85 || n == 0xa0 || n == 0x1680 || (0x2000
        <= n && n <= 0x200a) || n == 0x2028 || n == 0x2029 || n == 0x202f || n == 0x205f || n
        == 0x3000
}

/// Whether `c` is one of the ten ASCII digits.
pub open spec fn is_digit(c: char) -> bool {
    '0' <= c && c <= '9'
}

/// The numeric value of an ASCII digit.
pub open spec fn digit_value(c: char) -> nat
    recommends
        is_digit(c),
{
    (c as u32 - '0' as u32) as nat
}

/// The ASCII digit that stands for a value below ten.
pub open spec fn digit_char(d: nat) -> char
    recommends
        d < 10,
{
    (d + 48) as u8 as char
}

/// The decimal numeral of `n`, without leading zeros.
pub open spec fn decimal(n: nat) -> Seq<char>
    decreases n,
{
    if n < 10 {
        seq![digit_char(n)]
    } else {
        decimal(n / 10).push(digit_char(n % 10))
    }
}

/// Whether `s` is a decimal numeral: one or more ASCII digits and nothing else.
pub open spec fn is_decimal(s: Seq<char>) -> bool {
    s.len() > 0 && forall|i: int| 0 <= i < s.len() ==> is_digit(#[trigger] s[i])
}

/// The number that a string of ASCII digits denotes; the empty string denotes zero.
pub open spec fn decimal_value(s: Seq<char>) -> nat
    decreases s.len(),
{
    if s.len() == 0 {
        0
    } else {
        10 * decimal_value(s.drop_last()) + digit_value(s.last())
    }
}

/// The numeral of a number consists of digits only.
pub proof fn lemma_decimal_is_decimal(n: nat)
    ensures
        is_decimal(decimal(n)),
    decreases n,
{
    if n >= 10 {
        lemma_decimal_is_decimal(n / 10);
    }
}

/// Reading the numeral of a number gives the number back.
pub proof fn lemma_decimal_value_of_decimal(n: nat)
    ensures
        decimal_value(decimal(n)) == n,
    decreases n,
{
    if n < 10 {
        assert(decimal(n).drop_last() =~= Seq::<char>::empty());
        assert(decimal_value(decimal(n).drop_last()) == 0);
    } else {
        lemma_decimal_value_of_decimal(n / 10);
        assert(decimal(n).drop_last() =~= decimal(n / 10));
    }
}

/// Different numbers have different numerals.
pub proof fn lemma_decimal_injective(a: nat, b: nat)
    ensures
        decimal(a) == decimal(b) <==> a == b,
{
    lemma_decimal_value_of_decimal(a);
    lemma_decimal_value_of_decimal(b);
}

/// Tells whether `c` is white space.
pub fn is_whitespace_char(c: char) -> (res: bool)
    ensures
        res == is_whitespace(c),
{
    let n: u32 = c as u32;
    (0x09 <= n && n <= 0x0d) || n == 0x20 || n == 0x85 || n == 0xa0 || n == 0x1680 || (0x2000
        <= n && n <= 0x200a) || n == 0x2028 || n == 0x2029 || n == 0x202f || n == 0x205f || n
        == 0x3000
}

/// The characters of a string, in order.
pub fn chars_of(s: &str) -> (res: Vec<char>)
    ensures
        res@ == s@,
{
    let mut res: Vec<char> = Vec::new();
    for c in it: s.chars()
        invariant
            it.seq() == s@,
            res@ == it.seq().take(it.index() as int),
    {
        res.push(c);
    }
    assert(res@ =~= s@);
    res
}

/// Tells whether two strings hold the same characters.
pub fn same_text(a: &str, b: &str) -> (res: bool)
    ensures
        res == (a@ == b@),
{
    a.to_owned() == b.to_owned()
}

/// The one-character string for a value below ten.
fn digit_str(d: u8) -> (res: &'static str)
    requires
        d < 10,
    ensures
        res@ == seq![digit_char(d as nat)],
{
    proof {
        reveal_strlit("0");
        reveal_strlit("1");
        reveal_strlit("2");
        reveal_strlit("3");
        reveal_strlit("4");
        reveal_strlit("5");
        reveal_strlit("6");
        reveal_strlit("7");
        reveal_strlit("8");
        reveal_strlit("9");
    }
    let res = if d == 0 {
        "0"
    } else if d == 1 {
        "1"
    } else if d == 2 {
        "2"
    } else if d == 3 {
        "3"
    } else if d == 4 {
        "4"
    } else if d == 5 {
        "5"
    } else if d == 6 {
        "6"
    } else if d == 7 {
        "7"
    } else if d == 8 {
        "8"
    } else {
        "9"
    };
    assert(res@ =~= seq![digit_char(d as nat)]);
    res
}

/// Writes `n` as a decimal numeral.
pub fn decimal_string(n: usize) -> (res: String)
    ensures
        res@ == decimal(n as nat),
{
    let mut rest: usize = n / 10;
    let mut res: String = digit_str((n % 10) as u8).to_owned();
    proof {
        if n < 10 {
            assert(decimal(n as nat) =~= Seq::<char>::empty() + res@);
        } else {
            assert(decimal(n as nat) =~= decimal(rest as nat) + res@);
        }
    }
    while rest > 0
        invariant
            decimal(n as nat) == if rest > 0 {
                decimal(rest as nat) + res@
            } else {
                res@
            },
        decreases rest,
    {
        let head: String = digit_str((rest % 10) as u8).to_owned();
        let ghost before = rest;
        let ghost tail = res@;
        res = head.concat(res.as_str());
        rest = rest / 10;
        proof {
            if before < 10 {
                assert(decimal(before as nat) + tail =~= res@);
            } else {
                assert(decimal(before as nat) + tail =~= decimal(rest as nat) + res@);
            }
        }
    }
    res
}

/// Tells whether `s` is a decimal numeral.
pub fn is_decimal_str(s: &str) -> (res: bool)
    ensures
        res == is_decimal(s@),
{
    let chars = chars_of(s);
    if chars.len() == 0 {
        return false;
    }
    let mut i: usize = 0;
    while i < chars.len()
        invariant
            i <= chars.len(),
            chars@ == s@,
            forall|j: int| 0 <= j < i ==> is_digit(#[trigger] s@[j]),
        decreases chars.len() - i,
    {
        let c = chars[i];
        if !('0' <= c && c <= '9') {
            return false;
        }
        i += 1;
    }
    true
}

/// Reads a decimal numeral that denotes at most `limit`.
pub fn parse_decimal(s: &str, limit: u32) -> (res: Option<u32>)
    ensures
        res == if is_decimal(s@) && decimal_value(s@) <= limit {
            Some(decimal_value(s@) as u32)
        } else {
            None
        },
{
    let chars = chars_of(s);
    if chars.len() == 0 {
        return None;
    }
    let mut value: u32 = 0;
    let mut i: usize = 0;
    while i < chars.len()
        invariant
            i <= chars.len(),
            chars@ == s@,
            forall|j: int| 0 <= j < i ==> is_digit(#[trigger] s@[j]),
            value == decimal_value(s@.take(i as int)),
            value <= limit,
        decreases chars.len() - i,
    {
        let c = chars[i];
        if !('0' <= c && c <= '9') {
            return None;
        }
        let d: u32 = c as u32 - '0' as u32;
        proof {
            assert(s@.take(i + 1).drop_last() =~= s@.take(i as int));
            lemma_decimal_value_grows(s@, i + 1);
        }
        if d > limit || value > (limit - d) / 10 {
            return None;
        }
        value = value * 10 + d;
        i += 1;
    }
    assert(s@.take(i as int) =~= s@);
    Some(value)
}

/// A numeral denotes at least what any of its prefixes denotes.
proof fn lemma_decimal_value_grows(s: Seq<char>, k: int)
    requires
        0 <= k <= s.len(),
    ensures
        decimal_value(s.take(k)) <= decimal_value(s),
    decreases s.len() - k,
{
    if k < s.len() {
        lemma_decimal_value_grows(s, k + 1);
        assert(s.take(k + 1).drop_last() =~= s.take(k));
    } else {
        assert(s.take(k) =~= s);
    }
}

/// Appends one line to a listing.
pub fn push_line(code: &mut Vec<String>, text: &str)
    ensures
        final(code).deep_view() == old(code).deep_view().push(text@),
{
    code.push(text.to_owned());
    assert(code.deep_view() =~= old(code).deep_view().push(text@));
}

/// Appends the lines of `more` to a listing.
pub fn append_lines(code: &mut Vec<String>, more: Vec<String>)
    ensures
        final(code).deep_view() == old(code).deep_view() + more.deep_view(),
{
    let mut more = more;
    let ghost added = more.deep_view();
    let ghost items = more@;
    code.append(&mut more);
    assert(code.deep_view() =~= old(code).deep_view() + added) by {
        assert(code@ == old(code)@ + items);
        assert forall|i: int| 0 <= i < code@.len() implies code.deep_view()[i] == (old(
            code,
        ).deep_view() + added)[i] by {
            if i >= old(code)@.len() {
                assert(code@[i] == items[i - old(code)@.len()]);
            }
        }
    }
}

} // verus!
