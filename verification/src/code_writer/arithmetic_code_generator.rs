//! Code for the arithmetic and logical commands.
//!
//! There is one template for each shape of command: unary, binary and
//! comparison. The operator or the jump condition is spliced into it.

use crate::text::{
    decimal, decimal_string, is_digit, lemma_decimal_injective, lemma_decimal_is_decimal, push_line,
};
use vstd::prelude::*;
use vstd::string::*;

verus! {

/// A unary command: replace the top of the stack by `operator` applied to it.
pub open spec fn one_operand_code(operator: Seq<char>) -> Seq<Seq<char>> {
    seq!["@SP"@, "M=M-1"@, "A=M"@, "M="@ + operator + "M"@, "@SP"@, "M=M+1"@]
}

/// A binary command: pop the right operand, then replace the new top of the
/// stack, the left operand, by the result.
pub open spec fn two_operands_code(operator: Seq<char>) -> Seq<Seq<char>> {
    seq![
        "@SP"@,
        "M=M-1"@,
        "A=M"@,
        "D=M"@,
        "@SP"@,
        "M=M-1"@,
        "A=M"@,
        "M=M"@ + operator + "D"@,
        "@SP"@,
        "M=M+1"@,
    ]
}

/// The label to which comparison number `count` jumps when it holds.
pub open spec fn true_label(count: nat) -> Seq<char> {
    "IF_CONDITION."@ + decimal(count)
}

/// The label at which both branches of comparison number `count` meet.
pub open spec fn join_label(count: nat) -> Seq<char> {
    "IF_CONDITION."@ + decimal(count) + ".FINAL"@
}

/// Comparison number `count`: pop the right operand, subtract it from the
/// left one, and replace the left operand by all ones if the difference
/// meets `condition`, by zero otherwise.
pub open spec fn condition_code(count: nat, condition: Seq<char>) -> Seq<Seq<char>> {
    seq![
        "@SP"@,
        "M=M-1"@,
        "A=M"@,
        "D=M"@,
        "@SP"@,
        "M=M-1"@,
        "A=M"@,
        "MD=M-D"@,
        "@"@ + true_label(count),
        "D;"@ + condition,
        "@SP"@,
        "A=M"@,
        "M=0"@,
        "@"@ + join_label(count),
        "0;JMP"@,
        "("@ + true_label(count) + ")"@,
        "@SP"@,
        "A=M"@,
        "M=-1"@,
        "("@ + join_label(count) + ")"@,
        "@SP"@,
        "M=M+1"@,
    ]
}

/// No two comparisons share a label: comparisons with different numbers
/// have different labels of each kind, and the label to which one jumps is
/// never the label at which one meets, whatever the numbers.
pub proof fn lemma_comparison_labels_differ(m: nat, n: nat)
    ensures
        m != n ==> true_label(m) != true_label(n),
        m != n ==> join_label(m) != join_label(n),
        true_label(m) != join_label(n),
{
    let prefix = "IF_CONDITION."@;
    let suffix = ".FINAL"@;
    lemma_decimal_injective(m, n);
    lemma_decimal_is_decimal(m);
    assert(true_label(m).skip(prefix.len() as int) =~= decimal(m));
    assert(true_label(n).skip(prefix.len() as int) =~= decimal(n));
    assert(join_label(m).skip(prefix.len() as int) =~= decimal(m) + suffix);
    assert(join_label(n).skip(prefix.len() as int) =~= decimal(n) + suffix);
    if join_label(m) == join_label(n) {
        assert((decimal(m) + suffix).len() == (decimal(n) + suffix).len());
        assert((decimal(m) + suffix).take(decimal(m).len() as int) =~= decimal(m));
        assert((decimal(n) + suffix).take(decimal(n).len() as int) =~= decimal(n));
    }
    if true_label(m) == join_label(n) {
        reveal_strlit(".FINAL");
        assert(is_digit(decimal(m).last()));
        assert((decimal(n) + suffix).last() == 'L');
        assert(false);
    }
}

/// Code for `neg`.
pub fn neg() -> (res: Vec<String>)
    ensures
        res.deep_view() == one_operand_code("-"@),
{
    make_one_operand_code("-")
}

/// Code for `not`.
pub fn not() -> (res: Vec<String>)
    ensures
        res.deep_view() == one_operand_code("!"@),
{
    make_one_operand_code("!")
}

/// Code for the unary command with the given operator.
pub fn make_one_operand_code(operator: &str) -> (res: Vec<String>)
    ensures
        res.deep_view() == one_operand_code(operator@),
{
    let mut res: Vec<String> = Vec::new();
    push_line(&mut res, "@SP");
    push_line(&mut res, "M=M-1");
    push_line(&mut res, "A=M");
    push_line(&mut res, "M=".to_owned().concat(operator).concat("M").as_str());
    push_line(&mut res, "@SP");
    push_line(&mut res, "M=M+1");
    assert(res.deep_view() =~= one_operand_code(operator@));
    res
}

/// Code for `add`.
pub fn add() -> (res: Vec<String>)
    ensures
        res.deep_view() == two_operands_code("+"@),
{
    make_two_operands_code("+")
}

/// Code for `sub`.
pub fn sub() -> (res: Vec<String>)
    ensures
        res.deep_view() == two_operands_code("-"@),
{
    make_two_operands_code("-")
}

/// Code for `and`.
pub fn and() -> (res: Vec<String>)
    ensures
        res.deep_view() == two_operands_code("&"@),
{
    make_two_operands_code("&")
}

/// Code for `or`.
pub fn or() -> (res: Vec<String>)
    ensures
        res.deep_view() == two_operands_code("|"@),
{
    make_two_operands_code("|")
}

/// Code for the binary command with the given operator.
pub fn make_two_operands_code(operator: &str) -> (res: Vec<String>)
    ensures
        res.deep_view() == two_operands_code(operator@),
{
    let mut res: Vec<String> = Vec::new();
    push_line(&mut res, "@SP");
    push_line(&mut res, "M=M-1");
    push_line(&mut res, "A=M");
    push_line(&mut res, "D=M");
    push_line(&mut res, "@SP");
    push_line(&mut res, "M=M-1");
    push_line(&mut res, "A=M");
    push_line(&mut res, "M=M".to_owned().concat(operator).concat("D").as_str());
    push_line(&mut res, "@SP");
    push_line(&mut res, "M=M+1");
    assert(res.deep_view() =~= two_operands_code(operator@));
    res
}

/// Code for `eq`, as comparison number `symbol_count`.
pub fn eq(symbol_count: &usize) -> (res: Vec<String>)
    ensures
        res.deep_view() == condition_code(*symbol_count as nat, "JEQ"@),
{
    make_condition_code(symbol_count, "JEQ")
}

/// Code for `gt`, as comparison number `symbol_count`.
pub fn gt(symbol_count: &usize) -> (res: Vec<String>)
    ensures
        res.deep_view() == condition_code(*symbol_count as nat, "JGT"@),
{
    make_condition_code(symbol_count, "JGT")
}

/// Code for `lt`, as comparison number `symbol_count`.
pub fn lt(symbol_count: &usize) -> (res: Vec<String>)
    ensures
        res.deep_view() == condition_code(*symbol_count as nat, "JLT"@),
{
    make_condition_code(symbol_count, "JLT")
}

/// Code for comparison number `symbol_count` with the given jump condition.
pub fn make_condition_code(symbol_count: &usize, condition: &str) -> (res: Vec<String>)
    ensures
        res.deep_view() == condition_code(*symbol_count as nat, condition@),
{
    let number = decimal_string(*symbol_count);
    let on_true = "IF_CONDITION.".to_owned().concat(number.as_str());
    let join = "IF_CONDITION.".to_owned().concat(number.as_str()).concat(".FINAL");
    let mut res: Vec<String> = Vec::new();
    push_line(&mut res, "@SP");
    push_line(&mut res, "M=M-1");
    push_line(&mut res, "A=M");
    push_line(&mut res, "D=M");
    push_line(&mut res, "@SP");
    push_line(&mut res, "M=M-1");
    push_line(&mut res, "A=M");
    push_line(&mut res, "MD=M-D");
    push_line(&mut res, "@".to_owned().concat(on_true.as_str()).as_str());
    push_line(&mut res, "D;".to_owned().concat(condition).as_str());
    push_line(&mut res, "@SP");
    push_line(&mut res, "A=M");
    push_line(&mut res, "M=0");
    push_line(&mut res, "@".to_owned().concat(join.as_str()).as_str());
    push_line(&mut res, "0;JMP");
    push_line(&mut res, "(".to_owned().concat(on_true.as_str()).concat(")").as_str());
    push_line(&mut res, "@SP");
    push_line(&mut res, "A=M");
    push_line(&mut res, "M=-1");
    push_line(&mut res, "(".to_owned().concat(join.as_str()).concat(")").as_str());
    push_line(&mut res, "@SP");
    push_line(&mut res, "M=M+1");
    assert(res.deep_view() =~= condition_code(*symbol_count as nat, condition@));
    res
}

} // verus!
