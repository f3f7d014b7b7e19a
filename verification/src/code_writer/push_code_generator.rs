//! Code that pushes a value onto the operand stack.

use crate::code_writer::constant::{POINTER_BASE_ADDRESS, TEMP_BASE_ADDRESS};
use crate::code_writer::helper::{camel_case_filename_without_extention, unit_name};
use crate::code_writer::segment::{segment_of, Segment};
use crate::error::TranslateError;
use crate::text::{append_lines, is_decimal, is_decimal_str, push_line};
use vstd::prelude::*;
use vstd::string::*;

verus! {

/// The tail of every push: store the working register in the cell that the
/// stack pointer designates, then move the stack pointer up by one.
pub open spec fn push_d_to_sp_code() -> Seq<Seq<char>> {
    seq!["@SP"@, "A=M"@, "M=D"@, "@SP"@, "M=M+1"@]
}

/// Push of the literal `constant`.
pub open spec fn push_constant_code(constant: Seq<char>) -> Seq<Seq<char>> {
    seq!["@"@ + constant, "D=A"@] + push_d_to_sp_code()
}

/// Push of the cell `index` places above the address held in `register`.
pub open spec fn push_segment_code(index: Seq<char>, register: Seq<char>) -> Seq<Seq<char>> {
    seq!["@"@ + register, "D=M"@, "@"@ + index, "A=D+A"@, "D=M"@] + push_d_to_sp_code()
}

/// Push of the static variable `index` of the unit `unit`.
pub open spec fn push_static_code(index: Seq<char>, unit: Seq<char>) -> Seq<Seq<char>> {
    seq!["@"@ + unit + "."@ + index, "D=M"@] + push_d_to_sp_code()
}

/// Push of the cell `index` places above the fixed address `base`.
pub open spec fn push_pointer_and_temp_code(index: Seq<char>, base: Seq<char>) -> Seq<
    Seq<char>,
> {
    seq!["@"@ + base, "D=A"@, "@"@ + index, "A=D+A"@, "D=M"@] + push_d_to_sp_code()
}

/// The code of `push segment index` in the unit read from `file_name`.
pub open spec fn push_code(segment: Segment, index: Seq<char>, file_name: Seq<char>) -> Seq<
    Seq<char>,
> {
    match segment {
        Segment::CONSTANT => push_constant_code(index),
        Segment::LOCAL => push_segment_code(index, "LCL"@),
        Segment::ARGUMENT => push_segment_code(index, "ARG"@),
        Segment::THIS => push_segment_code(index, "THIS"@),
        Segment::THAT => push_segment_code(index, "THAT"@),
        Segment::POINTER => push_pointer_and_temp_code(index, POINTER_BASE_ADDRESS@),
        Segment::TEMP => push_pointer_and_temp_code(index, TEMP_BASE_ADDRESS@),
        Segment::STATIC => push_static_code(index, unit_name(file_name)),
    }
}

/// What translating `push segment index` gives: the code, or the reason why
/// the command is refused. It is refused when the segment name is unknown or
/// the index is no decimal numeral.
pub open spec fn generate_push_spec(
    segment: Seq<char>,
    index: Seq<char>,
    file_name: Seq<char>,
) -> Result<Seq<Seq<char>>, TranslateError> {
    match segment_of(segment) {
        Some(s) if is_decimal(index) => Ok(push_code(s, index, file_name)),
        _ => Err(TranslateError::MalformedCommand),
    }
}

/// Translates `push segment index` for the unit read from `file_name`.
pub fn generate_push_code(segment: &str, index: &str, file_name: &str) -> (res: Result<
    Vec<String>,
    TranslateError,
>)
    ensures
        match res {
            Ok(code) => generate_push_spec(segment@, index@, file_name@) == Ok::<
                Seq<Seq<char>>,
                TranslateError,
            >(code.deep_view()),
            Err(e) => generate_push_spec(segment@, index@, file_name@) == Err::<
                Seq<Seq<char>>,
                TranslateError,
            >(e),
        },
{
    let resolved = Segment::from_str(segment);
    if !is_decimal_str(index) {
        return Err(TranslateError::MalformedCommand);
    }
    match resolved {
        Some(Segment::CONSTANT) => Ok(push_constant(index)),
        Some(Segment::LOCAL) => Ok(push_segment(index, "LCL")),
        Some(Segment::ARGUMENT) => Ok(push_segment(index, "ARG")),
        Some(Segment::THIS) => Ok(push_segment(index, "THIS")),
        Some(Segment::THAT) => Ok(push_segment(index, "THAT")),
        Some(Segment::POINTER) => Ok(push_pointer_and_temp(index, POINTER_BASE_ADDRESS)),
        Some(Segment::TEMP) => Ok(push_pointer_and_temp(index, TEMP_BASE_ADDRESS)),
        Some(Segment::STATIC) => {
            let constant_name = camel_case_filename_without_extention(file_name);
            Ok(push_static(index, constant_name.as_str()))
        },
        None => Err(TranslateError::MalformedCommand),
    }
}

/// Code that pushes the literal `constant`.
pub fn push_constant(constant: &str) -> (res: Vec<String>)
    ensures
        res.deep_view() == push_constant_code(constant@),
{
    let mut res: Vec<String> = Vec::new();
    push_line(&mut res, "@".to_owned().concat(constant).as_str());
    push_line(&mut res, "D=A");
    append_lines(&mut res, generate_push_d_to_sp_code());
    assert(res.deep_view() =~= push_constant_code(constant@));
    res
}

/// Code that pushes the cell `index` places above the address in `segment`.
pub fn push_segment(index: &str, segment: &str) -> (res: Vec<String>)
    ensures
        res.deep_view() == push_segment_code(index@, segment@),
{
    let mut res: Vec<String> = Vec::new();
    push_line(&mut res, "@".to_owned().concat(segment).as_str());
    push_line(&mut res, "D=M");
    push_line(&mut res, "@".to_owned().concat(index).as_str());
    push_line(&mut res, "A=D+A");
    push_line(&mut res, "D=M");
    append_lines(&mut res, generate_push_d_to_sp_code());
    assert(res.deep_view() =~= push_segment_code(index@, segment@));
    res
}

/// Code that pushes the static variable `index` of the unit `constant_name`.
pub fn push_static(index: &str, constant_name: &str) -> (res: Vec<String>)
    ensures
        res.deep_view() == push_static_code(index@, constant_name@),
{
    let mut res: Vec<String> = Vec::new();
    push_line(
        &mut res,
        "@".to_owned().concat(constant_name).concat(".").concat(index).as_str(),
    );
    push_line(&mut res, "D=M");
    append_lines(&mut res, generate_push_d_to_sp_code());
    assert(res.deep_view() =~= push_static_code(index@, constant_name@));
    res
}

/// Code that pushes the cell `index` places above the address `base_address`.
pub fn push_pointer_and_temp(index: &str, base_address: &str) -> (res: Vec<String>)
    ensures
        res.deep_view() == push_pointer_and_temp_code(index@, base_address@),
{
    let mut res: Vec<String> = Vec::new();
    push_line(&mut res, "@".to_owned().concat(base_address).as_str());
    push_line(&mut res, "D=A");
    push_line(&mut res, "@".to_owned().concat(index).as_str());
    push_line(&mut res, "A=D+A");
    push_line(&mut res, "D=M");
    append_lines(&mut res, generate_push_d_to_sp_code());
    assert(res.deep_view() =~= push_pointer_and_temp_code(index@, base_address@));
    res
}

/// Code that pushes the working register.
pub fn generate_push_d_to_sp_code() -> (res: Vec<String>)
    ensures
        res.deep_view() == push_d_to_sp_code(),
{
    let mut res: Vec<String> = Vec::new();
    push_line(&mut res, "@SP");
    push_line(&mut res, "A=M");
    push_line(&mut res, "M=D");
    push_line(&mut res, "@SP");
    push_line(&mut res, "M=M+1");
    assert(res.deep_view() =~= push_d_to_sp_code());
    res
}

} // verus!
