//! Code that pops the top of the operand stack into a memory cell.

use crate::code_writer::constant::{POINTER_BASE_ADDRESS, TEMP_BASE_ADDRESS};
use crate::code_writer::helper::{camel_case_filename_without_extention, unit_name};
use crate::code_writer::segment::{segment_of, Segment};
use crate::error::TranslateError;
use crate::text::{append_lines, is_decimal, is_decimal_str, push_line};
use vstd::prelude::*;
use vstd::string::*;

verus! {

/// The tail of every pop: move the stack pointer down by one, read the cell
/// it now designates, and store the value in the cell whose address the
/// scratch register `R13` holds.
pub open spec fn pop_sp_to_r13_code() -> Seq<Seq<char>> {
    seq!["@SP"@, "AM=M-1"@, "D=M"@, "@R13"@, "A=M"@, "M=D"@]
}

/// Pop into the cell `index` places above the address held in `register`.
/// The address is computed and put into `R13` before the stack is touched.
pub open spec fn pop_segment_code(index: Seq<char>, register: Seq<char>) -> Seq<Seq<char>> {
    seq!["@"@ + register, "D=M"@, "@"@ + index, "D=D+A"@, "@R13"@, "M=D"@]
        + pop_sp_to_r13_code()
}

/// Pop into the cell `index` places above the fixed address `base`.
pub open spec fn pop_pointer_and_temp_code(index: Seq<char>, base: Seq<char>) -> Seq<Seq<char>> {
    seq!["@"@ + base, "D=A"@, "@"@ + index, "D=D+A"@, "@R13"@, "M=D"@] + pop_sp_to_r13_code()
}

/// Pop into the static variable `index` of the unit `unit`.
pub open spec fn pop_static_code(index: Seq<char>, unit: Seq<char>) -> Seq<Seq<char>> {
    seq!["@"@ + unit + "."@ + index, "D=A"@, "@R13"@, "M=D"@] + pop_sp_to_r13_code()
}

/// The code of `pop segment index` in the unit read from `file_name`. The
/// segment `constant` is no storage and has no such code.
pub open spec fn pop_code(segment: Segment, index: Seq<char>, file_name: Seq<char>) -> Seq<
    Seq<char>,
>
    recommends
        segment != Segment::CONSTANT,
{
    match segment {
        Segment::LOCAL => pop_segment_code(index, "LCL"@),
        Segment::ARGUMENT => pop_segment_code(index, "ARG"@),
        Segment::THIS => pop_segment_code(index, "THIS"@),
        Segment::THAT => pop_segment_code(index, "THAT"@),
        Segment::POINTER => pop_pointer_and_temp_code(index, POINTER_BASE_ADDRESS@),
        Segment::TEMP => pop_pointer_and_temp_code(index, TEMP_BASE_ADDRESS@),
        Segment::STATIC => pop_static_code(index, unit_name(file_name)),
        Segment::CONSTANT => Seq::empty(),
    }
}

/// What translating `pop segment index` gives: the code, or the reason why
/// the command is refused. It is malformed when the segment name is unknown
/// or the index is no decimal numeral, and unsupported when it is well
/// formed but names the segment `constant`.
pub open spec fn generate_pop_spec(
    segment: Seq<char>,
    index: Seq<char>,
    file_name: Seq<char>,
) -> Result<Seq<Seq<char>>, TranslateError> {
    match segment_of(segment) {
        Some(s) if is_decimal(index) => if s == Segment::CONSTANT {
            Err(TranslateError::UnsupportedOperation)
        } else {
            Ok(pop_code(s, index, file_name))
        },
        _ => Err(TranslateError::MalformedCommand),
    }
}

/// Translates `pop segment index` for the unit read from `file_name`.
pub fn generate_pop_code(segment: &str, index: &str, file_name: &str) -> (res: Result<
    Vec<String>,
    TranslateError,
>)
    ensures
        match res {
            Ok(code) => generate_pop_spec(segment@, index@, file_name@) == Ok::<
                Seq<Seq<char>>,
                TranslateError,
            >(code.deep_view()),
            Err(e) => generate_pop_spec(segment@, index@, file_name@) == Err::<
                Seq<Seq<char>>,
                TranslateError,
            >(e),
        },
{
    let resolved = Segment::from_str(segment);
    if !is_decimal_str(index) {
        return Err(TranslateError::MalformedCommand);
    }
    match resolved {
        Some(Segment::LOCAL) => Ok(pop_segment(index, "LCL")),
        Some(Segment::ARGUMENT) => Ok(pop_segment(index, "ARG")),
        Some(Segment::THIS) => Ok(pop_segment(index, "THIS")),
        Some(Segment::THAT) => Ok(pop_segment(index, "THAT")),
        Some(Segment::POINTER) => Ok(pop_pointer_and_temp(index, POINTER_BASE_ADDRESS)),
        Some(Segment::TEMP) => Ok(pop_pointer_and_temp(index, TEMP_BASE_ADDRESS)),
        Some(Segment::STATIC) => {
            let constant_name = camel_case_filename_without_extention(file_name);
            Ok(pop_static(index, constant_name.as_str()))
        },
        Some(Segment::CONSTANT) => Err(TranslateError::UnsupportedOperation),
        None => Err(TranslateError::MalformedCommand),
    }
}

/// Code that pops into the cell `index` places above the address in `segment`.
pub fn pop_segment(index: &str, segment: &str) -> (res: Vec<String>)
    ensures
        res.deep_view() == pop_segment_code(index@, segment@),
{
    let mut res: Vec<String> = Vec::new();
    push_line(&mut res, "@".to_owned().concat(segment).as_str());
    push_line(&mut res, "D=M");
    push_line(&mut res, "@".to_owned().concat(index).as_str());
    push_line(&mut res, "D=D+A");
    push_line(&mut res, "@R13");
    push_line(&mut res, "M=D");
    append_lines(&mut res, generate_pop_sp_to_r13_code());
    assert(res.deep_view() =~= pop_segment_code(index@, segment@));
    res
}

/// Code that pops into the cell `index` places above the address `base_address`.
pub fn pop_pointer_and_temp(index: &str, base_address: &str) -> (res: Vec<String>)
    ensures
        res.deep_view() == pop_pointer_and_temp_code(index@, base_address@),
{
    let mut res: Vec<String> = Vec::new();
    push_line(&mut res, "@".to_owned().concat(base_address).as_str());
    push_line(&mut res, "D=A");
    push_line(&mut res, "@".to_owned().concat(index).as_str());
    push_line(&mut res, "D=D+A");
    push_line(&mut res, "@R13");
    push_line(&mut res, "M=D");
    append_lines(&mut res, generate_pop_sp_to_r13_code());
    assert(res.deep_view() =~= pop_pointer_and_temp_code(index@, base_address@));
    res
}

/// Code that pops into the static variable `index` of the unit `constant_name`.
pub fn pop_static(index: &str, constant_name: &str) -> (res: Vec<String>)
    ensures
        res.deep_view() == pop_static_code(index@, constant_name@),
{
    let mut res: Vec<String> = Vec::new();
    push_line(
        &mut res,
        "@".to_owned().concat(constant_name).concat(".").concat(index).as_str(),
    );
    push_line(&mut res, "D=A");
    push_line(&mut res, "@R13");
    push_line(&mut res, "M=D");
    append_lines(&mut res, generate_pop_sp_to_r13_code());
    assert(res.deep_view() =~= pop_static_code(index@, constant_name@));
    res
}

/// Code that pops into the cell whose address `R13` holds.
pub fn generate_pop_sp_to_r13_code() -> (res: Vec<String>)
    ensures
        res.deep_view() == pop_sp_to_r13_code(),
{
    let mut res: Vec<String> = Vec::new();
    push_line(&mut res, "@SP");
    push_line(&mut res, "AM=M-1");
    push_line(&mut res, "D=M");
    push_line(&mut res, "@R13");
    push_line(&mut res, "A=M");
    push_line(&mut res, "M=D");
    assert(res.deep_view() =~= pop_sp_to_r13_code());
    res
}

} // verus!
