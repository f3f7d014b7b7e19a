//! What the code of `push` and `pop` does.

use crate::code_writer::constant::{POINTER_BASE_ADDRESS, TEMP_BASE_ADDRESS};
use crate::code_writer::helper::unit_name;
use crate::code_writer::pop_code_generator::{
    pop_code, pop_pointer_and_temp_code, pop_segment_code, pop_sp_to_r13_code, pop_static_code,
};
use crate::code_writer::push_code_generator::{
    push_code, push_constant_code, push_d_to_sp_code, push_pointer_and_temp_code, push_segment_code,
    push_static_code,
};
use crate::code_writer::segment::Segment;
use crate::execution::steps::{
    after_pop, after_push, lemma_resolve_bases, lemma_resolve_registers, lemma_run_five,
    lemma_run_pop_tail, lemma_run_push_d, lemma_run_six, lemma_step_load,
};
use crate::machine::{
    cell, cell_count, lemma_run_concat, Machine, resolve, run, Run, step, Symbols, word, word_count,
};
use crate::text::{decimal_value, is_decimal};
use vstd::prelude::*;

verus! {

/// The cell of the register that holds the base address of a segment, for
/// the four segments that are addressed through one.
pub open spec fn base_register(segment: Segment) -> Option<int> {
    match segment {
        Segment::LOCAL => Some(1),
        Segment::ARGUMENT => Some(2),
        Segment::THIS => Some(3),
        Segment::THAT => Some(4),
        _ => None,
    }
}

/// The name of the static variable `index` of the unit read from
/// `file_name`.
pub open spec fn static_name(index: Seq<char>, file_name: Seq<char>) -> Seq<char> {
    unit_name(file_name) + "."@ + index
}

/// The address of the variable `index` of `segment`: the base that the
/// segment's register holds plus the index, a fixed base plus the index,
/// or the address that the assembler gives to the name of a static
/// variable. The segment `constant` has no address.
pub open spec fn address_of(
    segment: Segment,
    index: Seq<char>,
    file_name: Seq<char>,
    m: Machine,
    symbols: Symbols,
) -> int
    recommends
        segment != Segment::CONSTANT,
{
    let i = word(decimal_value(index) as int);
    match segment {
        Segment::LOCAL => word(m.lcl() + i),
        Segment::ARGUMENT => word(m.arg() + i),
        Segment::THIS => word(m.this() + i),
        Segment::THAT => word(m.that() + i),
        Segment::POINTER => word(3 + i),
        Segment::TEMP => word(5 + i),
        Segment::STATIC => word(resolve(static_name(index, file_name), symbols)),
        Segment::CONSTANT => i,
    }
}

/// The value that `push segment index` puts on the stack: the index
/// itself for `constant`, and else what the variable holds.
pub open spec fn pushed_value(
    segment: Segment,
    index: Seq<char>,
    file_name: Seq<char>,
    m: Machine,
    symbols: Symbols,
) -> int {
    if segment == Segment::CONSTANT {
        word(decimal_value(index) as int)
    } else {
        m.read(address_of(segment, index, file_name, m, symbols))
    }
}

pub(crate) proof fn lemma_run_push_constant(constant: Seq<char>, m: Machine, symbols: Symbols)
    requires
        is_decimal(constant),
    ensures
        run(push_constant_code(constant), m, symbols) == (Run {
            machine: after_push(m, word(decimal_value(constant) as int)),
            jumped: None,
        }),
{
    let head = seq!["@"@ + constant, "D=A"@];
    lemma_step_load(constant, m, symbols);
    reveal_strlit("D=A");
    reveal_with_fuel(run, 3);
    let loaded = Machine { a: word(decimal_value(constant) as int), ..m };
    assert(run(head, m, symbols) == (Run {
        machine: Machine { d: loaded.a, ..loaded },
        jumped: None,
    }));
    lemma_run_concat(head, push_d_to_sp_code(), m, symbols);
    lemma_run_push_d(run(head, m, symbols).machine, symbols);
}

proof fn lemma_run_push_indirect(
    index: Seq<char>,
    register: Seq<char>,
    m: Machine,
    symbols: Symbols,
)
    requires
        is_decimal(index),
    ensures
        run(push_segment_code(index, register), m, symbols) == (Run {
            machine: after_push(
                m,
                m.read(
                    word(
                        m.read(word(resolve(register, symbols))) + word(
                            decimal_value(index) as int,
                        ),
                    ),
                ),
            ),
            jumped: None,
        }),
{
    let head = seq!["@"@ + register, "D=M"@, "@"@ + index, "A=D+A"@, "D=M"@];
    lemma_step_load(register, m, symbols);
    reveal_strlit("D=M");
    reveal_strlit("A=D+A");
    let m1 = Machine { a: word(resolve(register, symbols)), ..m };
    let m2 = Machine { d: m1.read(m1.a), ..m1 };
    lemma_step_load(index, m2, symbols);
    let m3 = Machine { a: word(decimal_value(index) as int), ..m2 };
    let m4 = Machine { a: word(m3.d + m3.a), ..m3 };
    let m5 = Machine { d: m4.read(m4.a), ..m4 };
    assert(step(head[1], m1, symbols) == (Run { machine: m2, jumped: None }));
    assert(step(head[3], m3, symbols) == (Run { machine: m4, jumped: None }));
    assert(step(head[4], m4, symbols) == (Run { machine: m5, jumped: None }));
    lemma_run_five(head, m, m1, m2, m3, m4, m5, symbols);
    lemma_run_concat(head, push_d_to_sp_code(), m, symbols);
    lemma_run_push_d(m5, symbols);
}

proof fn lemma_run_push_direct(index: Seq<char>, base: Seq<char>, m: Machine, symbols: Symbols)
    requires
        is_decimal(index),
    ensures
        run(push_pointer_and_temp_code(index, base), m, symbols) == (Run {
            machine: after_push(
                m,
                m.read(word(word(resolve(base, symbols)) + word(decimal_value(index) as int))),
            ),
            jumped: None,
        }),
{
    let head = seq!["@"@ + base, "D=A"@, "@"@ + index, "A=D+A"@, "D=M"@];
    lemma_step_load(base, m, symbols);
    reveal_strlit("D=A");
    reveal_strlit("D=M");
    reveal_strlit("A=D+A");
    let m1 = Machine { a: word(resolve(base, symbols)), ..m };
    let m2 = Machine { d: m1.a, ..m1 };
    lemma_step_load(index, m2, symbols);
    let m3 = Machine { a: word(decimal_value(index) as int), ..m2 };
    let m4 = Machine { a: word(m3.d + m3.a), ..m3 };
    let m5 = Machine { d: m4.read(m4.a), ..m4 };
    assert(step(head[1], m1, symbols) == (Run { machine: m2, jumped: None }));
    assert(step(head[3], m3, symbols) == (Run { machine: m4, jumped: None }));
    assert(step(head[4], m4, symbols) == (Run { machine: m5, jumped: None }));
    lemma_run_five(head, m, m1, m2, m3, m4, m5, symbols);
    lemma_run_concat(head, push_d_to_sp_code(), m, symbols);
    lemma_run_push_d(m5, symbols);
}

proof fn lemma_run_push_static(index: Seq<char>, unit: Seq<char>, m: Machine, symbols: Symbols)
    ensures
        run(push_static_code(index, unit), m, symbols) == (Run {
            machine: after_push(m, m.read(word(resolve(unit + "."@ + index, symbols)))),
            jumped: None,
        }),
{
    let name = unit + "."@ + index;
    let head = seq!["@"@ + unit + "."@ + index, "D=M"@];
    assert("@"@ + unit + "."@ + index =~= "@"@ + name);
    lemma_step_load(name, m, symbols);
    reveal_strlit("D=M");
    reveal_with_fuel(run, 3);
    let m1 = Machine { a: word(resolve(name, symbols)), ..m };
    let m2 = Machine { d: m1.read(m1.a), ..m1 };
    assert(run(head, m, symbols) == (Run { machine: m2, jumped: None }));
    lemma_run_concat(head, push_d_to_sp_code(), m, symbols);
    lemma_run_push_d(m2, symbols);
}

/// Running the code of a push pushes the value of what the command
/// names: the index itself for `constant`, and else the word in the cell
/// that the segment and the index address.
pub proof fn lemma_run_push(
    segment: Segment,
    index: Seq<char>,
    file_name: Seq<char>,
    m: Machine,
    symbols: Symbols,
)
    requires
        is_decimal(index),
    ensures
        run(push_code(segment, index, file_name), m, symbols) == (Run {
            machine: after_push(m, pushed_value(segment, index, file_name, m, symbols)),
            jumped: None,
        }),
{
    lemma_resolve_registers(symbols);
    lemma_resolve_bases(symbols);
    match segment {
        Segment::CONSTANT => lemma_run_push_constant(index, m, symbols),
        Segment::LOCAL => lemma_run_push_indirect(index, "LCL"@, m, symbols),
        Segment::ARGUMENT => lemma_run_push_indirect(index, "ARG"@, m, symbols),
        Segment::THIS => lemma_run_push_indirect(index, "THIS"@, m, symbols),
        Segment::THAT => lemma_run_push_indirect(index, "THAT"@, m, symbols),
        Segment::POINTER => lemma_run_push_direct(index, POINTER_BASE_ADDRESS@, m, symbols),
        Segment::TEMP => lemma_run_push_direct(index, TEMP_BASE_ADDRESS@, m, symbols),
        Segment::STATIC => lemma_run_push_static(index, unit_name(file_name), m, symbols),
    }
}

pub(crate) proof fn lemma_run_pop_indirect(
    index: Seq<char>,
    register: Seq<char>,
    m: Machine,
    symbols: Symbols,
)
    requires
        is_decimal(index),
    ensures
        run(pop_segment_code(index, register), m, symbols) == (Run {
            machine: after_pop(
                m,
                word(
                    m.read(word(resolve(register, symbols))) + word(decimal_value(index) as int),
                ),
            ),
            jumped: None,
        }),
{
    let head = seq!["@"@ + register, "D=M"@, "@"@ + index, "D=D+A"@, "@R13"@, "M=D"@];
    lemma_resolve_registers(symbols);
    lemma_step_load(register, m, symbols);
    reveal_strlit("D=M");
    reveal_strlit("D=D+A");
    reveal_strlit("@R13");
    reveal_strlit("R13");
    reveal_strlit("M=D");
    assert("@R13"@.skip(1) =~= "R13"@);
    let m1 = Machine { a: word(resolve(register, symbols)), ..m };
    let m2 = Machine { d: m1.read(m1.a), ..m1 };
    lemma_step_load(index, m2, symbols);
    let m3 = Machine { a: word(decimal_value(index) as int), ..m2 };
    let m4 = Machine { d: word(m3.d + m3.a), ..m3 };
    let m5 = Machine { a: 13, ..m4 };
    let m6 = m5.write(13, m5.d);
    assert(step(head[1], m1, symbols) == (Run { machine: m2, jumped: None }));
    assert(step(head[3], m3, symbols) == (Run { machine: m4, jumped: None }));
    assert(step(head[4], m4, symbols) == (Run { machine: m5, jumped: None }));
    assert(step(head[5], m5, symbols) == (Run { machine: m6, jumped: None }));
    lemma_run_six(head, m, m1, m2, m3, m4, m5, m6, symbols);
    lemma_run_concat(head, pop_sp_to_r13_code(), m, symbols);
    lemma_run_pop_tail(m6, symbols);
}

proof fn lemma_run_pop_direct(index: Seq<char>, base: Seq<char>, m: Machine, symbols: Symbols)
    requires
        is_decimal(index),
    ensures
        run(pop_pointer_and_temp_code(index, base), m, symbols) == (Run {
            machine: after_pop(
                m,
                word(word(resolve(base, symbols)) + word(decimal_value(index) as int)),
            ),
            jumped: None,
        }),
{
    let head = seq!["@"@ + base, "D=A"@, "@"@ + index, "D=D+A"@, "@R13"@, "M=D"@];
    lemma_resolve_registers(symbols);
    lemma_step_load(base, m, symbols);
    reveal_strlit("D=A");
    reveal_strlit("D=D+A");
    reveal_strlit("@R13");
    reveal_strlit("R13");
    reveal_strlit("M=D");
    assert("@R13"@.skip(1) =~= "R13"@);
    let m1 = Machine { a: word(resolve(base, symbols)), ..m };
    let m2 = Machine { d: m1.a, ..m1 };
    lemma_step_load(index, m2, symbols);
    let m3 = Machine { a: word(decimal_value(index) as int), ..m2 };
    let m4 = Machine { d: word(m3.d + m3.a), ..m3 };
    let m5 = Machine { a: 13, ..m4 };
    let m6 = m5.write(13, m5.d);
    assert(step(head[1], m1, symbols) == (Run { machine: m2, jumped: None }));
    assert(step(head[3], m3, symbols) == (Run { machine: m4, jumped: None }));
    assert(step(head[4], m4, symbols) == (Run { machine: m5, jumped: None }));
    assert(step(head[5], m5, symbols) == (Run { machine: m6, jumped: None }));
    lemma_run_six(head, m, m1, m2, m3, m4, m5, m6, symbols);
    lemma_run_concat(head, pop_sp_to_r13_code(), m, symbols);
    lemma_run_pop_tail(m6, symbols);
}

proof fn lemma_run_pop_static(index: Seq<char>, unit: Seq<char>, m: Machine, symbols: Symbols)
    ensures
        run(pop_static_code(index, unit), m, symbols) == (Run {
            machine: after_pop(m, word(resolve(unit + "."@ + index, symbols))),
            jumped: None,
        }),
{
    let name = unit + "."@ + index;
    let head = seq!["@"@ + unit + "."@ + index, "D=A"@, "@R13"@, "M=D"@];
    assert("@"@ + unit + "."@ + index =~= "@"@ + name);
    lemma_resolve_registers(symbols);
    lemma_step_load(name, m, symbols);
    reveal_strlit("D=A");
    reveal_strlit("@R13");
    reveal_strlit("R13");
    reveal_strlit("M=D");
    assert("@R13"@.skip(1) =~= "R13"@);
    reveal_with_fuel(run, 5);
    let m1 = Machine { a: word(resolve(name, symbols)), ..m };
    let m2 = Machine { d: m1.a, ..m1 };
    let m3 = Machine { a: 13, ..m2 };
    let m4 = m3.write(13, m3.d);
    assert(run(head, m, symbols) == (Run { machine: m4, jumped: None }));
    lemma_run_concat(head, pop_sp_to_r13_code(), m, symbols);
    lemma_run_pop_tail(m4, symbols);
}

/// Running the code of a pop takes the top of the stack off and stores it
/// in the cell that the segment and the index address. The address is
/// computed before the stack is touched.
pub proof fn lemma_run_pop(
    segment: Segment,
    index: Seq<char>,
    file_name: Seq<char>,
    m: Machine,
    symbols: Symbols,
)
    requires
        segment != Segment::CONSTANT,
        is_decimal(index),
    ensures
        run(pop_code(segment, index, file_name), m, symbols) == (Run {
            machine: after_pop(m, address_of(segment, index, file_name, m, symbols)),
            jumped: None,
        }),
{
    lemma_resolve_registers(symbols);
    lemma_resolve_bases(symbols);
    match segment {
        Segment::LOCAL => lemma_run_pop_indirect(index, "LCL"@, m, symbols),
        Segment::ARGUMENT => lemma_run_pop_indirect(index, "ARG"@, m, symbols),
        Segment::THIS => lemma_run_pop_indirect(index, "THIS"@, m, symbols),
        Segment::THAT => lemma_run_pop_indirect(index, "THAT"@, m, symbols),
        Segment::POINTER => lemma_run_pop_direct(index, POINTER_BASE_ADDRESS@, m, symbols),
        Segment::TEMP => lemma_run_pop_direct(index, TEMP_BASE_ADDRESS@, m, symbols),
        _ => lemma_run_pop_static(index, unit_name(file_name), m, symbols),
    }
}

/// A push and a pop of the same variable, run one after the other, leave
/// the variable and the stack pointer as they were, and with them every
/// cell but the scratch register `R13` and the cell just above the stack.
/// This holds wherever the stack pointer designates neither its own cell,
/// nor `R13`, nor the base register of the segment.
pub proof fn lemma_push_pop_round_trip(
    segment: Segment,
    index: Seq<char>,
    file_name: Seq<char>,
    m: Machine,
    symbols: Symbols,
)
    requires
        segment != Segment::CONSTANT,
        is_decimal(index),
        m.wf(),
        cell(m.sp()) != 0,
        cell(m.sp()) != 13,
        base_register(segment) != Some(cell(m.sp())),
    ensures
        ({
            let both = push_code(segment, index, file_name) + pop_code(
                segment,
                index,
                file_name,
            );
            let end = run(both, m, symbols);
            let at = address_of(segment, index, file_name, m, symbols);
            &&& end.jumped is None
            &&& end.machine.sp() == m.sp()
            &&& end.machine.read(at) == m.read(at)
            &&& forall|k: int|
                0 <= k < cell_count() && k != 13 && k != cell(m.sp())
                    ==> #[trigger] end.machine.ram[k] == m.ram[k]
        }),
{
    let push = push_code(segment, index, file_name);
    let pop = pop_code(segment, index, file_name);
    lemma_run_concat(push, pop, m, symbols);
    lemma_run_push(segment, index, file_name, m, symbols);
    let pushed = run(push, m, symbols).machine;
    lemma_run_pop(segment, index, file_name, pushed, symbols);
    let at = address_of(segment, index, file_name, m, symbols);
    assert(address_of(segment, index, file_name, pushed, symbols) == at);
    assert(m.ram[0] == m.sp());
    assert(0 <= m.ram[0] < word_count());
}

} // verus!
