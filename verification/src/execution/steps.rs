//! The steps that the generated code is made of: loading an address,
//! and the tails that every push and every pop ends with.

use crate::code_writer::constant::{POINTER_BASE_ADDRESS, TEMP_BASE_ADDRESS};
use crate::code_writer::pop_code_generator::pop_sp_to_r13_code;
use crate::code_writer::push_code_generator::push_d_to_sp_code;
use crate::machine::{cell, Machine, resolve, run, Run, step, Symbols, word};
use crate::text::{decimal_value, is_decimal, is_digit};
use vstd::prelude::*;

verus! {

/// The machine after `value` was pushed: the value stands in the cell
/// that the stack pointer designated, and the stack pointer is one higher.
pub open spec fn after_push(m: Machine, value: int) -> Machine {
    let stored = m.write(m.sp(), value);
    Machine { a: 0, d: value, ram: stored.ram.insert(0, word(stored.sp() + 1)) }
}

/// The machine after the top of the stack was popped into the cell whose
/// address `R13` holds: the stack pointer is one lower, and the cell that
/// it now designates is copied to that cell.
pub open spec fn after_pop_tail(m: Machine) -> Machine {
    let top = word(m.ram[0] - 1);
    let lowered = m.ram.insert(0, top);
    let value = lowered[cell(top)];
    let to = lowered[13];
    Machine { a: to, d: value, ram: lowered.insert(cell(to), value) }
}

/// The machine after the top of the stack was popped into the cell with
/// the address `target`: the address is put into `R13` first.
pub open spec fn after_pop(m: Machine, target: int) -> Machine {
    after_pop_tail(Machine { ram: m.ram.insert(13, target), ..m })
}

/// `@text` loads what `text` resolves to.
pub proof fn lemma_step_load(text: Seq<char>, m: Machine, symbols: Symbols)
    ensures
        step("@"@ + text, m, symbols) == (Run {
            machine: Machine { a: word(resolve(text, symbols)), ..m },
            jumped: None,
        }),
{
    reveal_strlit("@");
    assert(("@"@ + text).skip(1) =~= text);
}

/// The registers that the generated code names stand at their cells.
pub proof fn lemma_resolve_registers(symbols: Symbols)
    ensures
        resolve("SP"@, symbols) == 0,
        resolve("LCL"@, symbols) == 1,
        resolve("ARG"@, symbols) == 2,
        resolve("THIS"@, symbols) == 3,
        resolve("THAT"@, symbols) == 4,
        resolve("R13"@, symbols) == 13,
{
    reveal_strlit("SP");
    reveal_strlit("LCL");
    reveal_strlit("ARG");
    reveal_strlit("THIS");
    reveal_strlit("THAT");
    reveal_strlit("R13");
    assert(!is_digit("SP"@[0]));
    assert(!is_digit("LCL"@[0]));
    assert(!is_digit("ARG"@[0]));
    assert(!is_digit("THIS"@[0]));
    assert(!is_digit("THAT"@[0]));
    assert(!is_digit("R13"@[0]));
    assert("THAT"@[2] != "THIS"@[2]);
}

/// The fixed bases resolve to the numbers they denote.
pub proof fn lemma_resolve_bases(symbols: Symbols)
    ensures
        resolve(POINTER_BASE_ADDRESS@, symbols) == 3,
        resolve(TEMP_BASE_ADDRESS@, symbols) == 5,
{
    reveal_strlit("3");
    reveal_strlit("5");
    reveal_with_fuel(decimal_value, 2);
    assert(is_digit("3"@[0]));
    assert(is_digit("5"@[0]));
    assert("3"@.drop_last().len() == 0);
    assert("5"@.drop_last().len() == 0);
}

/// The numerals that a return is written with denote one to four.
pub(crate) proof fn lemma_small_numerals()
    ensures
        is_decimal("0"@) && decimal_value("0"@) == 0,
        is_decimal("1"@) && decimal_value("1"@) == 1,
        is_decimal("2"@) && decimal_value("2"@) == 2,
        is_decimal("3"@) && decimal_value("3"@) == 3,
        is_decimal("4"@) && decimal_value("4"@) == 4,
        is_decimal("5"@) && decimal_value("5"@) == 5,
{
    reveal_strlit("0");
    reveal_strlit("1");
    reveal_strlit("2");
    reveal_strlit("3");
    reveal_strlit("4");
    reveal_strlit("5");
    reveal_with_fuel(decimal_value, 2);
    assert("0"@.drop_last().len() == 0);
    assert("1"@.drop_last().len() == 0);
    assert("2"@.drop_last().len() == 0);
    assert("3"@.drop_last().len() == 0);
    assert("4"@.drop_last().len() == 0);
    assert("5"@.drop_last().len() == 0);
}

/// Five lines that do not jump lead where their steps lead.
pub(crate) proof fn lemma_run_five(
    code: Seq<Seq<char>>,
    m: Machine,
    m1: Machine,
    m2: Machine,
    m3: Machine,
    m4: Machine,
    m5: Machine,
    symbols: Symbols,
)
    requires
        code.len() == 5,
        step(code[0], m, symbols) == (Run { machine: m1, jumped: None }),
        step(code[1], m1, symbols) == (Run { machine: m2, jumped: None }),
        step(code[2], m2, symbols) == (Run { machine: m3, jumped: None }),
        step(code[3], m3, symbols) == (Run { machine: m4, jumped: None }),
        step(code[4], m4, symbols) == (Run { machine: m5, jumped: None }),
    ensures
        run(code, m, symbols) == (Run { machine: m5, jumped: None }),
{
    reveal_with_fuel(run, 6);
    assert(code.skip(1)[0] == code[1]);
    assert(code.skip(1).skip(1)[0] == code[2]);
    assert(code.skip(1).skip(1).skip(1)[0] == code[3]);
    assert(code.skip(1).skip(1).skip(1).skip(1)[0] == code[4]);
}

/// Six lines that do not jump lead where their steps lead.
pub(crate) proof fn lemma_run_six(
    code: Seq<Seq<char>>,
    m: Machine,
    m1: Machine,
    m2: Machine,
    m3: Machine,
    m4: Machine,
    m5: Machine,
    m6: Machine,
    symbols: Symbols,
)
    requires
        code.len() == 6,
        step(code[0], m, symbols) == (Run { machine: m1, jumped: None }),
        step(code[1], m1, symbols) == (Run { machine: m2, jumped: None }),
        step(code[2], m2, symbols) == (Run { machine: m3, jumped: None }),
        step(code[3], m3, symbols) == (Run { machine: m4, jumped: None }),
        step(code[4], m4, symbols) == (Run { machine: m5, jumped: None }),
        step(code[5], m5, symbols) == (Run { machine: m6, jumped: None }),
    ensures
        run(code, m, symbols) == (Run { machine: m6, jumped: None }),
{
    reveal_with_fuel(run, 2);
    assert(code.skip(1).take(5) =~= code.skip(1));
    let rest = code.skip(1);
    assert(rest[0] == code[1] && rest[1] == code[2] && rest[2] == code[3] && rest[3] == code[4]
        && rest[4] == code[5]);
    lemma_run_five(rest, m1, m2, m3, m4, m5, m6, symbols);
}

/// Running the tail of a push pushes the working register.
pub proof fn lemma_run_push_d(m: Machine, symbols: Symbols)
    ensures
        run(push_d_to_sp_code(), m, symbols) == (Run {
            machine: after_push(m, m.d),
            jumped: None,
        }),
{
    reveal_strlit("@SP");
    reveal_strlit("SP");
    reveal_strlit("A=M");
    reveal_strlit("M=D");
    reveal_strlit("M=M+1");
    reveal_with_fuel(run, 6);
    lemma_resolve_registers(symbols);
    assert("@SP"@.skip(1) =~= "SP"@);
}

/// Running the tail of a pop pops into the cell whose address `R13` holds.
pub proof fn lemma_run_pop_tail(m: Machine, symbols: Symbols)
    ensures
        run(pop_sp_to_r13_code(), m, symbols) == (Run {
            machine: after_pop_tail(m),
            jumped: None,
        }),
{
    reveal_strlit("@SP");
    reveal_strlit("SP");
    reveal_strlit("@R13");
    reveal_strlit("R13");
    reveal_strlit("AM=M-1");
    reveal_strlit("D=M");
    reveal_strlit("A=M");
    reveal_strlit("M=D");
    reveal_with_fuel(run, 7);
    lemma_resolve_registers(symbols);
    assert("@SP"@.skip(1) =~= "SP"@);
    assert("@R13"@.skip(1) =~= "R13"@);
}

pub(crate) proof fn lemma_run_raise(m: Machine, symbols: Symbols)
    ensures
        run(seq!["@SP"@, "M=M+1"@], m, symbols) == (Run {
            machine: Machine { a: 0, d: m.d, ram: m.ram.insert(0, word(m.ram[0] + 1)) },
            jumped: None,
        }),
{
    lemma_resolve_registers(symbols);
    reveal_strlit("@SP");
    reveal_strlit("SP");
    reveal_strlit("M=M+1");
    assert("@SP"@.skip(1) =~= "SP"@);
    reveal_with_fuel(run, 3);
}

} // verus!
