//! What the code of the branching commands and of `function`, `call`
//! and `return` does.

use crate::code_writer::{
    call_code, function_code, go_to_code, if_go_to_code, label_code, push_register_code,
    restore_code, return_code, scoped_label,
};
use crate::code_writer::pop_code_generator::pop_segment_code;
use crate::code_writer::push_code_generator::{push_constant_code, push_d_to_sp_code};
use crate::code_writer::return_address_generator::return_label;
use crate::execution::memory::{lemma_run_pop_indirect, lemma_run_push_constant};
use crate::execution::steps::{
    after_pop, after_push, lemma_resolve_bases, lemma_resolve_registers, lemma_run_push_d,
    lemma_run_six, lemma_small_numerals, lemma_step_load,
};
use crate::machine::{
    cell, cell_count, jumps, lemma_run_concat, Machine, resolve, run, Run, step, Symbols, word,
};
use crate::text::{decimal_value, is_decimal};
use vstd::prelude::*;

verus! {

/// Running the code of `label` does nothing; running the code of `goto`
/// jumps to the scoped label; running the code of `if-goto` takes the top
/// of the stack off and jumps to the scoped label if it is not zero.
pub proof fn lemma_run_branches(
    function: Seq<char>,
    label: Seq<char>,
    m: Machine,
    symbols: Symbols,
)
    ensures
        run(label_code(function, label), m, symbols) == (Run { machine: m, jumped: None }),
        ({
            let target = word(resolve(scoped_label(function, label), symbols));
            run(go_to_code(function, label), m, symbols) == (Run {
                machine: Machine { a: target, ..m },
                jumped: Some(target),
            })
        }),
        ({
            let target = word(resolve(scoped_label(function, label), symbols));
            let top = word(m.ram[0] - 1);
            let lowered = m.ram.insert(0, top);
            run(if_go_to_code(function, label), m, symbols) == (Run {
                machine: Machine { a: target, d: lowered[cell(top)], ram: lowered },
                jumped: if lowered[cell(top)] != 0 {
                    Some(target)
                } else {
                    None
                },
            })
        }),
{
    let name = scoped_label(function, label);
    let target = word(resolve(name, symbols));
    lemma_resolve_registers(symbols);
    assert(run(label_code(function, label), m, symbols) == (Run { machine: m, jumped: None })) by {
        reveal_strlit("(");
        assert(label_code(function, label)[0][0] == '(');
        reveal_with_fuel(run, 2);
    }
    assert(run(go_to_code(function, label), m, symbols) == (Run {
        machine: Machine { a: target, ..m },
        jumped: Some(target),
    })) by {
        reveal_strlit("0;JMP");
        lemma_step_load(name, m, symbols);
        reveal_with_fuel(run, 3);
    }
    let top = word(m.ram[0] - 1);
    let lowered = m.ram.insert(0, top);
    let popped = Machine { a: top, d: lowered[cell(top)], ram: lowered };
    assert(run(if_go_to_code(function, label), m, symbols) == (Run {
        machine: Machine { a: target, ..popped },
        jumped: if popped.d != 0 {
            Some(target)
        } else {
            None
        },
    })) by {
        reveal_strlit("@SP");
        reveal_strlit("SP");
        reveal_strlit("AM=M-1");
        reveal_strlit("D=M");
        reveal_strlit("D;JNE");
        assert("@SP"@.skip(1) =~= "SP"@);
        lemma_step_load(name, popped, symbols);
        reveal_with_fuel(run, 6);
    }
}

/// The machine after `n` zeros were pushed.
pub open spec fn after_zeros(m: Machine, n: nat) -> Machine
    decreases n,
{
    if n == 0 {
        m
    } else {
        after_push(after_zeros(m, (n - 1) as nat), 0)
    }
}

/// Running the code of `function` pushes one zero for each local
/// variable.
pub proof fn lemma_run_function(function: Seq<char>, num_locals: nat, m: Machine, symbols: Symbols)
    ensures
        run(function_code(function, num_locals), m, symbols) == (Run {
            machine: after_zeros(m, num_locals),
            jumped: None,
        }),
    decreases num_locals,
{
    let entry = seq!["("@ + function + ")"@];
    let block = push_constant_code("0"@);
    if num_locals == 0 {
        assert(function_code(function, 0) =~= entry);
        reveal_strlit("(");
        assert(entry[0][0] == '(');
        reveal_with_fuel(run, 2);
    } else {
        let fewer = (num_locals - 1) as nat;
        lemma_run_function(function, fewer, m, symbols);
        assert(function_code(function, num_locals) =~= function_code(function, fewer) + block);
        lemma_run_concat(function_code(function, fewer), block, m, symbols);
        lemma_small_numerals();
        lemma_run_push_constant("0"@, after_zeros(m, fewer), symbols);
    }
}

/// Running the push of a register pushes the word that it holds.
pub proof fn lemma_run_push_register(register: Seq<char>, m: Machine, symbols: Symbols)
    ensures
        run(push_register_code(register), m, symbols) == (Run {
            machine: after_push(m, m.read(word(resolve(register, symbols)))),
            jumped: None,
        }),
{
    let head = seq!["@"@ + register, "D=M"@];
    lemma_step_load(register, m, symbols);
    reveal_strlit("D=M");
    reveal_with_fuel(run, 3);
    let m1 = Machine { a: word(resolve(register, symbols)), ..m };
    let m2 = Machine { d: m1.read(m1.a), ..m1 };
    assert(run(head, m, symbols) == (Run { machine: m2, jumped: None }));
    lemma_run_concat(head, push_d_to_sp_code(), m, symbols);
    lemma_run_push_d(m2, symbols);
}

/// The machine at the jump of a call: the return address and the four
/// registers have been pushed, in this order; `ARG` is the stack pointer
/// less the number of arguments and less five; `LCL` is the stack
/// pointer; `A` holds the address of the function.
pub open spec fn after_call(
    m: Machine,
    function: Seq<char>,
    n_arg: Seq<char>,
    return_address: Seq<char>,
    symbols: Symbols,
) -> Machine {
    let m1 = after_push(m, word(resolve(return_address, symbols)));
    let m2 = after_push(m1, m1.lcl());
    let m3 = after_push(m2, m2.arg());
    let m4 = after_push(m3, m3.this());
    let m5 = after_push(m4, m4.that());
    let arg = word(word(m5.sp() - word(decimal_value(n_arg) as int)) - 5);
    let moved = m5.ram.insert(2, arg);
    Machine {
        a: word(resolve(function, symbols)),
        d: moved[0],
        ram: moved.insert(1, moved[0]),
    }
}

proof fn lemma_run_call_frame(
    n_arg: Seq<char>,
    return_address: Seq<char>,
    m: Machine,
    symbols: Symbols,
) -> (pushed: Machine)
    ensures
        ({
            let m1 = after_push(m, word(resolve(return_address, symbols)));
            let m2 = after_push(m1, m1.lcl());
            let m3 = after_push(m2, m2.arg());
            let m4 = after_push(m3, m3.this());
            pushed == after_push(m4, m4.that())
        }),
        run(
            seq!["@"@ + return_address, "D=A"@] + push_d_to_sp_code() + push_register_code("LCL"@)
                + push_register_code("ARG"@) + push_register_code("THIS"@) + push_register_code(
                "THAT"@,
            ),
            m,
            symbols,
        ) == (Run { machine: pushed, jumped: None }),
{
    lemma_resolve_registers(symbols);
    let head = seq!["@"@ + return_address, "D=A"@];
    lemma_step_load(return_address, m, symbols);
    reveal_strlit("D=A");
    let loaded = Machine { a: word(resolve(return_address, symbols)), ..m };
    let m0 = Machine { d: loaded.a, ..loaded };
    assert(run(head, m, symbols) == (Run { machine: m0, jumped: None })) by {
        reveal_with_fuel(run, 3);
    }
    let c1 = head + push_d_to_sp_code();
    lemma_run_concat(head, push_d_to_sp_code(), m, symbols);
    lemma_run_push_d(m0, symbols);
    let m1 = after_push(m, word(resolve(return_address, symbols)));
    assert(run(c1, m, symbols).machine == m1);
    let c2 = c1 + push_register_code("LCL"@);
    lemma_run_concat(c1, push_register_code("LCL"@), m, symbols);
    lemma_run_push_register("LCL"@, m1, symbols);
    let m2 = after_push(m1, m1.lcl());
    let c3 = c2 + push_register_code("ARG"@);
    lemma_run_concat(c2, push_register_code("ARG"@), m, symbols);
    lemma_run_push_register("ARG"@, m2, symbols);
    let m3 = after_push(m2, m2.arg());
    let c4 = c3 + push_register_code("THIS"@);
    lemma_run_concat(c3, push_register_code("THIS"@), m, symbols);
    lemma_run_push_register("THIS"@, m3, symbols);
    let m4 = after_push(m3, m3.this());
    lemma_run_concat(c4, push_register_code("THAT"@), m, symbols);
    lemma_run_push_register("THAT"@, m4, symbols);
    after_push(m4, m4.that())
}

proof fn lemma_run_call_tail(
    function: Seq<char>,
    n_arg: Seq<char>,
    m: Machine,
    symbols: Symbols,
)
    requires
        is_decimal(n_arg),
    ensures
        ({
            let arg = word(word(m.sp() - word(decimal_value(n_arg) as int)) - 5);
            let moved = m.ram.insert(2, arg);
            run(
                seq!["@SP"@, "D=M"@, "@"@ + n_arg, "D=D-A"@, "@5"@, "D=D-A"@, "@ARG"@, "M=D"@]
                    + seq!["@SP"@, "D=M"@, "@LCL"@, "M=D"@] + seq!["@"@ + function, "0;JMP"@],
                m,
                symbols,
            ) == (Run {
                machine: Machine {
                    a: word(resolve(function, symbols)),
                    d: moved[0],
                    ram: moved.insert(1, moved[0]),
                },
                jumped: Some(word(resolve(function, symbols))),
            })
        }),
{
    lemma_resolve_registers(symbols);
    lemma_resolve_bases(symbols);
    reveal_strlit("@SP");
    reveal_strlit("SP");
    reveal_strlit("@ARG");
    reveal_strlit("ARG");
    reveal_strlit("@LCL");
    reveal_strlit("LCL");
    reveal_strlit("@5");
    reveal_strlit("5");
    reveal_strlit("D=M");
    reveal_strlit("M=D");
    reveal_strlit("D=D-A");
    reveal_strlit("0;JMP");
    assert("@SP"@.skip(1) =~= "SP"@);
    assert("@ARG"@.skip(1) =~= "ARG"@);
    assert("@LCL"@.skip(1) =~= "LCL"@);
    assert("@5"@.skip(1) =~= "5"@);
    let first = seq!["@SP"@, "D=M"@, "@"@ + n_arg, "D=D-A"@, "@5"@, "D=D-A"@, "@ARG"@, "M=D"@];
    let second = seq!["@SP"@, "D=M"@, "@LCL"@, "M=D"@];
    let third = seq!["@"@ + function, "0;JMP"@];
    let a1 = Machine { a: 0, ..m };
    let a2 = Machine { d: a1.read(0), ..a1 };
    lemma_step_load(n_arg, a2, symbols);
    let a3 = Machine { a: word(decimal_value(n_arg) as int), ..a2 };
    let a4 = Machine { d: word(a3.d - a3.a), ..a3 };
    let a5 = Machine { a: 5, ..a4 };
    let a6 = Machine { d: word(a5.d - 5), ..a5 };
    let a7 = Machine { a: 2, ..a6 };
    let a8 = a7.write(2, a7.d);
    assert(run(first, m, symbols) == (Run { machine: a8, jumped: None })) by {
        reveal_with_fuel(run, 9);
        assert(step(first[0], m, symbols) == (Run { machine: a1, jumped: None }));
        assert(step(first[1], a1, symbols) == (Run { machine: a2, jumped: None }));
        assert(step(first[2], a2, symbols) == (Run { machine: a3, jumped: None }));
        assert(step(first[3], a3, symbols) == (Run { machine: a4, jumped: None }));
        assert(step(first[4], a4, symbols) == (Run { machine: a5, jumped: None }));
        assert(step(first[5], a5, symbols) == (Run { machine: a6, jumped: None }));
        assert(step(first[6], a6, symbols) == (Run { machine: a7, jumped: None }));
        assert(step(first[7], a7, symbols) == (Run { machine: a8, jumped: None }));
    }
    let b1 = Machine { a: 0, ..a8 };
    let b2 = Machine { d: b1.read(0), ..b1 };
    let b3 = Machine { a: 1, ..b2 };
    let b4 = b3.write(1, b3.d);
    assert(run(second, a8, symbols) == (Run { machine: b4, jumped: None })) by {
        reveal_with_fuel(run, 5);
    }
    lemma_step_load(function, b4, symbols);
    let c1 = Machine { a: word(resolve(function, symbols)), ..b4 };
    assert(run(third, b4, symbols) == (Run { machine: c1, jumped: Some(c1.a) })) by {
        reveal_with_fuel(run, 3);
        assert(step(third[1], c1, symbols) == (Run { machine: c1, jumped: Some(c1.a) }));
    }
    lemma_run_concat(first, second, m, symbols);
    lemma_run_concat(first + second, third, m, symbols);
}

/// Running the code of a call leads to the jump to the function, with the
/// frame pushed and `ARG` and `LCL` set for the function.
pub proof fn lemma_run_call(
    function: Seq<char>,
    n_arg: Seq<char>,
    return_address: Seq<char>,
    m: Machine,
    symbols: Symbols,
)
    requires
        is_decimal(n_arg),
    ensures
        run(call_code(function, n_arg, return_address), m, symbols) == (Run {
            machine: after_call(m, function, n_arg, return_address, symbols),
            jumped: Some(word(resolve(function, symbols))),
        }),
{
    let frame = seq!["@"@ + return_address, "D=A"@] + push_d_to_sp_code() + push_register_code(
        "LCL"@,
    ) + push_register_code("ARG"@) + push_register_code("THIS"@) + push_register_code("THAT"@);
    let first = seq!["@SP"@, "D=M"@, "@"@ + n_arg, "D=D-A"@, "@5"@, "D=D-A"@, "@ARG"@, "M=D"@];
    let second = seq!["@SP"@, "D=M"@, "@LCL"@, "M=D"@];
    let third = seq!["@"@ + function, "0;JMP"@];
    let last = seq!["("@ + return_address + ")"@];
    let pushed = lemma_run_call_frame(n_arg, return_address, m, symbols);
    lemma_run_call_tail(function, n_arg, pushed, symbols);
    let tail = first + second + third;
    assert(call_code(function, n_arg, return_address) =~= frame + tail + last);
    lemma_run_concat(frame, tail, m, symbols);
    lemma_run_concat(frame + tail, last, m, symbols);
}

/// The cell of the variable in which a return keeps the frame address.
pub open spec fn frame_cell(symbols: Symbols) -> int {
    cell(word(resolve("FRAME"@, symbols)))
}

/// The cell of the variable in which a return keeps the return address.
pub open spec fn return_cell(symbols: Symbols) -> int {
    cell(word(resolve("RET"@, symbols)))
}

/// The machine after the register in the cell `register` was loaded from
/// the cell `distance` places below the frame.
pub open spec fn restored(m: Machine, distance: int, register: int, symbols: Symbols) -> Machine {
    let value = m.read(word(m.ram[frame_cell(symbols)] - distance));
    Machine { a: register, d: value, ram: m.ram.insert(register, value) }
}

/// The machine at the jump of a return: the frame address and the return
/// address have been kept; the top of the stack has been popped into the
/// cell that `ARG` designates; the stack pointer stands just above that
/// cell; `THAT`, `THIS`, `ARG` and `LCL` have been loaded, in this order,
/// from the four cells below the frame; `A` holds the return address.
pub open spec fn after_return(m: Machine, symbols: Symbols) -> Machine {
    let kept = Machine { ram: m.ram.insert(frame_cell(symbols), m.lcl()), ..m };
    let noted = Machine {
        ram: kept.ram.insert(return_cell(symbols), kept.read(word(m.lcl() - 5))),
        ..m
    };
    let popped = after_pop(noted, word(noted.arg()));
    let lowered = Machine { ram: popped.ram.insert(0, word(popped.arg() + 1)), ..m };
    let last = restored(
        restored(restored(restored(lowered, 1, 4, symbols), 2, 3, symbols), 3, 2, symbols),
        4,
        1,
        symbols,
    );
    Machine { a: last.ram[return_cell(symbols)], ..last }
}

proof fn lemma_run_restore(
    distance: Seq<char>,
    register: Seq<char>,
    m: Machine,
    symbols: Symbols,
)
    requires
        is_decimal(distance),
        0 <= decimal_value(distance) < cell_count(),
        0 <= resolve(register, symbols) < cell_count(),
    ensures
        run(restore_code(distance, register), m, symbols) == (Run {
            machine: restored(
                m,
                decimal_value(distance) as int,
                resolve(register, symbols),
                symbols,
            ),
            jumped: None,
        }),
{
    let code = restore_code(distance, register);
    let m1 = Machine { a: word(resolve("FRAME"@, symbols)), ..m };
    let m2 = Machine { d: m1.read(m1.a), ..m1 };
    let m3 = Machine { a: word(decimal_value(distance) as int), ..m2 };
    let m4 = Machine { a: word(m3.d - m3.a), ..m3 };
    let m5 = Machine { d: m4.read(m4.a), ..m4 };
    let m6 = Machine { a: word(resolve(register, symbols)), ..m5 };
    let m7 = m6.write(m6.a, m6.d);
    assert(step(code[0], m, symbols) == (Run { machine: m1, jumped: None })) by {
        reveal_strlit("@FRAME");
        reveal_strlit("FRAME");
        reveal_strlit("@");
        assert("@FRAME"@ =~= "@"@ + "FRAME"@);
        lemma_step_load("FRAME"@, m, symbols);
    }
    assert(step(code[1], m1, symbols) == (Run { machine: m2, jumped: None })) by {
        reveal_strlit("D=M");
    }
    assert(step(code[2], m2, symbols) == (Run { machine: m3, jumped: None })) by {
        lemma_step_load(distance, m2, symbols);
    }
    assert(step(code[3], m3, symbols) == (Run { machine: m4, jumped: None })) by {
        reveal_strlit("A=D-A");
    }
    assert(step(code[4], m4, symbols) == (Run { machine: m5, jumped: None })) by {
        reveal_strlit("D=M");
    }
    assert(step(code[5], m5, symbols) == (Run { machine: m6, jumped: None })) by {
        lemma_step_load(register, m5, symbols);
    }
    assert(step(code[6], m6, symbols) == (Run { machine: m7, jumped: None })) by {
        reveal_strlit("M=D");
    }
    let rest = code.skip(1);
    assert(rest[0] == code[1] && rest[1] == code[2] && rest[2] == code[3] && rest[3] == code[4]
        && rest[4] == code[5] && rest[5] == code[6]);
    lemma_run_six(rest, m1, m2, m3, m4, m5, m6, m7, symbols);
    assert(run(code, m, symbols) == run(rest, m1, symbols)) by {
        reveal_with_fuel(run, 2);
    }
    assert(m7 == restored(
        m,
        decimal_value(distance) as int,
        resolve(register, symbols),
        symbols,
    ));
}

proof fn lemma_run_return_head(m: Machine, symbols: Symbols)
    ensures
        ({
            let kept = m.ram.insert(frame_cell(symbols), m.lcl());
            let ra = kept[cell(word(m.lcl() - 5))];
            run(
                seq![
                    "@LCL"@,
                    "D=M"@,
                    "@FRAME"@,
                    "M=D"@,
                    "@5"@,
                    "A=D-A"@,
                    "D=M"@,
                    "@RET"@,
                    "M=D"@,
                ],
                m,
                symbols,
            ) == (Run {
                machine: Machine {
                    a: word(resolve("RET"@, symbols)),
                    d: ra,
                    ram: kept.insert(return_cell(symbols), ra),
                },
                jumped: None,
            })
        }),
{
    lemma_resolve_registers(symbols);
    lemma_small_numerals();
    reveal_strlit("@LCL");
    reveal_strlit("LCL");
    reveal_strlit("@FRAME");
    reveal_strlit("FRAME");
    reveal_strlit("@RET");
    reveal_strlit("RET");
    reveal_strlit("@5");
    reveal_strlit("5");
    reveal_strlit("D=M");
    reveal_strlit("M=D");
    reveal_strlit("A=D-A");
    assert("@LCL"@.skip(1) =~= "LCL"@);
    assert("@FRAME"@.skip(1) =~= "FRAME"@);
    assert("@RET"@.skip(1) =~= "RET"@);
    assert("@5"@.skip(1) =~= "5"@);
    reveal_with_fuel(run, 10);
}

proof fn lemma_run_return_middle(m: Machine, symbols: Symbols)
    ensures
        run(seq!["@ARG"@, "D=M"@, "@SP"@, "M=D+1"@], m, symbols) == (Run {
            machine: Machine {
                a: 0,
                d: m.arg(),
                ram: m.ram.insert(0, word(m.arg() + 1)),
            },
            jumped: None,
        }),
{
    lemma_resolve_registers(symbols);
    reveal_strlit("@ARG");
    reveal_strlit("ARG");
    reveal_strlit("@SP");
    reveal_strlit("SP");
    reveal_strlit("D=M");
    reveal_strlit("M=D+1");
    assert("@ARG"@.skip(1) =~= "ARG"@);
    assert("@SP"@.skip(1) =~= "SP"@);
    reveal_with_fuel(run, 5);
}

proof fn lemma_run_return_tail(m: Machine, symbols: Symbols)
    ensures
        run(seq!["@RET"@, "A=M"@, "0;JMP"@], m, symbols) == (Run {
            machine: Machine { a: m.ram[return_cell(symbols)], ..m },
            jumped: Some(m.ram[return_cell(symbols)]),
        }),
{
    reveal_strlit("@RET");
    reveal_strlit("RET");
    reveal_strlit("A=M");
    reveal_strlit("0;JMP");
    assert("@RET"@.skip(1) =~= "RET"@);
    reveal_with_fuel(run, 4);
}

/// Running the code of a return leads to the jump to the return address
/// that stood five cells below the frame.
pub proof fn lemma_run_return(m: Machine, symbols: Symbols)
    ensures
        run(return_code(), m, symbols) == (Run {
            machine: after_return(m, symbols),
            jumped: Some(after_return(m, symbols).a),
        }),
{
    lemma_resolve_registers(symbols);
    lemma_small_numerals();
    let head = seq![
        "@LCL"@,
        "D=M"@,
        "@FRAME"@,
        "M=D"@,
        "@5"@,
        "A=D-A"@,
        "D=M"@,
        "@RET"@,
        "M=D"@,
    ];
    let pop = pop_segment_code("0"@, "ARG"@);
    let middle = seq!["@ARG"@, "D=M"@, "@SP"@, "M=D+1"@];
    let tail = seq!["@RET"@, "A=M"@, "0;JMP"@];
    let that = restore_code("1"@, "THAT"@);
    let this = restore_code("2"@, "THIS"@);
    let arg = restore_code("3"@, "ARG"@);
    let lcl = restore_code("4"@, "LCL"@);
    lemma_run_return_head(m, symbols);
    let s1 = run(head, m, symbols).machine;
    lemma_run_pop_indirect("0"@, "ARG"@, s1, symbols);
    lemma_run_concat(head, pop, m, symbols);
    let s2 = run(pop, s1, symbols).machine;
    lemma_run_return_middle(s2, symbols);
    lemma_run_concat(head + pop, middle, m, symbols);
    let s3 = run(middle, s2, symbols).machine;
    lemma_run_restore("1"@, "THAT"@, s3, symbols);
    lemma_run_concat(head + pop + middle, that, m, symbols);
    let s4 = run(that, s3, symbols).machine;
    lemma_run_restore("2"@, "THIS"@, s4, symbols);
    lemma_run_concat(head + pop + middle + that, this, m, symbols);
    let s5 = run(this, s4, symbols).machine;
    lemma_run_restore("3"@, "ARG"@, s5, symbols);
    lemma_run_concat(head + pop + middle + that + this, arg, m, symbols);
    let s6 = run(arg, s5, symbols).machine;
    lemma_run_restore("4"@, "LCL"@, s6, symbols);
    lemma_run_concat(head + pop + middle + that + this + arg, lcl, m, symbols);
    let s7 = run(lcl, s6, symbols).machine;
    lemma_run_return_tail(s7, symbols);
    lemma_run_concat(head + pop + middle + that + this + arg + lcl, tail, m, symbols);
    assert(word(0) == 0);
}

/// Whether the five cells from `from` on lie above the registers and
/// inside the memory.
pub open spec fn frame_fits(from: int) -> bool {
    16 <= from && from + 5 < cell_count()
}

/// Whether the variables `FRAME` and `RET` have cells of their own, apart
/// from the registers and from the five cells from `from` on.
pub open spec fn variables_apart(symbols: Symbols, from: int) -> bool {
    let f = frame_cell(symbols);
    let r = return_cell(symbols);
    &&& f != r
    &&& 16 <= f && 16 <= r
    &&& !(from <= f < from + 5)
    &&& !(from <= r < from + 5)
}

/// What a call leaves behind, where the stack lies above the registers:
/// the return address and the caller's `LCL`, `ARG`, `THIS` and `THAT`
/// stand in the five cells from the old stack pointer on, in this order;
/// the stack pointer and `LCL` stand just above them; `ARG` stands below
/// them by the number of arguments; no other cell above the registers is
/// touched.
pub proof fn lemma_call_saves_frame(
    function: Seq<char>,
    n_arg: Seq<char>,
    return_address: Seq<char>,
    m: Machine,
    symbols: Symbols,
)
    requires
        is_decimal(n_arg),
        m.wf(),
        frame_fits(m.sp()),
    ensures
        ({
            let called = after_call(m, function, n_arg, return_address, symbols);
            let s = m.sp();
            &&& called.ram[s] == word(resolve(return_address, symbols))
            &&& called.ram[s + 1] == m.lcl()
            &&& called.ram[s + 2] == m.arg()
            &&& called.ram[s + 3] == m.this()
            &&& called.ram[s + 4] == m.that()
            &&& called.sp() == s + 5
            &&& called.lcl() == s + 5
            &&& called.arg() == word(word(s + 5 - word(decimal_value(n_arg) as int)) - 5)
            &&& called.this() == m.this()
            &&& called.that() == m.that()
            &&& called.a == word(resolve(function, symbols))
            &&& forall|k: int|
                3 <= k < cell_count() && !(s <= k < s + 5) ==> #[trigger] called.ram[k]
                    == m.ram[k]
        }),
{
    let s = m.sp();
    assert(m.ram[0] == s);
    let m1 = after_push(m, word(resolve(return_address, symbols)));
    assert(m1.sp() == s + 1);
    let m2 = after_push(m1, m1.lcl());
    assert(m2.sp() == s + 2);
    let m3 = after_push(m2, m2.arg());
    assert(m3.sp() == s + 3);
    let m4 = after_push(m3, m3.this());
    assert(m4.sp() == s + 4);
    let m5 = after_push(m4, m4.that());
    assert(m5.sp() == s + 5);
}

/// The cells just below a frame that fits are addressed by the frame
/// address less their distance.
proof fn lemma_cells_below(frame: int)
    requires
        frame_fits(frame - 5),
    ensures
        cell(word(frame - 1)) == frame - 1,
        cell(word(frame - 2)) == frame - 2,
        cell(word(frame - 3)) == frame - 3,
        cell(word(frame - 4)) == frame - 4,
        cell(word(frame - 5)) == frame - 5,
{
}

proof fn lemma_restored(m: Machine, distance: int, register: int, symbols: Symbols)
    requires
        frame_fits(m.ram[frame_cell(symbols)] - 5),
        1 <= distance <= 4,
    ensures
        restored(m, distance, register, symbols).ram == m.ram.insert(
            register,
            m.ram[m.ram[frame_cell(symbols)] - distance],
        ),
{
    lemma_cells_below(m.ram[frame_cell(symbols)]);
}

/// What a return restores, where the frame lies above the registers and
/// the variables `FRAME` and `RET` and the cell that `ARG` designates lie
/// apart from the saved registers: `THAT`, `THIS`, `ARG` and `LCL` get
/// the words from one, two, three and four cells below the frame, and the
/// jump goes to the word from five cells below it.
pub proof fn lemma_return_restores(m: Machine, symbols: Symbols)
    requires
        frame_fits(m.lcl() - 5),
        variables_apart(symbols, m.lcl() - 5),
        !(m.lcl() - 4 <= cell(word(m.arg())) < m.lcl()),
        cell(word(m.arg())) != frame_cell(symbols),
        cell(word(m.arg())) != return_cell(symbols),
    ensures
        ({
            let end = run(return_code(), m, symbols);
            let frame = m.lcl();
            &&& end.jumped == Some(m.ram[frame - 5])
            &&& end.machine.that() == m.ram[frame - 1]
            &&& end.machine.this() == m.ram[frame - 2]
            &&& end.machine.arg() == m.ram[frame - 3]
            &&& end.machine.lcl() == m.ram[frame - 4]
        }),
{
    lemma_run_return(m, symbols);
    let frame = m.lcl();
    let f = frame_cell(symbols);
    let r = return_cell(symbols);
    let to = cell(word(m.arg()));
    lemma_cells_below(frame);
    let kept = Machine { ram: m.ram.insert(f, frame), ..m };
    let noted = Machine { ram: kept.ram.insert(r, kept.read(word(frame - 5))), ..m };
    assert(noted.ram[r] == m.ram[frame - 5]);
    let popped = after_pop(noted, word(noted.arg()));
    assert(popped.ram[f] == frame && popped.ram[r] == m.ram[frame - 5] && popped.ram[frame - 1]
        == m.ram[frame - 1] && popped.ram[frame - 2] == m.ram[frame - 2] && popped.ram[frame - 3]
        == m.ram[frame - 3] && popped.ram[frame - 4] == m.ram[frame - 4]) by {
        let with_target = noted.ram.insert(13, word(noted.arg()));
        let top = word(with_target[0] - 1);
        let lowered = with_target.insert(0, top);
        assert(lowered[13] == word(m.arg()));
        assert(popped.ram == lowered.insert(to, lowered[cell(top)]));
    }
    let lowered = Machine { ram: popped.ram.insert(0, word(popped.arg() + 1)), ..m };
    let r1 = restored(lowered, 1, 4, symbols);
    lemma_restored(lowered, 1, 4, symbols);
    let r2 = restored(r1, 2, 3, symbols);
    lemma_restored(r1, 2, 3, symbols);
    let r3 = restored(r2, 3, 2, symbols);
    lemma_restored(r2, 3, 2, symbols);
    let r4 = restored(r3, 4, 1, symbols);
    lemma_restored(r3, 4, 1, symbols);
    assert(r4.ram[r] == m.ram[frame - 5]);
}

/// A return that follows a call restores what the call has saved. Let a
/// call be run where the stack lies above the registers, and let the
/// function come to its return with `LCL` and the five saved cells as the
/// call left them, and with `ARG` designating a cell apart from the four
/// saved registers; let the variables `FRAME` and `RET` have cells of
/// their own. Then the return loads `THAT`, `THIS`, `ARG` and `LCL` with
/// the words they held at the call, and jumps to the return address that
/// the call pushed.
pub proof fn lemma_return_restores_call(
    function: Seq<char>,
    n_arg: Seq<char>,
    count: nat,
    m: Machine,
    returning: Machine,
    symbols: Symbols,
)
    requires
        is_decimal(n_arg),
        m.wf(),
        frame_fits(m.sp()),
        variables_apart(symbols, m.sp()),
        ({
            let called = run(call_code(function, n_arg, return_label(count)), m, symbols).machine;
            &&& returning.lcl() == called.lcl()
            &&& forall|k: int| m.sp() <= k < m.sp() + 5 ==> returning.ram[k] == called.ram[k]
        }),
        !(m.sp() + 1 <= cell(word(returning.arg())) < m.sp() + 5),
        cell(word(returning.arg())) != frame_cell(symbols),
        cell(word(returning.arg())) != return_cell(symbols),
    ensures
        ({
            let end = run(return_code(), returning, symbols);
            &&& run(call_code(function, n_arg, return_label(count)), m, symbols).jumped == Some(
                word(resolve(function, symbols)),
            )
            &&& end.jumped == Some(word(resolve(return_label(count), symbols)))
            &&& end.machine.lcl() == m.lcl()
            &&& end.machine.arg() == m.arg()
            &&& end.machine.this() == m.this()
            &&& end.machine.that() == m.that()
        }),
{
    lemma_run_call(function, n_arg, return_label(count), m, symbols);
    lemma_call_saves_frame(function, n_arg, return_label(count), m, symbols);
    let called = after_call(m, function, n_arg, return_label(count), symbols);
    let s = m.sp();
    assert(returning.lcl() == s + 5);
    assert(returning.ram[s] == called.ram[s]);
    assert(returning.ram[s + 1] == called.ram[s + 1]);
    assert(returning.ram[s + 2] == called.ram[s + 2]);
    assert(returning.ram[s + 3] == called.ram[s + 3]);
    assert(returning.ram[s + 4] == called.ram[s + 4]);
    lemma_return_restores(returning, symbols);
}

} // verus!
