//! What the code of the arithmetic and logical commands does.

use crate::code_writer::arithmetic_code;
use crate::code_writer::arithmetic_code_generator::{
    condition_code, join_label, one_operand_code, true_label, two_operands_code,
};
use crate::code_writer::arithmetic_command::{ArithmeticCommand, is_comparison, jump_condition};
use crate::execution::steps::{
    after_pop, after_push, lemma_resolve_registers, lemma_run_raise, lemma_step_load,
};
use crate::machine::{
    cell, cell_count, complement, jumps, lemma_run_concat, Machine, resolve, run, Run, signed, step,
    Symbols, word, word_count,
};
use vstd::prelude::*;

verus! {

/// The word that a unary command puts in the place of `x`.
pub open spec fn unary_result(command: ArithmeticCommand, x: int) -> int
    recommends
        command == ArithmeticCommand::NEG || command == ArithmeticCommand::NOT,
{
    if command == ArithmeticCommand::NEG {
        word(-x)
    } else {
        complement(x)
    }
}

/// The word that a binary command makes of the left operand `x` and the
/// right operand `y`.
pub open spec fn binary_result(command: ArithmeticCommand, x: int, y: int) -> int
    recommends
        command == ArithmeticCommand::ADD || command == ArithmeticCommand::SUB || command
            == ArithmeticCommand::AND || command == ArithmeticCommand::OR,
{
    match command {
        ArithmeticCommand::ADD => word(x + y),
        ArithmeticCommand::SUB => word(x - y),
        ArithmeticCommand::AND => (x as u16 & y as u16) as int,
        _ => (x as u16 | y as u16) as int,
    }
}

/// Whether a comparison holds of the difference `v` of its operands, the
/// left one less the right one, cut down to a word.
pub open spec fn comparison_holds(command: ArithmeticCommand, v: int) -> bool
    recommends
        is_comparison(command),
{
    match command {
        ArithmeticCommand::EQ => v == 0,
        ArithmeticCommand::GT => signed(v) > 0,
        _ => signed(v) < 0,
    }
}

/// The machine after a unary command: the stack pointer goes down by one,
/// the cell that it then designates gets the result, and the stack
/// pointer goes up again.
pub open spec fn after_unary(m: Machine, command: ArithmeticCommand) -> Machine {
    let top = word(m.ram[0] - 1);
    let lowered = m.ram.insert(0, top);
    let stored = lowered.insert(cell(top), unary_result(command, lowered[cell(top)]));
    Machine { a: 0, d: m.d, ram: stored.insert(0, word(stored[0] + 1)) }
}

/// The machine after the operands of a binary command or a comparison
/// were taken off the stack: the right operand, popped first, is in `D`,
/// and `A` holds the address of the left operand, which is still in place.
pub open spec fn after_operands(m: Machine) -> Machine {
    let first = word(m.ram[0] - 1);
    let lowered = m.ram.insert(0, first);
    let right = lowered[cell(first)];
    let second = word(lowered[0] - 1);
    Machine { a: second, d: right, ram: lowered.insert(0, second) }
}

/// The machine after a binary command: the left operand is replaced by
/// the result, and the stack pointer stands just above it.
pub open spec fn after_binary(m: Machine, command: ArithmeticCommand) -> Machine {
    let taken = after_operands(m);
    let stored = taken.write(
        taken.a,
        binary_result(command, taken.read(taken.a), taken.d),
    );
    Machine { a: 0, d: taken.d, ram: stored.ram.insert(0, word(stored.ram[0] + 1)) }
}

/// The machine after a comparison has stored the difference of its
/// operands, the left one less the right one, in the place of the left
/// one and in `D`.
pub open spec fn after_difference(m: Machine) -> Machine {
    let taken = after_operands(m);
    let v = word(taken.read(taken.a) - taken.d);
    Machine { a: taken.a, d: v, ram: taken.write(taken.a, v).ram }
}

/// The machine after a comparison: the left operand is replaced by all
/// ones if the comparison holds and by zero if not, and the stack pointer
/// stands just above it.
pub open spec fn after_comparison(m: Machine, command: ArithmeticCommand) -> Machine {
    let compared = after_difference(m);
    let answer = if comparison_holds(command, compared.d) {
        word_count() - 1
    } else {
        0
    };
    let stored = compared.ram.insert(cell(compared.ram[0]), answer);
    Machine { a: 0, d: compared.d, ram: stored.insert(0, word(stored[0] + 1)) }
}

/// What the three jump conditions of the comparisons ask of a value.
pub proof fn lemma_jump_conditions(command: ArithmeticCommand, v: int)
    requires
        is_comparison(command),
    ensures
        jumps(jump_condition(command), v) == comparison_holds(command, v),
{
    reveal_strlit("JEQ");
    reveal_strlit("JGT");
    reveal_strlit("JLT");
}

proof fn lemma_run_operands(m: Machine, symbols: Symbols)
    ensures
        run(seq!["@SP"@, "M=M-1"@, "A=M"@, "D=M"@, "@SP"@, "M=M-1"@, "A=M"@], m, symbols) == (Run {
            machine: after_operands(m),
            jumped: None,
        }),
{
    lemma_resolve_registers(symbols);
    reveal_strlit("@SP");
    reveal_strlit("SP");
    reveal_strlit("M=M-1");
    reveal_strlit("A=M");
    reveal_strlit("D=M");
    assert("@SP"@.skip(1) =~= "SP"@);
    reveal_with_fuel(run, 8);
}

proof fn lemma_run_unary(
    operator: Seq<char>,
    command: ArithmeticCommand,
    m: Machine,
    symbols: Symbols,
)
    requires
        operator.len() == 1,
        (command == ArithmeticCommand::NEG && operator[0] == '-') || (command
            == ArithmeticCommand::NOT && operator[0] == '!'),
    ensures
        run(one_operand_code(operator), m, symbols) == (Run {
            machine: after_unary(m, command),
            jumped: None,
        }),
{
    let head = seq!["@SP"@, "M=M-1"@, "A=M"@, "M="@ + operator + "M"@];
    let tail = seq!["@SP"@, "M=M+1"@];
    assert(one_operand_code(operator) =~= head + tail);
    let m1 = Machine { a: 0, ..m };
    let m2 = m1.write(0, word(m1.read(0) - 1));
    let m3 = Machine { a: m2.read(0), ..m2 };
    let m4 = m3.write(m3.a, unary_result(command, m3.read(m3.a)));
    assert(run(head, m, symbols) == (Run { machine: m4, jumped: None })) by {
        lemma_resolve_registers(symbols);
        reveal_strlit("@SP");
        reveal_strlit("SP");
        reveal_strlit("M=M-1");
        reveal_strlit("A=M");
        reveal_strlit("M=");
        reveal_strlit("M");
        assert("@SP"@.skip(1) =~= "SP"@);
        let line = "M="@ + operator + "M"@;
        assert(line.len() == 4 && line[0] == 'M' && line[1] == '=' && line[2] == operator[0]
            && line[3] == 'M');
        assert(step(head[3], m3, symbols) == (Run { machine: m4, jumped: None }));
        reveal_with_fuel(run, 5);
    }
    lemma_run_concat(head, tail, m, symbols);
    lemma_run_raise(m4, symbols);
}

proof fn lemma_run_binary(
    operator: Seq<char>,
    command: ArithmeticCommand,
    m: Machine,
    symbols: Symbols,
)
    requires
        operator.len() == 1,
        (command == ArithmeticCommand::ADD && operator[0] == '+') || (command
            == ArithmeticCommand::SUB && operator[0] == '-') || (command == ArithmeticCommand::AND
            && operator[0] == '&') || (command == ArithmeticCommand::OR && operator[0] == '|'),
    ensures
        run(two_operands_code(operator), m, symbols) == (Run {
            machine: after_binary(m, command),
            jumped: None,
        }),
{
    let head = seq!["@SP"@, "M=M-1"@, "A=M"@, "D=M"@, "@SP"@, "M=M-1"@, "A=M"@];
    let middle = seq!["M=M"@ + operator + "D"@];
    let tail = seq!["@SP"@, "M=M+1"@];
    assert(two_operands_code(operator) =~= head + middle + tail);
    lemma_run_operands(m, symbols);
    let taken = after_operands(m);
    let stored = taken.write(
        taken.a,
        binary_result(command, taken.read(taken.a), taken.d),
    );
    assert(run(middle, taken, symbols) == (Run { machine: stored, jumped: None })) by {
        reveal_strlit("M=M");
        reveal_strlit("D");
        let line = "M=M"@ + operator + "D"@;
        assert(line.len() == 5 && line[0] == 'M' && line[1] == '=' && line[2] == 'M' && line[3]
            == operator[0] && line[4] == 'D');
        let rest = line.skip(2);
        assert(rest.len() == 3 && rest[0] == 'M' && rest[1] == operator[0] && rest[2] == 'D');
        assert(rest.take(3) =~= rest);
        assert(step(middle[0], taken, symbols) == (Run { machine: stored, jumped: None }));
        reveal_with_fuel(run, 2);
    }
    lemma_run_concat(head, middle, m, symbols);
    lemma_run_concat(head + middle, tail, m, symbols);
    lemma_run_raise(stored, symbols);
}

/// Running the code of a unary or a binary command replaces the operands
/// on the stack by the result. The right operand of a binary command is
/// the one that was pushed last.
pub proof fn lemma_run_arithmetic(
    command: ArithmeticCommand,
    count: nat,
    m: Machine,
    symbols: Symbols,
)
    requires
        !is_comparison(command),
    ensures
        run(arithmetic_code(command, count), m, symbols) == (Run {
            machine: if command == ArithmeticCommand::NEG || command == ArithmeticCommand::NOT {
                after_unary(m, command)
            } else {
                after_binary(m, command)
            },
            jumped: None,
        }),
{
    reveal_strlit("+");
    reveal_strlit("-");
    reveal_strlit("&");
    reveal_strlit("|");
    reveal_strlit("!");
    match command {
        ArithmeticCommand::ADD => lemma_run_binary("+"@, command, m, symbols),
        ArithmeticCommand::SUB => lemma_run_binary("-"@, command, m, symbols),
        ArithmeticCommand::AND => lemma_run_binary("&"@, command, m, symbols),
        ArithmeticCommand::OR => lemma_run_binary("|"@, command, m, symbols),
        ArithmeticCommand::NEG => lemma_run_unary("-"@, command, m, symbols),
        _ => lemma_run_unary("!"@, command, m, symbols),
    }
}

proof fn lemma_run_decide(
    command: ArithmeticCommand,
    count: nat,
    taken: Machine,
    symbols: Symbols,
)
    requires
        is_comparison(command),
    ensures
        ({
            let v = word(taken.read(taken.a) - taken.d);
            let aimed = Machine {
                a: word(resolve(true_label(count), symbols)),
                d: v,
                ram: taken.write(taken.a, v).ram,
            };
            run(
                seq!["MD=M-D"@, "@"@ + true_label(count), "D;"@ + jump_condition(command)],
                taken,
                symbols,
            ) == (Run {
                machine: aimed,
                jumped: if comparison_holds(command, v) {
                    Some(aimed.a)
                } else {
                    None
                },
            })
        }),
{
    let condition = jump_condition(command);
    let decide = seq!["MD=M-D"@, "@"@ + true_label(count), "D;"@ + condition];
    let v = word(taken.read(taken.a) - taken.d);
    let compared = Machine { a: taken.a, d: v, ram: taken.write(taken.a, v).ram };
    let aimed = Machine { a: word(resolve(true_label(count), symbols)), ..compared };
    let holds = comparison_holds(command, v);
    lemma_jump_conditions(command, v);
    assert(step(decide[0], taken, symbols) == (Run { machine: compared, jumped: None })) by {
        reveal_strlit("MD=M-D");
    }
    assert(step(decide[1], compared, symbols) == (Run { machine: aimed, jumped: None })) by {
        lemma_step_load(true_label(count), compared, symbols);
    }
    assert(step(decide[2], aimed, symbols) == (Run {
        machine: aimed,
        jumped: if holds {
            Some(aimed.a)
        } else {
            None
        },
    })) by {
        reveal_strlit("D;");
        reveal_strlit("JEQ");
        reveal_strlit("JGT");
        reveal_strlit("JLT");
        let line = "D;"@ + condition;
        assert(line.len() == 5 && line[0] == 'D' && line[1] == ';');
        assert(line.skip(2) =~= condition);
        assert(line.take(1).len() == 1 && line.take(1)[0] == 'D');
    }
    assert(decide.skip(1)[0] == decide[1]);
    assert(decide.skip(1).skip(1)[0] == decide[2]);
    assert(decide.skip(1).skip(1).skip(1).len() == 0);
    reveal_with_fuel(run, 4);
}

proof fn lemma_run_on_false(count: nat, m: Machine, symbols: Symbols)
    ensures
        ({
            let target = word(resolve(join_label(count), symbols));
            run(
                seq!["@SP"@, "A=M"@, "M=0"@, "@"@ + join_label(count), "0;JMP"@],
                m,
                symbols,
            ) == (Run {
                machine: Machine { a: target, d: m.d, ram: m.ram.insert(cell(m.ram[0]), 0) },
                jumped: Some(target),
            })
        }),
{
    let code = seq!["@SP"@, "A=M"@, "M=0"@, "@"@ + join_label(count), "0;JMP"@];
    let target = word(resolve(join_label(count), symbols));
    lemma_resolve_registers(symbols);
    let b1 = Machine { a: 0, ..m };
    let b2 = Machine { a: b1.read(0), ..b1 };
    let b3 = b2.write(b2.a, 0);
    let b4 = Machine { a: target, ..b3 };
    assert(step(code[0], m, symbols) == (Run { machine: b1, jumped: None })) by {
        reveal_strlit("@SP");
        reveal_strlit("SP");
        assert("@SP"@.skip(1) =~= "SP"@);
    }
    assert(step(code[1], b1, symbols) == (Run { machine: b2, jumped: None })) by {
        reveal_strlit("A=M");
    }
    assert(step(code[2], b2, symbols) == (Run { machine: b3, jumped: None })) by {
        reveal_strlit("M=0");
    }
    assert(step(code[3], b3, symbols) == (Run { machine: b4, jumped: None })) by {
        lemma_step_load(join_label(count), b3, symbols);
    }
    assert(step(code[4], b4, symbols) == (Run { machine: b4, jumped: Some(target) })) by {
        reveal_strlit("0;JMP");
    }
    assert(code.skip(1)[0] == code[1]);
    assert(code.skip(1).skip(1)[0] == code[2]);
    assert(code.skip(1).skip(1).skip(1)[0] == code[3]);
    assert(code.skip(1).skip(1).skip(1).skip(1)[0] == code[4]);
    reveal_with_fuel(run, 5);
}

proof fn lemma_run_on_true(count: nat, m: Machine, symbols: Symbols)
    ensures
        run(
            seq!["("@ + true_label(count) + ")"@, "@SP"@, "A=M"@, "M=-1"@],
            m,
            symbols,
        ) == (Run {
            machine: Machine {
                a: m.ram[0],
                d: m.d,
                ram: m.ram.insert(cell(m.ram[0]), word_count() - 1),
            },
            jumped: None,
        }),
{
    let code = seq!["("@ + true_label(count) + ")"@, "@SP"@, "A=M"@, "M=-1"@];
    lemma_resolve_registers(symbols);
    let b1 = Machine { a: 0, ..m };
    let b2 = Machine { a: b1.read(0), ..b1 };
    let b3 = b2.write(b2.a, word_count() - 1);
    assert(step(code[0], m, symbols) == (Run { machine: m, jumped: None })) by {
        reveal_strlit("(");
        assert(code[0][0] == '(');
    }
    assert(step(code[1], m, symbols) == (Run { machine: b1, jumped: None })) by {
        reveal_strlit("@SP");
        reveal_strlit("SP");
        assert("@SP"@.skip(1) =~= "SP"@);
    }
    assert(step(code[2], b1, symbols) == (Run { machine: b2, jumped: None })) by {
        reveal_strlit("A=M");
    }
    assert(step(code[3], b2, symbols) == (Run { machine: b3, jumped: None })) by {
        reveal_strlit("M=-1");
    }
    assert(code.skip(1)[0] == code[1]);
    assert(code.skip(1).skip(1)[0] == code[2]);
    assert(code.skip(1).skip(1).skip(1)[0] == code[3]);
    assert(code.skip(1).skip(1).skip(1).skip(1).len() == 0);
    reveal_with_fuel(run, 5);
}

proof fn lemma_run_join(count: nat, m: Machine, symbols: Symbols)
    ensures
        run(seq!["("@ + join_label(count) + ")"@, "@SP"@, "M=M+1"@], m, symbols) == (Run {
            machine: Machine { a: 0, d: m.d, ram: m.ram.insert(0, word(m.ram[0] + 1)) },
            jumped: None,
        }),
{
    let code = seq!["("@ + join_label(count) + ")"@, "@SP"@, "M=M+1"@];
    assert(step(code[0], m, symbols) == (Run { machine: m, jumped: None })) by {
        reveal_strlit("(");
        assert(code[0][0] == '(');
    }
    assert(code.skip(1) =~= seq!["@SP"@, "M=M+1"@]);
    lemma_run_raise(m, symbols);
    reveal_with_fuel(run, 2);
}

/// Running the code of a comparison. The run stores the difference of
/// the operands and then jumps: to the first label of the comparison if
/// the comparison holds, and else, with zero stored as the answer, to its
/// second label. Running on from the declaration of the label that was
/// jumped to, which is where the assembler puts the label, leads in both
/// cases to the same end: the answer stands in the place of the left
/// operand, all ones if the comparison holds and zero if not, and the
/// stack pointer stands just above it.
pub proof fn lemma_run_comparison(
    command: ArithmeticCommand,
    count: nat,
    m: Machine,
    symbols: Symbols,
)
    requires
        is_comparison(command),
    ensures
        ({
            let code = arithmetic_code(command, count);
            let holds = comparison_holds(command, after_difference(m).d);
            let first = run(code, m, symbols);
            let end = Run { machine: after_comparison(m, command), jumped: None };
            &&& code.len() == 22
            &&& code[15] == "("@ + true_label(count) + ")"@
            &&& code[19] == "("@ + join_label(count) + ")"@
            &&& holds ==> first.jumped == Some(word(resolve(true_label(count), symbols)))
                && run(code.skip(15), first.machine, symbols) == end
            &&& !holds ==> first.jumped == Some(word(resolve(join_label(count), symbols)))
                && run(code.skip(19), first.machine, symbols) == end
        }),
{
    let condition = jump_condition(command);
    let code = condition_code(count, condition);
    assert(arithmetic_code(command, count) == code);
    let operands = seq!["@SP"@, "M=M-1"@, "A=M"@, "D=M"@, "@SP"@, "M=M-1"@, "A=M"@];
    let decide = seq!["MD=M-D"@, "@"@ + true_label(count), "D;"@ + condition];
    let on_false = seq!["@SP"@, "A=M"@, "M=0"@, "@"@ + join_label(count), "0;JMP"@];
    let on_true = seq!["("@ + true_label(count) + ")"@, "@SP"@, "A=M"@, "M=-1"@];
    let join = seq!["("@ + join_label(count) + ")"@, "@SP"@, "M=M+1"@];
    assert(code =~= operands + decide + on_false + on_true + join);
    assert(code.skip(15) =~= on_true + join);
    assert(code.skip(19) =~= join);
    lemma_run_operands(m, symbols);
    let taken = after_operands(m);
    lemma_run_decide(command, count, taken, symbols);
    let aimed = run(decide, taken, symbols).machine;
    lemma_run_concat(operands, decide, m, symbols);
    lemma_run_concat(operands + decide, on_false, m, symbols);
    lemma_run_concat(operands + decide + on_false, on_true, m, symbols);
    lemma_run_concat(operands + decide + on_false + on_true, join, m, symbols);
    lemma_run_on_false(count, aimed, symbols);
    let zeroed = run(on_false, aimed, symbols).machine;
    lemma_run_join(count, zeroed, symbols);
    lemma_run_on_true(count, aimed, symbols);
    let answered = run(on_true, aimed, symbols).machine;
    lemma_run_join(count, answered, symbols);
    lemma_run_concat(on_true, join, aimed, symbols);
}

/// Whether the stack holds at least two words above the registers and
/// has room for one more.
pub open spec fn stack_in_place(m: Machine) -> bool {
    m.wf() && 18 <= m.sp() < cell_count()
}

/// What the commands do to the stack, where it lies above the registers.
/// A push puts its value on top and moves the stack pointer up by one. A
/// pop moves it down by one and stores the word that was on top, unless
/// its target is the stack pointer itself. A unary command replaces the
/// top by its result and leaves the stack pointer. A binary command and a
/// comparison replace the two words on top, the left operand below the
/// right one, by their result, and leave the stack pointer one lower.
pub proof fn lemma_stack_effects(m: Machine, value: int, target: int, command: ArithmeticCommand)
    requires
        stack_in_place(m),
        0 <= target < word_count(),
    ensures
        after_push(m, value).sp() == m.sp() + 1,
        after_push(m, value).ram[m.sp()] == value,
        cell(target) != 0 ==> after_pop(m, target).sp() == m.sp() - 1,
        cell(target) != 0 && cell(target) != 13 ==> after_pop(m, target).read(target)
            == m.ram[m.sp() - 1],
        command == ArithmeticCommand::NEG || command == ArithmeticCommand::NOT ==> {
            &&& after_unary(m, command).sp() == m.sp()
            &&& after_unary(m, command).ram[m.sp() - 1] == unary_result(
                command,
                m.ram[m.sp() - 1],
            )
        },
        command == ArithmeticCommand::ADD || command == ArithmeticCommand::SUB || command
            == ArithmeticCommand::AND || command == ArithmeticCommand::OR ==> {
            &&& after_binary(m, command).sp() == m.sp() - 1
            &&& after_binary(m, command).ram[m.sp() - 2] == binary_result(
                command,
                m.ram[m.sp() - 2],
                m.ram[m.sp() - 1],
            )
        },
        is_comparison(command) ==> {
            &&& after_comparison(m, command).sp() == m.sp() - 1
            &&& after_comparison(m, command).ram[m.sp() - 2] == if comparison_holds(
                command,
                word(m.ram[m.sp() - 2] - m.ram[m.sp() - 1]),
            ) {
                word_count() - 1
            } else {
                0
            }
        },
{
    let s = m.sp();
    assert(m.ram[0] == s);
    assert(cell(s) == s && cell(s - 1) == s - 1 && cell(s - 2) == s - 2);
    assert(word(s - 1) == s - 1 && word(s - 2) == s - 2 && word(s + 1) == s + 1);
    assert(0 <= m.ram[s - 1] < word_count());
    assert(0 <= m.ram[s - 2] < word_count());
}

} // verus!
