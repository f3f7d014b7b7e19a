//! The code generator: from classified commands to assembly lines.

pub mod arithmetic_code_generator;
pub mod arithmetic_command;
pub mod constant;
pub mod helper;
pub mod pop_code_generator;
pub mod push_code_generator;
pub mod return_address_generator;
pub mod segment;

use crate::code_writer::arithmetic_code_generator::{
    condition_code, one_operand_code, two_operands_code,
};
use crate::code_writer::arithmetic_command::{
    arithmetic_command_of, is_comparison, ArithmeticCommand,
};
use crate::code_writer::pop_code_generator::{
    generate_pop_code, generate_pop_spec, pop_segment, pop_segment_code,
};
use crate::code_writer::push_code_generator::{
    generate_push_code, generate_push_d_to_sp_code, generate_push_spec, push_constant,
    push_constant_code, push_d_to_sp_code,
};
use crate::code_writer::return_address_generator::{return_label, ReturnAddressGenerator};
use crate::error::TranslateError;
use crate::text::{
    append_lines, decimal_value, is_decimal, is_decimal_str, parse_decimal, push_line,
};
use vstd::prelude::*;
use vstd::string::*;

verus! {

/// The name that stands at the bottom of the stack of function names: the
/// scope of labels that are declared outside any function.
pub open spec fn root_function() -> Seq<char> {
    "null"@
}

/// The greatest number of local variables that `function` may declare.
pub open spec fn max_locals() -> nat {
    0x7fff_ffff
}

/// The target name of the label `label` inside the function `function`.
pub open spec fn scoped_label(function: Seq<char>, label: Seq<char>) -> Seq<char> {
    function + "$"@ + label
}

/// The code of `label`: the declaration of the scoped name.
pub open spec fn label_code(function: Seq<char>, label: Seq<char>) -> Seq<Seq<char>> {
    seq!["("@ + scoped_label(function, label) + ")"@]
}

/// The code of `goto`: a jump to the scoped name.
pub open spec fn go_to_code(function: Seq<char>, label: Seq<char>) -> Seq<Seq<char>> {
    seq!["@"@ + scoped_label(function, label), "0;JMP"@]
}

/// The code of `if-goto`: pop the top of the stack and jump to the scoped
/// name unless the popped value is zero.
pub open spec fn if_go_to_code(function: Seq<char>, label: Seq<char>) -> Seq<Seq<char>> {
    seq!["@SP"@, "AM=M-1"@, "D=M"@, "@"@ + scoped_label(function, label), "D;JNE"@]
}

/// Push of the value that `register` holds.
pub open spec fn push_register_code(register: Seq<char>) -> Seq<Seq<char>> {
    seq!["@"@ + register, "D=M"@] + push_d_to_sp_code()
}

/// The code of `call`: push the return address and the caller's `LCL`,
/// `ARG`, `THIS` and `THAT`, in this order; set `ARG` to the stack pointer
/// less the number of arguments and the five words just pushed; set `LCL`
/// to the stack pointer; jump to the function; declare the return address.
pub open spec fn call_code(
    function: Seq<char>,
    n_arg: Seq<char>,
    return_address: Seq<char>,
) -> Seq<Seq<char>> {
    seq!["@"@ + return_address, "D=A"@] + push_d_to_sp_code() + push_register_code("LCL"@)
        + push_register_code("ARG"@) + push_register_code("THIS"@) + push_register_code("THAT"@)
        + seq!["@SP"@, "D=M"@, "@"@ + n_arg, "D=D-A"@, "@5"@, "D=D-A"@, "@ARG"@, "M=D"@]
        + seq!["@SP"@, "D=M"@, "@LCL"@, "M=D"@] + seq!["@"@ + function, "0;JMP"@] + seq![
        "("@ + return_address + ")"@,
    ]
}

/// `block` written `n` times.
pub open spec fn repeat_code(block: Seq<Seq<char>>, n: nat) -> Seq<Seq<char>>
    decreases n,
{
    if n == 0 {
        Seq::empty()
    } else {
        repeat_code(block, (n - 1) as nat) + block
    }
}

/// The code of `function`: the entry label, then one push of zero for each
/// local variable.
pub open spec fn function_code(function: Seq<char>, num_locals: nat) -> Seq<Seq<char>> {
    seq!["("@ + function + ")"@] + repeat_code(push_constant_code("0"@), num_locals)
}

/// Code that loads the word `distance` cells below the frame into `register`.
pub open spec fn restore_code(distance: Seq<char>, register: Seq<char>) -> Seq<Seq<char>> {
    seq!["@FRAME"@, "D=M"@, "@"@ + distance, "A=D-A"@, "D=M"@, "@"@ + register, "M=D"@]
}

/// The code of `return`: keep the frame address and the return address;
/// pop the result into the first argument cell; put the stack pointer just
/// above it; restore `THAT`, `THIS`, `ARG` and `LCL`, in this order, from
/// the four cells below the frame; jump to the return address.
pub open spec fn return_code() -> Seq<Seq<char>> {
    seq!["@LCL"@, "D=M"@, "@FRAME"@, "M=D"@, "@5"@, "A=D-A"@, "D=M"@, "@RET"@, "M=D"@]
        + pop_segment_code("0"@, "ARG"@) + seq!["@ARG"@, "D=M"@, "@SP"@, "M=D+1"@] + restore_code(
        "1"@,
        "THAT"@,
    ) + restore_code("2"@, "THIS"@) + restore_code("3"@, "ARG"@) + restore_code("4"@, "LCL"@)
        + seq!["@RET"@, "A=M"@, "0;JMP"@]
}

/// The code of an arithmetic command. A comparison is numbered `count`.
pub open spec fn arithmetic_code(command: ArithmeticCommand, count: nat) -> Seq<Seq<char>> {
    match command {
        ArithmeticCommand::ADD => two_operands_code("+"@),
        ArithmeticCommand::SUB => two_operands_code("-"@),
        ArithmeticCommand::NEG => one_operand_code("-"@),
        ArithmeticCommand::EQ => condition_code(count, "JEQ"@),
        ArithmeticCommand::GT => condition_code(count, "JGT"@),
        ArithmeticCommand::LT => condition_code(count, "JLT"@),
        ArithmeticCommand::AND => two_operands_code("&"@),
        ArithmeticCommand::OR => two_operands_code("|"@),
        ArithmeticCommand::NOT => one_operand_code("!"@),
    }
}

/// What a code writer holds.
pub struct CodeWriterView {
    /// The path of the file that the unit was read from.
    pub file_name: Seq<char>,
    /// The lines written so far.
    pub generated_code: Seq<Seq<char>>,
    /// How many comparisons have been translated.
    pub symbol_count: nat,
    /// The functions declared so far above the root name, the latest last.
    pub function_name_stack: Seq<Seq<char>>,
    /// How many calls have been translated.
    pub return_address_count: nat,
}

impl CodeWriterView {
    /// The writer for a unit of which nothing has been translated yet.
    pub open spec fn init(file_name: Seq<char>) -> CodeWriterView {
        CodeWriterView {
            file_name,
            generated_code: Seq::empty(),
            symbol_count: 0,
            function_name_stack: seq![root_function()],
            return_address_count: 0,
        }
    }

    /// The invariant of a writer: the stack of function names is never
    /// empty, and every comparison and every call has left at least two
    /// lines in the listing.
    pub open spec fn wf(self) -> bool {
        &&& self.function_name_stack.len() > 0
        &&& 2 * self.symbol_count <= self.generated_code.len()
        &&& 2 * self.return_address_count <= self.generated_code.len()
    }

    /// The function in which labels are now scoped.
    pub open spec fn current_function(self) -> Seq<char> {
        self.function_name_stack.last()
    }

    /// The writer after `code` was appended.
    pub open spec fn emit(self, code: Seq<Seq<char>>) -> CodeWriterView {
        CodeWriterView { generated_code: self.generated_code + code, ..self }
    }

    /// The writer after `push segment index`.
    pub open spec fn after_push(self, segment: Seq<char>, index: Seq<char>) -> Result<
        CodeWriterView,
        TranslateError,
    > {
        match generate_push_spec(segment, index, self.file_name) {
            Ok(code) => Ok(self.emit(code)),
            Err(e) => Err(e),
        }
    }

    /// The writer after `pop segment index`.
    pub open spec fn after_pop(self, segment: Seq<char>, index: Seq<char>) -> Result<
        CodeWriterView,
        TranslateError,
    > {
        match generate_pop_spec(segment, index, self.file_name) {
            Ok(code) => Ok(self.emit(code)),
            Err(e) => Err(e),
        }
    }

    /// The writer after `label label`.
    pub open spec fn after_label(self, label: Seq<char>) -> CodeWriterView {
        self.emit(label_code(self.current_function(), label))
    }

    /// The writer after `goto label`.
    pub open spec fn after_go_to(self, label: Seq<char>) -> CodeWriterView {
        self.emit(go_to_code(self.current_function(), label))
    }

    /// The writer after `if-goto label`.
    pub open spec fn after_if_go_to(self, label: Seq<char>) -> CodeWriterView {
        self.emit(if_go_to_code(self.current_function(), label))
    }

    /// The writer after `call function n_arg`. The command is malformed
    /// when `n_arg` is no decimal numeral. A call takes the next return
    /// address.
    pub open spec fn after_call(self, function: Seq<char>, n_arg: Seq<char>) -> Result<
        CodeWriterView,
        TranslateError,
    > {
        if is_decimal(n_arg) {
            let count = self.return_address_count + 1;
            Ok(
                CodeWriterView { return_address_count: count, ..self }.emit(
                    call_code(function, n_arg, return_label(count)),
                ),
            )
        } else {
            Err(TranslateError::MalformedCommand)
        }
    }

    /// The writer after the arithmetic command `mnemonic`. The command is
    /// malformed when the mnemonic is unknown. A comparison takes the next
    /// comparison number.
    pub open spec fn after_arithmetic(self, mnemonic: Seq<char>) -> Result<
        CodeWriterView,
        TranslateError,
    > {
        match arithmetic_command_of(mnemonic) {
            Some(command) => {
                let count = if is_comparison(command) {
                    self.symbol_count + 1
                } else {
                    self.symbol_count
                };
                Ok(
                    CodeWriterView { symbol_count: count, ..self }.emit(
                        arithmetic_code(command, count),
                    ),
                )
            },
            None => Err(TranslateError::MalformedCommand),
        }
    }

    /// The writer after `function function num_locals`. The command is
    /// malformed when `num_locals` is no decimal numeral or denotes more
    /// than `max_locals()`. Labels are scoped in the new function from now on.
    pub open spec fn after_function(self, function: Seq<char>, num_locals: Seq<char>) -> Result<
        CodeWriterView,
        TranslateError,
    > {
        if is_decimal(num_locals) && decimal_value(num_locals) <= max_locals() {
            Ok(
                CodeWriterView {
                    function_name_stack: self.function_name_stack.push(function),
                    ..self
                }.emit(function_code(function, decimal_value(num_locals))),
            )
        } else {
            Err(TranslateError::MalformedCommand)
        }
    }

    /// The writer after `return`. The stack of function names stays.
    pub open spec fn after_return(self) -> CodeWriterView {
        self.emit(return_code())
    }
}

/// Labels are scoped by function: the same label text in two functions
/// with different names gives two different target names, and so do the
/// declaration and the jumps that are written for it.
pub proof fn lemma_labels_scoped_by_function(f: Seq<char>, g: Seq<char>, label: Seq<char>)
    requires
        f != g,
    ensures
        scoped_label(f, label) != scoped_label(g, label),
        label_code(f, label)[0] != label_code(g, label)[0],
        go_to_code(f, label)[0] != go_to_code(g, label)[0],
        if_go_to_code(f, label)[3] != if_go_to_code(g, label)[3],
{
    let a = scoped_label(f, label);
    let b = scoped_label(g, label);
    if a == b {
        assert(a.len() == b.len());
        assert(a.take(f.len() as int) =~= f);
        assert(b.take(g.len() as int) =~= g);
        assert(false);
    }
    assert(("@"@ + a).skip("@"@.len() as int) =~= a);
    assert(("@"@ + b).skip("@"@.len() as int) =~= b);
    assert(("("@ + a + ")"@).subrange("("@.len() as int, ("("@.len() + a.len()) as int) =~= a);
    assert(("("@ + b + ")"@).subrange("("@.len() as int, ("("@.len() + b.len()) as int) =~= b);
    if "("@ + a + ")"@ == "("@ + b + ")"@ {
        assert(("("@ + a + ")"@).len() == ("("@ + b + ")"@).len());
        assert(false);
    }
}

/// After `function`, labels are scoped in the function just declared, and
/// all the functions declared before stay on the stack. A `return` leaves
/// the stack as it is.
pub proof fn lemma_function_opens_scope(
    writer: CodeWriterView,
    function: Seq<char>,
    num_locals: Seq<char>,
)
    ensures
        match writer.after_function(function, num_locals) {
            Ok(next) => next.current_function() == function && next.function_name_stack.drop_last()
                == writer.function_name_stack,
            Err(_) => true,
        },
        writer.after_return().function_name_stack == writer.function_name_stack,
{
    if let Ok(next) = writer.after_function(function, num_locals) {
        assert(next.function_name_stack.drop_last() =~= writer.function_name_stack);
    }
}

/// Translates the commands of one unit, one at a time, and keeps the
/// assembly written so far.
pub struct CodeWriter {
    file_name: String,
    generated_code: Vec<String>,
    symbol_count: usize,
    function_name_stack: Vec<String>,
    return_address_generator: ReturnAddressGenerator,
}

impl View for CodeWriter {
    type V = CodeWriterView;

    closed spec fn view(&self) -> CodeWriterView {
        CodeWriterView {
            file_name: self.file_name@,
            generated_code: self.generated_code.deep_view(),
            symbol_count: self.symbol_count as nat,
            function_name_stack: self.function_name_stack.deep_view(),
            return_address_count: self.return_address_generator.count(),
        }
    }
}

impl CodeWriter {
    /// Whether the writer is in a state that its own methods lead to.
    pub open spec fn wf(&self) -> bool {
        self@.wf()
    }

    /// The counters cannot outgrow their machine word.
    proof fn lemma_counters_fit(&self)
        requires
            self.wf(),
        ensures
            self.symbol_count < usize::MAX,
            self.return_address_generator.count() < usize::MAX,
    {
        assert(self.generated_code.deep_view().len() == self.generated_code.len());
    }

    /// A writer for the unit read from `file_name`.
    pub fn new(file_name: String) -> (res: CodeWriter)
        ensures
            res.wf(),
            res@ == CodeWriterView::init(file_name@),
    {
        let mut function_name_stack: Vec<String> = Vec::new();
        push_line(&mut function_name_stack, "null");
        let res = CodeWriter {
            file_name,
            generated_code: Vec::new(),
            symbol_count: 0,
            function_name_stack,
            return_address_generator: ReturnAddressGenerator::new(),
        };
        assert(res@.generated_code =~= Seq::<Seq<char>>::empty());
        assert(res@.function_name_stack =~= seq![root_function()]);
        res
    }

    /// The lines written so far.
    pub fn generated_code(&self) -> (res: &Vec<String>)
        ensures
            res.deep_view() == self@.generated_code,
    {
        &self.generated_code
    }

    /// Gives up the writer for the lines it has written.
    pub fn into_generated_code(self) -> (res: Vec<String>)
        ensures
            res.deep_view() == self@.generated_code,
    {
        self.generated_code
    }

    /// The root name and the functions declared so far, the latest last.
    pub fn function_name_stack(&self) -> (res: &Vec<String>)
        ensures
            res.deep_view() == self@.function_name_stack,
    {
        &self.function_name_stack
    }

    /// How many comparisons have been translated.
    pub fn symbol_count(&self) -> (res: usize)
        ensures
            res == self@.symbol_count,
    {
        self.symbol_count
    }

    /// How many calls have been translated.
    pub fn return_address_count(&self) -> (res: usize)
        ensures
            res == self@.return_address_count,
    {
        self.return_address_generator.counter()
    }

    /// Writes the code that stands before the first command: none.
    pub fn write_init(&mut self)
        requires
            old(self).wf(),
        ensures
            final(self).wf(),
            final(self)@ == old(self)@,
    {
        let new_code: Vec<String> = Vec::new();
        append_lines(&mut self.generated_code, new_code);
        assert(self@.generated_code =~= old(self)@.generated_code);
    }

    /// Translates `push segment index`.
    pub fn push(&mut self, segment: &str, index: &str) -> (res: Result<(), TranslateError>)
        requires
            old(self).wf(),
        ensures
            final(self).wf(),
            match res {
                Ok(()) => old(self)@.after_push(segment@, index@) == Ok::<
                    CodeWriterView,
                    TranslateError,
                >(final(self)@),
                Err(e) => old(self)@.after_push(segment@, index@) == Err::<
                    CodeWriterView,
                    TranslateError,
                >(e) && final(self)@ == old(self)@,
            },
    {
        match generate_push_code(segment, index, self.file_name.as_str()) {
            Ok(new_code) => {
                append_lines(&mut self.generated_code, new_code);
                Ok(())
            },
            Err(e) => Err(e),
        }
    }

    /// Translates `pop segment index`.
    pub fn pop(&mut self, segment: &str, index: &str) -> (res: Result<(), TranslateError>)
        requires
            old(self).wf(),
        ensures
            final(self).wf(),
            match res {
                Ok(()) => old(self)@.after_pop(segment@, index@) == Ok::<
                    CodeWriterView,
                    TranslateError,
                >(final(self)@),
                Err(e) => old(self)@.after_pop(segment@, index@) == Err::<
                    CodeWriterView,
                    TranslateError,
                >(e) && final(self)@ == old(self)@,
            },
    {
        match generate_pop_code(segment, index, self.file_name.as_str()) {
            Ok(new_code) => {
                append_lines(&mut self.generated_code, new_code);
                Ok(())
            },
            Err(e) => Err(e),
        }
    }

    /// The scoped name of `label_name` in the current function.
    fn scoped(&self, label_name: &str) -> (res: String)
        requires
            self.wf(),
        ensures
            res@ == scoped_label(self@.current_function(), label_name@),
    {
        let current = &self.function_name_stack[self.function_name_stack.len() - 1];
        current.clone().concat("$").concat(label_name)
    }

    /// Translates `label label_name`.
    pub fn write_label(&mut self, label_name: &str)
        requires
            old(self).wf(),
        ensures
            final(self).wf(),
            final(self)@ == old(self)@.after_label(label_name@),
    {
        let target = self.scoped(label_name);
        let mut new_code: Vec<String> = Vec::new();
        push_line(&mut new_code, "(".to_owned().concat(target.as_str()).concat(")").as_str());
        assert(new_code.deep_view() =~= label_code(self@.current_function(), label_name@));
        append_lines(&mut self.generated_code, new_code);
    }

    /// Translates `goto label_name`.
    pub fn write_go_to(&mut self, label_name: &str)
        requires
            old(self).wf(),
        ensures
            final(self).wf(),
            final(self)@ == old(self)@.after_go_to(label_name@),
    {
        let target = self.scoped(label_name);
        let mut new_code: Vec<String> = Vec::new();
        push_line(&mut new_code, "@".to_owned().concat(target.as_str()).as_str());
        push_line(&mut new_code, "0;JMP");
        assert(new_code.deep_view() =~= go_to_code(self@.current_function(), label_name@));
        append_lines(&mut self.generated_code, new_code);
    }

    /// Translates `if-goto label_name`.
    pub fn write_if_go_to(&mut self, label_name: &str)
        requires
            old(self).wf(),
        ensures
            final(self).wf(),
            final(self)@ == old(self)@.after_if_go_to(label_name@),
    {
        let target = self.scoped(label_name);
        let mut new_code: Vec<String> = Vec::new();
        push_line(&mut new_code, "@SP");
        push_line(&mut new_code, "AM=M-1");
        push_line(&mut new_code, "D=M");
        push_line(&mut new_code, "@".to_owned().concat(target.as_str()).as_str());
        push_line(&mut new_code, "D;JNE");
        assert(new_code.deep_view() =~= if_go_to_code(self@.current_function(), label_name@));
        append_lines(&mut self.generated_code, new_code);
    }

    /// Translates `call function_name n_arg`.
    pub fn write_call(&mut self, function_name: &str, n_arg: &str) -> (res: Result<
        (),
        TranslateError,
    >)
        requires
            old(self).wf(),
        ensures
            final(self).wf(),
            match res {
                Ok(()) => old(self)@.after_call(function_name@, n_arg@) == Ok::<
                    CodeWriterView,
                    TranslateError,
                >(final(self)@),
                Err(e) => old(self)@.after_call(function_name@, n_arg@) == Err::<
                    CodeWriterView,
                    TranslateError,
                >(e) && final(self)@ == old(self)@,
            },
    {
        if !is_decimal_str(n_arg) {
            return Err(TranslateError::MalformedCommand);
        }
        proof {
            self.lemma_counters_fit();
        }
        let return_address = self.return_address_generator.generate_new_return_address();
        let new_code = call_lines(function_name, n_arg, return_address.as_str());
        assert(new_code.deep_view().len() >= 2);
        append_lines(&mut self.generated_code, new_code);
        Ok(())
    }

    /// Translates the arithmetic command `arithmetic_command`.
    pub fn run_arichmetic_command(&mut self, arithmetic_command: &str) -> (res: Result<
        (),
        TranslateError,
    >)
        requires
            old(self).wf(),
        ensures
            final(self).wf(),
            match res {
                Ok(()) => old(self)@.after_arithmetic(arithmetic_command@) == Ok::<
                    CodeWriterView,
                    TranslateError,
                >(final(self)@),
                Err(e) => old(self)@.after_arithmetic(arithmetic_command@) == Err::<
                    CodeWriterView,
                    TranslateError,
                >(e) && final(self)@ == old(self)@,
            },
    {
        proof {
            self.lemma_counters_fit();
        }
        let new_code = match ArithmeticCommand::from_str(arithmetic_command) {
            Some(ArithmeticCommand::ADD) => crate::code_writer::arithmetic_code_generator::add(),
            Some(ArithmeticCommand::SUB) => crate::code_writer::arithmetic_code_generator::sub(),
            Some(ArithmeticCommand::NEG) => arithmetic_code_generator::neg(),
            Some(ArithmeticCommand::EQ) => {
                self.symbol_count += 1;
                arithmetic_code_generator::eq(&self.symbol_count)
            },
            Some(ArithmeticCommand::GT) => {
                self.symbol_count += 1;
                arithmetic_code_generator::gt(&self.symbol_count)
            },
            Some(ArithmeticCommand::LT) => {
                self.symbol_count += 1;
                arithmetic_code_generator::lt(&self.symbol_count)
            },
            Some(ArithmeticCommand::AND) => arithmetic_code_generator::and(),
            Some(ArithmeticCommand::OR) => arithmetic_code_generator::or(),
            Some(ArithmeticCommand::NOT) => arithmetic_code_generator::not(),
            None => {
                return Err(TranslateError::MalformedCommand);
            },
        };
        assert(new_code.deep_view().len() >= 2);
        append_lines(&mut self.generated_code, new_code);
        Ok(())
    }

    /// Translates `function function_name num_locals`.
    pub fn write_function(&mut self, function_name: &str, num_locals: &str) -> (res: Result<
        (),
        TranslateError,
    >)
        requires
            old(self).wf(),
        ensures
            final(self).wf(),
            match res {
                Ok(()) => old(self)@.after_function(function_name@, num_locals@) == Ok::<
                    CodeWriterView,
                    TranslateError,
                >(final(self)@),
                Err(e) => old(self)@.after_function(function_name@, num_locals@) == Err::<
                    CodeWriterView,
                    TranslateError,
                >(e) && final(self)@ == old(self)@,
            },
    {
        let n: u32 = match parse_decimal(num_locals, 0x7fff_ffff) {
            Some(n) => n,
            None => {
                return Err(TranslateError::MalformedCommand);
            },
        };
        let mut new_code: Vec<String> = Vec::new();
        push_line(&mut new_code, "(".to_owned().concat(function_name).concat(")").as_str());
        let mut i: u32 = 0;
        assert(new_code.deep_view() =~= function_code(function_name@, 0));
        while i < n
            invariant
                i <= n,
                new_code.deep_view() == function_code(function_name@, i as nat),
            decreases n - i,
        {
            append_lines(&mut new_code, push_constant("0"));
            i += 1;
            assert(new_code.deep_view() =~= function_code(function_name@, i as nat));
        }
        push_line(&mut self.function_name_stack, function_name);
        append_lines(&mut self.generated_code, new_code);
        Ok(())
    }

    /// Translates `return`.
    pub fn write_return(&mut self)
        requires
            old(self).wf(),
        ensures
            final(self).wf(),
            final(self)@ == old(self)@.after_return(),
    {
        let mut new_code: Vec<String> = Vec::new();
        push_line(&mut new_code, "@LCL");
        push_line(&mut new_code, "D=M");
        push_line(&mut new_code, "@FRAME");
        push_line(&mut new_code, "M=D");
        push_line(&mut new_code, "@5");
        push_line(&mut new_code, "A=D-A");
        push_line(&mut new_code, "D=M");
        push_line(&mut new_code, "@RET");
        push_line(&mut new_code, "M=D");
        append_lines(&mut new_code, pop_segment("0", "ARG"));
        push_line(&mut new_code, "@ARG");
        push_line(&mut new_code, "D=M");
        push_line(&mut new_code, "@SP");
        push_line(&mut new_code, "M=D+1");
        append_lines(&mut new_code, restore_lines("1", "THAT"));
        append_lines(&mut new_code, restore_lines("2", "THIS"));
        append_lines(&mut new_code, restore_lines("3", "ARG"));
        append_lines(&mut new_code, restore_lines("4", "LCL"));
        push_line(&mut new_code, "@RET");
        push_line(&mut new_code, "A=M");
        push_line(&mut new_code, "0;JMP");
        assert(new_code.deep_view() =~= return_code());
        append_lines(&mut self.generated_code, new_code);
    }
}

/// Code that pushes the value that `register` holds.
fn push_register_lines(register: &str) -> (res: Vec<String>)
    ensures
        res.deep_view() == push_register_code(register@),
{
    let mut res: Vec<String> = Vec::new();
    push_line(&mut res, "@".to_owned().concat(register).as_str());
    push_line(&mut res, "D=M");
    append_lines(&mut res, generate_push_d_to_sp_code());
    assert(res.deep_view() =~= push_register_code(register@));
    res
}

/// Code that loads the word `distance` cells below the frame into `register`.
fn restore_lines(distance: &str, register: &str) -> (res: Vec<String>)
    ensures
        res.deep_view() == restore_code(distance@, register@),
{
    let mut res: Vec<String> = Vec::new();
    push_line(&mut res, "@FRAME");
    push_line(&mut res, "D=M");
    push_line(&mut res, "@".to_owned().concat(distance).as_str());
    push_line(&mut res, "A=D-A");
    push_line(&mut res, "D=M");
    push_line(&mut res, "@".to_owned().concat(register).as_str());
    push_line(&mut res, "M=D");
    assert(res.deep_view() =~= restore_code(distance@, register@));
    res
}

/// The code of a call that returns to the label `return_address`.
fn call_lines(function_name: &str, n_arg: &str, return_address: &str) -> (res: Vec<String>)
    ensures
        res.deep_view() == call_code(function_name@, n_arg@, return_address@),
{
    let mut res: Vec<String> = Vec::new();
    push_line(&mut res, "@".to_owned().concat(return_address).as_str());
    push_line(&mut res, "D=A");
    append_lines(&mut res, generate_push_d_to_sp_code());
    append_lines(&mut res, push_register_lines("LCL"));
    append_lines(&mut res, push_register_lines("ARG"));
    append_lines(&mut res, push_register_lines("THIS"));
    append_lines(&mut res, push_register_lines("THAT"));
    push_line(&mut res, "@SP");
    push_line(&mut res, "D=M");
    push_line(&mut res, "@".to_owned().concat(n_arg).as_str());
    push_line(&mut res, "D=D-A");
    push_line(&mut res, "@5");
    push_line(&mut res, "D=D-A");
    push_line(&mut res, "@ARG");
    push_line(&mut res, "M=D");
    push_line(&mut res, "@SP");
    push_line(&mut res, "D=M");
    push_line(&mut res, "@LCL");
    push_line(&mut res, "M=D");
    push_line(&mut res, "@".to_owned().concat(function_name).as_str());
    push_line(&mut res, "0;JMP");
    push_line(&mut res, "(".to_owned().concat(return_address).concat(")").as_str());
    assert(res.deep_view() =~= call_code(function_name@, n_arg@, return_address@));
    res
}

} // verus!
