//! The translator: one pass over a source text, from lines to assembly.

use crate::code_writer::arithmetic_code_generator::{
    condition_code, join_label, lemma_comparison_labels_differ, true_label,
};
use crate::code_writer::arithmetic_command::{
    arithmetic_command_of, is_comparison, jump_condition, ArithmeticCommand,
};
use crate::code_writer::{CodeWriter, CodeWriterView};
use crate::error::TranslateError;
use crate::parser::{
    clean_lines, option_view, parse_command, CommandType, CommandView, Parser,
};
use vstd::prelude::*;

verus! {

/// A translation that was given up: the first command that could not be
/// translated, and why.
#[derive(Debug, PartialEq, Eq)]
pub struct Failure {
    /// Why the command was refused.
    pub error: TranslateError,
    /// The command, as it stands in its line without comment and white
    /// space around it.
    pub command: String,
}

/// What a failure holds.
pub struct FailureView {
    /// Why the command was refused.
    pub error: TranslateError,
    /// The command that was refused.
    pub command: Seq<char>,
}

impl View for Failure {
    type V = FailureView;

    open spec fn view(&self) -> FailureView {
        FailureView { error: self.error, command: self.command@ }
    }
}

/// The writer after the code of a classified command was written. A
/// command that lacks an argument of its kind is malformed.
pub open spec fn dispatch(writer: CodeWriterView, command: CommandView) -> Result<
    CodeWriterView,
    TranslateError,
> {
    match (command.command_type, command.arg1, command.arg2) {
        (CommandType::ARITHMETIC, Some(mnemonic), _) => writer.after_arithmetic(mnemonic),
        (CommandType::PUSH, Some(segment), Some(index)) => writer.after_push(segment, index),
        (CommandType::POP, Some(segment), Some(index)) => writer.after_pop(segment, index),
        (CommandType::LABEL, Some(label), _) => Ok(writer.after_label(label)),
        (CommandType::GOTO, Some(label), _) => Ok(writer.after_go_to(label)),
        (CommandType::IF, Some(label), _) => Ok(writer.after_if_go_to(label)),
        (CommandType::FUNCTION, Some(function), Some(num_locals)) => writer.after_function(
            function,
            num_locals,
        ),
        (CommandType::CALL, Some(function), Some(n_arg)) => writer.after_call(function, n_arg),
        (CommandType::RETURN, _, _) => Ok(writer.after_return()),
        _ => Err(TranslateError::MalformedCommand),
    }
}

/// The writer after the command in `command` was classified and translated.
pub open spec fn translate_command(writer: CodeWriterView, command: Seq<char>) -> Result<
    CodeWriterView,
    TranslateError,
> {
    match parse_command(command) {
        Ok(parsed) => dispatch(writer, parsed),
        Err(e) => Err(e),
    }
}

/// The writer after `commands` were translated in order, or the first
/// command that was refused.
pub open spec fn translate_commands(writer: CodeWriterView, commands: Seq<Seq<char>>) -> Result<
    CodeWriterView,
    FailureView,
>
    decreases commands.len(),
{
    if commands.len() == 0 {
        Ok(writer)
    } else {
        match translate_command(writer, commands[0]) {
            Ok(next) => translate_commands(next, commands.skip(1)),
            Err(error) => Err(FailureView { error, command: commands[0] }),
        }
    }
}

/// The assembly for the source text `lines` of the unit read from
/// `file_name`, or the first command that was refused.
pub open spec fn translate_spec(lines: Seq<Seq<char>>, file_name: Seq<char>) -> Result<
    Seq<Seq<char>>,
    FailureView,
> {
    match translate_commands(CodeWriterView::init(file_name), clean_lines(lines)) {
        Ok(writer) => Ok(writer.generated_code),
        Err(failure) => Err(failure),
    }
}

/// The comparison that stands in `command`, if the command is one.
pub open spec fn comparison_of(command: Seq<char>) -> Option<ArithmeticCommand> {
    match parse_command(command) {
        Ok(parsed) => match (parsed.command_type, parsed.arg1) {
            (CommandType::ARITHMETIC, Some(mnemonic)) => match arithmetic_command_of(mnemonic) {
                Some(operation) if is_comparison(operation) => Some(operation),
                _ => None,
            },
            _ => None,
        },
        Err(_) => None,
    }
}

/// Whether a call stands in `command`.
pub open spec fn is_call(command: Seq<char>) -> bool {
    match parse_command(command) {
        Ok(parsed) => parsed.command_type == CommandType::CALL,
        Err(_) => false,
    }
}

/// How many of `commands` are calls.
pub open spec fn count_calls(commands: Seq<Seq<char>>) -> nat
    decreases commands.len(),
{
    if commands.len() == 0 {
        0
    } else {
        count_calls(commands.skip(1)) + if is_call(commands[0]) {
            1nat
        } else {
            0nat
        }
    }
}

/// How many of `commands` are comparisons.
pub open spec fn count_comparisons(commands: Seq<Seq<char>>) -> nat
    decreases commands.len(),
{
    if commands.len() == 0 {
        0
    } else {
        count_comparisons(commands.skip(1)) + if comparison_of(commands[0]) is Some {
            1nat
        } else {
            0nat
        }
    }
}

/// The lines that were written between the writer `before` and the later
/// writer `after`.
pub open spec fn written_between(before: CodeWriterView, after: CodeWriterView) -> Seq<
    Seq<char>,
> {
    after.generated_code.skip(before.generated_code.len() as int)
}

/// The writer as it is when command number `i` of `commands` is reached.
pub open spec fn writer_at(writer: CodeWriterView, commands: Seq<Seq<char>>, i: int) -> Result<
    CodeWriterView,
    FailureView,
> {
    translate_commands(writer, commands.take(i))
}

/// One command only adds lines to the listing. A comparison takes the
/// next comparison number and writes the comparison of that number; no
/// other command changes the count of comparisons. A call takes the next
/// return address; no other command changes the count of calls.
pub proof fn lemma_translate_command(writer: CodeWriterView, command: Seq<char>)
    ensures
        match translate_command(writer, command) {
            Ok(next) => {
                &&& next.generated_code == writer.generated_code + written_between(writer, next)
                &&& next.file_name == writer.file_name
                &&& writer.wf() ==> next.wf()
                &&& match comparison_of(command) {
                    Some(operation) => next.symbol_count == writer.symbol_count + 1
                        && written_between(writer, next) == condition_code(
                        next.symbol_count,
                        jump_condition(operation),
                    ),
                    None => next.symbol_count == writer.symbol_count,
                }
                &&& next.return_address_count == writer.return_address_count + if is_call(
                    command,
                ) {
                    1nat
                } else {
                    0nat
                }
            },
            Err(_) => true,
        },
{
    if let Ok(next) = translate_command(writer, command) {
        let parsed = parse_command(command)->Ok_0;
        assert(dispatch(writer, parsed) == Ok::<CodeWriterView, TranslateError>(next));
        let code = next.generated_code.skip(writer.generated_code.len() as int);
        assert forall|extra: Seq<Seq<char>>| next.generated_code == writer.generated_code
            + extra implies extra =~= code by {}
        assert(next.generated_code =~= writer.generated_code + code);
    }
}

/// Translating a sequence of commands is translating a first part of it
/// and then the rest, from where the first part has led.
pub proof fn lemma_translate_split(writer: CodeWriterView, commands: Seq<Seq<char>>, i: int)
    requires
        0 <= i <= commands.len(),
    ensures
        translate_commands(writer, commands) == match writer_at(writer, commands, i) {
            Ok(reached) => translate_commands(reached, commands.skip(i)),
            Err(failure) => Err(failure),
        },
    decreases i,
{
    if i == 0 {
        assert(commands.take(0) =~= Seq::<Seq<char>>::empty());
        assert(commands.skip(0) =~= commands);
    } else {
        let first = commands.take(i);
        assert(first[0] == commands[0]);
        assert(first.skip(1) =~= commands.skip(1).take(i - 1));
        assert(commands.skip(1).skip(i - 1) =~= commands.skip(i));
        if let Ok(next) = translate_command(writer, commands[0]) {
            lemma_translate_split(next, commands.skip(1), i - 1);
        }
    }
}

/// A translation that succeeds has given out exactly as many comparison
/// numbers as there are comparisons among the commands and exactly as
/// many return addresses as there are calls, and has kept every line that
/// was written before it.
pub proof fn lemma_comparisons_counted(writer: CodeWriterView, commands: Seq<Seq<char>>)
    ensures
        match translate_commands(writer, commands) {
            Ok(last) => {
                &&& last.symbol_count == writer.symbol_count + count_comparisons(commands)
                &&& last.return_address_count == writer.return_address_count + count_calls(
                    commands,
                )
                &&& last.generated_code == writer.generated_code + written_between(writer, last)
                &&& writer.wf() ==> last.wf()
            },
            Err(_) => true,
        },
    decreases commands.len(),
{
    if commands.len() == 0 {
        assert(writer.generated_code =~= writer.generated_code + written_between(
            writer,
            writer,
        ));
    } else if let Ok(next) = translate_command(writer, commands[0]) {
        lemma_translate_command(writer, commands[0]);
        lemma_comparisons_counted(next, commands.skip(1));
        if let Ok(last) = translate_commands(next, commands.skip(1)) {
            assert(last.generated_code =~= writer.generated_code + written_between(
                writer,
                last,
            ));
        }
    }
}

/// The number that the comparison at place `i` of `commands` is given.
pub open spec fn comparison_number(
    writer: CodeWriterView,
    commands: Seq<Seq<char>>,
    i: int,
) -> nat
    recommends
        0 <= i < commands.len(),
        writer_at(writer, commands, i) is Ok,
{
    writer_at(writer, commands, i)->Ok_0.symbol_count + 1
}

/// In a translation that succeeds, the comparison at place `i` writes the
/// comparison code of its number, which declares the two labels of that
/// number; and its number is the count of the comparisons up to it.
pub proof fn lemma_comparison_written(writer: CodeWriterView, commands: Seq<Seq<char>>, i: int)
    requires
        translate_commands(writer, commands) is Ok,
        0 <= i < commands.len(),
        comparison_of(commands[i]) is Some,
    ensures
        writer_at(writer, commands, i) is Ok,
        writer_at(writer, commands, i + 1) is Ok,
        written_between(
            writer_at(writer, commands, i)->Ok_0,
            writer_at(writer, commands, i + 1)->Ok_0,
        ) == condition_code(
            comparison_number(writer, commands, i),
            jump_condition(comparison_of(commands[i])->0),
        ),
        comparison_number(writer, commands, i) == writer.symbol_count + count_comparisons(
            commands.take(i),
        ) + 1,
{
    lemma_translate_split(writer, commands, i);
    lemma_translate_split(writer, commands, i + 1);
    lemma_translate_split(writer, commands.take(i + 1), i);
    assert(commands.take(i + 1).take(i) =~= commands.take(i));
    assert(commands.take(i + 1).skip(i) =~= seq![commands[i]]);
    let reached = writer_at(writer, commands, i)->Ok_0;
    let one = seq![commands[i]];
    assert(one.skip(1) =~= Seq::<Seq<char>>::empty());
    assert(one[0] == commands[i]);
    if let Ok(next) = translate_command(reached, commands[i]) {
        assert(translate_commands(next, one.skip(1)) == Ok::<CodeWriterView, FailureView>(next));
    }
    assert(translate_commands(reached, one) == match translate_command(
        reached,
        commands[i],
    ) {
        Ok(next) => Ok::<CodeWriterView, FailureView>(next),
        Err(error) => Err(FailureView { error, command: commands[i] }),
    });
    lemma_translate_command(reached, commands[i]);
    lemma_comparisons_counted(writer, commands.take(i));
}

/// Every comparison of a translation that succeeds has labels of its own:
/// of two comparisons the later one has the greater number, and none of
/// its two labels is a label of the earlier one.
pub proof fn lemma_comparison_labels_unique(
    writer: CodeWriterView,
    commands: Seq<Seq<char>>,
    i: int,
    j: int,
)
    requires
        translate_commands(writer, commands) is Ok,
        0 <= i < j < commands.len(),
        comparison_of(commands[i]) is Some,
        comparison_of(commands[j]) is Some,
    ensures
        ({
            let m = comparison_number(writer, commands, i);
            let n = comparison_number(writer, commands, j);
            &&& m < n
            &&& true_label(m) != true_label(n)
            &&& join_label(m) != join_label(n)
            &&& true_label(m) != join_label(n)
            &&& join_label(m) != true_label(n)
        }),
{
    let m = comparison_number(writer, commands, i);
    let n = comparison_number(writer, commands, j);
    lemma_comparison_written(writer, commands, i);
    lemma_comparison_written(writer, commands, j);
    lemma_count_comparisons_split(commands.take(j), i + 1);
    assert(commands.take(j).take(i + 1) =~= commands.take(i + 1));
    lemma_count_comparisons_split(commands.take(i + 1), i);
    assert(commands.take(i + 1).take(i) =~= commands.take(i));
    assert(commands.take(i + 1).skip(i) =~= seq![commands[i]]);
    assert(seq![commands[i]].skip(1) =~= Seq::<Seq<char>>::empty());
    assert(count_comparisons(seq![commands[i]]) == 1) by {
        assert(count_comparisons(seq![commands[i]].skip(1)) == 0);
    }
    lemma_comparison_labels_differ(m, n);
    lemma_comparison_labels_differ(n, m);
}

/// The comparisons of a sequence are those of a first part and those of
/// the rest.
pub proof fn lemma_count_comparisons_split(commands: Seq<Seq<char>>, i: int)
    requires
        0 <= i <= commands.len(),
    ensures
        count_comparisons(commands) == count_comparisons(commands.take(i)) + count_comparisons(
            commands.skip(i),
        ),
    decreases i,
{
    if i == 0 {
        assert(commands.take(0) =~= Seq::<Seq<char>>::empty());
        assert(commands.skip(0) =~= commands);
    } else {
        assert(commands.take(i)[0] == commands[0]);
        assert(commands.take(i).skip(1) =~= commands.skip(1).take(i - 1));
        assert(commands.skip(1).skip(i - 1) =~= commands.skip(i));
        lemma_count_comparisons_split(commands.skip(1), i - 1);
    }
}

/// A translation is given up at the first command that is refused: when
/// the commands before place `i` are translated and the command at place
/// `i` is refused, the whole translation fails with that command and its
/// error, whatever follows, and no writer comes out of it.
pub proof fn lemma_translation_stops_at_refusal(
    writer: CodeWriterView,
    commands: Seq<Seq<char>>,
    i: int,
)
    requires
        0 <= i < commands.len(),
        writer_at(writer, commands, i) is Ok,
        translate_command(writer_at(writer, commands, i)->Ok_0, commands[i]) is Err,
    ensures
        translate_commands(writer, commands) == Err::<CodeWriterView, FailureView>(
            FailureView {
                error: translate_command(
                    writer_at(writer, commands, i)->Ok_0,
                    commands[i],
                )->Err_0,
                command: commands[i],
            },
        ),
{
    lemma_translate_split(writer, commands, i);
    assert(commands.skip(i)[0] == commands[i]);
}

/// A line whose first word is no mnemonic is refused as malformed,
/// whatever the writer holds, and so is a line without words.
pub proof fn lemma_unknown_mnemonic_refused(writer: CodeWriterView, command: Seq<char>)
    requires
        crate::parser::classify(command) is Err,
    ensures
        translate_command(writer, command) == Err::<CodeWriterView, TranslateError>(
            TranslateError::MalformedCommand,
        ),
{
}

/// Writes the code of one classified command.
pub fn write_command(
    writer: &mut CodeWriter,
    command_type: CommandType,
    arg1: &Option<String>,
    arg2: &Option<String>,
) -> (res: Result<(), TranslateError>)
    requires
        old(writer).wf(),
    ensures
        final(writer).wf(),
        match res {
            Ok(()) => dispatch(
                old(writer)@,
                CommandView { command_type, arg1: option_view(*arg1), arg2: option_view(*arg2) },
            ) == Ok::<CodeWriterView, TranslateError>(final(writer)@),
            Err(e) => dispatch(
                old(writer)@,
                CommandView { command_type, arg1: option_view(*arg1), arg2: option_view(*arg2) },
            ) == Err::<CodeWriterView, TranslateError>(e) && final(writer)@ == old(writer)@,
        },
{
    match (command_type, arg1, arg2) {
        (CommandType::ARITHMETIC, Some(mnemonic), _) => writer.run_arichmetic_command(
            mnemonic.as_str(),
        ),
        (CommandType::PUSH, Some(segment), Some(index)) => writer.push(
            segment.as_str(),
            index.as_str(),
        ),
        (CommandType::POP, Some(segment), Some(index)) => writer.pop(
            segment.as_str(),
            index.as_str(),
        ),
        (CommandType::LABEL, Some(label), _) => {
            writer.write_label(label.as_str());
            Ok(())
        },
        (CommandType::GOTO, Some(label), _) => {
            writer.write_go_to(label.as_str());
            Ok(())
        },
        (CommandType::IF, Some(label), _) => {
            writer.write_if_go_to(label.as_str());
            Ok(())
        },
        (CommandType::FUNCTION, Some(function), Some(num_locals)) => writer.write_function(
            function.as_str(),
            num_locals.as_str(),
        ),
        (CommandType::CALL, Some(function), Some(n_arg)) => writer.write_call(
            function.as_str(),
            n_arg.as_str(),
        ),
        (CommandType::RETURN, _, _) => {
            writer.write_return();
            Ok(())
        },
        _ => Err(TranslateError::MalformedCommand),
    }
}

/// Translates the source text `lines` of the unit read from `file_name`.
/// The translation stops at the first command that is refused, and then
/// hands out no assembly at all.
pub fn translate(lines: Vec<String>, file_name: String) -> (res: Result<Vec<String>, Failure>)
    ensures
        match res {
            Ok(code) => translate_spec(lines.deep_view(), file_name@) == Ok::<
                Seq<Seq<char>>,
                FailureView,
            >(code.deep_view()),
            Err(failure) => translate_spec(lines.deep_view(), file_name@) == Err::<
                Seq<Seq<char>>,
                FailureView,
            >(failure@),
        },
{
    let mut parser = Parser::new(lines);
    let mut writer = CodeWriter::new(file_name);
    let ghost commands = parser@.commands;
    let ghost start = writer@;
    assert(commands.skip(0) =~= commands);
    while parser.has_more_commands()
        invariant
            parser.wf(),
            writer.wf(),
            parser@.commands == commands,
            commands == clean_lines(lines.deep_view()),
            start == CodeWriterView::init(file_name@),
            translate_commands(start, commands) == translate_commands(
                writer@,
                commands.skip(parser@.index as int),
            ),
        decreases commands.len() - parser@.index,
    {
        let at = parser.index();
        let ghost rest = commands.skip(at as int);
        assert(rest[0] == commands[at as int]);
        assert(rest.skip(1) =~= commands.skip(at + 1));
        let classified = parser.advance();
        let translated = match (classified, parser.command_type()) {
            (Ok(()), Some(command_type)) => write_command(
                &mut writer,
                command_type,
                parser.arg1(),
                parser.arg2(),
            ),
            (Err(error), _) => Err(error),
            // Does not happen: a command that was accepted has a kind.
            (Ok(()), None) => Err(TranslateError::MalformedCommand),
        };
        if let Err(error) = translated {
            let all = parser.commands();
            assert(all.deep_view().len() == all.len());
            return Err(Failure { error, command: all[at].clone() });
        }
    }
    Ok(writer.into_generated_code())
}

} // verus!
