//! The arithmetic and logical commands.

use crate::text::same_text;
use vstd::prelude::*;

verus! {

/// An arithmetic or logical command.
#[derive(Debug, Clone, Copy, PartialEq, Eq, Structural)]
pub enum ArithmeticCommand {
    ADD,
    SUB,
    NEG,
    EQ,
    GT,
    LT,
    AND,
    OR,
    NOT,
}

/// The command that a mnemonic stands for, if any. Mnemonics are case
/// sensitive.
pub open spec fn arithmetic_command_of(mnemonic: Seq<char>) -> Option<ArithmeticCommand> {
    if mnemonic == "add"@ {
        Some(ArithmeticCommand::ADD)
    } else if mnemonic == "sub"@ {
        Some(ArithmeticCommand::SUB)
    } else if mnemonic == "neg"@ {
        Some(ArithmeticCommand::NEG)
    } else if mnemonic == "eq"@ {
        Some(ArithmeticCommand::EQ)
    } else if mnemonic == "gt"@ {
        Some(ArithmeticCommand::GT)
    } else if mnemonic == "lt"@ {
        Some(ArithmeticCommand::LT)
    } else if mnemonic == "and"@ {
        Some(ArithmeticCommand::AND)
    } else if mnemonic == "or"@ {
        Some(ArithmeticCommand::OR)
    } else if mnemonic == "not"@ {
        Some(ArithmeticCommand::NOT)
    } else {
        None
    }
}

/// Whether the command compares two words, and so needs fresh labels.
pub open spec fn is_comparison(command: ArithmeticCommand) -> bool {
    command == ArithmeticCommand::EQ || command == ArithmeticCommand::GT || command
        == ArithmeticCommand::LT
}

/// The jump condition of a comparison.
pub open spec fn jump_condition(operation: ArithmeticCommand) -> Seq<char>
    recommends
        is_comparison(operation),
{
    match operation {
        ArithmeticCommand::EQ => "JEQ"@,
        ArithmeticCommand::GT => "JGT"@,
        _ => "JLT"@,
    }
}

impl ArithmeticCommand {
    /// Resolves a mnemonic; `None` for a word that is no arithmetic command.
    pub fn from_str(s: &str) -> (res: Option<ArithmeticCommand>)
        ensures
            res == arithmetic_command_of(s@),
    {
        if same_text(s, "add") {
            Some(ArithmeticCommand::ADD)
        } else if same_text(s, "sub") {
            Some(ArithmeticCommand::SUB)
        } else if same_text(s, "neg") {
            Some(ArithmeticCommand::NEG)
        } else if same_text(s, "eq") {
            Some(ArithmeticCommand::EQ)
        } else if same_text(s, "gt") {
            Some(ArithmeticCommand::GT)
        } else if same_text(s, "lt") {
            Some(ArithmeticCommand::LT)
        } else if same_text(s, "and") {
            Some(ArithmeticCommand::AND)
        } else if same_text(s, "or") {
            Some(ArithmeticCommand::OR)
        } else if same_text(s, "not") {
            Some(ArithmeticCommand::NOT)
        } else {
            None
        }
    }
}

} // verus!
