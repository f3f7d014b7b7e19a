//! The ways in which a translation fails.

use vstd::prelude::*;

verus! {

/// Why a command was not translated. Every error ends the translation.
#[derive(Debug, Clone, Copy, PartialEq, Eq, Structural)]
pub enum TranslateError {
    /// The text is no command of the language: the mnemonic or the segment
    /// name is unknown, the number of arguments is wrong, or an index or a
    /// count is not a decimal numeral.
    MalformedCommand,
    /// The command is well formed but asks for something that does not
    /// exist, such as the base register of a segment that has none.
    UnsupportedOperation,
}

} // verus!
