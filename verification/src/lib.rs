//! A translator from a stack-machine intermediate language to the assembly of
//! a 16-bit machine with one accumulator and one address register.
//!
//! The `parser` turns source lines into classified commands, the
//! `code_writer` turns classified commands into assembly lines, and the
//! `translator` drives both over a whole source text. Every function states
//! exactly which lines it writes. The module `machine` says what the target
//! machine does with a line, and `execution` proves from it what the written
//! code does when it runs.

pub mod code_writer;
pub mod error;
pub mod execution;
pub mod machine;
pub mod parser;
pub mod text;
pub mod translator;
