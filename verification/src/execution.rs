//! What the generated code does when the target machine runs it.

pub mod arithmetic;
pub mod control;
pub mod memory;
pub mod steps;
