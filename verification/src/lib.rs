//! A code generator that lowers a small imperative language (integer and
//! string variables, arithmetic, while-loops, a fixed set of built-in calls)
//! into the instruction stream of a stack-based virtual machine whose
//! instructions are spelled with the three characters space, tab and newline.
//!
//! The lowering stage first produces a canonical instruction list and then
//! derives both output streams from it: the machine text and a readable
//! mnemonic trace, so the two can never drift apart.

pub mod ast;
pub mod lexer;
pub mod specs;
pub mod transpiler;
pub mod util;
