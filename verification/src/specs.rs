//! Specifications of the target machine: its instruction set and the
//! bit-exact text encoding of instructions, numbers and labels.

pub mod whitespace;
