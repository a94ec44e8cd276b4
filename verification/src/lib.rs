//! A small scripting runtime: a line-oriented textual bytecode is assembled
//! into a nested instruction tree, which a stack-based machine then executes
//! with per-frame variable scoping, loops, functions, and channels moved
//! between frames.
//!
//! The abstract meaning of both halves lives in [`semantics`] and
//! [`parse_code`]: the assembler and the execution engine are each proved
//! equal to a step-indexed specification of what they do.

pub mod strmap;

pub mod bytecode;

pub mod semantics;

pub mod interpreter;

pub mod parse_code;

pub mod laws;
