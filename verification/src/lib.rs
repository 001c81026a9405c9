//! A small call-by-value functional language evaluated in two stages: terms
//! are lowered to stack-machine instructions, and an SECD-style machine runs
//! the instructions over an operand stack and a lexical environment.

pub mod ast;
pub mod code;
pub mod compile;
pub mod denotation;
pub mod laws;
pub mod machine;
pub mod names;
pub mod sugar;
pub mod value;
