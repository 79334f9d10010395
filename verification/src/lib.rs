//! A calculator engine: expression text is tokenized, brought into postfix
//! order and evaluated on an operand stack. The engine decides; the floating
//! point arithmetic itself is carried out by the host that drives it.

pub mod number;
pub mod text;
pub mod literal;
pub mod error;
pub mod token;
pub mod variables;
pub mod tokenizer;
pub mod parser;
pub mod functions;
pub mod machine;
pub mod shorthand;
pub mod engine;
pub mod binary;
pub mod keypad;
pub mod shell;
