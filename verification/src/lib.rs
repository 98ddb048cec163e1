//! A small interactive command interpreter, verified with Verus.
//!
//! The crate covers the parts of a shell with algorithmic content: the
//! quoting/escaping state machine, the tokenizer built on it, the folding
//! of tokens into a structured command, and the builtin dispatch decisions.
//! Reading lines, touching the filesystem, the environment and child
//! processes are left to the surrounding program, which hands their results
//! in as plain values.

pub mod quoting;
pub mod token;
pub mod textops;
pub mod tokenizer;
pub mod command;
pub mod dispatch;
pub mod search;
pub mod laws;
