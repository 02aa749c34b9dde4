//! A register-based bytecode virtual machine.
//!
//! The instruction set lives in [`instruction`], the execution engine in
//! [`vm`], and the session value and hex-text decoding used by an
//! interactive front end in [`repl`].

pub mod instruction;
pub mod repl;
pub mod vm;
