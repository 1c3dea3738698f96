//! The decision logic of a debugger for embedded targets.

pub mod breakpoint;
pub mod commands;
pub mod config;
pub mod debug_information;
pub mod debugger;
pub mod disassembly;
pub mod evaluator;
pub mod handler;
pub mod malformed;
pub mod registers;
pub mod rendering;
pub mod target;
pub mod text;
pub mod variable;
