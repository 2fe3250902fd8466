//! A command-language interpreter core: an input cursor with backtracking, a
//! recursive-descent parser for simple and compound commands, and the
//! decisions of the execution engine, all stated over sequences of characters.

pub mod text;
pub mod decimal;
pub mod feeder;
pub mod operators;
pub mod scanner;
pub mod redirect;
pub mod file_descs;
pub mod items;
pub mod process;
pub mod elem_command;
pub mod script;
pub mod elem_pipeline;
pub mod command;
pub mod if_command;
pub mod elem_compound_while;
pub mod brace;
pub mod shell_core;
pub mod parser;
pub mod grammar;
