pub mod command;
pub mod command_line_args;
pub mod common;
pub mod input;
pub mod output;
pub mod parser;
pub mod process;
pub mod progress;
pub mod text;
