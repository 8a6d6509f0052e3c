pub mod commands;
pub mod constants;
pub mod messages;
pub mod numbers;
pub mod parser;
pub mod shell;
pub mod text;
pub mod types;
