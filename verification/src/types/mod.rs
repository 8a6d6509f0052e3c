pub mod command;
pub mod errors;
pub mod fs;
