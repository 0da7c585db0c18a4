pub mod parse;
pub mod process;
