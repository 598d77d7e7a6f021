pub mod classify;
pub mod codegen;
pub mod counter;
pub mod diagnostics;
pub mod drop_gen;
pub mod errors;
pub mod parser;
pub mod text;
pub mod types;
