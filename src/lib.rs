//! A small concatenative stack language: a tokenizer, a tagged value type and
//! an execution engine with user-defined words and a variable store.
pub mod interpreter;
pub mod literal;
pub mod table;
pub mod text;
pub mod tokenizer;
pub mod types;
pub mod words;
