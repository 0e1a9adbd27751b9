//! An in-memory store of named text files, with the command dispatch of an
//! interactive shell around it.
pub mod error;
pub mod text;
pub mod file;
pub mod stats;
pub mod laws;
pub mod cli;
pub mod display;
