//! Looks for a keyword in the lines of a text file and, on request, rewrites
//! the words that equal it: replaces them, changes their case, deletes them,
//! or breaks the line behind them.
//!
//! The library works on lines that are already in memory and hands back what
//! is to be shown and what is to be written; reading and writing the file is
//! left to the caller.

pub mod cli;
pub mod engine;
pub mod error;
pub mod lines;
pub mod operator;
pub mod report;
pub mod text;
pub mod words;
