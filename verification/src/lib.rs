//! Typing practice over a text file: each line of the file is a row that
//! keeps the text to copy beside what has been typed so far, and a row can be
//! cut into runs that agree, runs that differ and the part not yet attempted.

pub mod config;
pub mod document;
pub mod editor;
pub mod row;
pub mod row_iterator;
pub mod terminal;
pub mod text;
