//! Plain-text side of a txt/epub converter: chapter detection, metadata
//! extraction, text decoding and the txt rendering of a book.

pub mod text;
pub mod heading;
pub mod meta;
pub mod book;
pub mod decode;
pub mod paths;
pub mod cli;
pub mod gui;
pub mod laws;
