//! Extraction of structured quiz-show records (episode, rounds, clues) from
//! the semi-structured HTML pages of the J! Archive. The document parser,
//! its positional heuristics, the validating builders and the text sanitizer
//! live here; fetching pages and writing JSON stay outside the library.

pub mod crawler;
pub mod errors;
pub mod models;
pub mod parser;
pub mod reporter;
pub mod sanitizer;
pub mod serializer;
