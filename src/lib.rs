//! Line, word, byte and character counts of text streams.
pub mod text;
pub mod counter;
pub mod report;
