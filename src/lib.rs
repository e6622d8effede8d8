//! Descriptive statistics over a text: words, characters, sentences,
//! the longest and the most frequent word, and a histogram of letters.
pub mod analysis;
pub mod chars;
pub mod freq;
pub mod words;


