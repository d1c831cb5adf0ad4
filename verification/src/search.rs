//! The two search strategies and the text analysis that the index rests on.

pub mod analysis;
pub mod search_toggle;
pub mod search_utils;
pub mod stop_words;
pub mod synonym_tokenizer;
