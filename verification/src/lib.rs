//! Finding the words of a dictionary that can be assembled from a
//! count-limited pool of letters.
//!
//! A pool of letters is summarized as a [`FrequencyMap`](letters::FrequencyMap)
//! giving each lowercase ASCII letter its available count; a word is
//! constructible when its own letter counts are dominated, letter by letter,
//! by the pool's counts.

pub mod constructible;
pub mod letters;
pub mod pool;
pub mod words;

pub use constructible::can_be_constructed;
pub use letters::FrequencyMap;
pub use letters::get_letters_count;
pub use pool::generate_random_string;
pub use words::Word;
pub use words::filter_constructible;
pub use words::get_constructable_words;
pub use words::words_from_lines;
