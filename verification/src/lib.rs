//! A lexical scanner for a small C-like toy language: it turns raw source
//! text into a flat sequence of classified tokens, ending in exactly one
//! end-of-input token. The scan itself is specified by a mathematical
//! scanner over sequences of characters, and the executable scanner is
//! proved to produce exactly what that specification names.

pub mod laws;
pub mod lexer;
pub mod scan;
pub mod token;
pub mod util;
