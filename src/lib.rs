//! A tokenizer for a small experimental language: source text in, an ordered
//! sequence of position-tagged tokens out, with local recovery from malformed
//! input.
pub mod text;
pub mod token;
pub mod lex;
pub mod tokenizer;
pub mod laws;
