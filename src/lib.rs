use vstd::prelude::*;

pub mod alignment;
pub mod characters;
pub mod cursor;
pub mod formatter;
pub mod laws;
pub mod lookahead;
pub mod policy;
pub mod token;
pub mod tokenizer;
pub mod whitespace;

pub use formatter::xformat;
pub use token::{Token, TokenType};
pub use tokenizer::Tokenizer;

verus! {

} // verus!
