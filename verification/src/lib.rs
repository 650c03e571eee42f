//! A small compiler front end for a statically typed toy language: source
//! text is split into tokens, the tokens are parsed into a syntax tree, and
//! the tree is lowered into a block-structured intermediate representation
//! that a backend can emit.
//!
//! Every stage is a verified function whose contract is stated over a
//! mathematical model of its input and output:
//!
//! - `tokenizer` splits text into tokens, as `tokenizer::lex` defines;
//!   `canonical` gives each token its canonical text and shows that lexing
//!   that text gives the token back.
//! - `grammar` defines which syntax tree a token sequence stands for, and
//!   `parser` computes it; `ast` holds the tree.
//! - `lowering` defines which intermediate representation a syntax tree
//!   stands for, and `codegen` computes it; `ir` holds the representation.
//!   `structure` shows that every block of a lowered function has its
//!   terminator, that the bodies of a conditional lead to one merge block
//!   and what a failure leaves behind, `references` that every number in
//!   the representation names something that exists, and `constants` that
//!   literals keep their value.
//! - `text` holds what the stages share: character classes, decimal
//!   numerals and string helpers.

pub mod text;
pub mod tokenizer;
pub mod canonical;
pub mod ast;
pub mod grammar;
pub mod parser;
pub mod ir;
pub mod lowering;
pub mod codegen;
pub mod structure;
pub mod references;
pub mod constants;
