//! A lexical scanner for a small interpreted language.
//!
//! [`lexer::Lexer`] turns source text into [`token::Token`]s, one per call of
//! `next_token`. What it returns is stated against the functions of [`model`],
//! which define the token sequence of a text over `Seq<char>`; [`proofs`] holds
//! what follows from those definitions for every input.

pub mod lexer;
pub mod model;
pub mod proofs;
pub mod std_specs;
pub mod token;
