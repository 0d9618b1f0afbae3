//! A lexical scanner for a small interpreted language.
//!
//! The scanner owns the full source text and an internal cursor; callers
//! pull one classified token at a time until the terminal `Eof` token
//! appears.  Scanning is code-point-oriented: the source is treated as a
//! sequence of Unicode characters, and positions count characters.

pub mod token;
pub mod scan;
pub mod lexer;
pub mod laws;
