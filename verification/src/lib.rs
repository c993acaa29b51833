//! Tokens, an expression builder, token factories and configuration for a small
//! calculator.
//!
//! Numbers are carried as their literal text together with the notation they are
//! written in; where the parser makes them, the text is a literal of the standard
//! floating-point grammar, and the number's value is the value of that literal.

pub mod lexical;
pub mod token;
pub mod builder;
pub mod factory;
pub mod config;
