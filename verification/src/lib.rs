//! A permissive parser for a category/key/value configuration text format,
//! together with point lookups by category name and key.
//!
//! The input is line-oriented: `[name]` opens a category, and each
//! `key=value` line up to its newline commits one entry into the open
//! category. Keys are trimmed of surrounding white space and lose every
//! space character; values are kept exactly as written. Parsing never
//! rejects an input. A lookup that finds nothing returns the literal
//! two-character string `""` rather than an empty string.
//!
//! The machine itself is specified in [`machine`], the store and its two
//! operations live in [`store`], and [`laws`] proves the properties the
//! parser and the lookup obey.

pub mod laws;
pub mod machine;
pub mod store;
pub mod text;
pub mod token;

pub use store::Inif;
pub use store::InifCategory;
pub use token::InifTokens;
