//! A reader for compiled WebAssembly-style binary modules.
//!
//! Bytes go in; a validated [`types::Module`] or one [`error::ReadError`]
//! comes out. Every stage is stated against the byte grammar of
//! [`grammar`] and [`structure`], so the contracts say exactly which bytes
//! are accepted and which error each rejected buffer gives.
//!
//! - [`cursor`]: bounds-checked reads of bytes, varints and names.
//! - [`decode`]: the item readers and one decoder per standard section.
//! - [`scanner`]: the header and the section table.
//! - [`builder`]: assembling the sections into a [`types::Module`].
//! - [`validate`]: the cross-reference checks.
//! - [`reader`]: the whole pipeline, and lookups by export name.
//! - [`laws`], [`encoding`]: properties of the reader as a whole.
//! - [`fixtures`]: the arithmetic functions the sample modules export.
pub mod error;
pub mod fixtures;
pub mod grammar;
pub mod types;
pub mod cursor;
pub mod decode;
pub mod structure;
pub mod scanner;
pub mod builder;
pub mod validate;
pub mod reader;
pub mod laws;
pub mod encoding;
