//! Expansion of a compact, nestable notation for tests into flat, uniquely
//! named test functions and diagnostics.
//!
//! ```text
//! $"a vector" {
//!     let mut v = Vec::new();
//!     $"starts empty" v.is_empty();
//!     $"pushed value equals" v.push(1) $eq ();
//! }
//! ```
//!
//! An anchor `$` and a name in quotes declare a test. What follows the name
//! is a braced body, which may hold code and further tests, or an assertion
//! that ends in `;`. Each test without tests of its own becomes one
//! function. It is named by the names on the way to it and begins with the
//! code of the bodies around it. Tokens outside every test are hoisted in
//! front of the functions. What cannot be understood becomes a diagnostic,
//! and reading goes on behind it.
//!
//! The crate works on a token model of its own ([`token::Token`]): a caller
//! turns the tokens of its host into it, runs [`spoke::generate_tests`] and
//! turns the result back.
//!
//! - [`token`], [`span`]: the tokens and the places they stood at.
//! - [`sanitise`], [`numeral`], [`name`]: from free text to the names of
//!   functions.
//! - [`string_lit`]: from a literal as it is written to the text it stands
//!   for.
//! - [`parse`]: the reader, with what it does stated over mathematical
//!   values in [`parse::model`] and what follows from that in
//!   [`parse::reading`].
//! - [`generator`]: what the reader collects, and the tokens it is written
//!   out as.
//! - [`text`], [`ident_chars`]: characters and strings, and the two places
//!   where the crate relies on code that is not verified with it.
pub mod text;
pub mod ident_chars;
pub mod span;
pub mod numeral;
pub mod sanitise;
pub mod string_lit;
pub mod name;
pub mod token;
pub mod generator;
pub mod parse;
pub mod spoke;
