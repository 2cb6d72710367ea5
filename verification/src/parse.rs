//! The reader of the notation.
//!
//! The input is read once, token by token. What has been understood so far
//! is a [`rules::CurrentRule`]; each token turns it into the next one and may
//! add to the lists of a [`crate::generator::SuiteGenerator`].
//! [`model`] says, over mathematical values, what each step does; the other
//! parts do it.
pub mod anchor;
pub mod model;
pub mod rules;
pub mod scope;
pub mod reading;
