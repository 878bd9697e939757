//! Validator for structured proposal documents: each document begins with a
//! delimited `key: value` preamble followed by free-form body text.  The
//! parser checks every recognized field, enforces cross-field presence rules
//! and accumulates the full list of violations, honouring a caller-supplied
//! suppression context.

pub mod ctx;
pub mod eip;
pub mod error;
pub mod foreign;
pub mod parse;
pub mod runner;
pub mod text;
pub mod validators;
