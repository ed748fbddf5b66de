//! Commit message linting against the Conventional Commits convention.
//!
//! A message is cut into header, body and footer (`commit`), its header is
//! taken apart with a configurable regular expression, and a configurable set
//! of rules (`config`) is checked against the result (`validator`). Every
//! violation is reported, in the order of the rules.

pub mod chars;
pub mod commit;
pub mod config;
pub mod hook;
pub mod pattern;
pub mod string_map;
pub mod text;
pub mod validator;
