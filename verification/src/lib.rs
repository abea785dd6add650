//! Loads key/value configuration pairs from the text of a `.env`-style file
//! into an explicit environment store, under a pluggable assignment policy.
//!
//! The crate is organised leaves-first: character-level text utilities, the
//! line parser, the environment store, the assignment policies, and the
//! line-by-line loader that ties them together. Opening and reading the
//! file itself is the caller's part; the loader takes the text.

mod error;
mod loader;
mod parse;
mod policy;
mod store;
mod text;

pub use error::FaktorError;
pub use loader::{
    apply_line, blank_or_comment, init, init_inner, lemma_load_inert_lines_unchanged, load_lines,
    spec_lines, split_lines,
};
pub use parse::{
    lemma_parse_key_value, lemma_parse_without_separator, spec_key, spec_value, split_once,
};
pub use policy::{Override, SetEnvVar, Skip};
pub use store::EnvStore;
pub use text::{is_space, spec_trim, spec_trim_end, spec_trim_start, trim};
