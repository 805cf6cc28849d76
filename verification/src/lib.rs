//! Verified core of `cargo dlx`: package reference parsing, argument
//! normalisation, runtime directory resolution, the arguments of
//! `cargo install`, the choice of the installed binary, and a run as a
//! state machine whose actions the caller performs.

pub mod byte_order;
pub mod cli;
pub mod ops;
pub mod os_text;
pub mod raw_args;
pub mod semver_flag;
pub mod source_url;
pub mod text;
