//! The `cargo dlx` subcommand: its command line, the package references it
//! reads, and the decisions around running `cargo install` and the binary.

pub mod cli;
pub mod execute;
pub mod run;

pub use cli::{Cli, CrateSpec, GitReference, PackageSource};
pub use run::{Execution, RunError};
