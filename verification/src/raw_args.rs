//! The raw command line before option parsing.
//!
//! When Cargo runs `cargo dlx ...` it starts the `cargo-dlx` executable with
//! `dlx` as the first argument and with `CARGO` set in the environment; that
//! leading `dlx` is dropped so that the rest reads as a direct invocation.

use vstd::prelude::*;

use crate::os_text::{os_text, os_text_is};

verus! {

/// The arguments that remain once a leading `dlx` that Cargo passed is
/// dropped: it is dropped only when `CARGO` is set and the first argument
/// reads exactly `dlx`.
pub open spec fn spec_normalize_raw_args(args: Seq<Seq<u8>>, cargo_env_set: bool) -> Seq<Seq<u8>> {
    if cargo_env_set && args.len() > 0 && os_text(args[0]) == Some("dlx"@) {
        args.drop_first()
    } else {
        args
    }
}

/// Drops a leading `dlx` argument when Cargo started this program.
pub fn strip_subcommand_prefix(args: Vec<Vec<u8>>, cargo_env_set: bool) -> (res: Vec<Vec<u8>>)
    ensures
        res.deep_view() == spec_normalize_raw_args(args.deep_view(), cargo_env_set),
{
    let mut normalized = args;
    if normalized.len() > 0 {
        assert(normalized.deep_view()[0] =~= normalized[0]@);
    }
    if cargo_env_set && normalized.len() > 0 && os_text_is(normalized[0].as_slice(), "dlx") {
        let ghost before = normalized.deep_view();
        normalized.remove(0);
        assert(normalized.deep_view() =~= before.drop_first());
    }
    normalized
}

} // verus!
