//! The first command line of `cargo dlx`: a crates.io package with an
//! optional version, then the arguments handed to its binary.

use vstd::prelude::*;
use vstd::utf8::valid_utf8;

use crate::os_text::{opt_text, os_text, utf8_text};
use crate::raw_args::{spec_normalize_raw_args, strip_subcommand_prefix};
use crate::semver_flag::{parse_semver_flag, spec_parse_semver_flag};
use crate::text::{
    chars_of, split_once, starts_with, text_eq, text_split_once, text_starts_with,
};

verus! {

/// The options of `cargo dlx`, once parsed. Arguments and paths are
/// OS strings held as their platform-encoded bytes.
pub struct Cli {
    /// The package to download, compile and execute.
    pub krate: CrateSpec,
    /// Arguments passed to the downloaded binary.
    pub args: Vec<Vec<u8>>,
    /// Run the command inside a shell.
    pub shell_mode: bool,
    /// Directory used to cache package build artifacts.
    pub cache_dir: Option<Vec<u8>>,
    /// Disable package build artifact caching.
    pub no_package_cache: bool,
    /// Features to activate.
    pub features: Vec<String>,
    /// Activate all available features.
    pub all_features: bool,
    /// Do not activate the `default` feature.
    pub no_default_features: bool,
    /// Assert that `Cargo.lock` will remain unchanged.
    pub locked: bool,
    /// Run without accessing the network.
    pub offline: bool,
    /// Both `--locked` and `--offline`.
    pub frozen: bool,
}

/// The options that take a value in the next argument.
pub open spec fn is_value_option(value: Seq<char>) -> bool {
    value == "--features"@ || value == "-F"@ || value == "--cache-dir"@
}

/// An option that takes a value, given with `=` in the same argument.
pub open spec fn is_value_option_with_equals(value: Seq<char>) -> bool {
    match split_once(value, '=') {
        Some((option, _)) => is_value_option(option),
        None => false,
    }
}

/// `-F` with its features attached, as in `-Ffoo`.
pub open spec fn is_short_value_option_inline(value: Seq<char>) -> bool {
    starts_with(value, "-F"@) && value.len() > 2
}

/// Whether help is asked for among `args[from..]`, with `expects_value`
/// telling that `args[from]` is the value of the option before it. Only
/// options before the package count, and `--` ends the options; an argument
/// that is not valid Unicode ends the search.
pub open spec fn wants_help_from(args: Seq<Seq<u8>>, from: int, expects_value: bool) -> bool
    decreases args.len() - from,
{
    if from < 0 || from >= args.len() {
        false
    } else if !valid_utf8(args[from]) {
        false
    } else {
        let value = os_text(args[from])->0;
        if expects_value {
            wants_help_from(args, from + 1, false)
        } else if value == "--"@ {
            false
        } else if value == "-h"@ || value == "--help"@ {
            true
        } else if is_value_option_with_equals(value) || is_short_value_option_inline(value) {
            wants_help_from(args, from + 1, false)
        } else if is_value_option(value) {
            wants_help_from(args, from + 1, true)
        } else if starts_with(value, "-"@) {
            wants_help_from(args, from + 1, false)
        } else {
            false
        }
    }
}

impl Cli {
    /// Drops the `dlx` that Cargo passes first when it runs this program as
    /// `cargo dlx`; `cargo_env` is the value of `CARGO`.
    pub fn normalize_raw_args_with_cargo_env(args: Vec<Vec<u8>>, cargo_env: Option<Vec<u8>>) -> (res:
        Vec<Vec<u8>>)
        ensures
            res.deep_view() == spec_normalize_raw_args(args.deep_view(), cargo_env is Some),
    {
        strip_subcommand_prefix(args, cargo_env.is_some())
    }

    fn is_value_option(value: &str) -> (res: bool)
        ensures
            res == is_value_option(value@),
    {
        text_eq(value, "--features") || text_eq(value, "-F") || text_eq(value, "--cache-dir")
    }

    fn is_value_option_with_equals(value: &str) -> (res: bool)
        ensures
            res == is_value_option_with_equals(value@),
    {
        match text_split_once(value, '=') {
            Some((option, _)) => Self::is_value_option(option),
            None => false,
        }
    }

    fn is_short_value_option_inline(value: &str) -> (res: bool)
        ensures
            res == is_short_value_option_inline(value@),
    {
        text_starts_with(value, "-F") && value.unicode_len() > 2
    }

    /// Whether the command line asks for help before naming a package.
    pub fn wants_help(args: Vec<Vec<u8>>) -> (res: bool)
        ensures
            res == wants_help_from(args.deep_view(), 0, false),
    {
        let mut expects_value = false;
        let mut i: usize = 0;
        while i < args.len()
            invariant
                i <= args@.len(),
                wants_help_from(args.deep_view(), 0, false) == wants_help_from(
                    args.deep_view(),
                    i as int,
                    expects_value,
                ),
            decreases args.len() - i,
        {
            assert(args.deep_view()[i as int] =~= args[i as int]@);
            let value = match utf8_text(args[i].as_slice()) {
                Some(text) => text,
                None => return false,
            };
            if expects_value {
                expects_value = false;
                i = i + 1;
                continue;
            }
            if text_eq(value.as_str(), "--") {
                return false;
            }
            if text_eq(value.as_str(), "-h") || text_eq(value.as_str(), "--help") {
                return true;
            }
            if Self::is_value_option_with_equals(value.as_str())
                || Self::is_short_value_option_inline(value.as_str()) {
                i = i + 1;
                continue;
            }
            if Self::is_value_option(value.as_str()) {
                expects_value = true;
                i = i + 1;
                continue;
            }
            if text_starts_with(value.as_str(), "-") {
                i = i + 1;
                continue;
            }
            return false;
        }
        false
    }

    /// Checks the parsed options together; every combination is accepted,
    /// so no message is ever returned.
    pub fn validate(&self) -> (res: Result<(), String>)
        ensures
            res is Ok,
    {
        Ok(())
    }
}

/// A package from crates.io, with an optional version requirement.
#[derive(Debug, Clone, PartialEq, Eq)]
pub struct CrateSpec {
    pub name: String,
    /// The canonical text of the version requirement, as `semver::VersionReq`
    /// displays it.
    pub version: Option<String>,
}

/// What `name[@version]` reads as: the name and the requirement's text, or
/// the message that refuses it.
pub open spec fn spec_parse_crate_spec(value: Seq<char>) -> Result<
    (Seq<char>, Option<Seq<char>>),
    Seq<char>,
> {
    match split_once(value, '@') {
        Some((name, version)) => if name.len() == 0 {
            Err("missing crate name before '@'"@)
        } else {
            match spec_parse_semver_flag(version) {
                Ok(requirement) => Ok((name, Some(requirement))),
                Err(message) => Err(message),
            }
        },
        None => if value.len() == 0 {
            Err("crate name is empty"@)
        } else {
            Ok((value, None))
        },
    }
}

/// Reads `name` or `name@version`.
pub fn parse_crate_spec(value: &str) -> (res: Result<CrateSpec, String>)
    ensures
        match res {
            Ok(spec) => spec_parse_crate_spec(value@) == Ok::<_, Seq<char>>(
                (spec.name@, opt_text(spec.version)),
            ),
            Err(message) => spec_parse_crate_spec(value@) == Err::<(Seq<char>, Option<Seq<char>>), _>(
                message@,
            ),
        },
{
    match text_split_once(value, '@') {
        Some((name, version)) => {
            if name.unicode_len() == 0 {
                return Err(String::from_str("missing crate name before '@'"));
            }
            match parse_semver_flag(version) {
                Ok(requirement) => Ok(CrateSpec { name: name.to_owned(), version: Some(requirement) }),
                Err(message) => Err(message),
            }
        },
        None => {
            if value.unicode_len() == 0 {
                return Err(String::from_str("crate name is empty"));
            }
            Ok(CrateSpec { name: value.to_owned(), version: None })
        },
    }
}

impl core::str::FromStr for CrateSpec {
    type Err = String;

    fn from_str(value: &str) -> (res: Result<CrateSpec, String>)
        ensures
            match res {
                Ok(spec) => spec_parse_crate_spec(value@) == Ok::<_, Seq<char>>(
                    (spec.name@, opt_text(spec.version)),
                ),
                Err(message) => spec_parse_crate_spec(value@) == Err::<(Seq<char>, Option<Seq<char>>), _>(
                    message@,
                ),
            },
    {
        parse_crate_spec(value)
    }
}

} // verus!
