use cargo_dlx::cli::{parse_crate_spec as parse_legacy_crate_spec, Cli as LegacyCli};
use cargo_dlx::ops::cargo_dlx::Cli;
use semver::VersionReq;

fn args(values: &[&str]) -> Vec<Vec<u8>> {
    values.iter().map(|value| value.as_bytes().to_vec()).collect()
}

#[test]
fn strips_subcommand_prefix_when_invoked_by_cargo() {
    let args = Cli::normalize_raw_args_with_cargo_env(args(&["dlx", "ripgrep"]), Some(b"cargo".to_vec()));

    assert_eq!(args, vec![b"ripgrep".to_vec()]);
}

#[test]
fn keeps_standalone_arguments_without_cargo_env() {
    let args = Cli::normalize_raw_args_with_cargo_env(args(&["dlx", "ripgrep"]), None);

    assert_eq!(args, vec![b"dlx".to_vec(), b"ripgrep".to_vec()]);
}

#[test]
fn cli_strips_subcommand_prefix_when_invoked_by_cargo() {
    let args =
        LegacyCli::normalize_raw_args_with_cargo_env(args(&["dlx", "ripgrep"]), Some(b"cargo".to_vec()));

    assert_eq!(args, vec![b"ripgrep".to_vec()]);
}

#[test]
fn cli_keeps_standalone_arguments_without_cargo_env() {
    let args = LegacyCli::normalize_raw_args_with_cargo_env(args(&["dlx", "ripgrep"]), None);

    assert_eq!(args, vec![b"dlx".to_vec(), b"ripgrep".to_vec()]);
}

#[test]
fn wants_help_before_crate() {
    assert!(LegacyCli::wants_help(args(&["--help"])));
    assert!(LegacyCli::wants_help(args(&["--cache-dir", "/tmp/cargo-dlx-cache", "--help"])));
    assert!(!LegacyCli::wants_help(args(&["rg", "--help"])));
}

#[test]
fn detects_help_after_subcommand_normalization() {
    let args =
        LegacyCli::normalize_raw_args_with_cargo_env(args(&["dlx", "--help"]), Some(b"cargo".to_vec()));

    assert!(LegacyCli::wants_help(args));
}

#[test]
fn keeps_a_second_dlx_and_non_dlx_first_arguments() {
    assert_eq!(
        Cli::normalize_raw_args_with_cargo_env(args(&["dlx", "dlx"]), Some(Vec::new())),
        args(&["dlx"])
    );
    assert_eq!(
        Cli::normalize_raw_args_with_cargo_env(args(&["dlxx", "a"]), Some(b"cargo".to_vec())),
        args(&["dlxx", "a"])
    );
    assert_eq!(
        Cli::normalize_raw_args_with_cargo_env(Vec::new(), Some(b"cargo".to_vec())),
        Vec::<Vec<u8>>::new()
    );
}

#[test]
fn help_options_and_values() {
    assert!(LegacyCli::wants_help(args(&["-h"])));
    assert!(LegacyCli::wants_help(args(&["-F", "a,b", "--locked", "-h"])));
    assert!(LegacyCli::wants_help(args(&["--features=x", "-Fy", "--help"])));
    assert!(!LegacyCli::wants_help(args(&["--features", "--help"])));
    assert!(!LegacyCli::wants_help(args(&["--", "--help"])));
    assert!(!LegacyCli::wants_help(Vec::new()));
    assert!(!LegacyCli::wants_help(vec![vec![0xff], b"--help".to_vec()]));
}

#[test]
fn legacy_crate_specs() {
    let spec = parse_legacy_crate_spec("ripgrep@14.1.1").unwrap();
    assert_eq!(spec.name, "ripgrep");
    assert_eq!(spec.version, Some(VersionReq::parse("=14.1.1").unwrap().to_string()));

    let spec = "cargo-nextest".parse::<cargo_dlx::cli::CrateSpec>().unwrap();
    assert_eq!(spec.name, "cargo-nextest");
    assert_eq!(spec.version, None);

    assert_eq!(parse_legacy_crate_spec("@1").unwrap_err(), "missing crate name before '@'");
    assert_eq!(parse_legacy_crate_spec("").unwrap_err(), "crate name is empty");
}
