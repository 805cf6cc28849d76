use std::path::{Component, Path, PathBuf};

use cargo_dlx::os_text::{components_of, same_path};

use cargo_dlx::ops::cargo_dlx::run::{
    cargo_binary, default_dlx_root_dir, default_home_dir, package_cache_dir,
    resolve_clear_directories_with, resolve_dlx_directories_with, resolve_env_path, windows_home_dir,
    WindowsHome,
};
use cargo_dlx::ops::cargo_dlx::Cli;

fn bytes(path: PathBuf) -> Vec<u8> {
    path.into_os_string().into_encoded_bytes()
}

fn cli_with(krate_and_args: &[&str], cache_dir: Option<&str>, no_package_cache: bool) -> Cli {
    Cli {
        krate_and_args: krate_and_args.iter().map(|a| a.as_bytes().to_vec()).collect(),
        cache_dir: cache_dir.map(|d| d.as_bytes().to_vec()),
        no_package_cache,
        features: Vec::new(),
        all_features: false,
        no_default_features: false,
        locked: false,
        offline: false,
        frozen: false,
        clear: false,
        profile: "release".to_owned(),
    }
}

fn home_directories() -> Result<cargo_dlx::ops::cargo_dlx::run::DlxDirectories, String> {
    resolve_dlx_directories_with(b"workspace", None, None, None, Some(b"home".to_vec()))
}

#[test]
fn package_cache_dir_prefers_cli_cache_dir() {
    let cli = cli_with(&["ripgrep"], Some("/tmp/cargo-dlx-package-cache"), false);

    assert_eq!(
        package_cache_dir(&cli, home_directories()).unwrap(),
        Some(bytes(PathBuf::from("/tmp/cargo-dlx-package-cache")))
    );
}

#[test]
fn package_cache_dir_is_disabled_by_flag() {
    let cli = cli_with(&["ripgrep"], None, true);
    assert_eq!(package_cache_dir(&cli, home_directories()).unwrap(), None);
}

#[test]
fn package_cache_dir_uses_build_base_or_reports_resolution_error() {
    let cli = cli_with(&["ripgrep"], None, false);
    assert_eq!(
        package_cache_dir(&cli, home_directories()).unwrap(),
        Some(bytes(PathBuf::from("home").join(".cargo-dlx").join("build").join("target")))
    );
    assert_eq!(
        package_cache_dir(&cli, Err("no root".to_owned())).unwrap_err(),
        "no root"
    );
}

#[test]
fn resolves_dlx_directories_from_home_by_default() {
    let directories =
        resolve_dlx_directories_with(b"workspace", None, None, None, Some(b"home".to_vec())).unwrap();

    assert_eq!(directories.root, bytes(PathBuf::from("home").join(".cargo-dlx")));
    assert_eq!(
        directories.temp_base,
        bytes(PathBuf::from("home").join(".cargo-dlx").join("tmp"))
    );
    assert_eq!(
        directories.build_target_dir(),
        bytes(PathBuf::from("home").join(".cargo-dlx").join("build").join("target"))
    );
}

#[test]
fn resolves_dlx_directories_from_root_override() {
    let directories = resolve_dlx_directories_with(
        b"workspace",
        Some(b"custom-root".to_vec()),
        None,
        None,
        Some(b"home".to_vec()),
    )
    .unwrap();

    assert_eq!(directories.root, bytes(PathBuf::from("workspace").join("custom-root")));
    assert_eq!(
        directories.temp_base,
        bytes(PathBuf::from("workspace").join("custom-root").join("tmp"))
    );
    assert_eq!(
        directories.build_target_dir(),
        bytes(PathBuf::from("workspace").join("custom-root").join("build").join("target"))
    );
}

#[test]
fn resolves_dlx_directories_with_temp_and_build_overrides() {
    let directories = resolve_dlx_directories_with(
        b"workspace",
        Some(b"custom-root".to_vec()),
        Some(b"runtime-temp".to_vec()),
        Some(b"build-cache".to_vec()),
        Some(b"home".to_vec()),
    )
    .unwrap();

    assert_eq!(directories.temp_base, bytes(PathBuf::from("workspace").join("runtime-temp")));
    assert_eq!(
        directories.build_target_dir(),
        bytes(PathBuf::from("workspace").join("build-cache").join("target"))
    );
}

#[test]
fn errors_when_no_root_or_home_is_available() {
    let error = resolve_dlx_directories_with(b"workspace", None, None, None, None).unwrap_err();

    assert!(error.contains("could not determine cargo-dlx root directory"));
}

#[test]
fn resolve_clear_directories_allows_temp_and_build_overrides_without_root() {
    let directories = resolve_clear_directories_with(
        b"workspace",
        None,
        None,
        Some(b"runtime-temp".to_vec()),
        Some(b"build-cache".to_vec()),
        None,
    )
    .unwrap();

    assert_eq!(directories.temp_base, bytes(PathBuf::from("workspace").join("runtime-temp")));
    assert_eq!(
        directories.build_target,
        bytes(PathBuf::from("workspace").join("build-cache").join("target"))
    );
}

#[test]
fn resolve_clear_directories_allows_explicit_cache_dir_without_root() {
    let directories = resolve_clear_directories_with(
        b"workspace",
        Some(b"explicit-cache".to_vec()),
        None,
        Some(b"runtime-temp".to_vec()),
        None,
        None,
    )
    .unwrap();

    assert_eq!(directories.temp_base, bytes(PathBuf::from("workspace").join("runtime-temp")));
    assert_eq!(directories.build_target, bytes(PathBuf::from("explicit-cache")));
}

#[test]
fn clear_directories_report_what_is_missing() {
    assert_eq!(
        resolve_clear_directories_with(b"w", None, None, None, Some(b"b".to_vec()), None).unwrap_err(),
        "could not determine cargo-dlx temporary directory; set CARGO_DLX_TEMP or CARGO_DLX_ROOT"
    );
    assert_eq!(
        resolve_clear_directories_with(b"w", None, None, Some(b"t".to_vec()), None, None).unwrap_err(),
        "could not determine cargo-dlx build cache directory; set --cache-dir, CARGO_DLX_BUILD, or CARGO_DLX_ROOT"
    );
}

#[test]
fn clear_targets_are_the_directories_a_run_uses() {
    let run = resolve_dlx_directories_with(b"/w", None, None, None, Some(b"/home/u".to_vec())).unwrap();
    let clear =
        resolve_clear_directories_with(b"/w", None, None, None, None, Some(b"/home/u".to_vec())).unwrap();
    assert_eq!(clear.temp_base, run.temp_base);
    assert_eq!(clear.build_target, run.build_target_dir());
}

#[test]
fn environment_paths_keep_absolute_and_resolve_relative() {
    assert_eq!(resolve_env_path(b"/w", Some(b"/abs/p".to_vec())), Some(b"/abs/p".to_vec()));
    assert_eq!(resolve_env_path(b"/w", Some(b"rel".to_vec())), Some(b"/w/rel".to_vec()));
    assert_eq!(resolve_env_path(b"/w/", Some(b"rel".to_vec())), Some(b"/w/rel".to_vec()));
    assert_eq!(resolve_env_path(b"/w", None), None);
}

#[test]
fn home_and_root_defaults() {
    assert_eq!(default_home_dir(Some(Vec::new())), None);
    assert_eq!(default_home_dir(Some(b"/h".to_vec())), Some(b"/h".to_vec()));
    assert_eq!(default_dlx_root_dir(Some(b"/h".to_vec())), Some(b"/h/.cargo-dlx".to_vec()));
    assert_eq!(default_dlx_root_dir(None), None);
}

#[test]
fn cargo_program_comes_from_cargo_unless_empty() {
    assert_eq!(cargo_binary(None), b"cargo".to_vec());
    assert_eq!(cargo_binary(Some(Vec::new())), b"cargo".to_vec());
    assert_eq!(cargo_binary(Some(b"/opt/cargo".to_vec())), b"/opt/cargo".to_vec());
}

#[test]
fn windows_home_prefers_user_profile_then_drive_and_path() {
    assert_eq!(
        windows_home_dir(Some(b"C:\\Users\\u".to_vec()), Some(b"D:".to_vec()), Some(b"\\x".to_vec())),
        WindowsHome::Profile(b"C:\\Users\\u".to_vec())
    );
    assert_eq!(
        windows_home_dir(Some(Vec::new()), Some(b"D:".to_vec()), Some(b"\\x".to_vec())),
        WindowsHome::DriveAndPath(b"D:".to_vec(), b"\\x".to_vec())
    );
    assert_eq!(windows_home_dir(None, Some(b"D:".to_vec()), Some(Vec::new())), WindowsHome::Unknown);
    assert_eq!(windows_home_dir(None, None, None), WindowsHome::Unknown);
}

#[test]
fn paths_compare_by_components_as_std_does() {
    let paths: [&str; 16] = [
        "/x/y", "/x/y/", "/x/./y", "//x//y", "x/y", "./x/y", ".", "./", "", "/", "/.", "a/../b",
        "a/./", "..", "./.", ".a/b",
    ];
    for path in paths {
        let expected: Vec<Vec<u8>> = Path::new(path)
            .components()
            .map(|component| match component {
                Component::RootDir => b"/".to_vec(),
                Component::CurDir => b".".to_vec(),
                Component::ParentDir => b"..".to_vec(),
                Component::Normal(name) => name.as_encoded_bytes().to_vec(),
                Component::Prefix(_) => unreachable!(),
            })
            .collect();
        assert_eq!(components_of(path.as_bytes()), expected, "{path}");
        for other in paths {
            assert_eq!(
                same_path(path.as_bytes(), other.as_bytes()),
                Path::new(path) == Path::new(other),
                "{path} {other}"
            );
        }
    }
}
