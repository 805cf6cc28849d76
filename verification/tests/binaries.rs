use std::path::Path;

use cargo_dlx::byte_order::{bytes_le, sort_bytes};
use cargo_dlx::ops::cargo_dlx::run::{
    binary_target_name, file_stem_bytes, resolve_executable, TargetNaming,
};

fn names(values: &[&str]) -> Vec<Vec<u8>> {
    values.iter().map(|value| value.as_bytes().to_vec()).collect()
}

const BIN_DIR: &[u8] = b"/tmp/cargo-dlx-test/bin";

#[test]
fn picks_single_binary_when_name_is_different() {
    let executable = resolve_executable(BIN_DIR, names(&["custom-runner"]), Some("my-crate"), TargetNaming::FileName).unwrap();
    assert_eq!(binary_target_name(&executable), Some("custom-runner".to_owned()));
}

#[test]
fn picks_binary_matching_package_name() {
    let executable = resolve_executable(BIN_DIR, names(&["alpha", "tool"]), Some("tool"), TargetNaming::FileName).unwrap();
    assert_eq!(binary_target_name(&executable), Some("tool".to_owned()));
}

#[test]
fn rejects_ambiguous_binary_set() {
    let error = resolve_executable(BIN_DIR, names(&["alpha", "beta"]), Some("tool"), TargetNaming::FileName).unwrap_err();
    assert!(error.message().contains("installed multiple binaries"));
}

#[test]
fn ambiguous_binaries_are_listed_in_order() {
    let error = resolve_executable(BIN_DIR, names(&["zeta", "alpha", "beta"]), Some("tool"), TargetNaming::FileName).unwrap_err();
    assert_eq!(
        error.message(),
        "`tool` installed multiple binaries (alpha, beta, zeta), unable to select one automatically"
    );
    assert_eq!(error.exit_code(), 1);

    let error = resolve_executable(BIN_DIR, names(&["b", "a"]), None, TargetNaming::FileName).unwrap_err();
    assert_eq!(
        error.message(),
        "installed multiple binaries (a, b), unable to select one automatically"
    );
}

#[test]
fn names_that_are_not_text_are_shown_with_replacement_characters() {
    let error = resolve_executable(BIN_DIR, vec![b"a\xffb".to_vec(), b"c".to_vec()], None, TargetNaming::FileName).unwrap_err();
    assert_eq!(
        error.message(),
        "installed multiple binaries (a\u{fffd}b, c), unable to select one automatically"
    );
}

#[test]
fn reports_packages_without_binaries() {
    let error = resolve_executable(BIN_DIR, Vec::new(), Some("tool"), TargetNaming::FileName).unwrap_err();
    assert_eq!(error.message(), "`tool` did not install any executable binaries");
    assert_eq!(error.exit_code(), 1);

    let error = resolve_executable(BIN_DIR, Vec::new(), None, TargetNaming::FileName).unwrap_err();
    assert_eq!(error.message(), "`the selected package` did not install any executable binaries");
}

#[test]
fn the_listing_order_does_not_matter() {
    let first = resolve_executable(BIN_DIR, names(&["tool", "alpha", "omega"]), Some("omega"), TargetNaming::FileName);
    let second = resolve_executable(BIN_DIR, names(&["omega", "tool", "alpha"]), Some("omega"), TargetNaming::FileName);
    assert_eq!(first.unwrap(), second.unwrap());

    let first = resolve_executable(BIN_DIR, names(&["b", "c", "a"]), None, TargetNaming::FileName).unwrap_err();
    let second = resolve_executable(BIN_DIR, names(&["c", "a", "b"]), None, TargetNaming::FileName).unwrap_err();
    assert_eq!(first.message(), second.message());
}

#[test]
fn a_single_binary_runs_without_a_package_name() {
    let executable = resolve_executable(b"/r/bin/", names(&["only"]), None, TargetNaming::FileName).unwrap();
    assert_eq!(executable, b"/r/bin/only".to_vec());
}

#[test]
fn target_names_follow_path_file_name() {
    let paths: [&str; 12] = [
        "/tmp/x/bin/tool",
        "tool",
        "a/b/",
        "a/b/.",
        "a/b/..",
        "/",
        "",
        ".",
        "./",
        "a//b//",
        "/.",
        ".hidden",
    ];
    for path in paths {
        let expected = Path::new(path).file_name().and_then(|name| name.to_str()).map(str::to_owned);
        assert_eq!(binary_target_name(path.as_bytes()), expected, "{path}");
    }
    assert_eq!(binary_target_name(b"/bin/\xff"), None);
}

#[test]
fn byte_strings_sort_as_std_sorts_them() {
    let items: Vec<Vec<u8>> = vec![
        b"beta".to_vec(),
        b"alpha".to_vec(),
        b"alp".to_vec(),
        Vec::new(),
        vec![0xff],
        b"Zed".to_vec(),
        b"alpha".to_vec(),
    ];
    let mut expected = items.clone();
    expected.sort();
    assert_eq!(sort_bytes(items), expected);
    assert!(bytes_le(b"abc", b"abd"));
    assert!(bytes_le(b"ab", b"abc"));
    assert!(!bytes_le(b"abc", b"ab"));
    assert!(bytes_le(b"", b""));
}

#[test]
fn windows_binaries_are_named_by_their_stem() {
    let executable =
        resolve_executable(BIN_DIR, names(&["alpha.exe", "tool.exe"]), Some("tool"), TargetNaming::FileStem).unwrap();
    assert_eq!(executable, b"/tmp/cargo-dlx-test/bin/tool.exe".to_vec());

    let error =
        resolve_executable(BIN_DIR, names(&["alpha.exe", "tool.exe"]), Some("tool"), TargetNaming::FileName).unwrap_err();
    assert_eq!(
        error.message(),
        "`tool` installed multiple binaries (alpha.exe, tool.exe), unable to select one automatically"
    );
}

#[test]
fn file_stems_follow_path_file_stem() {
    let names: [&str; 9] = ["tool.exe", "tool", ".hidden", ".hidden.txt", "a.b.c", "a.", "..", ".", "x..y"];
    for name in names {
        let expected = Path::new(name).file_stem().map(|stem| stem.as_encoded_bytes().to_vec());
        let expected = expected.unwrap_or_else(|| name.as_bytes().to_vec());
        assert_eq!(file_stem_bytes(name.as_bytes()), expected, "{name}");
    }
}
