use cargo_dlx::ops::cargo_dlx::cli::{
    is_git_reference_query, parse_crate_spec, parse_registry_crate_spec, parse_source_fragment,
    split_source_kind,
};
use cargo_dlx::ops::cargo_dlx::{CrateSpec, GitReference, PackageSource};
use cargo_dlx::semver_flag::{parse_semver_flag, refused_version_message, requirement_flag};
use semver::VersionReq;

fn requirement(text: &str) -> String {
    VersionReq::parse(text).unwrap().to_string()
}

#[test]
fn parse_crate_with_version() {
    let spec = "ripgrep@14.1.1".parse::<CrateSpec>().unwrap();

    assert_eq!(
        spec,
        CrateSpec {
            package: Some("ripgrep".to_owned()),
            version: Some(requirement("=14.1.1")),
            source: PackageSource::CratesIo,
        }
    );
}

#[test]
fn parse_crate() {
    let spec = "ripgrep".parse::<CrateSpec>().unwrap();

    assert_eq!(
        spec,
        CrateSpec {
            package: Some("ripgrep".to_owned()),
            version: None,
            source: PackageSource::CratesIo,
        }
    );
}

#[test]
fn parse_git_source_reference() {
    let spec = "git+https://example.com/tools/dlx-runner.git?rev=abc123#dlx-runner@0.3.0"
        .parse::<CrateSpec>()
        .unwrap();

    assert_eq!(
        spec,
        CrateSpec {
            package: Some("dlx-runner".to_owned()),
            version: Some(requirement("=0.3.0")),
            source: PackageSource::Git {
                url: "https://example.com/tools/dlx-runner.git".to_owned(),
                reference: Some(GitReference::Rev("abc123".to_owned())),
            },
        }
    );
}

#[test]
fn parse_file_source_reference() {
    let path = std::path::PathBuf::from("/tmp").join("dlx-file-ref");
    let url = url::Url::from_file_path(&path).unwrap();
    let spec = format!("{url}#dlx-file-ref").parse::<CrateSpec>().unwrap();

    assert_eq!(
        spec,
        CrateSpec {
            package: Some("dlx-file-ref".to_owned()),
            version: None,
            source: PackageSource::Path { path: path.into_os_string().into_encoded_bytes() },
        }
    );
}

#[test]
fn parse_file_kind_source_reference() {
    let path = std::path::PathBuf::from("/tmp").join("dlx-file-kind-ref");
    let url = url::Url::from_file_path(&path).unwrap();
    let spec = format!("file+{url}#dlx-file-kind-ref")
        .parse::<CrateSpec>()
        .unwrap();

    assert_eq!(
        spec,
        CrateSpec {
            package: Some("dlx-file-kind-ref".to_owned()),
            version: None,
            source: PackageSource::Path { path: path.into_os_string().into_encoded_bytes() },
        }
    );
}

#[test]
fn parse_registry_source_reference() {
    let spec = "registry+https://github.com/rust-lang/crates.io-index#ripgrep@14.1.1"
        .parse::<CrateSpec>()
        .unwrap();

    assert_eq!(
        spec,
        CrateSpec {
            package: Some("ripgrep".to_owned()),
            version: Some(requirement("=14.1.1")),
            source: PackageSource::RegistryIndex {
                index: "https://github.com/rust-lang/crates.io-index".to_owned(),
            },
        }
    );
}

#[test]
fn parse_sparse_source_reference() {
    let spec = "sparse+https://index.crates.io/#cargo-edit"
        .parse::<CrateSpec>()
        .unwrap();

    assert_eq!(
        spec,
        CrateSpec {
            package: Some("cargo-edit".to_owned()),
            version: None,
            source: PackageSource::RegistryIndex {
                index: "sparse+https://index.crates.io/".to_owned(),
            },
        }
    );
}

#[test]
fn infers_package_name_for_git_version_fragment() {
    let spec = "git+https://example.com/tools/dlx-runner.git#1.2.3"
        .parse::<CrateSpec>()
        .unwrap();

    assert_eq!(
        spec,
        CrateSpec {
            package: Some("dlx-runner".to_owned()),
            version: Some(requirement("=1.2.3")),
            source: PackageSource::Git {
                url: "https://example.com/tools/dlx-runner.git".to_owned(),
                reference: None,
            },
        }
    );
}

#[test]
fn rejects_registry_source_without_package_name() {
    let error = "registry+https://github.com/rust-lang/crates.io-index"
        .parse::<CrateSpec>()
        .unwrap_err();

    assert!(error.contains("must include a package name"));
}

#[test]
fn parses_git_branch_and_tag_references() {
    let branch = parse_crate_spec("git+https://example.com/tool.git?branch=main").unwrap();
    assert_eq!(branch.package, None);
    assert_eq!(
        branch.source,
        PackageSource::Git {
            url: "https://example.com/tool.git".to_owned(),
            reference: Some(GitReference::Branch("main".to_owned())),
        }
    );

    let tag = parse_crate_spec("git+https://example.com/tool.git?tag=v1#tool").unwrap();
    assert_eq!(tag.package, Some("tool".to_owned()));
    assert_eq!(
        tag.source,
        PackageSource::Git {
            url: "https://example.com/tool.git".to_owned(),
            reference: Some(GitReference::Tag("v1".to_owned())),
        }
    );
}

#[test]
fn infers_git_source_from_url_shape() {
    let by_suffix = parse_crate_spec("https://example.com/owner/repo.git#repo").unwrap();
    assert!(matches!(by_suffix.source, PackageSource::Git { .. }));

    let by_scheme = parse_crate_spec("ssh://git@example.com/owner/repo#repo").unwrap();
    assert!(matches!(by_scheme.source, PackageSource::Git { .. }));

    let by_query = parse_crate_spec("https://example.com/owner/repo?rev=abc#repo").unwrap();
    assert_eq!(
        by_query.source,
        PackageSource::Git {
            url: "https://example.com/owner/repo".to_owned(),
            reference: Some(GitReference::Rev("abc".to_owned())),
        }
    );

    let registry = parse_crate_spec("https://example.com/index#tool").unwrap();
    assert_eq!(
        registry.source,
        PackageSource::RegistryIndex { index: "https://example.com/index".to_owned() }
    );
}

#[test]
fn rejects_git_reference_errors() {
    let two = parse_crate_spec("git+https://example.com/t.git?branch=a&tag=b#t").unwrap_err();
    assert_eq!(
        two,
        "git package references may only define one of `branch`, `tag`, or `rev`: `https://example.com/t.git?branch=a&tag=b`"
    );

    let unknown = parse_crate_spec("git+https://example.com/t.git?commit=a#t").unwrap_err();
    assert_eq!(
        unknown,
        "unsupported git query key `commit` in package reference `https://example.com/t.git?commit=a`"
    );

    let empty = parse_crate_spec("git+https://example.com/t.git?#t").unwrap_err();
    assert_eq!(empty, "git package reference query is empty in `https://example.com/t.git?`");
}

#[test]
fn rejects_source_reference_errors() {
    assert_eq!(
        parse_crate_spec("+https://example.com/x").unwrap_err(),
        "package source kind is missing in `+https://example.com/x`"
    );
    assert_eq!(
        parse_crate_spec("git+://example.com/x").unwrap_err(),
        "package source protocol is missing in `git+://example.com/x`"
    );
    assert_eq!(
        parse_crate_spec("svn+https://example.com/x").unwrap_err(),
        "unsupported package source kind `svn` (expected one of: git, path, file, registry, sparse)"
    );
    assert_eq!(
        parse_crate_spec("registry+https://example.com/index#1.0.0").unwrap_err(),
        "registry package references must include a package name, like `registry+https://example.com/index#1.0.0#my-crate`"
    );
    assert_eq!(
        parse_crate_spec("file:///tmp/tool?x=1#tool").unwrap_err(),
        "local package references do not support URL query parameters: `file:///tmp/tool?x=1#tool`"
    );
    assert_eq!(
        parse_crate_spec("registry+https://example.com/index?branch=main#tool").unwrap_err(),
        "registry package references do not support git query parameters: `registry+https://example.com/index?branch=main#tool`"
    );
    assert_eq!(
        parse_crate_spec("git+https://example.com/#").unwrap_err(),
        "missing package fragment after '#'"
    );
    assert_eq!(
        parse_crate_spec("git+https://example.com/x.git#@1.0.0").unwrap_err(),
        "missing package name before '@'"
    );
    assert!(parse_crate_spec("https://exa mple.com/x")
        .unwrap_err()
        .starts_with("invalid package source reference `https://exa mple.com/x`: "));
}

#[test]
fn version_without_package_needs_a_name() {
    assert_eq!(
        parse_crate_spec("git+https://example.com/#1.0.0").unwrap_err(),
        "package references with a version must include a package name, like `git+https://example.com/#1.0.0#my-crate@1.0.0`"
    );
}

#[test]
fn parses_registry_names_and_rejects_empty_ones() {
    assert_eq!(parse_registry_crate_spec("@1.0.0").unwrap_err(), "missing crate name before '@'");
    assert_eq!(parse_registry_crate_spec("").unwrap_err(), "crate name is empty");
    assert_eq!(
        parse_registry_crate_spec("tool@").unwrap_err(),
        "no version provided for the package spec"
    );
}

#[test]
fn splits_source_kind() {
    assert_eq!(
        split_source_kind("sparse+https://index.crates.io/").unwrap(),
        (Some("sparse".to_owned()), "https://index.crates.io/".to_owned())
    );
    assert_eq!(
        split_source_kind("https://a+b.example/").unwrap(),
        (None, "https://a+b.example/".to_owned())
    );
    assert_eq!(split_source_kind("plain").unwrap(), (None, "plain".to_owned()));
}

#[test]
fn reads_fragments() {
    assert_eq!(parse_source_fragment(None).unwrap(), (None, None));
    assert_eq!(
        parse_source_fragment(Some("tool")).unwrap(),
        (Some("tool".to_owned()), None)
    );
    assert_eq!(
        parse_source_fragment(Some("2.0.1")).unwrap(),
        (None, Some(requirement("=2.0.1")))
    );
    assert_eq!(
        parse_source_fragment(Some("2.0")).unwrap(),
        (Some("2.0".to_owned()), None)
    );
    assert_eq!(
        parse_source_fragment(Some("tool@^2")).unwrap(),
        (Some("tool".to_owned()), Some(requirement("^2")))
    );
}

#[test]
fn detects_git_reference_queries() {
    assert!(is_git_reference_query("a=1&rev=2"));
    assert!(is_git_reference_query("branch="));
    assert!(!is_git_reference_query("revision=1"));
    assert!(!is_git_reference_query("branch"));
}

#[test]
fn reads_semver_flags() {
    assert_eq!(parse_semver_flag("14.1.1").unwrap(), requirement("=14.1.1"));
    assert_eq!(parse_semver_flag("^1.2").unwrap(), requirement("^1.2"));
    assert_eq!(parse_semver_flag("1.*").unwrap(), requirement("1.*"));
    assert_eq!(
        parse_semver_flag("").unwrap_err(),
        "no version provided for the package spec"
    );
    assert_eq!(
        parse_semver_flag("v1.0.0").unwrap_err(),
        "the version provided, `v1.0.0` is not a valid SemVer requirement\n\nhelp: try changing the version to `1.0.0`"
    );
    assert_eq!(
        parse_semver_flag(">=x").unwrap_err(),
        "the version `>=x` is not a valid semver requirement"
    );
    let range = parse_semver_flag("1.2").unwrap_err();
    assert!(range.ends_with(
        "\n\n  tip: if you want to specify SemVer range, add an explicit qualifier, like '^1.2'"
    ));
    let bad = parse_semver_flag("nope").unwrap_err();
    assert!(!bad.contains("tip:"));
}

#[test]
fn rejects_prefixed_semver_version() {
    assert_eq!(
        "ripgrep@v14.1.1".parse::<CrateSpec>().unwrap_err(),
        "the version provided, `v14.1.1` is not a valid SemVer requirement\n\nhelp: try changing the version to `14.1.1`"
    );
}

#[test]
fn semver_results_become_flags_and_messages() {
    assert_eq!(requirement_flag("^1", Ok("^1".to_owned())).unwrap(), "^1");
    assert_eq!(
        requirement_flag("^x", Err("unexpected character".to_owned())).unwrap_err(),
        "the version `^x` is not a valid semver requirement"
    );
    assert_eq!(
        refused_version_message("1.2", "bad".to_owned(), true),
        "bad\n\n  tip: if you want to specify SemVer range, add an explicit qualifier, like '^1.2'"
    );
    assert_eq!(refused_version_message("x", "bad".to_owned(), false), "bad");
}

#[test]
fn source_kind_is_read_without_the_fragment() {
    assert_eq!(
        parse_crate_spec("foo:bar.git #pkg://x").unwrap(),
        CrateSpec {
            package: Some("pkg://x".to_owned()),
            version: None,
            source: PackageSource::Git { url: "foo:bar.git".to_owned(), reference: None },
        }
    );
}

#[test]
fn local_references_need_a_path() {
    assert_eq!(
        parse_crate_spec("path+foo:bar#x://").unwrap_err(),
        "package source `path+foo:bar#x://` is not a valid local file URL"
    );
}
