use cargo_dlx::ops::cargo_dlx::execute::{
    execute_step, CreateOutcome, ExecuteAction, ExecuteEvent, ExecuteState,
};
use cargo_dlx::ops::cargo_dlx::run::{
    decimal_bytes, directory_removal_result, exit_code_from_status, install_arguments,
    install_root_candidate, ChildStatus, ClearDirectories, DlxDirectories, RemovalOutcome,
    TargetNaming, TempInstallRoot,
};
use cargo_dlx::ops::cargo_dlx::{Cli, CrateSpec, Execution, GitReference, PackageSource};

fn cli(krate_and_args: &[&[u8]]) -> Cli {
    Cli {
        krate_and_args: krate_and_args.iter().map(|a| a.to_vec()).collect(),
        cache_dir: None,
        no_package_cache: false,
        features: Vec::new(),
        all_features: false,
        no_default_features: false,
        locked: false,
        offline: false,
        frozen: false,
        clear: false,
        profile: "release".to_owned(),
    }
}

fn text(values: &[&str]) -> Vec<Vec<u8>> {
    values.iter().map(|value| value.as_bytes().to_vec()).collect()
}

fn exited(code: i32) -> ChildStatus {
    ChildStatus { code: Some(code), signal: None }
}

fn error_of(action: ExecuteAction) -> (String, i32) {
    match action {
        ExecuteAction::Finish(Err(error)) => (error.message(), error.exit_code()),
        other => panic!("expected an error, got {other:?}"),
    }
}

fn execution_of(action: ExecuteAction) -> Execution {
    match action {
        ExecuteAction::Finish(Ok(execution)) => execution,
        other => panic!("expected an end, got {other:?}"),
    }
}

/// Starts a run and creates its install root at `/base/7-0`.
fn run_to_install(cli: &Cli) -> (ExecuteState, ExecuteAction) {
    let (state, action) = execute_step(cli, TargetNaming::FileName, ExecuteState::Start, ExecuteEvent::Started);
    assert!(matches!(action, ExecuteAction::PrepareTemporaryBase));
    let (state, action) =
        execute_step(cli, TargetNaming::FileName, state, ExecuteEvent::TemporaryBasePrepared(Ok((b"/base".to_vec(), 7))));
    match &action {
        ExecuteAction::CreateInstallRoot(path) => assert_eq!(path, b"/base/7-0"),
        other => panic!("unexpected {other:?}"),
    }
    execute_step(cli, TargetNaming::FileName, state, ExecuteEvent::InstallRootCreated(CreateOutcome::Created))
}

#[test]
fn a_whole_run_installs_chooses_and_runs() {
    let cli = cli(&[b"ripgrep@14.1.1", b"--json", b"x"]);
    let (state, action) = run_to_install(&cli);
    assert!(matches!(action, ExecuteAction::ResolveDirectories));

    let directories = DlxDirectories {
        root: b"/home/u/.cargo-dlx".to_vec(),
        temp_base: b"/base".to_vec(),
        build_base: b"/home/u/.cargo-dlx/build".to_vec(),
    };
    let (state, action) = execute_step(&cli, TargetNaming::FileName, state, ExecuteEvent::DirectoriesResolved(Ok(directories)));
    match &action {
        ExecuteAction::CreateCacheDirectory(path) => assert_eq!(path, b"/home/u/.cargo-dlx/build/target"),
        other => panic!("unexpected {other:?}"),
    }

    let (state, action) = execute_step(&cli, TargetNaming::FileName, state, ExecuteEvent::CacheDirectoryCreated(Ok(())));
    match &action {
        ExecuteAction::InstallPackage { arguments, target_dir } => {
            assert_eq!(
                arguments,
                &text(&["install", "ripgrep", "--root", "/base/7-0", "--profile", "release", "--version", "=14.1.1"])
            );
            assert_eq!(target_dir, &Some(b"/home/u/.cargo-dlx/build/target".to_vec()));
        },
        other => panic!("unexpected {other:?}"),
    }

    let (state, action) = execute_step(&cli, TargetNaming::FileName, state, ExecuteEvent::InstallFinished(Ok(exited(0))));
    match &action {
        ExecuteAction::ListBinaries(path) => assert_eq!(path, b"/base/7-0/bin"),
        other => panic!("unexpected {other:?}"),
    }

    let (state, action) =
        execute_step(&cli, TargetNaming::FileName, state, ExecuteEvent::BinariesListed(Ok(text(&["rg", "ripgrep"]))));
    match &action {
        ExecuteAction::RunBinary { executable, arguments } => {
            assert_eq!(executable, b"/base/7-0/bin/ripgrep");
            assert_eq!(arguments, &text(&["--json", "x"]));
        },
        other => panic!("unexpected {other:?}"),
    }

    let (state, action) = execute_step(&cli, TargetNaming::FileName, state, ExecuteEvent::BinaryFinished(Ok(exited(0))));
    assert!(matches!(state, ExecuteState::Finished));
    assert_eq!(execution_of(action), Execution::Completed);
}

#[test]
fn a_binary_that_fails_reports_its_code_or_signal() {
    let state = ExecuteState::Running { executable: b"/r/bin/t".to_vec() };
    let (_, action) = execute_step(&cli(&[b"t"]), TargetNaming::FileName, state, ExecuteEvent::BinaryFinished(Ok(exited(3))));
    assert_eq!(execution_of(action), Execution::ChildExited(3));

    let state = ExecuteState::Running { executable: b"/r/bin/t".to_vec() };
    let killed = ChildStatus { code: None, signal: Some(9) };
    let (_, action) = execute_step(&cli(&[b"t"]), TargetNaming::FileName, state, ExecuteEvent::BinaryFinished(Ok(killed)));
    assert_eq!(execution_of(action), Execution::ChildExited(137));

    let state = ExecuteState::Running { executable: b"/r/bin/t".to_vec() };
    let (_, action) =
        execute_step(&cli(&[b"t"]), TargetNaming::FileName, state, ExecuteEvent::BinaryFinished(Err("denied".to_owned())));
    assert_eq!(error_of(action), ("failed to execute `/r/bin/t`: denied".to_owned(), 1));
}

#[test]
fn a_failed_install_ends_with_cargos_code() {
    let state = ExecuteState::Installing { package: Some("t".to_owned()), root: b"/r".to_vec() };
    let (next, action) = execute_step(&cli(&[b"t"]), TargetNaming::FileName, state, ExecuteEvent::InstallFinished(Ok(exited(101))));
    assert!(matches!(next, ExecuteState::Finished));
    assert_eq!(execution_of(action), Execution::ChildExited(101));

    let state = ExecuteState::Installing { package: None, root: b"/r".to_vec() };
    let (_, action) =
        execute_step(&cli(&[b"t"]), TargetNaming::FileName, state, ExecuteEvent::InstallFinished(Err("no cargo".to_owned())));
    assert_eq!(error_of(action), ("failed to launch `cargo install`: no cargo".to_owned(), 1));
}

#[test]
fn package_reference_errors_end_the_run() {
    let (_, action) = run_to_install(&cli(&[b"@1.0.0"]));
    assert_eq!(error_of(action), ("missing crate name before '@'".to_owned(), 1));

    let (_, action) = run_to_install(&cli(&[b"\xff"]));
    assert_eq!(error_of(action), ("crate name is not valid a UTF-8 string".to_owned(), 1));
}

#[test]
fn build_cache_follows_the_options() {
    let mut disabled = cli(&[b"t"]);
    disabled.no_package_cache = true;
    let (_, action) = run_to_install(&disabled);
    match action {
        ExecuteAction::InstallPackage { target_dir, .. } => assert_eq!(target_dir, None),
        other => panic!("unexpected {other:?}"),
    }

    let mut explicit = cli(&[b"t"]);
    explicit.cache_dir = Some(b"/cache".to_vec());
    let (state, action) = run_to_install(&explicit);
    match &action {
        ExecuteAction::CreateCacheDirectory(path) => assert_eq!(path, b"/cache"),
        other => panic!("unexpected {other:?}"),
    }
    let (_, action) =
        execute_step(&explicit, TargetNaming::FileName, state, ExecuteEvent::CacheDirectoryCreated(Err("read-only".to_owned())));
    assert_eq!(error_of(action), ("failed to launch `cargo install`: read-only".to_owned(), 1));

    let (state, _) = run_to_install(&cli(&[b"t"]));
    let (_, action) =
        execute_step(&cli(&[b"t"]), TargetNaming::FileName, state, ExecuteEvent::DirectoriesResolved(Err("no home".to_owned())));
    assert_eq!(error_of(action), ("failed to launch `cargo install`: no home".to_owned(), 1));
}

#[test]
fn install_root_names_are_tried_in_turn() {
    let c = cli(&[b"t"]);
    let mut state = ExecuteState::CreatingRoot { base: b"/b".to_vec(), timestamp_nanos: 5, attempt: 0 };
    for attempt in 1..100u32 {
        let (next, action) = execute_step(&c, TargetNaming::FileName, state, ExecuteEvent::InstallRootCreated(CreateOutcome::AlreadyExists));
        match &action {
            ExecuteAction::CreateInstallRoot(path) => assert_eq!(path, &format!("/b/5-{attempt}").into_bytes()),
            other => panic!("unexpected {other:?}"),
        }
        state = next;
    }
    let (_, action) = execute_step(&c, TargetNaming::FileName, state, ExecuteEvent::InstallRootCreated(CreateOutcome::AlreadyExists));
    assert_eq!(
        error_of(action),
        (
            "failed to create temporary install root: could not allocate a temporary install root".to_owned(),
            1
        )
    );

    let state = ExecuteState::CreatingRoot { base: b"/b".to_vec(), timestamp_nanos: 5, attempt: 0 };
    let (_, action) =
        execute_step(&c, TargetNaming::FileName, state, ExecuteEvent::InstallRootCreated(CreateOutcome::Failed("denied".to_owned())));
    assert_eq!(error_of(action), ("failed to create temporary install root: denied".to_owned(), 1));

    let (_, action) = execute_step(
        &c,
        TargetNaming::FileName,
        ExecuteState::PreparingBase,
        ExecuteEvent::TemporaryBasePrepared(Err("no home".to_owned())),
    );
    assert_eq!(error_of(action), ("failed to create temporary install root: no home".to_owned(), 1));
}

#[test]
fn listing_errors_end_the_run() {
    let state = ExecuteState::Listing { package: Some("t".to_owned()), bin_dir: b"/r/bin".to_vec() };
    let (_, action) =
        execute_step(&cli(&[b"t"]), TargetNaming::FileName, state, ExecuteEvent::BinariesListed(Err("gone".to_owned())));
    assert_eq!(error_of(action), ("failed to inspect installed binaries at `/r/bin`: gone".to_owned(), 1));

    let state = ExecuteState::Listing { package: Some("t".to_owned()), bin_dir: b"/r/bin".to_vec() };
    let (_, action) = execute_step(&cli(&[b"t"]), TargetNaming::FileName, state, ExecuteEvent::BinariesListed(Ok(Vec::new())));
    assert_eq!(error_of(action), ("`t` did not install any executable binaries".to_owned(), 1));
}

fn clearing_cli() -> Cli {
    let mut c = cli(&[]);
    c.clear = true;
    c
}

#[test]
fn clear_removes_temporary_roots_then_build_cache() {
    let c = clearing_cli();
    let (state, action) = execute_step(&c, TargetNaming::FileName, ExecuteState::Start, ExecuteEvent::Started);
    assert!(matches!(action, ExecuteAction::ResolveClearDirectories));
    let directories = ClearDirectories { temp_base: b"/t".to_vec(), build_target: b"/b/target".to_vec() };
    let (state, action) = execute_step(&c, TargetNaming::FileName, state, ExecuteEvent::ClearDirectoriesResolved(Ok(directories)));
    match &action {
        ExecuteAction::RemoveDirectory(path) => assert_eq!(path, b"/t"),
        other => panic!("unexpected {other:?}"),
    }
    let (state, action) = execute_step(&c, TargetNaming::FileName, state, ExecuteEvent::DirectoryRemoved(Ok(())));
    match &action {
        ExecuteAction::RemoveDirectory(path) => assert_eq!(path, b"/b/target"),
        other => panic!("unexpected {other:?}"),
    }
    let (state, action) = execute_step(&c, TargetNaming::FileName, state, ExecuteEvent::DirectoryRemoved(Ok(())));
    assert!(matches!(state, ExecuteState::Finished));
    assert_eq!(execution_of(action), Execution::Completed);
}

#[test]
fn clear_removes_a_shared_directory_once() {
    let c = clearing_cli();
    let state = ExecuteState::RemovingTemporaryRoots { temp_base: b"/same".to_vec(), build_target: b"/same".to_vec() };
    let (state, action) = execute_step(&c, TargetNaming::FileName, state, ExecuteEvent::DirectoryRemoved(Ok(())));
    assert!(matches!(state, ExecuteState::Finished));
    assert_eq!(execution_of(action), Execution::Completed);
}

#[test]
fn clear_errors_name_the_directory() {
    let c = clearing_cli();
    let (_, action) = execute_step(
        &c,
        TargetNaming::FileName,
        ExecuteState::ResolvingClear,
        ExecuteEvent::ClearDirectoriesResolved(Err("no home".to_owned())),
    );
    assert_eq!(error_of(action), ("failed to resolve cargo-dlx cache directories: no home".to_owned(), 1));

    let state = ExecuteState::RemovingTemporaryRoots { temp_base: b"/t".to_vec(), build_target: b"/b".to_vec() };
    let (_, action) = execute_step(&c, TargetNaming::FileName, state, ExecuteEvent::DirectoryRemoved(Err("busy".to_owned())));
    assert_eq!(error_of(action), ("failed to clear temporary install roots at `/t`: busy".to_owned(), 1));

    let state = ExecuteState::RemovingBuildCache { build_target: b"/b".to_vec() };
    let (_, action) = execute_step(&c, TargetNaming::FileName, state, ExecuteEvent::DirectoryRemoved(Err("busy".to_owned())));
    assert_eq!(error_of(action), ("failed to clear package build cache at `/b`: busy".to_owned(), 1));
}

#[test]
fn exit_codes() {
    assert_eq!(exit_code_from_status(&exited(2)), 2);
    assert_eq!(exit_code_from_status(&ChildStatus { code: None, signal: Some(15) }), 143);
    assert_eq!(exit_code_from_status(&ChildStatus { code: None, signal: None }), 1);
    assert!(exited(0).success());
    assert!(!ChildStatus { code: None, signal: Some(9) }.success());
}

#[test]
fn install_root_names() {
    assert_eq!(decimal_bytes(0), b"0".to_vec());
    assert_eq!(decimal_bytes(u128::MAX), u128::MAX.to_string().into_bytes());
    assert_eq!(
        install_root_candidate(b"/tmp/dlx", 1_700_000_000_123_456_789, 42),
        b"/tmp/dlx/1700000000123456789-42".to_vec()
    );
    let root = TempInstallRoot { path: b"/tmp/dlx/1-0".to_vec() };
    assert_eq!(root.bin_dir(), b"/tmp/dlx/1-0/bin".to_vec());
    assert_eq!(root.path(), &b"/tmp/dlx/1-0".to_vec());
}

#[test]
fn install_arguments_forward_source_and_flags() {
    let mut c = cli(&[b"x"]);
    c.features = vec!["a".to_owned(), "b".to_owned()];
    c.all_features = true;
    c.no_default_features = true;
    c.locked = true;
    c.offline = true;
    c.profile = "dev".to_owned();
    let krate = CrateSpec {
        package: Some("tool".to_owned()),
        version: None,
        source: PackageSource::Git {
            url: "https://e.com/t.git".to_owned(),
            reference: Some(GitReference::Tag("v1".to_owned())),
        },
    };
    assert_eq!(
        install_arguments(&krate, &c, b"/root"),
        text(&[
            "install", "--git", "https://e.com/t.git", "--tag", "v1", "tool", "--root", "/root",
            "--profile", "dev", "--features", "a,b", "--all-features", "--no-default-features",
            "--locked", "--offline",
        ])
    );

    c.frozen = true;
    let krate = CrateSpec {
        package: None,
        version: Some("^1".to_owned()),
        source: PackageSource::Path { path: b"/src/t".to_vec() },
    };
    assert_eq!(
        install_arguments(&krate, &c, b"/root"),
        text(&[
            "install", "--path", "/src/t", "--root", "/root", "--profile", "dev", "--version", "^1",
            "--features", "a,b", "--all-features", "--no-default-features", "--frozen",
        ])
    );

    let krate = CrateSpec {
        package: Some("p".to_owned()),
        version: None,
        source: PackageSource::RegistryIndex { index: "sparse+https://i/".to_owned() },
    };
    let plain = cli(&[b"x"]);
    assert_eq!(
        install_arguments(&krate, &plain, b"/r"),
        text(&["install", "--index", "sparse+https://i/", "p", "--root", "/r", "--profile", "release"])
    );
}

#[test]
fn missing_directories_count_as_removed() {
    assert_eq!(directory_removal_result(RemovalOutcome::Removed), Ok(()));
    assert_eq!(directory_removal_result(RemovalOutcome::NotFound), Ok(()));
    assert_eq!(
        directory_removal_result(RemovalOutcome::Failed("busy".to_owned())),
        Err("busy".to_owned())
    );
}

#[test]
fn clear_removes_one_directory_however_it_is_spelt() {
    let c = clearing_cli();
    for (temp, build) in [("/x/y/", "/x/y"), ("/x/./y", "/x/y"), ("/x//y", "/x/y/.")] {
        let state = ExecuteState::RemovingTemporaryRoots {
            temp_base: temp.as_bytes().to_vec(),
            build_target: build.as_bytes().to_vec(),
        };
        let (next, action) = execute_step(&c, TargetNaming::FileName, state, ExecuteEvent::DirectoryRemoved(Ok(())));
        assert!(matches!(next, ExecuteState::Finished));
        assert_eq!(execution_of(action), Execution::Completed);
    }
    let state = ExecuteState::RemovingTemporaryRoots {
        temp_base: b"/x/y".to_vec(),
        build_target: b"/x/y/z".to_vec(),
    };
    let (_, action) = execute_step(&c, TargetNaming::FileName, state, ExecuteEvent::DirectoryRemoved(Ok(())));
    assert!(matches!(action, ExecuteAction::RemoveDirectory(path) if path == b"/x/y/z".to_vec()));
}
