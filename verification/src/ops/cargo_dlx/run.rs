//! What `cargo dlx` decides around running `cargo install` and the
//! installed binary: where its runtime directories are, which arguments
//! Cargo gets, which installed binary runs, and how the run ends.
//!
//! Paths are OS strings held as their platform-encoded bytes and joined by
//! the Unix rules (see `crate::os_text`).

use vstd::prelude::*;
use vstd::utf8::{decode_utf8, encode_utf8, valid_utf8};

use crate::byte_order::{
    is_sorted, lemma_sorted_arrangement_exists, lemma_sorted_arrangement_unique, sort_bytes,
};
use crate::os_text::{
    bytes_eq, copy_bytes, file_name, is_absolute_path, parent_dir_name, join_path, opt_text, os_text, os_text_is,
    path_file_name, path_is_absolute, path_join, spec_utf8_lossy, text_bytes, utf8_lossy,
    utf8_text,
};
use crate::text::{concat3, concat5};
use super::cli::{Cli, CrateSpec, GitReference, PackageSource, SpecCrateSpec, SpecGitReference, SpecPackageSource};

verus! {

/// How a run of `cargo dlx` ended when it did not fail itself.
#[derive(Debug, Clone, Copy, PartialEq, Eq, Structural)]
pub enum Execution {
    Completed,
    ChildExited(i32),
}

/// An error of `cargo dlx` itself, with the exit code the process ends with.
#[derive(Debug)]
pub struct RunError {
    pub message: String,
    pub exit_code: i32,
}

impl RunError {
    pub fn new(message: String, exit_code: i32) -> (res: RunError)
        ensures
            res.message@ == message@,
            res.exit_code == exit_code,
    {
        RunError { message, exit_code }
    }

    pub fn exit_code(&self) -> (res: i32)
        ensures
            res == self.exit_code,
    {
        self.exit_code
    }

    /// The message that explains the error.
    pub fn message(&self) -> (res: String)
        ensures
            res@ == self.message@,
    {
        self.message.clone()
    }
}

/// The environment variable that sets the runtime root directory.
pub const CARGO_DLX_ROOT_ENV: &'static str = "CARGO_DLX_ROOT";

/// The environment variable that sets the temporary install base directory.
pub const CARGO_DLX_TEMP_ENV: &'static str = "CARGO_DLX_TEMP";

/// The environment variable that sets the build cache base directory.
pub const CARGO_DLX_BUILD_ENV: &'static str = "CARGO_DLX_BUILD";

/// `.cargo-dlx`, the runtime root's name under the home directory.
pub open spec fn root_dirname() -> Seq<u8> {
    encode_utf8(".cargo-dlx"@)
}

/// `tmp`, the temporary install base's name under the root.
pub open spec fn temp_dirname() -> Seq<u8> {
    encode_utf8("tmp"@)
}

/// `build`, the build cache base's name under the root.
pub open spec fn build_dirname() -> Seq<u8> {
    encode_utf8("build"@)
}

/// `target`, the Cargo target directory's name under the build cache base.
pub open spec fn target_dirname() -> Seq<u8> {
    encode_utf8("target"@)
}

/// `bin`, where `cargo install` puts binaries under its root.
pub open spec fn bin_dirname() -> Seq<u8> {
    encode_utf8("bin"@)
}

/// An environment value counts only when it is set and not empty.
pub open spec fn spec_non_empty(value: Option<Seq<u8>>) -> Option<Seq<u8>> {
    match value {
        Some(v) => if v.len() > 0 {
            Some(v)
        } else {
            None
        },
        None => None,
    }
}

pub open spec fn opt_bytes(o: Option<Vec<u8>>) -> Option<Seq<u8>> {
    match o {
        Some(v) => Some(v@),
        None => None,
    }
}

/// The value of an environment variable, unless it is empty.
pub fn non_empty_env_value(value: Option<Vec<u8>>) -> (res: Option<Vec<u8>>)
    ensures
        opt_bytes(res) == spec_non_empty(opt_bytes(value)),
{
    match value {
        Some(v) => if v.len() > 0 {
            Some(v)
        } else {
            None
        },
        None => None,
    }
}

/// The home directory on Unix: the value of `HOME`, unless it is empty.
pub fn default_home_dir(home_env: Option<Vec<u8>>) -> (res: Option<Vec<u8>>)
    ensures
        opt_bytes(res) == spec_non_empty(opt_bytes(home_env)),
{
    non_empty_env_value(home_env)
}

/// Where the home directory comes from on Windows.
#[derive(Debug, Clone, PartialEq, Eq)]
pub enum WindowsHome {
    /// The value of `USERPROFILE`.
    Profile(Vec<u8>),
    /// `HOMEPATH` pushed onto `HOMEDRIVE`, as `PathBuf::push` does on
    /// Windows.
    DriveAndPath(Vec<u8>, Vec<u8>),
    /// Neither is set.
    Unknown,
}

/// The home directory on Windows: `USERPROFILE` unless it is empty, else
/// `HOMEDRIVE` with `HOMEPATH` when both are set and not empty.
pub open spec fn spec_windows_home(
    user_profile: Option<Seq<u8>>,
    home_drive: Option<Seq<u8>>,
    home_path: Option<Seq<u8>>,
) -> Option<(Seq<u8>, Option<Seq<u8>>)> {
    match spec_non_empty(user_profile) {
        Some(profile) => Some((profile, None)),
        None => match (spec_non_empty(home_drive), spec_non_empty(home_path)) {
            (Some(drive), Some(path)) => Some((drive, Some(path))),
            _ => None,
        },
    }
}

/// The view of a Windows home lookup: the directory, or the drive with the
/// path to push onto it.
pub open spec fn windows_home_view(home: WindowsHome) -> Option<(Seq<u8>, Option<Seq<u8>>)> {
    match home {
        WindowsHome::Profile(profile) => Some((profile@, None)),
        WindowsHome::DriveAndPath(drive, path) => Some((drive@, Some(path@))),
        WindowsHome::Unknown => None,
    }
}

/// The home directory on Windows, from the values of `USERPROFILE`,
/// `HOMEDRIVE` and `HOMEPATH`.
pub fn windows_home_dir(
    user_profile: Option<Vec<u8>>,
    home_drive: Option<Vec<u8>>,
    home_path: Option<Vec<u8>>,
) -> (res: WindowsHome)
    ensures
        windows_home_view(res) == spec_windows_home(
            opt_bytes(user_profile),
            opt_bytes(home_drive),
            opt_bytes(home_path),
        ),
{
    if let Some(profile) = non_empty_env_value(user_profile) {
        return WindowsHome::Profile(profile);
    }
    match (non_empty_env_value(home_drive), non_empty_env_value(home_path)) {
        (Some(drive), Some(path)) => WindowsHome::DriveAndPath(drive, path),
        _ => WindowsHome::Unknown,
    }
}

/// A path from the environment: absolute as given, relative to `cwd`
/// otherwise.
pub open spec fn spec_resolve_env_path(cwd: Seq<u8>, env_value: Option<Seq<u8>>) -> Option<Seq<u8>> {
    match env_value {
        Some(path) => if is_absolute_path(path) {
            Some(path)
        } else {
            Some(join_path(cwd, path))
        },
        None => None,
    }
}

/// Resolves a path from the environment against the working directory.
pub fn resolve_env_path(cwd: &[u8], env_value: Option<Vec<u8>>) -> (res: Option<Vec<u8>>)
    ensures
        opt_bytes(res) == spec_resolve_env_path(cwd@, opt_bytes(env_value)),
{
    match env_value {
        Some(path) => if path_is_absolute(&path) {
            Some(path)
        } else {
            Some(path_join(cwd, path.as_slice()))
        },
        None => None,
    }
}

/// The default runtime root, `.cargo-dlx` in the home directory.
pub open spec fn spec_default_dlx_root_dir(home_dir: Option<Seq<u8>>) -> Option<Seq<u8>> {
    match home_dir {
        Some(home) => Some(join_path(home, root_dirname())),
        None => None,
    }
}

/// The default runtime root.
pub fn default_dlx_root_dir(home_dir: Option<Vec<u8>>) -> (res: Option<Vec<u8>>)
    ensures
        opt_bytes(res) == spec_default_dlx_root_dir(opt_bytes(home_dir)),
{
    match home_dir {
        Some(home) => Some(path_join(home.as_slice(), text_bytes(".cargo-dlx").as_slice())),
        None => None,
    }
}

/// The runtime directories of `cargo dlx`.
#[derive(Debug, Clone, PartialEq, Eq)]
pub struct DlxDirectories {
    pub root: Vec<u8>,
    /// Where temporary install roots are made.
    pub temp_base: Vec<u8>,
    /// Where the build cache lives.
    pub build_base: Vec<u8>,
}

impl DlxDirectories {
    /// The Cargo target directory of the build cache.
    pub fn build_target_dir(&self) -> (res: Vec<u8>)
        ensures
            res@ == join_path(self.build_base@, target_dirname()),
    {
        path_join(self.build_base.as_slice(), text_bytes("target").as_slice())
    }

    /// The base directory of temporary install roots.
    pub fn temp_base_dir(&self) -> (res: &Vec<u8>)
        ensures
            res@ == self.temp_base@,
    {
        &self.temp_base
    }
}

pub open spec fn root_unknown_message() -> Seq<char> {
    "could not determine cargo-dlx root directory; set CARGO_DLX_ROOT"@
}

/// The runtime directories: the root from `CARGO_DLX_ROOT` or else the home
/// directory (an error when there is neither), and the temporary and build
/// bases from `CARGO_DLX_TEMP` and `CARGO_DLX_BUILD` or else `tmp` and
/// `build` under the root.
pub open spec fn spec_resolve_dlx_directories(
    cwd: Seq<u8>,
    root_env: Option<Seq<u8>>,
    temp_env: Option<Seq<u8>>,
    build_env: Option<Seq<u8>>,
    home_dir: Option<Seq<u8>>,
) -> Result<(Seq<u8>, Seq<u8>, Seq<u8>), Seq<char>> {
    let root = match spec_resolve_env_path(cwd, root_env) {
        Some(root) => Some(root),
        None => spec_default_dlx_root_dir(home_dir),
    };
    match root {
        None => Err(root_unknown_message()),
        Some(root) => Ok(
            (
                root,
                match spec_resolve_env_path(cwd, temp_env) {
                    Some(temp) => temp,
                    None => join_path(root, temp_dirname()),
                },
                match spec_resolve_env_path(cwd, build_env) {
                    Some(build) => build,
                    None => join_path(root, build_dirname()),
                },
            ),
        ),
    }
}

/// Resolves the runtime directories from the working directory, the values
/// of `CARGO_DLX_ROOT`, `CARGO_DLX_TEMP` and `CARGO_DLX_BUILD`, and the home
/// directory.
pub fn resolve_dlx_directories_with(
    cwd: &[u8],
    root_env: Option<Vec<u8>>,
    temp_env: Option<Vec<u8>>,
    build_env: Option<Vec<u8>>,
    home_dir: Option<Vec<u8>>,
) -> (res: Result<DlxDirectories, String>)
    ensures
        match res {
            Ok(directories) => spec_resolve_dlx_directories(
                cwd@,
                opt_bytes(root_env),
                opt_bytes(temp_env),
                opt_bytes(build_env),
                opt_bytes(home_dir),
            ) == Ok::<_, Seq<char>>(
                (directories.root@, directories.temp_base@, directories.build_base@),
            ),
            Err(message) => spec_resolve_dlx_directories(
                cwd@,
                opt_bytes(root_env),
                opt_bytes(temp_env),
                opt_bytes(build_env),
                opt_bytes(home_dir),
            ) == Err::<(Seq<u8>, Seq<u8>, Seq<u8>), _>(message@),
        },
{
    let root = match resolve_env_path(cwd, root_env) {
        Some(root) => root,
        None => match default_dlx_root_dir(home_dir) {
            Some(root) => root,
            None => {
                return Err(
                    String::from_str(
                        "could not determine cargo-dlx root directory; set CARGO_DLX_ROOT",
                    ),
                )
            },
        },
    };
    let temp_base = match resolve_env_path(cwd, temp_env) {
        Some(temp) => temp,
        None => path_join(root.as_slice(), text_bytes("tmp").as_slice()),
    };
    let build_base = match resolve_env_path(cwd, build_env) {
        Some(build) => build,
        None => path_join(root.as_slice(), text_bytes("build").as_slice()),
    };
    Ok(DlxDirectories { root, temp_base, build_base })
}

/// The directories that `--clear` removes.
#[derive(Debug, Clone, PartialEq, Eq)]
pub struct ClearDirectories {
    pub temp_base: Vec<u8>,
    pub build_target: Vec<u8>,
}

pub open spec fn temp_unknown_message() -> Seq<char> {
    "could not determine cargo-dlx temporary directory; set CARGO_DLX_TEMP or CARGO_DLX_ROOT"@
}

pub open spec fn build_unknown_message() -> Seq<char> {
    "could not determine cargo-dlx build cache directory; set --cache-dir, CARGO_DLX_BUILD, or CARGO_DLX_ROOT"@
}

/// The directories that `--clear` removes, each found on its own so that no
/// root is needed when both are given: the temporary base from
/// `CARGO_DLX_TEMP` or else `tmp` under the root; the build target from
/// `--cache-dir` as given, or else `target` under `CARGO_DLX_BUILD` or under
/// `build` in the root.
pub open spec fn spec_resolve_clear_directories(
    cwd: Seq<u8>,
    cache_dir: Option<Seq<u8>>,
    root_env: Option<Seq<u8>>,
    temp_env: Option<Seq<u8>>,
    build_env: Option<Seq<u8>>,
    home_dir: Option<Seq<u8>>,
) -> Result<(Seq<u8>, Seq<u8>), Seq<char>> {
    let root = match spec_resolve_env_path(cwd, root_env) {
        Some(root) => Some(root),
        None => spec_default_dlx_root_dir(home_dir),
    };
    let temp_base = match spec_resolve_env_path(cwd, temp_env) {
        Some(temp) => Some(temp),
        None => match root {
            Some(root) => Some(join_path(root, temp_dirname())),
            None => None,
        },
    };
    let build_base = match spec_resolve_env_path(cwd, build_env) {
        Some(build) => Some(build),
        None => match root {
            Some(root) => Some(join_path(root, build_dirname())),
            None => None,
        },
    };
    match temp_base {
        None => Err(temp_unknown_message()),
        Some(temp_base) => match cache_dir {
            Some(path) => Ok((temp_base, path)),
            None => match build_base {
                Some(build_base) => Ok((temp_base, join_path(build_base, target_dirname()))),
                None => Err(build_unknown_message()),
            },
        },
    }
}

/// Resolves what `--clear` removes from the working directory, the
/// `--cache-dir` option, the environment values and the home directory.
pub fn resolve_clear_directories_with(
    cwd: &[u8],
    cache_dir: Option<Vec<u8>>,
    root_env: Option<Vec<u8>>,
    temp_env: Option<Vec<u8>>,
    build_env: Option<Vec<u8>>,
    home_dir: Option<Vec<u8>>,
) -> (res: Result<ClearDirectories, String>)
    ensures
        match res {
            Ok(directories) => spec_resolve_clear_directories(
                cwd@,
                opt_bytes(cache_dir),
                opt_bytes(root_env),
                opt_bytes(temp_env),
                opt_bytes(build_env),
                opt_bytes(home_dir),
            ) == Ok::<_, Seq<char>>((directories.temp_base@, directories.build_target@)),
            Err(message) => spec_resolve_clear_directories(
                cwd@,
                opt_bytes(cache_dir),
                opt_bytes(root_env),
                opt_bytes(temp_env),
                opt_bytes(build_env),
                opt_bytes(home_dir),
            ) == Err::<(Seq<u8>, Seq<u8>), _>(message@),
        },
{
    let root = match resolve_env_path(cwd, root_env) {
        Some(root) => Some(root),
        None => default_dlx_root_dir(home_dir),
    };
    let temp_base = match resolve_env_path(cwd, temp_env) {
        Some(temp) => temp,
        None => match &root {
            Some(root) => path_join(root.as_slice(), text_bytes("tmp").as_slice()),
            None => {
                return Err(
                    String::from_str(
                        "could not determine cargo-dlx temporary directory; set CARGO_DLX_TEMP or CARGO_DLX_ROOT",
                    ),
                )
            },
        },
    };
    let build_target = match cache_dir {
        Some(path) => path,
        None => {
            let build_base = match resolve_env_path(cwd, build_env) {
                Some(build) => build,
                None => match &root {
                    Some(root) => path_join(root.as_slice(), text_bytes("build").as_slice()),
                    None => {
                        return Err(
                            String::from_str(
                                "could not determine cargo-dlx build cache directory; set --cache-dir, CARGO_DLX_BUILD, or CARGO_DLX_ROOT",
                            ),
                        )
                    },
                },
            };
            path_join(build_base.as_slice(), text_bytes("target").as_slice())
        },
    };
    Ok(ClearDirectories { temp_base, build_target })
}

/// A directory given in the environment is the one used, whatever else is
/// set: `CARGO_DLX_TEMP` is the temporary base and `CARGO_DLX_BUILD` the
/// build base, for a run and for `--clear` alike, with or without
/// `CARGO_DLX_ROOT`; each is taken as it is when absolute, else under the
/// working directory. A run needs a root from `CARGO_DLX_ROOT` or the home
/// directory, and `--cache-dir` is the build target `--clear` removes.
pub proof fn lemma_environment_directories_win(
    cwd: Seq<u8>,
    cache_dir: Option<Seq<u8>>,
    root_env: Option<Seq<u8>>,
    temp_env: Option<Seq<u8>>,
    build_env: Option<Seq<u8>>,
    home_dir: Option<Seq<u8>>,
)
    ensures
        spec_resolve_dlx_directories(cwd, root_env, temp_env, build_env, home_dir) is Ok <==> (
        root_env is Some || home_dir is Some),
        spec_resolve_dlx_directories(cwd, root_env, temp_env, build_env, home_dir) matches Ok(
            (root, temp_base, build_base),
        ) ==> {
            &&& temp_env matches Some(temp) ==> temp_base == if is_absolute_path(temp) {
                temp
            } else {
                join_path(cwd, temp)
            }
            &&& build_env matches Some(build) ==> build_base == if is_absolute_path(build) {
                build
            } else {
                join_path(cwd, build)
            }
        },
        spec_resolve_clear_directories(cwd, cache_dir, root_env, temp_env, build_env, home_dir) matches Ok(
            (temp_base, build_target),
        ) ==> {
            &&& temp_env matches Some(temp) ==> temp_base == if is_absolute_path(temp) {
                temp
            } else {
                join_path(cwd, temp)
            }
            &&& cache_dir matches Some(dir) ==> build_target == dir
            &&& (cache_dir is None && build_env is Some) ==> build_target == join_path(
                if is_absolute_path(build_env->0) {
                    build_env->0
                } else {
                    join_path(cwd, build_env->0)
                },
                encode_utf8("target"@),
            )
        },
{
}

/// `--clear` removes the directories that a run uses: with the same
/// working directory, environment and home, its temporary base is the
/// run's, and its build target is the build cache the run points Cargo at
/// (`--cache-dir` when given).
pub proof fn lemma_clear_targets_run_directories(
    cwd: Seq<u8>,
    cache_dir: Option<Seq<u8>>,
    root_env: Option<Seq<u8>>,
    temp_env: Option<Seq<u8>>,
    build_env: Option<Seq<u8>>,
    home_dir: Option<Seq<u8>>,
)
    requires
        spec_resolve_dlx_directories(cwd, root_env, temp_env, build_env, home_dir) is Ok,
    ensures
        ({
            let (root, temp_base, build_base) = spec_resolve_dlx_directories(
                cwd,
                root_env,
                temp_env,
                build_env,
                home_dir,
            )->Ok_0;
            let build_target = match cache_dir {
                Some(dir) => dir,
                None => join_path(build_base, target_dirname()),
            };
            &&& spec_resolve_clear_directories(cwd, cache_dir, root_env, temp_env, build_env, home_dir)
                == Ok::<_, Seq<char>>((temp_base, build_target))
            &&& spec_package_cache_dir(false, cache_dir, Ok(build_base)) == Ok::<_, Seq<char>>(
                Some(build_target),
            )
        }),
{
}

/// `--clear` needs no root directory when the temporary base and the build
/// cache are both given explicitly.
pub proof fn lemma_clear_needs_no_root_when_explicit(
    cwd: Seq<u8>,
    cache_dir: Option<Seq<u8>>,
    temp_env: Option<Seq<u8>>,
    build_env: Option<Seq<u8>>,
)
    requires
        temp_env is Some,
        cache_dir is Some || build_env is Some,
    ensures
        spec_resolve_clear_directories(cwd, cache_dir, None, temp_env, build_env, None) is Ok,
{
}

/// What came of removing a directory and everything in it.
#[derive(Debug, Clone, PartialEq, Eq)]
pub enum RemovalOutcome {
    Removed,
    /// The directory was not there.
    NotFound,
    /// The removal failed; the text of the error.
    Failed(String),
}

/// How `--clear` counts a removal: a directory that was not there counts as
/// removed; any other failure is an error.
pub fn directory_removal_result(outcome: RemovalOutcome) -> (res: Result<(), String>)
    ensures
        match outcome {
            RemovalOutcome::Failed(error) => res matches Err(message) && message@ == error@,
            _ => res is Ok,
        },
{
    match outcome {
        RemovalOutcome::Failed(error) => Err(error),
        _ => Ok(()),
    }
}

/// The build cache that `cargo install` is pointed at: none with
/// `--no-package-cache`, else `--cache-dir`, else the target directory of the
/// resolved build base (whose resolution may have failed).
pub open spec fn spec_package_cache_dir(
    no_package_cache: bool,
    cache_dir: Option<Seq<u8>>,
    directories: Result<Seq<u8>, Seq<char>>,
) -> Result<Option<Seq<u8>>, Seq<char>> {
    if no_package_cache {
        Ok(None)
    } else if cache_dir is Some {
        Ok(cache_dir)
    } else {
        match directories {
            Ok(build_base) => Ok(Some(join_path(build_base, target_dirname()))),
            Err(message) => Err(message),
        }
    }
}

/// The package build cache directory for `cargo install`, given the
/// resolved runtime directories.
pub fn package_cache_dir(cli: &Cli, directories: Result<DlxDirectories, String>) -> (res: Result<
    Option<Vec<u8>>,
    String,
>)
    ensures
        match res {
            Ok(dir) => spec_package_cache_dir(
                cli.no_package_cache,
                opt_bytes(cli.cache_dir),
                match directories {
                    Ok(d) => Ok(d.build_base@),
                    Err(m) => Err(m@),
                },
            ) == Ok::<_, Seq<char>>(opt_bytes(dir)),
            Err(message) => spec_package_cache_dir(
                cli.no_package_cache,
                opt_bytes(cli.cache_dir),
                match directories {
                    Ok(d) => Ok(d.build_base@),
                    Err(m) => Err(m@),
                },
            ) == Err::<Option<Seq<u8>>, _>(message@),
        },
{
    if cli.no_package_cache {
        return Ok(None);
    }
    if let Some(path) = &cli.cache_dir {
        return Ok(Some(copy_bytes(path.as_slice())));
    }
    match directories {
        Ok(directories) => Ok(Some(directories.build_target_dir())),
        Err(message) => Err(message),
    }
}

// ---------------------------------------------------------------------------
// The arguments of `cargo install`
// ---------------------------------------------------------------------------

/// An argument made of text.
pub open spec fn text_arg(text: Seq<char>) -> Seq<u8> {
    encode_utf8(text)
}

/// `parts` with `separator` between each two of them.
pub open spec fn join_with(parts: Seq<Seq<char>>, separator: Seq<char>) -> Seq<char>
    decreases parts.len(),
{
    if parts.len() == 0 {
        Seq::empty()
    } else if parts.len() == 1 {
        parts[0]
    } else {
        join_with(parts.drop_last(), separator) + separator + parts.last()
    }
}

/// Joins texts with a separator.
pub fn join_texts(parts: &Vec<String>, separator: &str) -> (res: String)
    ensures
        res@ == join_with(parts.deep_view(), separator@),
{
    let mut out = String::new();
    let mut i: usize = 0;
    while i < parts.len()
        invariant
            i <= parts@.len(),
            out@ == join_with(parts.deep_view().take(i as int), separator@),
        decreases parts.len() - i,
    {
        assert(parts.deep_view().take(i + 1).drop_last() =~= parts.deep_view().take(i as int));
        assert(parts.deep_view().take(i + 1).last() == parts[i as int]@);
        if i > 0 {
            out.append(separator);
        } else {
            assert(out@ =~= Seq::<char>::empty());
        }
        out.append(parts[i].as_str());
        i = i + 1;
    }
    assert(parts.deep_view().take(i as int) =~= parts.deep_view());
    out
}

/// The package name, when there is one, as the last source argument.
pub open spec fn package_args(package: Option<Seq<char>>) -> Seq<Seq<u8>> {
    match package {
        Some(package) => seq![text_arg(package)],
        None => Seq::empty(),
    }
}

/// The arguments that select a git revision.
pub open spec fn reference_args(reference: Option<SpecGitReference>) -> Seq<Seq<u8>> {
    match reference {
        Some(SpecGitReference::Branch(name)) => seq![text_arg("--branch"@), text_arg(name)],
        Some(SpecGitReference::Tag(name)) => seq![text_arg("--tag"@), text_arg(name)],
        Some(SpecGitReference::Rev(name)) => seq![text_arg("--rev"@), text_arg(name)],
        None => Seq::empty(),
    }
}

/// The arguments that say where the package comes from.
pub open spec fn source_args(krate: SpecCrateSpec) -> Seq<Seq<u8>> {
    match krate.source {
        SpecPackageSource::CratesIo => package_args(krate.package),
        SpecPackageSource::RegistryIndex { index } => seq![text_arg("--index"@), text_arg(index)]
            + package_args(krate.package),
        SpecPackageSource::Git { url, reference } => seq![text_arg("--git"@), text_arg(url)]
            + reference_args(reference) + package_args(krate.package),
        SpecPackageSource::Path { path } => seq![text_arg("--path"@), path] + package_args(
            krate.package,
        ),
    }
}

/// The flag `name` when `on` holds.
pub open spec fn flag_arg(on: bool, name: Seq<char>) -> Seq<Seq<u8>> {
    if on {
        seq![text_arg(name)]
    } else {
        Seq::empty()
    }
}

/// The root and profile arguments.
pub open spec fn root_profile_args(root: Seq<u8>, profile: Seq<char>) -> Seq<Seq<u8>> {
    seq![text_arg("--root"@), root, text_arg("--profile"@), text_arg(profile)]
}

/// The version requirement and feature arguments.
pub open spec fn version_feature_args(version: Option<Seq<char>>, features: Seq<Seq<char>>) -> Seq<Seq<u8>> {
    let version_part: Seq<Seq<u8>> = match version {
        Some(version) => seq![text_arg("--version"@), text_arg(version)],
        None => Seq::empty(),
    };
    let feature_part: Seq<Seq<u8>> = if features.len() > 0 {
        seq![text_arg("--features"@), text_arg(join_with(features, ","@))]
    } else {
        Seq::empty()
    };
    version_part + feature_part
}

/// The feature-set and lock flags (`--frozen` standing for both `--locked`
/// and `--offline`).
pub open spec fn flag_args(cli: &Cli) -> Seq<Seq<u8>> {
    flag_arg(cli.all_features, "--all-features"@) + flag_arg(
        cli.no_default_features,
        "--no-default-features"@,
    ) + if cli.frozen {
        seq![text_arg("--frozen"@)]
    } else {
        flag_arg(cli.locked, "--locked"@) + flag_arg(cli.offline, "--offline"@)
    }
}

/// The arguments after the program, `cargo`, that install `krate` into
/// `root`: its source, the root and the profile, the version requirement,
/// the features, and the lock and network flags.
pub open spec fn spec_install_arguments(krate: SpecCrateSpec, cli: &Cli, root: Seq<u8>) -> Seq<Seq<u8>> {
    seq![text_arg("install"@)] + source_args(krate) + root_profile_args(root, cli.profile@)
        + version_feature_args(krate.version, cli.features.deep_view()) + flag_args(cli)
}

/// A git source installs with `--git` and its URL, then the flag that
/// names its kind of revision (`--branch`, `--tag` or `--rev`) and the
/// revision: `?rev=abc123` gives `--rev abc123`.
pub proof fn lemma_git_revision_flag(
    krate: SpecCrateSpec,
    cli: &Cli,
    root: Seq<u8>,
    url: Seq<char>,
    reference: SpecGitReference,
)
    requires
        krate.source == (SpecPackageSource::Git { url, reference: Some(reference) }),
    ensures
        spec_install_arguments(krate, cli, root).take(5) == seq![
            encode_utf8("install"@),
            encode_utf8("--git"@),
            encode_utf8(url),
            encode_utf8(
                match reference {
                    SpecGitReference::Branch(_) => "--branch"@,
                    SpecGitReference::Tag(_) => "--tag"@,
                    SpecGitReference::Rev(_) => "--rev"@,
                },
            ),
            encode_utf8(
                match reference {
                    SpecGitReference::Branch(name) => name,
                    SpecGitReference::Tag(name) => name,
                    SpecGitReference::Rev(name) => name,
                },
            ),
        ],
{
    assert(spec_install_arguments(krate, cli, root).take(5) =~= seq![
        encode_utf8("install"@),
        encode_utf8("--git"@),
        encode_utf8(url),
        encode_utf8(
            match reference {
                SpecGitReference::Branch(_) => "--branch"@,
                SpecGitReference::Tag(_) => "--tag"@,
                SpecGitReference::Rev(_) => "--rev"@,
            },
        ),
        encode_utf8(
            match reference {
                SpecGitReference::Branch(name) => name,
                SpecGitReference::Tag(name) => name,
                SpecGitReference::Rev(name) => name,
            },
        ),
    ]);
}

fn push_text(args: &mut Vec<Vec<u8>>, text: &str)
    ensures
        final(args).deep_view() == old(args).deep_view().push(text_arg(text@)),
{
    let ghost before = args.deep_view();
    let bytes = text_bytes(text);
    assert(bytes.deep_view() =~= bytes@);
    args.push(bytes);
    assert(args.deep_view() =~= before.push(text_arg(text@)));
}

fn push_bytes(args: &mut Vec<Vec<u8>>, bytes: &[u8])
    ensures
        final(args).deep_view() == old(args).deep_view().push(bytes@),
{
    let ghost before = args.deep_view();
    let copy = copy_bytes(bytes);
    assert(copy.deep_view() =~= copy@);
    args.push(copy);
    assert(args.deep_view() =~= before.push(bytes@));
}

fn push_package(args: &mut Vec<Vec<u8>>, package: &Option<String>)
    ensures
        final(args).deep_view() == old(args).deep_view() + package_args(
            match package {
                Some(p) => Some(p@),
                None => None,
            },
        ),
{
    match package {
        Some(package) => push_text(args, package.as_str()),
        None => {
            assert(args.deep_view() =~= args.deep_view() + Seq::<Seq<u8>>::empty());
        },
    }
}

fn push_source_args(args: &mut Vec<Vec<u8>>, krate: &CrateSpec)
    ensures
        final(args).deep_view() == old(args).deep_view() + source_args(krate@),
{
    let ghost start = args.deep_view();
    match &krate.source {
        PackageSource::CratesIo => {
            push_package(args, &krate.package);
        },
        PackageSource::RegistryIndex { index } => {
            push_text(args, "--index");
            push_text(args, index.as_str());
            push_package(args, &krate.package);
        },
        PackageSource::Git { url, reference } => {
            push_text(args, "--git");
            push_text(args, url.as_str());
            let ghost after_url = args.deep_view();
            match reference {
                Some(GitReference::Branch(name)) => {
                    push_text(args, "--branch");
                    push_text(args, name.as_str());
                },
                Some(GitReference::Tag(name)) => {
                    push_text(args, "--tag");
                    push_text(args, name.as_str());
                },
                Some(GitReference::Rev(name)) => {
                    push_text(args, "--rev");
                    push_text(args, name.as_str());
                },
                None => {},
            }
            assert(args.deep_view() =~= after_url + reference_args(
                crate::ops::cargo_dlx::cli::opt_reference(*reference),
            ));
            push_package(args, &krate.package);
        },
        PackageSource::Path { path } => {
            push_text(args, "--path");
            push_bytes(args, path.as_slice());
            push_package(args, &krate.package);
        },
    }
    assert(args.deep_view() =~= start + source_args(krate@));
}

fn push_version_and_features(args: &mut Vec<Vec<u8>>, krate: &CrateSpec, cli: &Cli)
    ensures
        final(args).deep_view() == old(args).deep_view() + version_feature_args(
            krate@.version,
            cli.features.deep_view(),
        ),
{
    let ghost start = args.deep_view();
    let ghost version_part: Seq<Seq<u8>> = match krate@.version {
        Some(version) => seq![text_arg("--version"@), text_arg(version)],
        None => Seq::empty(),
    };
    let ghost feature_part: Seq<Seq<u8>> = if cli.features.deep_view().len() > 0 {
        seq![text_arg("--features"@), text_arg(join_with(cli.features.deep_view(), ","@))]
    } else {
        Seq::empty()
    };
    if let Some(version) = &krate.version {
        push_text(args, "--version");
        push_text(args, version.as_str());
    }
    assert(args.deep_view() =~= start + version_part);
    let ghost after_version = args.deep_view();
    if cli.features.len() > 0 {
        push_text(args, "--features");
        let features = join_texts(&cli.features, ",");
        push_text(args, features.as_str());
    }
    assert(args.deep_view() =~= after_version + feature_part);
    assert(version_feature_args(krate@.version, cli.features.deep_view()) == version_part + feature_part);
    assert(args.deep_view() =~= start + (version_part + feature_part));
}

fn push_flags(args: &mut Vec<Vec<u8>>, cli: &Cli)
    ensures
        final(args).deep_view() == old(args).deep_view() + flag_args(cli),
{
    let ghost start = args.deep_view();
    if cli.all_features {
        push_text(args, "--all-features");
    }
    let ghost after_all = args.deep_view();
    assert(after_all =~= start + flag_arg(cli.all_features, "--all-features"@));
    if cli.no_default_features {
        push_text(args, "--no-default-features");
    }
    let ghost after_default = args.deep_view();
    assert(after_default =~= after_all + flag_arg(cli.no_default_features, "--no-default-features"@));
    if cli.frozen {
        push_text(args, "--frozen");
    } else {
        if cli.locked {
            push_text(args, "--locked");
        }
        let ghost after_locked = args.deep_view();
        assert(after_locked =~= after_default + flag_arg(cli.locked, "--locked"@));
        if cli.offline {
            push_text(args, "--offline");
        }
        assert(args.deep_view() =~= after_locked + flag_arg(cli.offline, "--offline"@));
    }
}

/// The arguments of `cargo install` for `krate`, installed into `root`.
pub fn install_arguments(krate: &CrateSpec, cli: &Cli, root: &[u8]) -> (res: Vec<Vec<u8>>)
    ensures
        res.deep_view() == spec_install_arguments(krate@, cli, root@),
{
    let mut args: Vec<Vec<u8>> = Vec::new();
    push_text(&mut args, "install");
    let ghost first = args.deep_view();
    assert(first =~= seq![text_arg("install"@)]);
    push_source_args(&mut args, krate);
    let ghost after_source = args.deep_view();
    push_text(&mut args, "--root");
    push_bytes(&mut args, root);
    push_text(&mut args, "--profile");
    push_text(&mut args, cli.profile.as_str());
    let ghost after_profile = args.deep_view();
    assert(after_profile =~= after_source + root_profile_args(root@, cli.profile@));
    push_version_and_features(&mut args, krate, cli);
    let ghost after_features = args.deep_view();
    push_flags(&mut args, cli);
    assert(args.deep_view() =~= spec_install_arguments(krate@, cli, root@));
    args
}

// ---------------------------------------------------------------------------
// Which installed binary runs
// ---------------------------------------------------------------------------

/// The name a binary is known by: its file name, when that is text.
pub open spec fn spec_binary_target_name(path: Seq<u8>) -> Option<Seq<char>> {
    match file_name(path) {
        Some(name) => os_text(name),
        None => None,
    }
}

/// The target name of an installed binary: its file name as text.
pub fn binary_target_name(path: &[u8]) -> (res: Option<String>)
    ensures
        opt_text(res) == spec_binary_target_name(path@),
{
    match path_file_name(path) {
        Some(name) => utf8_text(name.as_slice()),
        None => None,
    }
}

/// The file names of a directory listing, in ascending order.
pub open spec fn ascending(names: Seq<Seq<u8>>) -> Seq<Seq<u8>> {
    choose|sorted: Seq<Seq<u8>>| is_sorted(sorted) && sorted.to_multiset() == names.to_multiset()
}

/// How an installed binary's target name is read from its file name.
#[derive(Debug, Clone, Copy, PartialEq, Eq, Structural)]
pub enum TargetNaming {
    /// The whole file name, as on Unix.
    FileName,
    /// The file name without its extension (`Path::file_stem`), as on
    /// Windows, where binaries end in `.exe`.
    FileStem,
}

/// The position of the last `.` in `name`.
pub open spec fn last_dot(name: Seq<u8>) -> Option<int>
    decreases name.len(),
{
    if name.len() == 0 {
        None
    } else if name.last() == 0x2eu8 {
        Some(name.len() - 1)
    } else {
        last_dot(name.drop_last())
    }
}

/// Where `last_dot` points.
pub proof fn lemma_last_dot(name: Seq<u8>)
    ensures
        match last_dot(name) {
            Some(i) => 0 <= i < name.len() && name[i] == 0x2eu8 && forall|k: int|
                i < k < name.len() ==> name[k] != 0x2eu8,
            None => forall|k: int| 0 <= k < name.len() ==> name[k] != 0x2eu8,
        },
    decreases name.len(),
{
    if name.len() > 0 && name.last() != 0x2eu8 {
        lemma_last_dot(name.drop_last());
        assert(forall|k: int| 0 <= k < name.len() - 1 ==> name.drop_last()[k] == name[k]);
    }
}

/// `Path::file_stem` of a file name: the part before its last `.`; the
/// whole name when it is `..`, has no `.`, or has its only `.` first.
pub open spec fn file_stem(name: Seq<u8>) -> Seq<u8> {
    if name == parent_dir_name() {
        name
    } else {
        match last_dot(name) {
            Some(i) => if i == 0 {
                name
            } else {
                name.take(i)
            },
            None => name,
        }
    }
}

/// The stem of a file name.
pub fn file_stem_bytes(name: &[u8]) -> (res: Vec<u8>)
    ensures
        res@ == file_stem(name@),
{
    if name.len() == 2 && name[0] == 0x2eu8 && name[1] == 0x2eu8 {
        assert(name@ =~= parent_dir_name());
        return copy_bytes(name);
    }
    proof {
        if name@.len() == 2 {
            assert(name@[0] != parent_dir_name()[0] || name@[1] != parent_dir_name()[1]);
        }
    }
    let mut end: usize = name.len();
    while end > 0 && name[end - 1] != 0x2eu8
        invariant
            end <= name@.len(),
            forall|k: int| end <= k < name@.len() ==> name@[k] != 0x2eu8,
        decreases end,
    {
        end = end - 1;
    }
    proof {
        lemma_last_dot(name@);
        if end > 0 {
            assert(last_dot(name@) == Some(end - 1));
        } else {
            assert(last_dot(name@) is None);
        }
    }
    if end <= 1 {
        return copy_bytes(name);
    }
    let mut stem: Vec<u8> = Vec::new();
    let mut k: usize = 0;
    while k < end - 1
        invariant
            k <= end - 1,
            end <= name@.len(),
            stem@ == name@.take(k as int),
        decreases end - 1 - k,
    {
        stem.push(name[k]);
        assert(stem@ =~= name@.take(k + 1));
        k = k + 1;
    }
    stem
}

/// The target name of a binary with file name `name`, when it is text.
pub open spec fn target_name(naming: TargetNaming, name: Seq<u8>) -> Option<Seq<char>> {
    match naming {
        TargetNaming::FileName => os_text(name),
        TargetNaming::FileStem => os_text(file_stem(name)),
    }
}

/// Whether the binary with file name `name` is named `package`.
pub fn has_target_name(naming: TargetNaming, name: &[u8], package: &str) -> (res: bool)
    ensures
        res == (target_name(naming, name@) == Some(package@)),
{
    match naming {
        TargetNaming::FileName => os_text_is(name, package),
        TargetNaming::FileStem => {
            let stem = file_stem_bytes(name);
            os_text_is(stem.as_slice(), package)
        },
    }
}

/// `i` is the first of `names` whose target name is `package`.
pub open spec fn is_first_named(names: Seq<Seq<u8>>, package: Seq<char>, naming: TargetNaming, i: int) -> bool {
    &&& 0 <= i < names.len()
    &&& target_name(naming, names[i]) == Some(package)
    &&& forall|k: int| 0 <= k < i ==> target_name(naming, #[trigger] names[k]) != Some(package)
}

pub open spec fn no_binaries_message(package: Option<Seq<char>>) -> Seq<char> {
    "`"@ + match package {
        Some(package) => package,
        None => "the selected package"@,
    } + "` did not install any executable binaries"@
}

/// The binaries' names, as text, separated by `, `.
pub open spec fn listed_names(names: Seq<Seq<u8>>) -> Seq<char> {
    join_with(names.map_values(|name: Seq<u8>| spec_utf8_lossy(name)), ", "@)
}

pub open spec fn ambiguous_binaries_message(package: Option<Seq<char>>, names: Seq<Seq<u8>>) -> Seq<char> {
    match package {
        Some(package) => "`"@ + package + "` installed multiple binaries ("@ + listed_names(names)
            + "), unable to select one automatically"@,
        None => "installed multiple binaries ("@ + listed_names(names)
            + "), unable to select one automatically"@,
    }
}

/// Which installed binary runs, given the file names in `bin_dir` in
/// ascending order: none installed is an error; else the first whose target
/// name is the package's; else the only one; else an error that lists them
/// all.
pub open spec fn spec_select_executable(
    bin_dir: Seq<u8>,
    sorted: Seq<Seq<u8>>,
    package: Option<Seq<char>>,
    naming: TargetNaming,
) -> Result<Seq<u8>, Seq<char>> {
    if sorted.len() == 0 {
        Err(no_binaries_message(package))
    } else if package is Some && exists|i: int| is_first_named(sorted, package->0, naming, i) {
        Ok(join_path(bin_dir, sorted[choose|i: int| is_first_named(sorted, package->0, naming, i)]))
    } else if sorted.len() == 1 {
        Ok(join_path(bin_dir, sorted[0]))
    } else {
        Err(ambiguous_binaries_message(package, sorted))
    }
}

/// The names in ascending order are sorted and are the same names.
pub proof fn lemma_ascending(names: Seq<Seq<u8>>)
    ensures
        is_sorted(ascending(names)),
        ascending(names).to_multiset() == names.to_multiset(),
{
    lemma_sorted_arrangement_exists(names);
}

/// Some name is the first one named after the package when any is.
proof fn lemma_first_named_exists(names: Seq<Seq<u8>>, package: Seq<char>, naming: TargetNaming, i: int)
    requires
        0 <= i < names.len(),
        target_name(naming, names[i]) == Some(package),
    ensures
        exists|j: int| is_first_named(names, package, naming, j),
    decreases i,
{
    if exists|k: int| 0 <= k < i && target_name(naming, #[trigger] names[k]) == Some(package) {
        let k = choose|k: int| 0 <= k < i && target_name(naming, #[trigger] names[k]) == Some(package);
        lemma_first_named_exists(names, package, naming, k);
    } else {
        assert(is_first_named(names, package, naming, i));
    }
}

/// The order in which the directory lists its files does not matter: the
/// same files listed in any order choose the same binary, or fail alike.
pub proof fn lemma_selection_ignores_listing_order(
    bin_dir: Seq<u8>,
    first: Seq<Seq<u8>>,
    second: Seq<Seq<u8>>,
    package: Option<Seq<char>>,
    naming: TargetNaming,
)
    requires
        first.to_multiset() == second.to_multiset(),
    ensures
        spec_select_executable(bin_dir, ascending(first), package, naming) == spec_select_executable(
            bin_dir,
            ascending(second),
            package,
            naming,
        ),
{
    lemma_ascending(first);
    lemma_ascending(second);
    lemma_sorted_arrangement_unique(ascending(first), ascending(second));
}

/// A binary named after the package is one that runs, whatever else the
/// package installed: the first such in ascending order, and with whole file
/// names as target names, the only one.
pub proof fn lemma_binary_named_after_package_runs(
    bin_dir: Seq<u8>,
    names: Seq<Seq<u8>>,
    package: Seq<char>,
    naming: TargetNaming,
    name: Seq<u8>,
)
    requires
        names.contains(name),
        target_name(naming, name) == Some(package),
    ensures
        exists|chosen: Seq<u8>|
            #![trigger names.contains(chosen)]
            names.contains(chosen) && target_name(naming, chosen) == Some(package)
                && spec_select_executable(bin_dir, ascending(names), Some(package), naming) == Ok::<
                Seq<u8>,
                Seq<char>,
            >(join_path(bin_dir, chosen)),
        naming == TargetNaming::FileName ==> spec_select_executable(
            bin_dir,
            ascending(names),
            Some(package),
            naming,
        ) == Ok::<Seq<u8>, Seq<char>>(join_path(bin_dir, name)),
{
    broadcast use vstd::utf8::decode_utf8_encode_utf8;

    lemma_ascending(names);
    let sorted = ascending(names);
    vstd::seq_lib::to_multiset_contains(names, name);
    vstd::seq_lib::to_multiset_contains(sorted, name);
    let i = choose|i: int| 0 <= i < sorted.len() && sorted[i] == name;
    lemma_first_named_exists(sorted, package, naming, i);
    let c = choose|j: int| is_first_named(sorted, package, naming, j);
    assert(is_first_named(sorted, package, naming, c));
    vstd::seq_lib::to_multiset_contains(sorted, sorted[c]);
    vstd::seq_lib::to_multiset_contains(names, sorted[c]);
    assert(sorted.contains(sorted[c]));
    assert(names.contains(sorted[c]));
    if naming == TargetNaming::FileName {
        assert(valid_utf8(sorted[c]) && valid_utf8(name));
        assert(decode_utf8(sorted[c]) == decode_utf8(name));
        assert(encode_utf8(decode_utf8(sorted[c])) == sorted[c]);
        assert(encode_utf8(decode_utf8(name)) == name);
    }
}

/// A package that installs one binary runs it, whatever its name.
pub proof fn lemma_single_binary_runs(
    bin_dir: Seq<u8>,
    name: Seq<u8>,
    package: Option<Seq<char>>,
    naming: TargetNaming,
)
    ensures
        spec_select_executable(bin_dir, ascending(seq![name]), package, naming) == Ok::<
            Seq<u8>,
            Seq<char>,
        >(join_path(bin_dir, name)),
{
    lemma_ascending(seq![name]);
    assert(is_sorted(seq![name]));
    lemma_sorted_arrangement_unique(ascending(seq![name]), seq![name]);
    if package is Some && exists|i: int| is_first_named(seq![name], package->0, naming, i) {
        let c = choose|i: int| is_first_named(seq![name], package->0, naming, i);
        assert(c == 0);
    }
}

/// A package that installs several binaries, none named after it, is an
/// error that lists them all.
pub proof fn lemma_ambiguous_binaries_rejected(
    bin_dir: Seq<u8>,
    names: Seq<Seq<u8>>,
    package: Option<Seq<char>>,
    naming: TargetNaming,
)
    requires
        names.len() > 1,
        package matches Some(p) ==> forall|i: int|
            0 <= i < names.len() ==> target_name(naming, #[trigger] names[i]) != Some(p),
    ensures
        spec_select_executable(bin_dir, ascending(names), package, naming) == Err::<Seq<u8>, Seq<char>>(
            ambiguous_binaries_message(package, ascending(names)),
        ),
{
    lemma_ascending(names);
    let sorted = ascending(names);
    vstd::seq_lib::to_multiset_len(names);
    vstd::seq_lib::to_multiset_len(sorted);
    if package is Some && exists|i: int| is_first_named(sorted, package->0, naming, i) {
        let c = choose|i: int| is_first_named(sorted, package->0, naming, i);
        vstd::seq_lib::to_multiset_contains(sorted, sorted[c]);
        vstd::seq_lib::to_multiset_contains(names, sorted[c]);
        assert(sorted.contains(sorted[c]));
        let j = choose|j: int| 0 <= j < names.len() && names[j] == sorted[c];
        assert(target_name(naming, names[j]) != package);
    }
}

/// The view of an optional text.
pub open spec fn opt_str(o: Option<&str>) -> Option<Seq<char>> {
    match o {
        Some(t) => Some(t@),
        None => None,
    }
}

/// Chooses the installed binary to run among `file_names`, the names of
/// the regular files in `bin_dir`, listed in any order, reading target
/// names as `naming` says. The error has exit code 1.
pub fn resolve_executable(
    bin_dir: &[u8],
    file_names: Vec<Vec<u8>>,
    package_name: Option<&str>,
    naming: TargetNaming,
) -> (res: Result<Vec<u8>, RunError>)
    ensures
        match res {
            Ok(path) => spec_select_executable(
                bin_dir@,
                ascending(file_names.deep_view()),
                opt_str(package_name),
                naming,
            ) == Ok::<Seq<u8>, Seq<char>>(path@),
            Err(error) => spec_select_executable(
                bin_dir@,
                ascending(file_names.deep_view()),
                opt_str(package_name),
                naming,
            ) == Err::<Seq<u8>, Seq<char>>(error.message@) && error.exit_code == 1,
        },
{
    let sorted = sort_bytes(file_names);
    proof {
        let s = ascending(file_names.deep_view());
        assert(is_sorted(s) && s.to_multiset() == file_names.deep_view().to_multiset());
        lemma_sorted_arrangement_unique(s, sorted.deep_view());
    }
    let ghost names = sorted.deep_view();
    let ghost package = opt_str(package_name);
    if sorted.len() == 0 {
        let label = match package_name {
            Some(name) => name,
            None => "the selected package",
        };
        return Err(RunError::new(concat3("`", label, "` did not install any executable binaries"), 1));
    }
    if let Some(name) = package_name {
        let mut i: usize = 0;
        while i < sorted.len()
            invariant
                i <= names.len(),
                names == sorted.deep_view(),
                names == ascending(file_names.deep_view()),
                package == Some(name@),
                package == opt_str(package_name),
                forall|k: int| 0 <= k < i ==> target_name(naming, #[trigger] names[k]) != Some(name@),
            decreases sorted.len() - i,
        {
            assert(names[i as int] == sorted@[i as int]@);
            if has_target_name(naming, sorted[i].as_slice(), name) {
                proof {
                    assert(is_first_named(names, name@, naming, i as int));
                    let first = choose|j: int| is_first_named(names, name@, naming, j);
                    if first < i {
                        assert(target_name(naming, names[first]) != Some(name@));
                    } else if first > i {
                        assert(target_name(naming, names[i as int]) != Some(name@));
                    }
                }
                return Ok(path_join(bin_dir, sorted[i].as_slice()));
            }
            i = i + 1;
        }
        assert(!exists|j: int| is_first_named(names, name@, naming, j));
    }
    if sorted.len() == 1 {
        assert(names[0] == sorted@[0]@);
        return Ok(path_join(bin_dir, sorted[0].as_slice()));
    }
    let mut known: Vec<String> = Vec::new();
    let mut k: usize = 0;
    while k < sorted.len()
        invariant
            k <= names.len(),
            names == sorted.deep_view(),
            known.deep_view() == names.take(k as int).map_values(|name: Seq<u8>| spec_utf8_lossy(name)),
        decreases sorted.len() - k,
    {
        let ghost before = known.deep_view();
        assert(names[k as int] == sorted@[k as int]@);
        let text = utf8_lossy(sorted[k].as_slice());
        known.push(text);
        assert(known.deep_view() =~= before.push(spec_utf8_lossy(names[k as int])));
        assert(known.deep_view() =~= names.take(k + 1).map_values(
            |name: Seq<u8>| spec_utf8_lossy(name),
        ));
        k = k + 1;
    }
    assert(names.take(k as int) =~= names);
    let listed = join_texts(&known, ", ");
    let message = match package_name {
        Some(name) => concat5(
            "`",
            name,
            "` installed multiple binaries (",
            listed.as_str(),
            "), unable to select one automatically",
        ),
        None => concat3(
            "installed multiple binaries (",
            listed.as_str(),
            "), unable to select one automatically",
        ),
    };
    Err(RunError::new(message, 1))
}

// ---------------------------------------------------------------------------
// Child processes
// ---------------------------------------------------------------------------

/// How a child process ended, as `std::process::ExitStatus` tells it: its
/// exit code when it exited, the signal that ended it when one did.
#[derive(Debug, Clone, Copy, PartialEq, Eq, Structural)]
pub struct ChildStatus {
    pub code: Option<i32>,
    pub signal: Option<i32>,
}

impl ChildStatus {
    /// A run succeeds when it exits with code 0.
    pub open spec fn spec_success(&self) -> bool {
        self.code == Some(0i32)
    }

    /// Whether the run succeeded.
    pub fn success(&self) -> (res: bool)
        ensures
            res == self.spec_success(),
    {
        match self.code {
            Some(code) => code == 0,
            None => false,
        }
    }

    /// The exit code can be formed without overflow.
    pub open spec fn exit_code_fits(&self) -> bool {
        self.code is None && self.signal is Some ==> self.signal->0 <= i32::MAX - 128
    }
}

/// The exit code that reports a child's end: its own code, else 128 plus
/// the signal that ended it, else 1.
pub open spec fn spec_exit_code(status: ChildStatus) -> int {
    match status.code {
        Some(code) => code as int,
        None => match status.signal {
            Some(signal) => 128 + signal,
            None => 1,
        },
    }
}

/// The exit code that reports a child's end.
pub fn exit_code_from_status(status: &ChildStatus) -> (res: i32)
    requires
        status.exit_code_fits(),
    ensures
        res == spec_exit_code(*status),
{
    if let Some(code) = status.code {
        return code;
    }
    if let Some(signal) = status.signal {
        return 128 + signal;
    }
    1
}

/// The program that runs Cargo: the value of `CARGO` unless it is empty,
/// else `cargo`.
pub open spec fn spec_cargo_program(cargo_env: Option<Seq<u8>>) -> Seq<u8> {
    match spec_non_empty(cargo_env) {
        Some(program) => program,
        None => encode_utf8("cargo"@),
    }
}

/// The program that runs Cargo, from the value of `CARGO`.
pub fn cargo_binary(cargo_env: Option<Vec<u8>>) -> (res: Vec<u8>)
    ensures
        res@ == spec_cargo_program(opt_bytes(cargo_env)),
{
    match non_empty_env_value(cargo_env) {
        Some(program) => program,
        None => text_bytes("cargo"),
    }
}

// ---------------------------------------------------------------------------
// Temporary install roots
// ---------------------------------------------------------------------------

/// How many names a temporary install root is tried under.
pub const INSTALL_ROOT_ATTEMPTS: u32 = 100;

/// The ASCII digit of `d`.
pub open spec fn digit(d: nat) -> u8 {
    (0x30 + d) as u8
}

/// `n` in decimal, as ASCII bytes.
pub open spec fn decimal(n: nat) -> Seq<u8>
    decreases n,
{
    if n < 10 {
        seq![digit(n)]
    } else {
        decimal(n / 10).push(digit(n % 10))
    }
}

/// `n` in decimal.
pub fn decimal_bytes(n: u128) -> (res: Vec<u8>)
    ensures
        res@ == decimal(n as nat),
{
    let mut out: Vec<u8> = Vec::new();
    let mut rest: u128 = n;
    loop
        invariant
            rest <= n,
            rest >= 10 ==> decimal(n as nat) == decimal(rest as nat) + out@,
            rest < 10 ==> decimal(n as nat) == decimal(rest as nat) + out@,
        decreases rest,
    {
        if rest < 10 {
            let d = rest as u8;
            out.insert(0, 0x30u8 + d);
            assert(out@ =~= seq![digit(rest as nat)] + (out@.drop_first()));
            assert(out@ =~= decimal(rest as nat) + out@.drop_first());
            assert(decimal(n as nat) =~= out@);
            return out;
        }
        let ghost before = out@;
        let d = (rest % 10) as u8;
        out.insert(0, 0x30u8 + d);
        assert(out@ =~= seq![digit((rest % 10) as nat)] + before);
        assert(decimal(rest as nat) == decimal((rest / 10) as nat).push(digit((rest % 10) as nat)));
        assert(decimal(n as nat) =~= decimal((rest / 10) as nat) + out@);
        rest = rest / 10;
    }
}

/// The name a temporary install root is tried under: the time in
/// nanoseconds, `-`, and the attempt's number.
pub open spec fn install_root_name(timestamp_nanos: nat, attempt: nat) -> Seq<u8> {
    decimal(timestamp_nanos) + seq![0x2du8] + decimal(attempt)
}

/// The path a temporary install root is tried at, under `base`.
pub fn install_root_candidate(base: &[u8], timestamp_nanos: u128, attempt: u32) -> (res: Vec<u8>)
    ensures
        res@ == join_path(base@, install_root_name(timestamp_nanos as nat, attempt as nat)),
{
    let mut name = decimal_bytes(timestamp_nanos);
    name.push(0x2du8);
    let mut number = decimal_bytes(attempt as u128);
    name.append(&mut number);
    assert(name@ =~= install_root_name(timestamp_nanos as nat, attempt as nat));
    path_join(base, name.as_slice())
}

/// A temporary directory that `cargo install` installs into.
#[derive(Debug)]
pub struct TempInstallRoot {
    pub path: Vec<u8>,
}

impl TempInstallRoot {
    /// Where the root is.
    pub fn path(&self) -> (res: &Vec<u8>)
        ensures
            res@ == self.path@,
    {
        &self.path
    }

    /// Where `cargo install` puts the binaries: `bin` under the root.
    pub fn bin_dir(&self) -> (res: Vec<u8>)
        ensures
            res@ == join_path(self.path@, bin_dirname()),
    {
        path_join(self.path.as_slice(), text_bytes("bin").as_slice())
    }
}

} // verus!
