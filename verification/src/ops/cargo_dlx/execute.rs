//! A run of `cargo dlx` as a state machine. Each step takes the state and
//! what came of the last action, and gives the next state and the next
//! action; whoever drives the machine performs the actions (the file
//! system, the environment, child processes) and reports their outcomes.
//!
//! With `--clear`, the run resolves the directories to clear and removes
//! them. Otherwise it creates a temporary install root, reads the package
//! reference, points `cargo install` at the build cache, installs the
//! package, chooses the installed binary and runs it with the remaining
//! arguments.

use vstd::prelude::*;

use super::cli::{crate_spec_outcome, crate_spec_result, parse_crate_spec, Cli, CrateSpec, SpecCrateSpec};
use super::run::{
    ascending, bin_dirname, opt_str, exit_code_from_status, install_arguments, install_root_candidate,
    install_root_name, resolve_executable, spec_exit_code, spec_install_arguments,
    spec_select_executable, target_dirname, ChildStatus, ClearDirectories, DlxDirectories,
    Execution, RunError, TargetNaming, INSTALL_ROOT_ATTEMPTS, opt_bytes, spec_package_cache_dir,
};
use crate::os_text::{
    copy_bytes, join_path, opt_text, os_text, path_components, path_join, same_path, spec_utf8_lossy,
    text_bytes, utf8_lossy, utf8_text,
};
use crate::text::concat3;
use vstd::pervasive::unreached;

verus! {

/// What came of creating a temporary install root.
#[derive(Debug)]
pub enum CreateOutcome {
    Created,
    AlreadyExists,
    Failed(String),
}

/// What came of the last action. Errors are the text of the I/O error.
#[derive(Debug)]
pub enum ExecuteEvent {
    /// The run begins.
    Started,
    ClearDirectoriesResolved(Result<ClearDirectories, String>),
    /// A directory was removed, or was not there.
    DirectoryRemoved(Result<(), String>),
    /// The temporary install base exists; with it, the time in nanoseconds.
    TemporaryBasePrepared(Result<(Vec<u8>, u128), String>),
    InstallRootCreated(CreateOutcome),
    DirectoriesResolved(Result<DlxDirectories, String>),
    CacheDirectoryCreated(Result<(), String>),
    InstallFinished(Result<ChildStatus, String>),
    /// The names of the regular files in the binary directory.
    BinariesListed(Result<Vec<Vec<u8>>, String>),
    BinaryFinished(Result<ChildStatus, String>),
}

/// What to do next.
#[derive(Debug)]
pub enum ExecuteAction {
    /// Find what `--clear` removes, from the working directory, the
    /// environment and `--cache-dir`.
    ResolveClearDirectories,
    /// Remove a directory and everything in it; a missing one counts as
    /// removed.
    RemoveDirectory(Vec<u8>),
    /// Find the runtime directories, create the temporary install base and
    /// read the clock.
    PrepareTemporaryBase,
    /// Create this one directory as the temporary install root, to be
    /// removed when the run ends.
    CreateInstallRoot(Vec<u8>),
    /// Find the runtime directories.
    ResolveDirectories,
    /// Create the build cache directory and its parents.
    CreateCacheDirectory(Vec<u8>),
    /// Run Cargo with these arguments and, when there is one, `CARGO_TARGET_DIR`
    /// set to `target_dir`.
    InstallPackage { arguments: Vec<Vec<u8>>, target_dir: Option<Vec<u8>> },
    /// List the regular files of a directory.
    ListBinaries(Vec<u8>),
    /// Run a program with these arguments.
    RunBinary { executable: Vec<u8>, arguments: Vec<Vec<u8>> },
    /// The run is over.
    Finish(Result<Execution, RunError>),
}

/// A package about to be installed: the arguments of `cargo install`, the
/// package's name when known, and the temporary install root.
#[derive(Debug)]
pub struct Installation {
    pub arguments: Vec<Vec<u8>>,
    pub package: Option<String>,
    pub root: Vec<u8>,
}

/// Where a run stands.
#[derive(Debug)]
pub enum ExecuteState {
    Start,
    ResolvingClear,
    RemovingTemporaryRoots { temp_base: Vec<u8>, build_target: Vec<u8> },
    RemovingBuildCache { build_target: Vec<u8> },
    PreparingBase,
    CreatingRoot { base: Vec<u8>, timestamp_nanos: u128, attempt: u32 },
    ResolvingCache { install: Installation },
    CreatingCache { install: Installation, cache_dir: Vec<u8> },
    Installing { package: Option<String>, root: Vec<u8> },
    Listing { package: Option<String>, bin_dir: Vec<u8> },
    Running { executable: Vec<u8> },
    Finished,
}

impl ExecuteState {
    /// No more names are tried for the install root than allowed.
    pub open spec fn wf(&self) -> bool {
        match self {
            ExecuteState::CreatingRoot { attempt, .. } => *attempt < INSTALL_ROOT_ATTEMPTS,
            _ => true,
        }
    }

    /// The outcome each state waits for.
    pub open spec fn expects(&self, event: &ExecuteEvent) -> bool {
        match self {
            ExecuteState::Start => event is Started,
            ExecuteState::ResolvingClear => event is ClearDirectoriesResolved,
            ExecuteState::RemovingTemporaryRoots { .. } => event is DirectoryRemoved,
            ExecuteState::RemovingBuildCache { .. } => event is DirectoryRemoved,
            ExecuteState::PreparingBase => event is TemporaryBasePrepared,
            ExecuteState::CreatingRoot { .. } => event is InstallRootCreated,
            ExecuteState::ResolvingCache { .. } => event is DirectoriesResolved,
            ExecuteState::CreatingCache { .. } => event is CacheDirectoryCreated,
            ExecuteState::Installing { .. } => event is InstallFinished,
            ExecuteState::Listing { .. } => event is BinariesListed,
            ExecuteState::Running { .. } => event is BinaryFinished,
            ExecuteState::Finished => false,
        }
    }
}

impl ExecuteEvent {
    /// A child's status can be turned into an exit code.
    pub open spec fn wf(&self) -> bool {
        match self {
            ExecuteEvent::InstallFinished(Ok(status)) => status.exit_code_fits(),
            ExecuteEvent::BinaryFinished(Ok(status)) => status.exit_code_fits(),
            _ => true,
        }
    }
}

// ---------------------------------------------------------------------------
// Messages
// ---------------------------------------------------------------------------

pub open spec fn resolve_clear_failed_message(error: Seq<char>) -> Seq<char> {
    "failed to resolve cargo-dlx cache directories: "@ + error
}

pub open spec fn clear_temporary_failed_message(path: Seq<u8>, error: Seq<char>) -> Seq<char> {
    "failed to clear temporary install roots at `"@ + spec_utf8_lossy(path) + "`: "@ + error
}

pub open spec fn clear_build_failed_message(path: Seq<u8>, error: Seq<char>) -> Seq<char> {
    "failed to clear package build cache at `"@ + spec_utf8_lossy(path) + "`: "@ + error
}

pub open spec fn root_failed_message(error: Seq<char>) -> Seq<char> {
    "failed to create temporary install root: "@ + error
}

pub open spec fn allocation_failed_message() -> Seq<char> {
    "could not allocate a temporary install root"@
}

pub open spec fn crate_text_message() -> Seq<char> {
    "crate name is not valid a UTF-8 string"@
}

pub open spec fn launch_failed_message(error: Seq<char>) -> Seq<char> {
    "failed to launch `cargo install`: "@ + error
}

pub open spec fn inspect_failed_message(path: Seq<u8>, error: Seq<char>) -> Seq<char> {
    "failed to inspect installed binaries at `"@ + spec_utf8_lossy(path) + "`: "@ + error
}

pub open spec fn execute_failed_message(path: Seq<u8>, error: Seq<char>) -> Seq<char> {
    "failed to execute `"@ + spec_utf8_lossy(path) + "`: "@ + error
}

// ---------------------------------------------------------------------------
// The transitions
// ---------------------------------------------------------------------------

/// The run ends with an error of exit code 1 and this message.
pub open spec fn fails_with(next: ExecuteState, action: ExecuteAction, message: Seq<char>) -> bool {
    &&& next is Finished
    &&& action matches ExecuteAction::Finish(Err(error))
    &&& error.message@ == message
    &&& error.exit_code == 1
}

/// The run ends as `execution` says.
pub open spec fn ends_with(next: ExecuteState, action: ExecuteAction, execution: Execution) -> bool {
    &&& next is Finished
    &&& action matches ExecuteAction::Finish(Ok(e))
    &&& e == execution
}

/// The arguments, package and root of an installation, as values.
pub open spec fn is_installation(
    install: Installation,
    arguments: Seq<Seq<u8>>,
    package: Option<Seq<char>>,
    root: Seq<u8>,
) -> bool {
    &&& install.arguments.deep_view() == arguments
    &&& opt_text(install.package) == package
    &&& install.root@ == root
}

/// The start: `--clear` resolves what to clear; a run prepares the
/// temporary install base.
pub open spec fn start_step(cli: &Cli, next: ExecuteState, action: ExecuteAction) -> bool {
    if cli.clear {
        next is ResolvingClear && action is ResolveClearDirectories
    } else {
        next is PreparingBase && action is PrepareTemporaryBase
    }
}

/// With the directories to clear known, the temporary base goes first.
pub open spec fn clear_resolved_step(
    result: Result<ClearDirectories, String>,
    next: ExecuteState,
    action: ExecuteAction,
) -> bool {
    match result {
        Err(error) => fails_with(next, action, resolve_clear_failed_message(error@)),
        Ok(directories) => {
            &&& next matches ExecuteState::RemovingTemporaryRoots { temp_base, build_target }
            &&& temp_base@ == directories.temp_base@
            &&& build_target@ == directories.build_target@
            &&& action matches ExecuteAction::RemoveDirectory(path)
            &&& path@ == directories.temp_base@
        },
    }
}

/// After the temporary base, the build target, unless it is the same path
/// (the same components, as `Path`'s `==` has it).
pub open spec fn temporary_removed_step(
    temp_base: Seq<u8>,
    build_target: Seq<u8>,
    result: Result<(), String>,
    next: ExecuteState,
    action: ExecuteAction,
) -> bool {
    match result {
        Err(error) => fails_with(next, action, clear_temporary_failed_message(temp_base, error@)),
        Ok(_) => if path_components(build_target) == path_components(temp_base) {
            ends_with(next, action, Execution::Completed)
        } else {
            &&& next matches ExecuteState::RemovingBuildCache { build_target: target }
            &&& target@ == build_target
            &&& action matches ExecuteAction::RemoveDirectory(path)
            &&& path@ == build_target
        },
    }
}

/// The build target removed, the clearing is done.
pub open spec fn build_removed_step(
    build_target: Seq<u8>,
    result: Result<(), String>,
    next: ExecuteState,
    action: ExecuteAction,
) -> bool {
    match result {
        Err(error) => fails_with(next, action, clear_build_failed_message(build_target, error@)),
        Ok(_) => ends_with(next, action, Execution::Completed),
    }
}

/// The first name tried for the install root.
pub open spec fn base_prepared_step(
    result: Result<(Vec<u8>, u128), String>,
    next: ExecuteState,
    action: ExecuteAction,
) -> bool {
    match result {
        Err(error) => fails_with(next, action, root_failed_message(error@)),
        Ok((base, timestamp)) => {
            &&& next matches ExecuteState::CreatingRoot { base: b, timestamp_nanos, attempt }
            &&& b@ == base@
            &&& timestamp_nanos == timestamp
            &&& attempt == 0
            &&& action matches ExecuteAction::CreateInstallRoot(path)
            &&& path@ == join_path(base@, install_root_name(timestamp as nat, 0))
        },
    }
}

/// A taken name moves on to the next, up to the allowed number; a created
/// root is where the package goes.
pub open spec fn root_attempted_step(
    cli: &Cli,
    base: Seq<u8>,
    timestamp: u128,
    attempt: u32,
    outcome: CreateOutcome,
    next: ExecuteState,
    action: ExecuteAction,
) -> bool {
    match outcome {
        CreateOutcome::Failed(error) => fails_with(next, action, root_failed_message(error@)),
        CreateOutcome::AlreadyExists => if attempt + 1 < INSTALL_ROOT_ATTEMPTS {
            &&& next matches ExecuteState::CreatingRoot { base: b, timestamp_nanos, attempt: a }
            &&& b@ == base
            &&& timestamp_nanos == timestamp
            &&& a == attempt + 1
            &&& action matches ExecuteAction::CreateInstallRoot(path)
            &&& path@ == join_path(base, install_root_name(timestamp as nat, (attempt + 1) as nat))
        } else {
            fails_with(next, action, root_failed_message(allocation_failed_message()))
        },
        CreateOutcome::Created => root_created_step(
            cli,
            join_path(base, install_root_name(timestamp as nat, attempt as nat)),
            next,
            action,
        ),
    }
}

/// With the root made, the package reference is read: its first argument,
/// which must be text.
pub open spec fn root_created_step(cli: &Cli, root: Seq<u8>, next: ExecuteState, action: ExecuteAction) -> bool {
    let text = os_text(cli.krate_and_args@[0]@);
    if text is None {
        fails_with(next, action, crate_text_message())
    } else {
        exists|krate: Result<SpecCrateSpec, Seq<char>>|
            #[trigger] crate_spec_outcome(text->0, krate) && crate_read_step(cli, root, krate, next, action)
    }
}

/// A package that reads installs with the build cache off, at
/// `--cache-dir`, or in the resolved build base.
pub open spec fn crate_read_step(
    cli: &Cli,
    root: Seq<u8>,
    krate: Result<SpecCrateSpec, Seq<char>>,
    next: ExecuteState,
    action: ExecuteAction,
) -> bool {
    match krate {
        Err(message) => fails_with(next, action, message),
        Ok(spec) => {
            let arguments = spec_install_arguments(spec, cli, root);
            if cli.no_package_cache {
                &&& next matches ExecuteState::Installing { package, root: r }
                &&& opt_text(package) == spec.package
                &&& r@ == root
                &&& action matches ExecuteAction::InstallPackage { arguments: a, target_dir }
                &&& a.deep_view() == arguments
                &&& target_dir is None
            } else {
                match cli.cache_dir {
                    Some(dir) => {
                        &&& next matches ExecuteState::CreatingCache { install, cache_dir }
                        &&& is_installation(install, arguments, spec.package, root)
                        &&& cache_dir@ == dir@
                        &&& action matches ExecuteAction::CreateCacheDirectory(path)
                        &&& path@ == dir@
                    },
                    None => {
                        &&& next matches ExecuteState::ResolvingCache { install }
                        &&& is_installation(install, arguments, spec.package, root)
                        &&& action is ResolveDirectories
                    },
                }
            }
        },
    }
}

/// The build cache is `target` under the resolved build base.
pub open spec fn directories_resolved_step(
    install: Installation,
    result: Result<DlxDirectories, String>,
    next: ExecuteState,
    action: ExecuteAction,
) -> bool {
    match result {
        Err(error) => fails_with(next, action, launch_failed_message(error@)),
        Ok(directories) => {
            let cache = join_path(directories.build_base@, target_dirname());
            &&& next matches ExecuteState::CreatingCache { install: i, cache_dir }
            &&& is_installation(i, install.arguments.deep_view(), opt_text(install.package), install.root@)
            &&& cache_dir@ == cache
            &&& action matches ExecuteAction::CreateCacheDirectory(path)
            &&& path@ == cache
        },
    }
}

/// With the build cache there, Cargo runs with it as its target directory.
pub open spec fn cache_created_step(
    install: Installation,
    cache_dir: Seq<u8>,
    result: Result<(), String>,
    next: ExecuteState,
    action: ExecuteAction,
) -> bool {
    match result {
        Err(error) => fails_with(next, action, launch_failed_message(error@)),
        Ok(_) => {
            &&& next matches ExecuteState::Installing { package, root }
            &&& opt_text(package) == opt_text(install.package)
            &&& root@ == install.root@
            &&& action matches ExecuteAction::InstallPackage { arguments, target_dir }
            &&& arguments.deep_view() == install.arguments.deep_view()
            &&& target_dir matches Some(dir)
            &&& dir@ == cache_dir
        },
    }
}

/// A failed install ends the run with Cargo's exit code; a good one lists
/// the installed binaries.
pub open spec fn install_finished_step(
    package: Option<Seq<char>>,
    root: Seq<u8>,
    result: Result<ChildStatus, String>,
    next: ExecuteState,
    action: ExecuteAction,
) -> bool {
    match result {
        Err(error) => fails_with(next, action, launch_failed_message(error@)),
        Ok(status) => if status.spec_success() {
            let bin_dir = join_path(root, bin_dirname());
            &&& next matches ExecuteState::Listing { package: p, bin_dir: b }
            &&& opt_text(p) == package
            &&& b@ == bin_dir
            &&& action matches ExecuteAction::ListBinaries(path)
            &&& path@ == bin_dir
        } else {
            ends_with(next, action, Execution::ChildExited(spec_exit_code(status) as i32))
        },
    }
}

/// The chosen binary runs with the arguments after the package reference.
pub open spec fn binaries_listed_step(
    cli: &Cli,
    naming: TargetNaming,
    package: Option<Seq<char>>,
    bin_dir: Seq<u8>,
    result: Result<Vec<Vec<u8>>, String>,
    next: ExecuteState,
    action: ExecuteAction,
) -> bool {
    match result {
        Err(error) => fails_with(next, action, inspect_failed_message(bin_dir, error@)),
        Ok(names) => match spec_select_executable(bin_dir, ascending(names.deep_view()), package, naming) {
            Err(message) => fails_with(next, action, message),
            Ok(path) => {
                &&& next matches ExecuteState::Running { executable }
                &&& executable@ == path
                &&& action matches ExecuteAction::RunBinary { executable, arguments }
                &&& executable@ == path
                &&& arguments.deep_view() == forwarded_arguments(cli.krate_and_args.deep_view())
            },
        },
    }
}

/// The run ends as the binary did.
pub open spec fn binary_finished_step(
    executable: Seq<u8>,
    result: Result<ChildStatus, String>,
    next: ExecuteState,
    action: ExecuteAction,
) -> bool {
    match result {
        Err(error) => fails_with(next, action, execute_failed_message(executable, error@)),
        Ok(status) => if status.spec_success() {
            ends_with(next, action, Execution::Completed)
        } else {
            ends_with(next, action, Execution::ChildExited(spec_exit_code(status) as i32))
        },
    }
}

/// One step of a run: from `state` and `event` to `next` and `action`.
pub open spec fn transition(
    cli: &Cli,
    naming: TargetNaming,
    state: ExecuteState,
    event: ExecuteEvent,
    next: ExecuteState,
    action: ExecuteAction,
) -> bool {
    match state {
        ExecuteState::Start => event is Started && start_step(cli, next, action),
        ExecuteState::ResolvingClear => match event {
            ExecuteEvent::ClearDirectoriesResolved(result) => clear_resolved_step(result, next, action),
            _ => false,
        },
        ExecuteState::RemovingTemporaryRoots { temp_base, build_target } => match event {
            ExecuteEvent::DirectoryRemoved(result) => temporary_removed_step(
                temp_base@,
                build_target@,
                result,
                next,
                action,
            ),
            _ => false,
        },
        ExecuteState::RemovingBuildCache { build_target } => match event {
            ExecuteEvent::DirectoryRemoved(result) => build_removed_step(build_target@, result, next, action),
            _ => false,
        },
        ExecuteState::PreparingBase => match event {
            ExecuteEvent::TemporaryBasePrepared(result) => base_prepared_step(result, next, action),
            _ => false,
        },
        ExecuteState::CreatingRoot { base, timestamp_nanos, attempt } => match event {
            ExecuteEvent::InstallRootCreated(outcome) => root_attempted_step(
                cli,
                base@,
                timestamp_nanos,
                attempt,
                outcome,
                next,
                action,
            ),
            _ => false,
        },
        ExecuteState::ResolvingCache { install } => match event {
            ExecuteEvent::DirectoriesResolved(result) => directories_resolved_step(install, result, next, action),
            _ => false,
        },
        ExecuteState::CreatingCache { install, cache_dir } => match event {
            ExecuteEvent::CacheDirectoryCreated(result) => cache_created_step(
                install,
                cache_dir@,
                result,
                next,
                action,
            ),
            _ => false,
        },
        ExecuteState::Installing { package, root } => match event {
            ExecuteEvent::InstallFinished(result) => install_finished_step(
                opt_text(package),
                root@,
                result,
                next,
                action,
            ),
            _ => false,
        },
        ExecuteState::Listing { package, bin_dir } => match event {
            ExecuteEvent::BinariesListed(result) => binaries_listed_step(
                cli,
                naming,
                opt_text(package),
                bin_dir@,
                result,
                next,
                action,
            ),
            _ => false,
        },
        ExecuteState::Running { executable } => match event {
            ExecuteEvent::BinaryFinished(result) => binary_finished_step(executable@, result, next, action),
            _ => false,
        },
        ExecuteState::Finished => false,
    }
}

/// The arguments the binary gets: those after the package reference.
pub open spec fn forwarded_arguments(krate_and_args: Seq<Seq<u8>>) -> Seq<Seq<u8>> {
    if krate_and_args.len() == 0 {
        Seq::empty()
    } else {
        krate_and_args.drop_first()
    }
}

// ---------------------------------------------------------------------------
// The steps
// ---------------------------------------------------------------------------

/// `prefix` followed by `detail`.
fn with_detail(prefix: &str, detail: &str) -> (res: String)
    ensures
        res@ == prefix@ + detail@,
{
    let mut out = String::from_str(prefix);
    out.append(detail);
    out
}

/// `before`, the path as text, `after`, then `detail`.
fn path_message(before: &str, path: &[u8], after: &str, detail: &str) -> (res: String)
    ensures
        res@ == before@ + spec_utf8_lossy(path@) + after@ + detail@,
{
    let shown = utf8_lossy(path);
    let mut out = concat3(before, shown.as_str(), after);
    out.append(detail);
    out
}

fn fail(message: String) -> (res: (ExecuteState, ExecuteAction))
    ensures
        fails_with(res.0, res.1, message@),
{
    (ExecuteState::Finished, ExecuteAction::Finish(Err(RunError::new(message, 1))))
}

fn end(execution: Execution) -> (res: (ExecuteState, ExecuteAction))
    ensures
        ends_with(res.0, res.1, execution),
{
    (ExecuteState::Finished, ExecuteAction::Finish(Ok(execution)))
}

fn after_clear_resolved(result: Result<ClearDirectories, String>) -> (res: (ExecuteState, ExecuteAction))
    ensures
        clear_resolved_step(result, res.0, res.1),
{
    match result {
        Err(error) => fail(with_detail("failed to resolve cargo-dlx cache directories: ", error.as_str())),
        Ok(directories) => {
            let path = copy_bytes(directories.temp_base.as_slice());
            (
                ExecuteState::RemovingTemporaryRoots {
                    temp_base: directories.temp_base,
                    build_target: directories.build_target,
                },
                ExecuteAction::RemoveDirectory(path),
            )
        },
    }
}

fn after_temporary_removed(temp_base: Vec<u8>, build_target: Vec<u8>, result: Result<(), String>) -> (res: (
    ExecuteState,
    ExecuteAction,
))
    ensures
        temporary_removed_step(temp_base@, build_target@, result, res.0, res.1),
{
    match result {
        Err(error) => fail(
            path_message(
                "failed to clear temporary install roots at `",
                temp_base.as_slice(),
                "`: ",
                error.as_str(),
            ),
        ),
        Ok(()) => {
            if same_path(build_target.as_slice(), temp_base.as_slice()) {
                end(Execution::Completed)
            } else {
                let path = copy_bytes(build_target.as_slice());
                (ExecuteState::RemovingBuildCache { build_target }, ExecuteAction::RemoveDirectory(path))
            }
        },
    }
}

fn after_build_removed(build_target: Vec<u8>, result: Result<(), String>) -> (res: (ExecuteState, ExecuteAction))
    ensures
        build_removed_step(build_target@, result, res.0, res.1),
{
    match result {
        Err(error) => fail(
            path_message(
                "failed to clear package build cache at `",
                build_target.as_slice(),
                "`: ",
                error.as_str(),
            ),
        ),
        Ok(()) => end(Execution::Completed),
    }
}

fn after_base_prepared(result: Result<(Vec<u8>, u128), String>) -> (res: (ExecuteState, ExecuteAction))
    ensures
        base_prepared_step(result, res.0, res.1),
        res.0.wf(),
{
    match result {
        Err(error) => fail(with_detail("failed to create temporary install root: ", error.as_str())),
        Ok((base, timestamp)) => {
            let path = install_root_candidate(base.as_slice(), timestamp, 0);
            (
                ExecuteState::CreatingRoot { base, timestamp_nanos: timestamp, attempt: 0 },
                ExecuteAction::CreateInstallRoot(path),
            )
        },
    }
}

fn after_crate_read(cli: &Cli, root: Vec<u8>, krate: Result<CrateSpec, String>) -> (res: (
    ExecuteState,
    ExecuteAction,
))
    ensures
        crate_read_step(cli, root@, crate_spec_result(krate), res.0, res.1),
{
    match krate {
        Err(message) => fail(message),
        Ok(spec) => {
            let arguments = install_arguments(&spec, cli, root.as_slice());
            let package = spec.package;
            if cli.no_package_cache {
                (
                    ExecuteState::Installing { package, root },
                    ExecuteAction::InstallPackage { arguments, target_dir: None },
                )
            } else {
                match &cli.cache_dir {
                    Some(dir) => (
                        ExecuteState::CreatingCache {
                            install: Installation { arguments, package, root },
                            cache_dir: copy_bytes(dir.as_slice()),
                        },
                        ExecuteAction::CreateCacheDirectory(copy_bytes(dir.as_slice())),
                    ),
                    None => (
                        ExecuteState::ResolvingCache { install: Installation { arguments, package, root } },
                        ExecuteAction::ResolveDirectories,
                    ),
                }
            }
        },
    }
}

fn after_root_created(cli: &Cli, root: Vec<u8>) -> (res: (ExecuteState, ExecuteAction))
    requires
        cli.krate_and_args.len() > 0,
    ensures
        root_created_step(cli, root@, res.0, res.1),
{
    assert(cli.krate_and_args[0]@ == cli.krate_and_args@[0]@);
    match utf8_text(cli.krate_and_args[0].as_slice()) {
        None => fail(String::from_str("crate name is not valid a UTF-8 string")),
        Some(text) => {
            let krate = parse_crate_spec(text.as_str());
            let ghost read = crate_spec_result(krate);
            let res = after_crate_read(cli, root, krate);
            let ghost arg = os_text(cli.krate_and_args@[0]@);
            assert(arg->0 == text@);
            assert(crate_spec_outcome(arg->0, read) && crate_read_step(cli, root@, read, res.0, res.1));
            res
        },
    }
}

fn after_root_attempted(
    cli: &Cli,
    base: Vec<u8>,
    timestamp: u128,
    attempt: u32,
    outcome: CreateOutcome,
) -> (res: (ExecuteState, ExecuteAction))
    requires
        attempt < INSTALL_ROOT_ATTEMPTS,
        cli.krate_and_args.len() > 0,
    ensures
        root_attempted_step(cli, base@, timestamp, attempt, outcome, res.0, res.1),
        res.0.wf(),
{
    match outcome {
        CreateOutcome::Failed(error) => fail(with_detail("failed to create temporary install root: ", error.as_str())),
        CreateOutcome::AlreadyExists => {
            if attempt + 1 < INSTALL_ROOT_ATTEMPTS {
                let path = install_root_candidate(base.as_slice(), timestamp, attempt + 1);
                (
                    ExecuteState::CreatingRoot { base, timestamp_nanos: timestamp, attempt: attempt + 1 },
                    ExecuteAction::CreateInstallRoot(path),
                )
            } else {
                fail(
                    with_detail(
                        "failed to create temporary install root: ",
                        "could not allocate a temporary install root",
                    ),
                )
            }
        },
        CreateOutcome::Created => {
            let root = install_root_candidate(base.as_slice(), timestamp, attempt);
            after_root_created(cli, root)
        },
    }
}

fn after_directories_resolved(install: Installation, result: Result<DlxDirectories, String>) -> (res: (
    ExecuteState,
    ExecuteAction,
))
    ensures
        directories_resolved_step(install, result, res.0, res.1),
{
    match result {
        Err(error) => fail(with_detail("failed to launch `cargo install`: ", error.as_str())),
        Ok(directories) => {
            let cache = directories.build_target_dir();
            let path = copy_bytes(cache.as_slice());
            (ExecuteState::CreatingCache { install, cache_dir: cache }, ExecuteAction::CreateCacheDirectory(path))
        },
    }
}

fn after_cache_created(install: Installation, cache_dir: Vec<u8>, result: Result<(), String>) -> (res: (
    ExecuteState,
    ExecuteAction,
))
    ensures
        cache_created_step(install, cache_dir@, result, res.0, res.1),
{
    match result {
        Err(error) => fail(with_detail("failed to launch `cargo install`: ", error.as_str())),
        Ok(()) => (
            ExecuteState::Installing { package: install.package, root: install.root },
            ExecuteAction::InstallPackage { arguments: install.arguments, target_dir: Some(cache_dir) },
        ),
    }
}

fn after_install(package: Option<String>, root: Vec<u8>, result: Result<ChildStatus, String>) -> (res: (
    ExecuteState,
    ExecuteAction,
))
    requires
        result matches Ok(status) ==> status.exit_code_fits(),
    ensures
        install_finished_step(opt_text(package), root@, result, res.0, res.1),
{
    match result {
        Err(error) => fail(with_detail("failed to launch `cargo install`: ", error.as_str())),
        Ok(status) => {
            if status.success() {
                let bin_dir = path_join(root.as_slice(), text_bytes("bin").as_slice());
                let path = copy_bytes(bin_dir.as_slice());
                (ExecuteState::Listing { package, bin_dir }, ExecuteAction::ListBinaries(path))
            } else {
                end(Execution::ChildExited(exit_code_from_status(&status)))
            }
        },
    }
}

/// The arguments after the package reference.
fn forward_arguments(krate_and_args: &Vec<Vec<u8>>) -> (res: Vec<Vec<u8>>)
    ensures
        res.deep_view() == forwarded_arguments(krate_and_args.deep_view()),
{
    let mut out: Vec<Vec<u8>> = Vec::new();
    if krate_and_args.len() == 0 {
        assert(out.deep_view() =~= Seq::<Seq<u8>>::empty());
        return out;
    }
    let ghost all = krate_and_args.deep_view();
    let mut i: usize = 1;
    while i < krate_and_args.len()
        invariant
            1 <= i <= all.len(),
            all == krate_and_args.deep_view(),
            out.deep_view() == all.subrange(1, i as int),
        decreases krate_and_args.len() - i,
    {
        let ghost before = out.deep_view();
        assert(all[i as int] == krate_and_args@[i as int]@);
        let copy = copy_bytes(krate_and_args[i].as_slice());
        out.push(copy);
        assert(out.deep_view() =~= before.push(all[i as int]));
        assert(out.deep_view() =~= all.subrange(1, i + 1));
        i = i + 1;
    }
    out
}

fn after_binaries_listed(
    cli: &Cli,
    naming: TargetNaming,
    package: Option<String>,
    bin_dir: Vec<u8>,
    result: Result<Vec<Vec<u8>>, String>,
) -> (res: (ExecuteState, ExecuteAction))
    ensures
        binaries_listed_step(cli, naming, opt_text(package), bin_dir@, result, res.0, res.1),
{
    match result {
        Err(error) => fail(
            path_message(
                "failed to inspect installed binaries at `",
                bin_dir.as_slice(),
                "`: ",
                error.as_str(),
            ),
        ),
        Ok(names) => {
            let package_name: Option<&str> = match &package {
                Some(name) => Some(name.as_str()),
                None => None,
            };
            assert(opt_str(package_name) == opt_text(package));
            match resolve_executable(bin_dir.as_slice(), names, package_name, naming) {
                Err(error) => (ExecuteState::Finished, ExecuteAction::Finish(Err(error))),
                Ok(path) => {
                    let executable = copy_bytes(path.as_slice());
                    let arguments = forward_arguments(&cli.krate_and_args);
                    (
                        ExecuteState::Running { executable },
                        ExecuteAction::RunBinary { executable: path, arguments },
                    )
                },
            }
        },
    }
}

fn after_binary(executable: Vec<u8>, result: Result<ChildStatus, String>) -> (res: (ExecuteState, ExecuteAction))
    requires
        result matches Ok(status) ==> status.exit_code_fits(),
    ensures
        binary_finished_step(executable@, result, res.0, res.1),
{
    match result {
        Err(error) => fail(path_message("failed to execute `", executable.as_slice(), "`: ", error.as_str())),
        Ok(status) => {
            if status.success() {
                end(Execution::Completed)
            } else {
                end(Execution::ChildExited(exit_code_from_status(&status)))
            }
        },
    }
}

/// One step of a run of `cargo dlx`: what to do after `event`, in `state`.
pub fn execute_step(
    cli: &Cli,
    naming: TargetNaming,
    state: ExecuteState,
    event: ExecuteEvent,
) -> (res: (ExecuteState, ExecuteAction))
    requires
        state.wf(),
        state.expects(&event),
        event.wf(),
        state is CreatingRoot ==> cli.krate_and_args.len() > 0,
    ensures
        transition(cli, naming, state, event, res.0, res.1),
        res.0.wf(),
{
    match state {
        ExecuteState::Start => {
            if cli.clear {
                (ExecuteState::ResolvingClear, ExecuteAction::ResolveClearDirectories)
            } else {
                (ExecuteState::PreparingBase, ExecuteAction::PrepareTemporaryBase)
            }
        },
        ExecuteState::ResolvingClear => match event {
            ExecuteEvent::ClearDirectoriesResolved(result) => after_clear_resolved(result),
            _ => unreached(),
        },
        ExecuteState::RemovingTemporaryRoots { temp_base, build_target } => match event {
            ExecuteEvent::DirectoryRemoved(result) => after_temporary_removed(temp_base, build_target, result),
            _ => unreached(),
        },
        ExecuteState::RemovingBuildCache { build_target } => match event {
            ExecuteEvent::DirectoryRemoved(result) => after_build_removed(build_target, result),
            _ => unreached(),
        },
        ExecuteState::PreparingBase => match event {
            ExecuteEvent::TemporaryBasePrepared(result) => after_base_prepared(result),
            _ => unreached(),
        },
        ExecuteState::CreatingRoot { base, timestamp_nanos, attempt } => match event {
            ExecuteEvent::InstallRootCreated(outcome) => after_root_attempted(
                cli,
                base,
                timestamp_nanos,
                attempt,
                outcome,
            ),
            _ => unreached(),
        },
        ExecuteState::ResolvingCache { install } => match event {
            ExecuteEvent::DirectoriesResolved(result) => after_directories_resolved(install, result),
            _ => unreached(),
        },
        ExecuteState::CreatingCache { install, cache_dir } => match event {
            ExecuteEvent::CacheDirectoryCreated(result) => after_cache_created(install, cache_dir, result),
            _ => unreached(),
        },
        ExecuteState::Installing { package, root } => match event {
            ExecuteEvent::InstallFinished(result) => after_install(package, root, result),
            _ => unreached(),
        },
        ExecuteState::Listing { package, bin_dir } => match event {
            ExecuteEvent::BinariesListed(result) => after_binaries_listed(cli, naming, package, bin_dir, result),
            _ => unreached(),
        },
        ExecuteState::Running { executable } => match event {
            ExecuteEvent::BinaryFinished(result) => after_binary(executable, result),
            _ => unreached(),
        },
        ExecuteState::Finished => unreached(),
    }
}

// ---------------------------------------------------------------------------
// What every step keeps
// ---------------------------------------------------------------------------

/// The next state waits for the outcome of the action, and the run is over
/// exactly when the action says how it ended.
pub open spec fn awaits(next: ExecuteState, action: ExecuteAction) -> bool {
    match action {
        ExecuteAction::ResolveClearDirectories => next is ResolvingClear,
        ExecuteAction::RemoveDirectory(_) => next is RemovingTemporaryRoots || next is RemovingBuildCache,
        ExecuteAction::PrepareTemporaryBase => next is PreparingBase,
        ExecuteAction::CreateInstallRoot(_) => next is CreatingRoot,
        ExecuteAction::ResolveDirectories => next is ResolvingCache,
        ExecuteAction::CreateCacheDirectory(_) => next is CreatingCache,
        ExecuteAction::InstallPackage { .. } => next is Installing,
        ExecuteAction::ListBinaries(_) => next is Listing,
        ExecuteAction::RunBinary { .. } => next is Running,
        ExecuteAction::Finish(_) => next is Finished,
    }
}

/// Each step leaves the machine waiting for what its action reports, so a
/// driver that performs each action and reports its outcome never feeds a
/// state an outcome it does not expect.
pub proof fn lemma_step_awaits_its_action(
    cli: &Cli,
    naming: TargetNaming,
    state: ExecuteState,
    event: ExecuteEvent,
    next: ExecuteState,
    action: ExecuteAction,
)
    requires
        transition(cli, naming, state, event, next, action),
    ensures
        awaits(next, action),
{
}

/// The states of a `--clear` run.
pub open spec fn is_clearing(state: ExecuteState) -> bool {
    ||| state is ResolvingClear
    ||| state is RemovingTemporaryRoots
    ||| state is RemovingBuildCache
    ||| state is Finished
}

/// A `--clear` run only resolves and removes directories: from its start
/// on, no step makes an install root, installs or runs anything.
pub proof fn lemma_clear_run_only_removes(
    cli: &Cli,
    naming: TargetNaming,
    state: ExecuteState,
    event: ExecuteEvent,
    next: ExecuteState,
    action: ExecuteAction,
)
    requires
        cli.clear,
        state is Start || is_clearing(state),
        transition(cli, naming, state, event, next, action),
    ensures
        is_clearing(next),
        action is ResolveClearDirectories || action is RemoveDirectory || action is Finish,
{
}

/// `--clear` removes no directory twice: after the temporary base, it
/// removes the build target only when that is another path, however the two
/// are spelt.
pub proof fn lemma_clear_removes_distinct_directories(
    cli: &Cli,
    naming: TargetNaming,
    temp_base: Vec<u8>,
    build_target: Vec<u8>,
    event: ExecuteEvent,
    next: ExecuteState,
    action: ExecuteAction,
)
    requires
        transition(
            cli,
            naming,
            ExecuteState::RemovingTemporaryRoots { temp_base, build_target },
            event,
            next,
            action,
        ),
        action is RemoveDirectory,
    ensures
        action->RemoveDirectory_0@ == build_target@,
        path_components(action->RemoveDirectory_0@) != path_components(temp_base@),
{
}

/// Every error a run ends with, of its own or from the package reference or
/// the choice of binary, has exit code 1.
pub proof fn lemma_run_errors_exit_with_one(
    cli: &Cli,
    naming: TargetNaming,
    state: ExecuteState,
    event: ExecuteEvent,
    next: ExecuteState,
    action: ExecuteAction,
)
    requires
        transition(cli, naming, state, event, next, action),
        action matches ExecuteAction::Finish(Err(_)),
    ensures
        action matches ExecuteAction::Finish(Err(error)) && error.exit_code == 1,
{
    if let ExecuteState::CreatingRoot { base, timestamp_nanos, attempt } = state {
        if let ExecuteEvent::InstallRootCreated(CreateOutcome::Created) = event {
            let root = join_path(base@, install_root_name(timestamp_nanos as nat, attempt as nat));
            if os_text(cli.krate_and_args@[0]@) is Some {
                let text = os_text(cli.krate_and_args@[0]@)->0;
                let krate = choose|krate: Result<SpecCrateSpec, Seq<char>>|
                    #[trigger] crate_spec_outcome(text, krate) && crate_read_step(cli, root, krate, next, action);
                assert(crate_read_step(cli, root, krate, next, action));
            }
        }
    }
}

/// A failed `cargo install` ends the run with Cargo's exit code, and no
/// binary runs.
pub proof fn lemma_failed_install_ends_with_its_code(
    cli: &Cli,
    naming: TargetNaming,
    package: Option<String>,
    root: Vec<u8>,
    status: ChildStatus,
    next: ExecuteState,
    action: ExecuteAction,
)
    requires
        transition(
            cli,
            naming,
            ExecuteState::Installing { package, root },
            ExecuteEvent::InstallFinished(Ok(status)),
            next,
            action,
        ),
        !status.spec_success(),
    ensures
        next is Finished,
        action == ExecuteAction::Finish(Ok(Execution::ChildExited(spec_exit_code(status) as i32))),
{
}

/// The binary runs with the arguments after the package reference, as they
/// were given.
pub proof fn lemma_binary_gets_remaining_arguments(
    cli: &Cli,
    naming: TargetNaming,
    state: ExecuteState,
    event: ExecuteEvent,
    next: ExecuteState,
    action: ExecuteAction,
)
    requires
        transition(cli, naming, state, event, next, action),
        action is RunBinary,
    ensures
        action->RunBinary_arguments.deep_view() == forwarded_arguments(cli.krate_and_args.deep_view()),
{
    if let ExecuteState::CreatingRoot { base, timestamp_nanos, attempt } = state {
        if let ExecuteEvent::InstallRootCreated(CreateOutcome::Created) = event {
            let root = join_path(base@, install_root_name(timestamp_nanos as nat, attempt as nat));
            if os_text(cli.krate_and_args@[0]@) is Some {
                let text = os_text(cli.krate_and_args@[0]@)->0;
                let krate = choose|krate: Result<SpecCrateSpec, Seq<char>>|
                    #[trigger] crate_spec_outcome(text, krate) && crate_read_step(cli, root, krate, next, action);
                assert(crate_read_step(cli, root, krate, next, action));
            }
        }
    }
}

/// A run from its start: `states[i]` got `events[i]`, and the step gave
/// `states[i + 1]` and `actions[i]`.
pub open spec fn is_run(
    cli: &Cli,
    naming: TargetNaming,
    states: Seq<ExecuteState>,
    events: Seq<ExecuteEvent>,
    actions: Seq<ExecuteAction>,
) -> bool {
    &&& states.len() == events.len() + 1
    &&& actions.len() == events.len()
    &&& states[0] is Start
    &&& forall|i: int|
        #![trigger events[i]]
        0 <= i < events.len() ==> transition(cli, naming, states[i], events[i], states[i + 1], actions[i])
}

/// Cargo gets the build cache that `package_cache_dir` gives: with
/// `--no-package-cache` none; otherwise `--cache-dir`, or else `target` in
/// the resolved build base; and Cargo runs only once that directory was
/// created.
pub proof fn lemma_cargo_gets_the_package_cache_dir(
    cli: &Cli,
    naming: TargetNaming,
    states: Seq<ExecuteState>,
    events: Seq<ExecuteEvent>,
    actions: Seq<ExecuteAction>,
    k: int,
)
    requires
        is_run(cli, naming, states, events, actions),
        0 <= k < actions.len(),
        actions[k] is InstallPackage,
    ensures
        (actions[k]->InstallPackage_target_dir is None) == cli.no_package_cache,
        actions[k]->InstallPackage_target_dir matches Some(dir) ==> {
            &&& 1 <= k
            &&& actions[k - 1] matches ExecuteAction::CreateCacheDirectory(created)
            &&& created@ == dir@
            &&& events[k] matches ExecuteEvent::CacheDirectoryCreated(Ok(_))
            &&& match cli.cache_dir {
                Some(given) => given@ == dir@,
                None => {
                    &&& 2 <= k
                    &&& events[k - 1] matches ExecuteEvent::DirectoriesResolved(Ok(directories))
                    &&& spec_package_cache_dir(
                        cli.no_package_cache,
                        opt_bytes(cli.cache_dir),
                        Ok(directories.build_base@),
                    ) == Ok::<_, Seq<char>>(Some(dir@))
                },
            }
        },
{
    assert(transition(cli, naming, states[k], events[k], states[k + 1], actions[k]));
    if k > 0 {
        assert(transition(cli, naming, states[k - 1], events[k - 1], states[k], actions[k - 1]));
    }
    if k > 1 {
        assert(transition(cli, naming, states[k - 2], events[k - 2], states[k - 1], actions[k - 2]));
    }
    lemma_created_root_reads_crate(cli, naming, states[k], events[k], states[k + 1], actions[k]);
    if k > 0 {
        lemma_created_root_reads_crate(cli, naming, states[k - 1], events[k - 1], states[k], actions[k - 1]);
    }
    if k > 1 {
        lemma_created_root_reads_crate(cli, naming, states[k - 2], events[k - 2], states[k - 1], actions[k - 2]);
    }
}

/// The step after a created install root, spelt out: the package reference
/// was read as some `krate`, and the step is the one for it.
proof fn lemma_created_root_reads_crate(
    cli: &Cli,
    naming: TargetNaming,
    state: ExecuteState,
    event: ExecuteEvent,
    next: ExecuteState,
    action: ExecuteAction,
)
    requires
        transition(cli, naming, state, event, next, action),
    ensures
        state matches ExecuteState::CreatingRoot { base, timestamp_nanos, attempt } ==> (
        event matches ExecuteEvent::InstallRootCreated(CreateOutcome::Created) ==> (os_text(
            cli.krate_and_args@[0]@,
        ) is Some ==> exists|krate: Result<SpecCrateSpec, Seq<char>>|
            crate_read_step(
                cli,
                join_path(base@, install_root_name(timestamp_nanos as nat, attempt as nat)),
                krate,
                next,
                action,
            ))),
{
    if let ExecuteState::CreatingRoot { base, timestamp_nanos, attempt } = state {
        if let ExecuteEvent::InstallRootCreated(CreateOutcome::Created) = event {
            let root = join_path(base@, install_root_name(timestamp_nanos as nat, attempt as nat));
            if os_text(cli.krate_and_args@[0]@) is Some {
                let text = os_text(cli.krate_and_args@[0]@)->0;
                let krate = choose|krate: Result<SpecCrateSpec, Seq<char>>|
                    #[trigger] crate_spec_outcome(text, krate) && crate_read_step(cli, root, krate, next, action);
                assert(crate_read_step(cli, root, krate, next, action));
            }
        }
    }
}

/// How far a run has come. A step only moves forward, but for trying the
/// next name for the install root.
pub open spec fn progress(state: ExecuteState) -> int {
    match state {
        ExecuteState::Start => 0,
        ExecuteState::ResolvingClear => 1,
        ExecuteState::RemovingTemporaryRoots { .. } => 2,
        ExecuteState::RemovingBuildCache { .. } => 3,
        ExecuteState::PreparingBase => 4,
        ExecuteState::CreatingRoot { .. } => 5,
        ExecuteState::ResolvingCache { .. } => 6,
        ExecuteState::CreatingCache { .. } => 7,
        ExecuteState::Installing { .. } => 8,
        ExecuteState::Listing { .. } => 9,
        ExecuteState::Running { .. } => 10,
        ExecuteState::Finished => 11,
    }
}

/// A step never moves a run back.
pub proof fn lemma_step_moves_forward(
    cli: &Cli,
    naming: TargetNaming,
    state: ExecuteState,
    event: ExecuteEvent,
    next: ExecuteState,
    action: ExecuteAction,
)
    requires
        transition(cli, naming, state, event, next, action),
    ensures
        progress(state) < progress(next) || (state is CreatingRoot && next is CreatingRoot),
{
    lemma_created_root_reads_crate(cli, naming, state, event, next, action);
}

/// Along a run, later states have come at least as far.
pub proof fn lemma_run_moves_forward(
    cli: &Cli,
    naming: TargetNaming,
    states: Seq<ExecuteState>,
    events: Seq<ExecuteEvent>,
    actions: Seq<ExecuteAction>,
    a: int,
    b: int,
)
    requires
        is_run(cli, naming, states, events, actions),
        0 <= a <= b < states.len(),
    ensures
        progress(states[a]) <= progress(states[b]),
    decreases b - a,
{
    if a < b {
        lemma_run_moves_forward(cli, naming, states, events, actions, a, b - 1);
        assert(transition(cli, naming, states[b - 1], events[b - 1], states[b], actions[b - 1]));
        lemma_step_moves_forward(cli, naming, states[b - 1], events[b - 1], states[b], actions[b - 1]);
    }
}

/// What comes of making the build cache: once it is made, Cargo runs with
/// it as its target directory; when it cannot be found or made, the run
/// ends there with the launch error, and Cargo never runs in that run.
pub proof fn lemma_cache_directory_then_cargo(
    cli: &Cli,
    naming: TargetNaming,
    states: Seq<ExecuteState>,
    events: Seq<ExecuteEvent>,
    actions: Seq<ExecuteAction>,
    j: int,
)
    requires
        is_run(cli, naming, states, events, actions),
        0 <= j < events.len(),
        events[j] is CacheDirectoryCreated || events[j] is DirectoriesResolved,
    ensures
        events[j] matches ExecuteEvent::CacheDirectoryCreated(Ok(_)) ==> {
            &&& 1 <= j
            &&& actions[j - 1] matches ExecuteAction::CreateCacheDirectory(created)
            &&& actions[j] matches ExecuteAction::InstallPackage { target_dir: Some(dir), .. }
            &&& dir@ == created@
        },
        events[j] matches ExecuteEvent::CacheDirectoryCreated(Err(error)) ==> (actions[j] matches ExecuteAction::Finish(
            Err(failure),
        ) && failure.message@ == launch_failed_message(error@)),
        events[j] matches ExecuteEvent::DirectoriesResolved(Err(error)) ==> (actions[j] matches ExecuteAction::Finish(
            Err(failure),
        ) && failure.message@ == launch_failed_message(error@)),
        (events[j] matches ExecuteEvent::CacheDirectoryCreated(Err(_)) || events[j] matches ExecuteEvent::DirectoriesResolved(
            Err(_),
        )) ==> {
            &&& j == events.len() - 1
            &&& forall|i: int| 0 <= i < actions.len() ==> !(#[trigger] actions[i] is InstallPackage)
        },
{
    assert(transition(cli, naming, states[j], events[j], states[j + 1], actions[j]));
    if j > 0 {
        assert(transition(cli, naming, states[j - 1], events[j - 1], states[j], actions[j - 1]));
        lemma_created_root_reads_crate(cli, naming, states[j - 1], events[j - 1], states[j], actions[j - 1]);
    }
    if events[j] matches ExecuteEvent::CacheDirectoryCreated(Err(_)) || events[j] matches ExecuteEvent::DirectoriesResolved(
        Err(_),
    ) {
        if j + 1 < events.len() {
            assert(transition(cli, naming, states[j + 1], events[j + 1], states[j + 2], actions[j + 1]));
        }
        assert forall|i: int| 0 <= i < actions.len() implies !(#[trigger] actions[i] is InstallPackage) by {
            if actions[i] is InstallPackage {
                assert(transition(cli, naming, states[i], events[i], states[i + 1], actions[i]));
                lemma_created_root_reads_crate(cli, naming, states[i], events[i], states[i + 1], actions[i]);
                assert(states[i + 1] is Installing);
                assert(states[j] is ResolvingCache || states[j] is CreatingCache);
                if i < j {
                    lemma_run_moves_forward(cli, naming, states, events, actions, i + 1, j);
                    assert(false);
                }
            }
        }
    }
}

} // verus!
