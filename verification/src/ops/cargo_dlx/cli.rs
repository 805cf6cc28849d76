//! The command line of `cargo dlx` and the package references it accepts:
//! `name[@version]` from crates.io, or a source-qualified reference such as
//! `git+<url>[?branch=..|tag=..|rev=..][#pkg[@ver] | #ver]`,
//! `file://<path>[#..]`, `path+file://<path>[#..]`,
//! `registry+<index-url>#pkg[@ver]` and `sparse+<index-url>#pkg[@ver]`.

use vstd::prelude::*;

use crate::os_text::opt_text;
use crate::raw_args::{spec_normalize_raw_args, strip_subcommand_prefix};
use crate::semver_flag::{parse_semver_flag, spec_parse_semver_flag};
use crate::source_url::{is_parsed_from, spec_url_parse_error, SourceUrl, SpecSourceUrl};
use crate::text::{
    chars_ends_with, chars_find, chars_find_char, chars_of, concat3, concat5, ends_with, find,
    lemma_find_from, occurs_at, split_once, text_eq, text_find, text_split_once,
};

verus! {

/// The options of `cargo dlx`, once parsed. Arguments and paths are OS
/// strings held as their platform-encoded bytes.
pub struct Cli {
    /// The package reference, then the arguments for its binary.
    pub krate_and_args: Vec<Vec<u8>>,
    /// Directory used to cache package build artifacts.
    pub cache_dir: Option<Vec<u8>>,
    /// Disable package build artifact caching.
    pub no_package_cache: bool,
    /// Features to activate.
    pub features: Vec<String>,
    /// Activate all available features.
    pub all_features: bool,
    /// Do not activate the `default` feature.
    pub no_default_features: bool,
    /// Assert that `Cargo.lock` will remain unchanged.
    pub locked: bool,
    /// Run without accessing the network.
    pub offline: bool,
    /// Both `--locked` and `--offline`.
    pub frozen: bool,
    /// Remove temporary install roots and the package build cache, and do
    /// nothing else.
    pub clear: bool,
    /// The Cargo profile to build with.
    pub profile: String,
}

impl Cli {
    /// Drops the `dlx` that Cargo passes first when it runs this program as
    /// `cargo dlx`; `cargo_env` is the value of `CARGO`.
    pub fn normalize_raw_args_with_cargo_env(args: Vec<Vec<u8>>, cargo_env: Option<Vec<u8>>) -> (res:
        Vec<Vec<u8>>)
        ensures
            res.deep_view() == spec_normalize_raw_args(args.deep_view(), cargo_env is Some),
    {
        strip_subcommand_prefix(args, cargo_env.is_some())
    }

    /// Checks the parsed options together; every combination is accepted,
    /// so no message is ever returned.
    pub fn validate(&self) -> (res: Result<(), String>)
        ensures
            res is Ok,
    {
        Ok(())
    }
}

/// A package to install: its name when known, a version requirement (the
/// canonical text of a `semver::VersionReq`) and where it comes from.
#[derive(Debug, Clone, PartialEq, Eq)]
pub struct CrateSpec {
    pub package: Option<String>,
    pub version: Option<String>,
    pub source: PackageSource,
}

/// Where a package comes from.
#[derive(Debug, Clone, PartialEq, Eq)]
pub enum PackageSource {
    CratesIo,
    RegistryIndex { index: String },
    Git { url: String, reference: Option<GitReference> },
    /// A local directory, as platform-encoded bytes.
    Path { path: Vec<u8> },
}

/// The revision of a git source.
#[derive(Debug, Clone, PartialEq, Eq)]
pub enum GitReference {
    Branch(String),
    Tag(String),
    Rev(String),
}

pub enum SpecGitReference {
    Branch(Seq<char>),
    Tag(Seq<char>),
    Rev(Seq<char>),
}

pub enum SpecPackageSource {
    CratesIo,
    RegistryIndex { index: Seq<char> },
    Git { url: Seq<char>, reference: Option<SpecGitReference> },
    Path { path: Seq<u8> },
}

pub struct SpecCrateSpec {
    pub package: Option<Seq<char>>,
    pub version: Option<Seq<char>>,
    pub source: SpecPackageSource,
}

impl View for GitReference {
    type V = SpecGitReference;

    open spec fn view(&self) -> SpecGitReference {
        match self {
            GitReference::Branch(name) => SpecGitReference::Branch(name@),
            GitReference::Tag(name) => SpecGitReference::Tag(name@),
            GitReference::Rev(name) => SpecGitReference::Rev(name@),
        }
    }
}

pub open spec fn opt_reference(o: Option<GitReference>) -> Option<SpecGitReference> {
    match o {
        Some(r) => Some(r@),
        None => None,
    }
}

impl View for PackageSource {
    type V = SpecPackageSource;

    open spec fn view(&self) -> SpecPackageSource {
        match self {
            PackageSource::CratesIo => SpecPackageSource::CratesIo,
            PackageSource::RegistryIndex { index } => SpecPackageSource::RegistryIndex {
                index: index@,
            },
            PackageSource::Git { url, reference } => SpecPackageSource::Git {
                url: url@,
                reference: opt_reference(*reference),
            },
            PackageSource::Path { path } => SpecPackageSource::Path { path: path@ },
        }
    }
}

impl View for CrateSpec {
    type V = SpecCrateSpec;

    open spec fn view(&self) -> SpecCrateSpec {
        SpecCrateSpec {
            package: opt_text(self.package),
            version: opt_text(self.version),
            source: self.source@,
        }
    }
}

/// The view of a parse result.
pub open spec fn crate_spec_result(r: Result<CrateSpec, String>) -> Result<SpecCrateSpec, Seq<char>> {
    match r {
        Ok(spec) => Ok(spec@),
        Err(message) => Err(message@),
    }
}

// ---------------------------------------------------------------------------
// `kind+protocol://...`
// ---------------------------------------------------------------------------

/// The source kinds that may prefix a URL.
pub open spec fn is_source_kind_name(kind: Seq<char>) -> bool {
    kind == "git"@ || kind == "path"@ || kind == "registry"@ || kind == "sparse"@ || kind == "file"@
}

pub open spec fn kind_missing_message(value: Seq<char>) -> Seq<char> {
    "package source kind is missing in `"@ + value + "`"@
}

pub open spec fn protocol_missing_message(value: Seq<char>) -> Seq<char> {
    "package source protocol is missing in `"@ + value + "`"@
}

pub open spec fn unsupported_kind_message(kind: Seq<char>) -> Seq<char> {
    "unsupported package source kind `"@ + kind
        + "` (expected one of: git, path, file, registry, sparse)"@
}

/// Splits `kind+protocol://rest` into the kind and `protocol://rest`. A
/// reference without `://`, or with no `+` before it, has no kind and stays
/// whole.
pub open spec fn spec_split_source_kind(value: Seq<char>) -> Result<
    (Option<Seq<char>>, Seq<char>),
    Seq<char>,
> {
    match find(value, "://"@) {
        None => Ok((None, value)),
        Some(scheme_index) => match find(value.take(scheme_index), seq!['+']) {
            None => Ok((None, value)),
            Some(kind_index) => {
                let kind = value.take(kind_index);
                let protocol = value.subrange(kind_index + 1, scheme_index);
                if kind.len() == 0 {
                    Err(kind_missing_message(value))
                } else if protocol.len() == 0 {
                    Err(protocol_missing_message(value))
                } else if !is_source_kind_name(kind) {
                    Err(unsupported_kind_message(kind))
                } else {
                    Ok((Some(kind), protocol + "://"@ + value.skip(scheme_index + "://"@.len())))
                }
            },
        },
    }
}

/// Splits off the source kind of a reference such as `git+https://...`.
pub fn split_source_kind(value: &str) -> (res: Result<(Option<String>, String), String>)
    ensures
        match res {
            Ok((kind, rest)) => spec_split_source_kind(value@) == Ok::<_, Seq<char>>(
                (opt_text(kind), rest@),
            ),
            Err(message) => spec_split_source_kind(value@) == Err::<
                (Option<Seq<char>>, Seq<char>),
                _,
            >(message@),
        },
{
    let chars = chars_of(value);
    let length = chars.len();
    let scheme_separator = chars_of("://");
    let scheme_index = match chars_find(&chars, &scheme_separator) {
        Some(index) => index,
        None => return Ok((None, value.to_owned())),
    };
    proof {
        lemma_find_from(chars@, "://"@, 0);
        assert(occurs_at(chars@, "://"@, scheme_index as int));
        reveal_strlit("://");
        assert("://"@.len() == 3);
        assert(scheme_index + 3 <= chars@.len());
    }
    let head = value.substring_char(0, scheme_index);
    let head_chars = chars_of(head);
    assert(head@ =~= value@.take(scheme_index as int));
    let kind_index = match chars_find_char(&head_chars, '+') {
        Some(index) => index,
        None => return Ok((None, value.to_owned())),
    };
    proof {
        lemma_find_from(head_chars@, seq!['+'], 0);
        assert(occurs_at(head_chars@, seq!['+'], kind_index as int));
    }
    let kind = value.substring_char(0, kind_index);
    let protocol = value.substring_char(kind_index + 1, scheme_index);
    assert(kind@ =~= value@.take(kind_index as int));
    if kind.unicode_len() == 0 {
        return Err(concat3("package source kind is missing in `", value, "`"));
    }
    if protocol.unicode_len() == 0 {
        return Err(concat3("package source protocol is missing in `", value, "`"));
    }
    let known = text_eq(kind, "git") || text_eq(kind, "path") || text_eq(kind, "registry")
        || text_eq(kind, "sparse") || text_eq(kind, "file");
    if !known {
        return Err(
            concat3(
                "unsupported package source kind `",
                kind,
                "` (expected one of: git, path, file, registry, sparse)",
            ),
        );
    }
    let rest = value.substring_char(scheme_index + 3, length);
    assert(rest@ =~= value@.skip(scheme_index + "://"@.len()));
    Ok((Some(kind.to_owned()), concat3(protocol, "://", rest)))
}

// ---------------------------------------------------------------------------
// The fragment: `#pkg`, `#pkg@ver` or `#ver`
// ---------------------------------------------------------------------------

/// What the fragment of a source URL names: the package, its version
/// requirement, both, or neither when there is no fragment. A fragment
/// without `@` that reads as a version is a version; otherwise it is a name.
pub open spec fn spec_parse_source_fragment(fragment: Option<Seq<char>>) -> Result<
    (Option<Seq<char>>, Option<Seq<char>>),
    Seq<char>,
> {
    match fragment {
        None => Ok((None, None)),
        Some(fragment) => if fragment.len() == 0 {
            Err("missing package fragment after '#'"@)
        } else {
            match split_once(fragment, '@') {
                Some((package, version)) => if package.len() == 0 {
                    Err("missing package name before '@'"@)
                } else {
                    match spec_parse_semver_flag(version) {
                        Ok(requirement) => Ok((Some(package), Some(requirement))),
                        Err(message) => Err(message),
                    }
                },
                None => match spec_parse_semver_flag(fragment) {
                    Ok(requirement) => Ok((None, Some(requirement))),
                    Err(_) => Ok((Some(fragment), None)),
                },
            }
        },
    }
}

/// Reads the fragment of a source URL.
pub fn parse_source_fragment(fragment: Option<&str>) -> (res: Result<
    (Option<String>, Option<String>),
    String,
>)
    ensures
        match res {
            Ok((package, version)) => spec_parse_source_fragment(
                match fragment {
                    Some(f) => Some(f@),
                    None => None,
                },
            ) == Ok::<_, Seq<char>>((opt_text(package), opt_text(version))),
            Err(message) => spec_parse_source_fragment(
                match fragment {
                    Some(f) => Some(f@),
                    None => None,
                },
            ) == Err::<(Option<Seq<char>>, Option<Seq<char>>), _>(message@),
        },
{
    let fragment = match fragment {
        Some(fragment) => fragment,
        None => return Ok((None, None)),
    };
    if fragment.unicode_len() == 0 {
        return Err(String::from_str("missing package fragment after '#'"));
    }
    if let Some((package, version)) = text_split_once(fragment, '@') {
        if package.unicode_len() == 0 {
            return Err(String::from_str("missing package name before '@'"));
        }
        return match parse_semver_flag(version) {
            Ok(requirement) => Ok((Some(package.to_owned()), Some(requirement))),
            Err(message) => Err(message),
        };
    }
    match parse_semver_flag(fragment) {
        Ok(requirement) => Ok((None, Some(requirement))),
        Err(_) => Ok((Some(fragment.to_owned()), None)),
    }
}

// ---------------------------------------------------------------------------
// Git query parameters
// ---------------------------------------------------------------------------

/// The query keys that select a git revision.
pub open spec fn is_git_query_key(key: Seq<char>) -> bool {
    key == "branch"@ || key == "tag"@ || key == "rev"@
}

/// A `key=value` piece of a query whose key selects a git revision.
pub open spec fn spec_is_git_reference_pair(pair: Seq<char>) -> bool {
    match split_once(pair, '=') {
        Some((key, _)) => is_git_query_key(key),
        None => false,
    }
}

/// Some `&`-separated piece of `query` is a `key=value` pair with `branch`,
/// `tag` or `rev` as its key.
pub open spec fn spec_is_git_reference_query(query: Seq<char>) -> bool
    decreases query.len(),
{
    match find(query, seq!['&']) {
        Some(i) => {
            proof {
                lemma_find_from(query, seq!['&'], 0);
            }
            spec_is_git_reference_pair(query.take(i)) || spec_is_git_reference_query(query.skip(i + 1))
        },
        None => spec_is_git_reference_pair(query),
    }
}

fn is_git_reference_pair(pair: &str) -> (res: bool)
    ensures
        res == spec_is_git_reference_pair(pair@),
{
    match text_split_once(pair, '=') {
        Some((key, _)) => text_eq(key, "branch") || text_eq(key, "tag") || text_eq(key, "rev"),
        None => false,
    }
}

/// Whether a URL query names a git revision.
pub fn is_git_reference_query(query: &str) -> (res: bool)
    ensures
        res == spec_is_git_reference_query(query@),
{
    let mut rest: &str = query;
    while true
        invariant
            spec_is_git_reference_query(query@) == spec_is_git_reference_query(rest@),
        decreases rest@.len(),
    {
        match text_split_once(rest, '&') {
            Some((pair, tail)) => {
                proof {
                    lemma_find_from(rest@, seq!['&'], 0);
                }
                if is_git_reference_pair(pair) {
                    return true;
                }
                rest = tail;
            },
            None => return is_git_reference_pair(rest),
        }
    }
    false
}

// ---------------------------------------------------------------------------
// The package name of a git or path source
// ---------------------------------------------------------------------------

/// The last non-empty path segment.
pub open spec fn last_non_empty(segments: Seq<Seq<char>>) -> Option<Seq<char>>
    decreases segments.len(),
{
    if segments.len() == 0 {
        None
    } else if segments.last().len() > 0 {
        Some(segments.last())
    } else {
        last_non_empty(segments.drop_last())
    }
}

/// The package name that a source URL suggests: its last non-empty path
/// segment without a `.git` suffix, unless nothing remains.
pub open spec fn spec_infer_package_name(segments: Option<Seq<Seq<char>>>) -> Option<Seq<char>> {
    match segments {
        None => None,
        Some(segments) => match last_non_empty(segments) {
            None => None,
            Some(segment) => {
                let inferred = if ends_with(segment, ".git"@) {
                    segment.take(segment.len() - ".git"@.len())
                } else {
                    segment
                };
                if inferred.len() == 0 {
                    None
                } else {
                    Some(inferred)
                }
            },
        },
    }
}

/// Infers a package name from the path of a source URL.
pub fn infer_package_name_from_url(url: &SourceUrl) -> (res: Option<String>)
    ensures
        opt_text(res) == spec_infer_package_name(url@.path_segments),
{
    let segments = match &url.path_segments {
        Some(segments) => segments,
        None => return None,
    };
    let mut i = segments.len();
    assert(segments.deep_view().take(i as int) =~= segments.deep_view());
    while i > 0 && segments[i - 1].unicode_len() == 0
        invariant
            i <= segments@.len(),
            last_non_empty(segments.deep_view()) == last_non_empty(
                segments.deep_view().take(i as int),
            ),
        decreases i,
    {
        assert(segments.deep_view().take(i as int).drop_last() =~= segments.deep_view().take(
            i - 1,
        ));
        i = i - 1;
    }
    if i == 0 {
        return None;
    }
    let segment = segments[i - 1].as_str();
    assert(segments.deep_view().take(i as int).last() == segment@);
    let suffix = chars_of(".git");
    let segment_chars = chars_of(segment);
    let inferred = if chars_ends_with(&segment_chars, &suffix) {
        proof {
            reveal_strlit(".git");
        }
        segment.substring_char(0, segment_chars.len() - 4)
    } else {
        segment
    };
    if inferred.unicode_len() == 0 {
        return None;
    }
    Some(inferred.to_owned())
}

// ---------------------------------------------------------------------------
// The kind of source
// ---------------------------------------------------------------------------

/// The three ways a source-qualified package can be installed.
#[derive(Debug, Clone, Copy, PartialEq, Eq, Structural)]
pub enum SourceKind {
    Git,
    Path,
    RegistryIndex,
}

/// The kind of source that a URL without an explicit kind stands for:
/// `file:` is a path; `ssh:` and `git:` are git, as is a URL whose query
/// names a git revision or whose path ends in `.git`; anything else is a
/// registry index.
pub open spec fn spec_infer_source_kind(url: SpecSourceUrl) -> SourceKind {
    if url.scheme == "file"@ {
        SourceKind::Path
    } else if url.scheme == "ssh"@ || url.scheme == "git"@ {
        SourceKind::Git
    } else if url.query matches Some(query) && spec_is_git_reference_query(query) {
        SourceKind::Git
    } else if ends_with(url.path, ".git"@) {
        SourceKind::Git
    } else {
        SourceKind::RegistryIndex
    }
}

/// The kind of source: the explicit kind when it is one of the known names,
/// else what the URL suggests.
pub open spec fn spec_resolve_source_kind(kind: Option<Seq<char>>, url: SpecSourceUrl) -> SourceKind {
    match kind {
        Some(kind) => if kind == "git"@ {
            SourceKind::Git
        } else if kind == "path"@ || kind == "file"@ {
            SourceKind::Path
        } else if kind == "registry"@ || kind == "sparse"@ {
            SourceKind::RegistryIndex
        } else {
            spec_infer_source_kind(url)
        },
        None => spec_infer_source_kind(url),
    }
}

/// Infers the kind of source from its URL.
pub fn infer_source_kind(url: &SourceUrl) -> (res: SourceKind)
    ensures
        res == spec_infer_source_kind(url@),
{
    if text_eq(url.scheme.as_str(), "file") {
        return SourceKind::Path;
    }
    if text_eq(url.scheme.as_str(), "ssh") || text_eq(url.scheme.as_str(), "git") {
        return SourceKind::Git;
    }
    if let Some(query) = &url.query {
        if is_git_reference_query(query.as_str()) {
            return SourceKind::Git;
        }
    }
    if chars_ends_with(&chars_of(url.path.as_str()), &chars_of(".git")) {
        return SourceKind::Git;
    }
    SourceKind::RegistryIndex
}

/// The kind of source, from the explicit kind or else from the URL.
pub fn resolve_source_kind(kind: Option<&str>, url: &SourceUrl) -> (res: SourceKind)
    ensures
        res == spec_resolve_source_kind(
            match kind {
                Some(k) => Some(k@),
                None => None,
            },
            url@,
        ),
{
    match kind {
        Some(kind) => {
            if text_eq(kind, "git") {
                SourceKind::Git
            } else if text_eq(kind, "path") || text_eq(kind, "file") {
                SourceKind::Path
            } else if text_eq(kind, "registry") || text_eq(kind, "sparse") {
                SourceKind::RegistryIndex
            } else {
                infer_source_kind(url)
            }
        },
        None => infer_source_kind(url),
    }
}

// ---------------------------------------------------------------------------
// The revision of a git source
// ---------------------------------------------------------------------------

/// The revision that a query pair selects, if its key is one of `branch`,
/// `tag` and `rev`.
pub open spec fn spec_git_reference_of(key: Seq<char>, value: Seq<char>) -> Option<SpecGitReference> {
    if key == "branch"@ {
        Some(SpecGitReference::Branch(value))
    } else if key == "tag"@ {
        Some(SpecGitReference::Tag(value))
    } else if key == "rev"@ {
        Some(SpecGitReference::Rev(value))
    } else {
        None
    }
}

pub open spec fn unsupported_git_key_message(key: Seq<char>, url: Seq<char>) -> Seq<char> {
    "unsupported git query key `"@ + key + "` in package reference `"@ + url + "`"@
}

pub open spec fn multiple_git_references_message(url: Seq<char>) -> Seq<char> {
    "git package references may only define one of `branch`, `tag`, or `rev`: `"@ + url + "`"@
}

pub open spec fn empty_git_query_message(url: Seq<char>) -> Seq<char> {
    "git package reference query is empty in `"@ + url + "`"@
}

/// Reads the query pairs from index `from` on, with `found` the revision
/// read before: each key must select a revision, and at most one may.
pub open spec fn git_reference_from(
    pairs: Seq<(Seq<char>, Seq<char>)>,
    from: int,
    found: Option<SpecGitReference>,
    url: Seq<char>,
) -> Result<Option<SpecGitReference>, Seq<char>>
    decreases pairs.len() - from,
{
    if from < 0 || from >= pairs.len() {
        Ok(found)
    } else {
        match spec_git_reference_of(pairs[from].0, pairs[from].1) {
            None => Err(unsupported_git_key_message(pairs[from].0, url)),
            Some(next) => if found is Some {
                Err(multiple_git_references_message(url))
            } else {
                git_reference_from(pairs, from + 1, Some(next), url)
            },
        }
    }
}

/// The revision that the query of a git URL selects: none without a query;
/// an empty query is refused.
pub open spec fn spec_parse_git_reference(url: SpecSourceUrl) -> Result<
    Option<SpecGitReference>,
    Seq<char>,
> {
    match url.query {
        None => Ok(None),
        Some(query) => match git_reference_from(url.query_pairs, 0, None, url.serialization) {
            Err(message) => Err(message),
            Ok(reference) => if query.len() == 0 {
                Err(empty_git_query_message(url.serialization))
            } else {
                Ok(reference)
            },
        },
    }
}

/// Reads the revision of a git source from its query.
pub fn parse_git_reference(url: &SourceUrl) -> (res: Result<Option<GitReference>, String>)
    ensures
        match res {
            Ok(reference) => spec_parse_git_reference(url@) == Ok::<_, Seq<char>>(
                opt_reference(reference),
            ),
            Err(message) => spec_parse_git_reference(url@) == Err::<Option<SpecGitReference>, _>(
                message@,
            ),
        },
{
    let query = match &url.query {
        Some(query) => query,
        None => return Ok(None),
    };
    let pairs = &url.query_pairs;
    let mut reference: Option<GitReference> = None;
    assert(opt_reference(reference) is None);
    let mut i: usize = 0;
    while i < pairs.len()
        invariant
            i <= pairs@.len(),
            url@.query_pairs == pairs.deep_view(),
            url@.query == Some(query@),
            git_reference_from(pairs.deep_view(), 0, None, url@.serialization)
                == git_reference_from(
                pairs.deep_view(),
                i as int,
                opt_reference(reference),
                url@.serialization,
            ),
        decreases pairs.len() - i,
    {
        let key = pairs[i].0.as_str();
        let value = pairs[i].1.as_str();
        assert(pairs.deep_view()[i as int] == (key@, value@));
        let next = if text_eq(key, "branch") {
            GitReference::Branch(value.to_owned())
        } else if text_eq(key, "tag") {
            GitReference::Tag(value.to_owned())
        } else if text_eq(key, "rev") {
            GitReference::Rev(value.to_owned())
        } else {
            return Err(
                concat5(
                    "unsupported git query key `",
                    key,
                    "` in package reference `",
                    url.serialization.as_str(),
                    "`",
                ),
            );
        };
        if reference.is_some() {
            return Err(
                concat3(
                    "git package references may only define one of `branch`, `tag`, or `rev`: `",
                    url.serialization.as_str(),
                    "`",
                ),
            );
        }
        reference = Some(next);
        i = i + 1;
    }
    if query.unicode_len() == 0 {
        return Err(
            concat3("git package reference query is empty in `", url.serialization.as_str(), "`"),
        );
    }
    Ok(reference)
}

// ---------------------------------------------------------------------------
// Whole references
// ---------------------------------------------------------------------------

pub open spec fn registry_without_package_message(value: Seq<char>) -> Seq<char> {
    "registry package references must include a package name, like `"@ + value + "#my-crate`"@
}

pub open spec fn version_without_package_message(value: Seq<char>) -> Seq<char> {
    "package references with a version must include a package name, like `"@ + value
        + "#my-crate@1.0.0`"@
}

pub open spec fn local_query_message(value: Seq<char>) -> Seq<char> {
    "local package references do not support URL query parameters: `"@ + value + "`"@
}

pub open spec fn not_local_file_message(value: Seq<char>) -> Seq<char> {
    "package source `"@ + value + "` is not a valid local file URL"@
}

pub open spec fn registry_git_query_message(value: Seq<char>) -> Seq<char> {
    "registry package references do not support git query parameters: `"@ + value + "`"@
}

pub open spec fn invalid_source_message(value: Seq<char>, error: Seq<char>) -> Seq<char> {
    "invalid package source reference `"@ + value + "`: "@ + error
}

/// The local directory of a path source.
pub open spec fn spec_parse_local_file_path(value: Seq<char>, url: SpecSourceUrl) -> Result<
    Seq<u8>,
    Seq<char>,
> {
    match url.file_path {
        Some(path) => Ok(path),
        None => Err(not_local_file_message(value)),
    }
}

/// The local directory that a `file:` URL names.
pub fn parse_local_file_path(value: &str, url: &SourceUrl) -> (res: Result<Vec<u8>, String>)
    ensures
        match res {
            Ok(path) => spec_parse_local_file_path(value@, url@) == Ok::<_, Seq<char>>(path@),
            Err(message) => spec_parse_local_file_path(value@, url@) == Err::<Seq<u8>, _>(
                message@,
            ),
        },
{
    match &url.file_path {
        Some(path) => Ok(path.clone()),
        None => Err(concat3("package source `", value, "` is not a valid local file URL")),
    }
}

/// Where a package of the given kind of source comes from.
pub open spec fn spec_package_source(
    value: Seq<char>,
    kind: Option<Seq<char>>,
    source_kind: SourceKind,
    url: SpecSourceUrl,
) -> Result<SpecPackageSource, Seq<char>> {
    match source_kind {
        SourceKind::Git => match spec_parse_git_reference(url) {
            Ok(reference) => Ok(
                SpecPackageSource::Git { url: url.serialization_without_query, reference },
            ),
            Err(message) => Err(message),
        },
        SourceKind::Path => if url.query is Some {
            Err(local_query_message(value))
        } else {
            match spec_parse_local_file_path(value, url) {
                Ok(path) => Ok(SpecPackageSource::Path { path }),
                Err(message) => Err(message),
            }
        },
        SourceKind::RegistryIndex => if url.query matches Some(query)
            && spec_is_git_reference_query(query) {
            Err(registry_git_query_message(value))
        } else {
            Ok(
                SpecPackageSource::RegistryIndex {
                    index: if kind == Some("sparse"@) {
                        "sparse+"@ + url.serialization
                    } else {
                        url.serialization
                    },
                },
            )
        },
    }
}

/// What a source-qualified reference reads as, given the kind written
/// before its URL and the parsed URL. A git or path reference whose fragment
/// is only a version takes its package name from the URL's path.
pub open spec fn spec_crate_spec_from_source_url(
    value: Seq<char>,
    kind: Option<Seq<char>>,
    url: SpecSourceUrl,
) -> Result<SpecCrateSpec, Seq<char>> {
    match spec_parse_source_fragment(url.fragment) {
        Err(message) => Err(message),
        Ok((fragment_package, version)) => {
            let source_kind = spec_resolve_source_kind(kind, url);
            let package = if fragment_package is None && version is Some && (source_kind
                == SourceKind::Git || source_kind == SourceKind::Path) {
                spec_infer_package_name(url.path_segments)
            } else {
                fragment_package
            };
            if package is None && source_kind == SourceKind::RegistryIndex {
                Err(registry_without_package_message(value))
            } else if package is None && version is Some {
                Err(version_without_package_message(value))
            } else {
                match spec_package_source(value, kind, source_kind, url) {
                    Ok(source) => Ok(SpecCrateSpec { package, version, source }),
                    Err(message) => Err(message),
                }
            }
        },
    }
}

/// Reads a source-qualified reference from its parts: `value` is the whole
/// reference, `kind` the source kind written before its URL, `url` that URL
/// parsed.
pub fn crate_spec_from_source_url(value: &str, kind: Option<&str>, url: &SourceUrl) -> (res:
    Result<CrateSpec, String>)
    ensures
        crate_spec_result(res) == spec_crate_spec_from_source_url(
            value@,
            match kind {
                Some(k) => Some(k@),
                None => None,
            },
            url@,
        ),
{
    let fragment = match &url.fragment {
        Some(fragment) => Some(fragment.as_str()),
        None => None,
    };
    let (fragment_package, version) = match parse_source_fragment(fragment) {
        Ok(parts) => parts,
        Err(message) => return Err(message),
    };
    let source_kind = resolve_source_kind(kind, url);
    let mut package = fragment_package;
    if package.is_none() && version.is_some() && (source_kind == SourceKind::Git || source_kind
        == SourceKind::Path) {
        package = infer_package_name_from_url(url);
    }
    if package.is_none() && source_kind == SourceKind::RegistryIndex {
        return Err(
            concat3(
                "registry package references must include a package name, like `",
                value,
                "#my-crate`",
            ),
        );
    }
    if package.is_none() && version.is_some() {
        return Err(
            concat3(
                "package references with a version must include a package name, like `",
                value,
                "#my-crate@1.0.0`",
            ),
        );
    }
    let source = match source_kind {
        SourceKind::Git => {
            let reference = match parse_git_reference(url) {
                Ok(reference) => reference,
                Err(message) => return Err(message),
            };
            PackageSource::Git { url: url.serialization_without_query.clone(), reference }
        },
        SourceKind::Path => {
            if url.query.is_some() {
                return Err(
                    concat3(
                        "local package references do not support URL query parameters: `",
                        value,
                        "`",
                    ),
                );
            }
            let path = match parse_local_file_path(value, url) {
                Ok(path) => path,
                Err(message) => return Err(message),
            };
            PackageSource::Path { path }
        },
        SourceKind::RegistryIndex => {
            if let Some(query) = &url.query {
                if is_git_reference_query(query.as_str()) {
                    return Err(
                        concat3(
                            "registry package references do not support git query parameters: `",
                            value,
                            "`",
                        ),
                    );
                }
            }
            let is_sparse = match kind {
                Some(kind) => text_eq(kind, "sparse"),
                None => false,
            };
            let index = if is_sparse {
                String::from_str("sparse+").concat(url.serialization.as_str())
            } else {
                url.serialization.clone()
            };
            PackageSource::RegistryIndex { index }
        },
    };
    Ok(CrateSpec { package, version, source })
}

/// What `name[@version]` reads as: a package from crates.io.
pub open spec fn spec_parse_registry_crate_spec(value: Seq<char>) -> Result<SpecCrateSpec, Seq<char>> {
    match split_once(value, '@') {
        Some((package, version)) => if package.len() == 0 {
            Err("missing crate name before '@'"@)
        } else {
            match spec_parse_semver_flag(version) {
                Ok(requirement) => Ok(
                    SpecCrateSpec {
                        package: Some(package),
                        version: Some(requirement),
                        source: SpecPackageSource::CratesIo,
                    },
                ),
                Err(message) => Err(message),
            }
        },
        None => if value.len() == 0 {
            Err("crate name is empty"@)
        } else {
            Ok(SpecCrateSpec { package: Some(value), version: None, source: SpecPackageSource::CratesIo })
        },
    }
}

/// Reads `name` or `name@version`.
pub fn parse_registry_crate_spec(value: &str) -> (res: Result<CrateSpec, String>)
    ensures
        crate_spec_result(res) == spec_parse_registry_crate_spec(value@),
{
    let (package, version) = match text_split_once(value, '@') {
        Some((package, version)) => {
            if package.unicode_len() == 0 {
                return Err(String::from_str("missing crate name before '@'"));
            }
            match parse_semver_flag(version) {
                Ok(requirement) => (package.to_owned(), Some(requirement)),
                Err(message) => return Err(message),
            }
        },
        None => (value.to_owned(), None),
    };
    if package.as_str().unicode_len() == 0 {
        return Err(String::from_str("crate name is empty"));
    }
    Ok(CrateSpec { package: Some(package), version, source: PackageSource::CratesIo })
}

/// What a source-qualified reference reads as, whatever local path the
/// platform makes of a `file:` URL.
pub open spec fn source_crate_spec_outcome(value: Seq<char>, res: Result<SpecCrateSpec, Seq<char>>) -> bool {
    match spec_split_source_kind(value) {
        Err(message) => res == Err::<SpecCrateSpec, _>(message),
        Ok((kind, source_text)) => match spec_url_parse_error(source_text) {
            Some(error) => res == Err::<SpecCrateSpec, _>(invalid_source_message(value, error)),
            None => exists|url: SpecSourceUrl|
                is_parsed_from(url, source_text) && res == spec_crate_spec_from_source_url(
                    value,
                    kind,
                    url,
                ),
        },
    }
}

/// Reads a source-qualified reference such as `git+https://...#pkg@1.0.0`.
pub fn parse_source_crate_spec(value: &str) -> (res: Result<CrateSpec, String>)
    ensures
        source_crate_spec_outcome(value@, crate_spec_result(res)),
{
    let (kind, source_text) = match split_source_kind(value) {
        Ok(parts) => parts,
        Err(message) => return Err(message),
    };
    let url = match SourceUrl::parse(source_text.as_str()) {
        Ok(url) => url,
        Err(error) => {
            let mut message = concat3("invalid package source reference `", value, "`: ");
            message.append(error.as_str());
            return Err(message);
        },
    };
    let kind_text = match &kind {
        Some(kind) => Some(kind.as_str()),
        None => None,
    };
    let res = crate_spec_from_source_url(value, kind_text, &url);
    assert(is_parsed_from(url@, source_text@));
    res
}

/// What a package reference reads as: a source-qualified one when it holds
/// `://`, else `name[@version]` from crates.io.
pub open spec fn crate_spec_outcome(value: Seq<char>, res: Result<SpecCrateSpec, Seq<char>>) -> bool {
    if find(value, "://"@) is Some {
        source_crate_spec_outcome(value, res)
    } else {
        res == spec_parse_registry_crate_spec(value)
    }
}

/// Reads a package reference.
pub fn parse_crate_spec(value: &str) -> (res: Result<CrateSpec, String>)
    ensures
        crate_spec_outcome(value@, crate_spec_result(res)),
{
    if text_find(value, "://").is_some() {
        parse_source_crate_spec(value)
    } else {
        parse_registry_crate_spec(value)
    }
}

/// A package reference that reads names its package whenever it asks for a
/// version, and whenever the package comes from crates.io or another
/// registry index.
pub proof fn lemma_reference_names_its_package(value: Seq<char>, res: Result<SpecCrateSpec, Seq<char>>)
    requires
        crate_spec_outcome(value, res),
        res is Ok,
    ensures
        res->Ok_0.version is Some ==> res->Ok_0.package is Some,
        res->Ok_0.source is CratesIo ==> res->Ok_0.package is Some,
        res->Ok_0.source is RegistryIndex ==> res->Ok_0.package is Some,
{
    if find(value, "://"@) is Some {
        if let Ok((kind, source_text)) = spec_split_source_kind(value) {
            if spec_url_parse_error(source_text) is None {
                let url = choose|url: SpecSourceUrl|
                    is_parsed_from(url, source_text) && res == spec_crate_spec_from_source_url(
                        value,
                        kind,
                        url,
                    );
                assert(res == spec_crate_spec_from_source_url(value, kind, url));
            }
        }
    }
}

/// A reference without `://` is a package on crates.io, named by what
/// stands before any `@`.
pub proof fn lemma_plain_reference_is_from_crates_io(value: Seq<char>, res: Result<SpecCrateSpec, Seq<char>>)
    requires
        crate_spec_outcome(value, res),
        find(value, "://"@) is None,
        res is Ok,
    ensures
        res->Ok_0.source is CratesIo,
        res->Ok_0.package == Some(
            match split_once(value, '@') {
                Some((package, _)) => package,
                None => value,
            },
        ),
        (res->Ok_0.version is Some) == (split_once(value, '@') is Some),
{
}

/// A local reference whose URL has no path segments (one that cannot be a
/// base, such as `path+foo:bar`) names no local directory and is refused.
pub proof fn lemma_local_reference_needs_path_segments(
    value: Seq<char>,
    kind: Option<Seq<char>>,
    input: Seq<char>,
    url: SpecSourceUrl,
)
    requires
        is_parsed_from(url, input),
        url.path_segments is None,
        url.query is None,
    ensures
        spec_package_source(value, kind, SourceKind::Path, url) == Err::<SpecPackageSource, _>(
            not_local_file_message(value),
        ),
{
}

/// A local reference whose fragment is only a version takes its package
/// name from the last segment of its path, as a git reference does: with
/// `#0.1.0`, `path+file:///home/u/src/my-tool` installs `my-tool` at
/// `=0.1.0` from that directory.
pub proof fn lemma_version_only_local_reference_names_last_segment(
    value: Seq<char>,
    kind: Option<Seq<char>>,
    url: SpecSourceUrl,
    fragment: Seq<char>,
    requirement: Seq<char>,
    segments: Seq<Seq<char>>,
    path: Seq<u8>,
)
    requires
        kind == Some("path"@) || kind == Some("file"@) || (kind is None && url.scheme == "file"@),
        url.fragment == Some(fragment),
        fragment.len() > 0,
        find(fragment, seq!['@']) is None,
        spec_parse_semver_flag(fragment) == Ok::<Seq<char>, Seq<char>>(requirement),
        url.query is None,
        url.path_segments == Some(segments),
        segments.len() > 0,
        segments.last().len() > 0,
        !ends_with(segments.last(), ".git"@),
        url.file_path == Some(path),
    ensures
        spec_crate_spec_from_source_url(value, kind, url) == Ok::<_, Seq<char>>(
            SpecCrateSpec {
                package: Some(segments.last()),
                version: Some(requirement),
                source: SpecPackageSource::Path { path },
            },
        ),
{
    reveal_strlit("git");
    reveal_strlit("path");
    reveal_strlit("file");
    reveal_strlit("registry");
    reveal_strlit("sparse");
    assert(split_once(fragment, '@') is None);
    assert(spec_parse_source_fragment(url.fragment) == Ok::<_, Seq<char>>(
        (None::<Seq<char>>, Some(requirement)),
    ));
    if kind is None {
        assert(url.scheme == "file"@);
    } else {
        assert("git"@.len() == 3 && "path"@.len() == 4 && "file"@.len() == 4);
        assert(kind->0 != "git"@);
    }
    assert(spec_resolve_source_kind(kind, url) == SourceKind::Path);
    assert(last_non_empty(segments) == Some(segments.last()));
    assert(spec_infer_package_name(url.path_segments) == Some(segments.last()));
    assert(spec_package_source(value, kind, SourceKind::Path, url) == Ok::<_, Seq<char>>(
        SpecPackageSource::Path { path },
    ));
}

/// A git reference whose fragment is only a version takes its package name
/// from the last segment of its path: `git+https://e.com/o/tool#1.2.3`
/// installs `tool` at `=1.2.3` from that repository.
pub proof fn lemma_version_only_git_reference_names_last_segment(
    value: Seq<char>,
    kind: Option<Seq<char>>,
    url: SpecSourceUrl,
    fragment: Seq<char>,
    requirement: Seq<char>,
    segments: Seq<Seq<char>>,
)
    requires
        kind == Some("git"@) || (kind is None && (url.scheme == "git"@ || url.scheme == "ssh"@)),
        url.fragment == Some(fragment),
        fragment.len() > 0,
        find(fragment, seq!['@']) is None,
        spec_parse_semver_flag(fragment) == Ok::<Seq<char>, Seq<char>>(requirement),
        url.query is None,
        url.path_segments == Some(segments),
        segments.len() > 0,
        segments.last().len() > 0,
        !ends_with(segments.last(), ".git"@),
    ensures
        spec_crate_spec_from_source_url(value, kind, url) == Ok::<_, Seq<char>>(
            SpecCrateSpec {
                package: Some(segments.last()),
                version: Some(requirement),
                source: SpecPackageSource::Git { url: url.serialization_without_query, reference: None },
            },
        ),
{
    reveal_strlit("git");
    reveal_strlit("ssh");
    reveal_strlit("path");
    reveal_strlit("file");
    reveal_strlit("registry");
    reveal_strlit("sparse");
    assert(split_once(fragment, '@') is None);
    assert(spec_parse_source_fragment(url.fragment) == Ok::<_, Seq<char>>(
        (None::<Seq<char>>, Some(requirement)),
    ));
    if kind is None {
        assert("git"@.len() == 3 && "ssh"@.len() == 3 && "file"@.len() == 4);
        assert(url.scheme != "file"@);
        assert(spec_infer_source_kind(url) == SourceKind::Git);
    }
    assert(spec_resolve_source_kind(kind, url) == SourceKind::Git);
    assert(last_non_empty(segments) == Some(segments.last()));
    assert(spec_infer_package_name(url.path_segments) == Some(segments.last()));
    assert(spec_parse_git_reference(url) == Ok::<Option<SpecGitReference>, Seq<char>>(None));
    assert(spec_package_source(value, kind, SourceKind::Git, url) == Ok::<_, Seq<char>>(
        SpecPackageSource::Git { url: url.serialization_without_query, reference: None },
    ));
}

/// A reference without a kind before its URL is a git source whenever its
/// URL's scheme is `git:` or `ssh:`, and a local one whenever it is
/// `file:`, whatever its path and query.
pub proof fn lemma_scheme_decides_source_kind(value: Seq<char>, url: SpecSourceUrl)
    requires
        spec_crate_spec_from_source_url(value, None, url) is Ok,
    ensures
        (url.scheme == "git"@ || url.scheme == "ssh"@) ==> spec_crate_spec_from_source_url(
            value,
            None,
            url,
        )->Ok_0.source is Git,
        url.scheme == "file"@ ==> spec_crate_spec_from_source_url(value, None, url)->Ok_0.source is Path,
{
    reveal_strlit("git");
    reveal_strlit("ssh");
    reveal_strlit("file");
    let source_kind = spec_resolve_source_kind(None, url);
    if url.scheme == "git"@ || url.scheme == "ssh"@ {
        assert("git"@.len() == 3 && "ssh"@.len() == 3 && "file"@.len() == 4);
        assert(url.scheme != "file"@);
        assert(source_kind == SourceKind::Git);
    }
    if url.scheme == "file"@ {
        assert(source_kind == SourceKind::Path);
    }
    if let Ok((fragment_package, version)) = spec_parse_source_fragment(url.fragment) {
        let package = if fragment_package is None && version is Some && (source_kind
            == SourceKind::Git || source_kind == SourceKind::Path) {
            spec_infer_package_name(url.path_segments)
        } else {
            fragment_package
        };
        if let Ok(source) = spec_package_source(value, None, source_kind, url) {
            assert(source_kind == SourceKind::Git ==> source is Git);
            assert(source_kind == SourceKind::Path ==> source is Path);
        }
    }
}

impl core::str::FromStr for CrateSpec {
    type Err = String;

    fn from_str(value: &str) -> (res: Result<CrateSpec, String>)
        ensures
            crate_spec_outcome(value@, crate_spec_result(res)),
    {
        parse_crate_spec(value)
    }
}

} // verus!
