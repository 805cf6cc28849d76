//! The URL of a package source, as the `url` crate parses it.
//!
//! The logic that reads a package reference needs a few parts of the parsed
//! URL; `SourceUrl` holds them as plain values. Each part comes from one call
//! into the `url` crate on the same input text.

use vstd::prelude::*;

use crate::os_text::opt_text;

verus! {

/// The `Display` text of the `url::ParseError` that `url::Url::parse` gives
/// for `input`, or `None` when it parses.
pub uninterp spec fn spec_url_parse_error(input: Seq<char>) -> Option<Seq<char>>;

/// `Url::fragment` of the URL parsed from `input`.
pub uninterp spec fn spec_url_fragment(input: Seq<char>) -> Option<Seq<char>>;

/// `Url::scheme` of the URL parsed from `input`, once `Url::set_fragment(None)`
/// has removed its fragment.
pub uninterp spec fn spec_url_scheme(input: Seq<char>) -> Seq<char>;

/// `Url::path` of the URL parsed from `input`, once `Url::set_fragment(None)`
/// has removed its fragment.
pub uninterp spec fn spec_url_path(input: Seq<char>) -> Seq<char>;

/// `Url::query` of the URL parsed from `input`, once `Url::set_fragment(None)`
/// has removed its fragment.
pub uninterp spec fn spec_url_query(input: Seq<char>) -> Option<Seq<char>>;

/// `Url::path_segments` of the URL parsed from `input`, once
/// `Url::set_fragment(None)` has removed its fragment, each segment as text.
pub uninterp spec fn spec_url_path_segments(input: Seq<char>) -> Option<Seq<Seq<char>>>;

/// `Url::query_pairs` of the URL parsed from `input`, once
/// `Url::set_fragment(None)` has removed its fragment: the decoded key and
/// value of each pair, in order.
pub uninterp spec fn spec_url_query_pairs(input: Seq<char>) -> Seq<(Seq<char>, Seq<char>)>;

/// `Url::as_str` of the URL parsed from `input`, once `Url::set_fragment`
/// has removed its fragment.
pub uninterp spec fn spec_url_serialization(input: Seq<char>) -> Seq<char>;

/// `Url::as_str` of the URL parsed from `input`, once its fragment and then
/// its query have been removed with `Url::set_fragment` and `Url::set_query`.
pub uninterp spec fn spec_url_serialization_without_query(input: Seq<char>) -> Seq<char>;

/// Calls `url::Url::parse`. Trusted: `None` exactly when it parses, else
/// the error's `Display` text, both as `spec_url_parse_error` names them.
#[verifier::external_body]
fn url_parse_error(input: &str) -> (res: Option<String>)
    ensures
        opt_text(res) == spec_url_parse_error(input@),
{
    match url::Url::parse(input) {
        Ok(_) => None,
        Err(error) => Some(error.to_string()),
    }
}

/// Calls `url::Url::parse` and `Url::fragment`. Trusted: the result is the
/// one `spec_url_fragment` names.
#[verifier::external_body]
fn url_fragment(input: &str) -> (res: Option<String>)
    requires
        spec_url_parse_error(input@) is None,
    ensures
        opt_text(res) == spec_url_fragment(input@),
{
    let url = url::Url::parse(input).expect("the URL parsed before");
    url.fragment().map(str::to_owned)
}

/// Calls `url::Url::parse`, `Url::set_fragment(None)` and `Url::scheme`. Trusted: the result is the one
/// `spec_url_scheme` names.
#[verifier::external_body]
fn url_scheme(input: &str) -> (res: String)
    requires
        spec_url_parse_error(input@) is None,
    ensures
        res@ == spec_url_scheme(input@),
{
    let mut url = url::Url::parse(input).expect("the URL parsed before");
    url.set_fragment(None);
    url.scheme().to_owned()
}

/// Calls `url::Url::parse`, `Url::set_fragment(None)` and `Url::path`. Trusted: the result is the one
/// `spec_url_path` names.
#[verifier::external_body]
fn url_path(input: &str) -> (res: String)
    requires
        spec_url_parse_error(input@) is None,
    ensures
        res@ == spec_url_path(input@),
{
    let mut url = url::Url::parse(input).expect("the URL parsed before");
    url.set_fragment(None);
    url.path().to_owned()
}

/// Calls `url::Url::parse`, `Url::set_fragment(None)` and `Url::query`. Trusted: the result is the one
/// `spec_url_query` names.
#[verifier::external_body]
fn url_query(input: &str) -> (res: Option<String>)
    requires
        spec_url_parse_error(input@) is None,
    ensures
        opt_text(res) == spec_url_query(input@),
{
    let mut url = url::Url::parse(input).expect("the URL parsed before");
    url.set_fragment(None);
    url.query().map(str::to_owned)
}

/// Calls `url::Url::parse`, `Url::set_fragment(None)` and
/// `Url::path_segments`. Trusted: the result is
/// the one `spec_url_path_segments` names.
#[verifier::external_body]
fn url_path_segments(input: &str) -> (res: Option<Vec<String>>)
    requires
        spec_url_parse_error(input@) is None,
    ensures
        match res {
            Some(segments) => spec_url_path_segments(input@) == Some(segments.deep_view()),
            None => spec_url_path_segments(input@) is None,
        },
{
    let mut url = url::Url::parse(input).expect("the URL parsed before");
    url.set_fragment(None);
    url.path_segments().map(|segments| segments.map(str::to_owned).collect())
}

/// Calls `url::Url::parse`, `Url::set_fragment(None)` and
/// `Url::query_pairs`. Trusted: the result is
/// the one `spec_url_query_pairs` names.
#[verifier::external_body]
fn url_query_pairs(input: &str) -> (res: Vec<(String, String)>)
    requires
        spec_url_parse_error(input@) is None,
    ensures
        res.deep_view() == spec_url_query_pairs(input@),
{
    let mut url = url::Url::parse(input).expect("the URL parsed before");
    url.set_fragment(None);
    url.query_pairs().map(|(key, value)| (key.into_owned(), value.into_owned())).collect()
}

/// Calls `url::Url::parse`, `Url::set_fragment(None)` and `Url::as_str`.
/// Trusted: the result is the one `spec_url_serialization` names.
#[verifier::external_body]
fn url_serialization(input: &str) -> (res: String)
    requires
        spec_url_parse_error(input@) is None,
    ensures
        res@ == spec_url_serialization(input@),
{
    let mut url = url::Url::parse(input).expect("the URL parsed before");
    url.set_fragment(None);
    url.as_str().to_owned()
}

/// Calls `url::Url::parse`, `Url::set_fragment(None)`, `Url::set_query(None)`
/// and `Url::as_str`. Trusted: the result is the one
/// `spec_url_serialization_without_query` names.
#[verifier::external_body]
fn url_serialization_without_query(input: &str) -> (res: String)
    requires
        spec_url_parse_error(input@) is None,
    ensures
        res@ == spec_url_serialization_without_query(input@),
{
    let mut url = url::Url::parse(input).expect("the URL parsed before");
    url.set_fragment(None);
    url.set_query(None);
    url.as_str().to_owned()
}

/// Calls `url::Url::parse`, `Url::set_fragment(None)` and `Url::to_file_path`,
/// and gives the path's platform-encoded bytes. Trusted: a URL without path
/// segments has no local path, as `to_file_path` checks first on every
/// platform. What path it makes otherwise is not claimed: that depends on
/// the platform it runs on.
#[verifier::external_body]
fn url_file_path(input: &str) -> (res: Option<Vec<u8>>)
    requires
        spec_url_parse_error(input@) is None,
    ensures
        spec_url_path_segments(input@) is None ==> res is None,
{
    let mut url = url::Url::parse(input).expect("the URL parsed before");
    url.set_fragment(None);
    url.to_file_path().ok().map(|path| path.into_os_string().into_encoded_bytes())
}

/// The parts of a parsed URL that reading a package source needs.
pub struct SourceUrl {
    /// The URL without its fragment.
    pub serialization: String,
    /// The URL without its fragment and its query.
    pub serialization_without_query: String,
    pub fragment: Option<String>,
    pub scheme: String,
    pub path: String,
    pub query: Option<String>,
    /// `None` for a URL that cannot be a base.
    pub path_segments: Option<Vec<String>>,
    /// The decoded key-value pairs of the query.
    pub query_pairs: Vec<(String, String)>,
    /// The local path of a `file:` URL, as platform-encoded bytes, when it
    /// has one.
    pub file_path: Option<Vec<u8>>,
}

/// `SourceUrl` as plain values.
pub struct SpecSourceUrl {
    pub serialization: Seq<char>,
    pub serialization_without_query: Seq<char>,
    pub fragment: Option<Seq<char>>,
    pub scheme: Seq<char>,
    pub path: Seq<char>,
    pub query: Option<Seq<char>>,
    pub path_segments: Option<Seq<Seq<char>>>,
    pub query_pairs: Seq<(Seq<char>, Seq<char>)>,
    pub file_path: Option<Seq<u8>>,
}

impl View for SourceUrl {
    type V = SpecSourceUrl;

    open spec fn view(&self) -> SpecSourceUrl {
        SpecSourceUrl {
            serialization: self.serialization@,
            serialization_without_query: self.serialization_without_query@,
            fragment: opt_text(self.fragment),
            scheme: self.scheme@,
            path: self.path@,
            query: opt_text(self.query),
            path_segments: match self.path_segments {
                Some(segments) => Some(segments.deep_view()),
                None => None,
            },
            query_pairs: self.query_pairs.deep_view(),
            file_path: match self.file_path {
                Some(path) => Some(path@),
                None => None,
            },
        }
    }
}

/// Whether `url` holds the parts that the `url` crate gives for `input`;
/// of the local file path only that a URL without path segments has none,
/// since the path depends on the platform.
pub open spec fn is_parsed_from(url: SpecSourceUrl, input: Seq<char>) -> bool {
    &&& url.serialization == spec_url_serialization(input)
    &&& url.serialization_without_query == spec_url_serialization_without_query(input)
    &&& url.fragment == spec_url_fragment(input)
    &&& url.scheme == spec_url_scheme(input)
    &&& url.path == spec_url_path(input)
    &&& url.query == spec_url_query(input)
    &&& url.path_segments == spec_url_path_segments(input)
    &&& url.query_pairs == spec_url_query_pairs(input)
    &&& url.path_segments is None ==> url.file_path is None
}

impl SourceUrl {
    /// Parses `input` as a URL and takes the parts of it that are needed,
    /// or gives the text of the parse error.
    pub fn parse(input: &str) -> (res: Result<SourceUrl, String>)
        ensures
            match res {
                Ok(url) => spec_url_parse_error(input@) is None && is_parsed_from(url@, input@),
                Err(error) => spec_url_parse_error(input@) == Some(error@),
            },
    {
        if let Some(error) = url_parse_error(input) {
            return Err(error);
        }
        let url = SourceUrl {
            serialization: url_serialization(input),
            serialization_without_query: url_serialization_without_query(input),
            fragment: url_fragment(input),
            scheme: url_scheme(input),
            path: url_path(input),
            query: url_query(input),
            path_segments: url_path_segments(input),
            query_pairs: url_query_pairs(input),
            file_path: url_file_path(input),
        };
        Ok(url)
    }
}

} // verus!
