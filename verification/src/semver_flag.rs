//! The version part of a package reference (`name@<version>`), checked and
//! turned into a SemVer requirement with the `semver` crate.
//!
//! A requirement is carried as its canonical text, the `Display` form of
//! `semver::VersionReq` (for `14.1.1` that is `=14.1.1`).

use vstd::prelude::*;

use crate::text::{chars_find_char, chars_of, find, trim, trim_white_space};

verus! {

/// The text view of a result whose both sides are text.
pub open spec fn text_result(r: Result<String, String>) -> Result<Seq<char>, Seq<char>> {
    match r {
        Ok(t) => Ok(t@),
        Err(e) => Err(e@),
    }
}

/// What `semver::VersionReq::parse` makes of `text`: the requirement's
/// `Display` text, or the `Display` text of the parse error.
pub uninterp spec fn spec_version_req_parse(text: Seq<char>) -> Result<Seq<char>, Seq<char>>;

/// What `text.parse::<semver::Version>()` makes of `text`: the version's
/// `Display` text, or the `Display` text of the parse error.
pub uninterp spec fn spec_version_parse(text: Seq<char>) -> Result<Seq<char>, Seq<char>>;

/// Calls `semver::VersionReq::parse`. Trusted: the result is the one that the
/// name `spec_version_req_parse` stands for on this text; nothing more is
/// claimed of the semver grammar.
#[verifier::external_body]
fn version_req_parse(text: &str) -> (res: Result<String, String>)
    ensures
        text_result(res) == spec_version_req_parse(text@),
{
    match semver::VersionReq::parse(text) {
        Ok(requirement) => Ok(requirement.to_string()),
        Err(error) => Err(error.to_string()),
    }
}

/// Calls `<semver::Version as FromStr>::from_str`. Trusted: the result is
/// the one that the name `spec_version_parse` stands for on this text.
#[verifier::external_body]
fn version_parse(text: &str) -> (res: Result<String, String>)
    ensures
        text_result(res) == spec_version_parse(text@),
{
    match text.parse::<semver::Version>() {
        Ok(version) => Ok(version.to_string()),
        Err(error) => Err(error.to_string()),
    }
}

/// The characters that make a version flag a requirement when they lead it.
pub open spec fn is_requirement_operator(c: char) -> bool {
    c == '<' || c == '>' || c == '=' || c == '^' || c == '~'
}

/// How a version flag is read before any parsing.
#[derive(Debug, Clone, Copy, PartialEq, Eq, Structural)]
pub enum VersionFlagKind {
    /// Nothing was given.
    Missing,
    /// It starts with `v`, which SemVer does not allow.
    LeadingV,
    /// It carries an operator or a wildcard: a requirement.
    Requirement,
    /// Anything else: a single version, meant exactly.
    Exact,
}

pub open spec fn spec_version_flag_kind(value: Seq<char>) -> VersionFlagKind {
    if value.len() == 0 {
        VersionFlagKind::Missing
    } else if value[0] == 'v' {
        VersionFlagKind::LeadingV
    } else if is_requirement_operator(value[0]) || find(value, seq!['*']) is Some {
        VersionFlagKind::Requirement
    } else {
        VersionFlagKind::Exact
    }
}

/// Which way a version flag is to be read.
pub fn version_flag_kind(value: &str) -> (res: VersionFlagKind)
    ensures
        res == spec_version_flag_kind(value@),
{
    let chars = chars_of(value);
    if chars.len() == 0 {
        return VersionFlagKind::Missing;
    }
    let first = chars[0];
    if first == 'v' {
        return VersionFlagKind::LeadingV;
    }
    let is_operator = first == '<' || first == '>' || first == '=' || first == '^' || first == '~';
    if is_operator || chars_find_char(&chars, '*').is_some() {
        VersionFlagKind::Requirement
    } else {
        VersionFlagKind::Exact
    }
}

pub open spec fn missing_version_message() -> Seq<char> {
    "no version provided for the package spec"@
}

pub open spec fn leading_v_message(value: Seq<char>) -> Seq<char> {
    "the version provided, `"@ + value
        + "` is not a valid SemVer requirement\n\nhelp: try changing the version to `"@
        + value.skip(1) + "`"@
}

pub open spec fn invalid_requirement_message(value: Seq<char>) -> Seq<char> {
    "the version `"@ + value + "` is not a valid semver requirement"@
}

pub open spec fn range_tip(value: Seq<char>) -> Seq<char> {
    "\n\n  tip: if you want to specify SemVer range, add an explicit qualifier, like '^"@ + value
        + "'"@
}

/// What a version flag becomes: the canonical text of the requirement, or
/// the message that explains why it is refused.
pub open spec fn spec_parse_semver_flag(value: Seq<char>) -> Result<Seq<char>, Seq<char>> {
    match spec_version_flag_kind(value) {
        VersionFlagKind::Missing => Err(missing_version_message()),
        VersionFlagKind::LeadingV => Err(leading_v_message(value)),
        VersionFlagKind::Requirement => match spec_version_req_parse(value) {
            Ok(requirement) => Ok(requirement),
            Err(_) => Err(invalid_requirement_message(value)),
        },
        VersionFlagKind::Exact => match spec_version_parse(trim(value)) {
            Ok(version) => spec_version_req_parse("="@ + version),
            Err(error) => Err(
                if spec_version_req_parse(value) is Ok {
                    error + range_tip(value)
                } else {
                    error
                },
            ),
        },
    }
}

/// A version that starts with `<`, `>`, `=`, `^` or `~`, or that holds a
/// `*` without starting with `v`, is a requirement: it reads as
/// `semver::VersionReq::parse` reads it (`~14.1` as `~14.1`), and is
/// refused with this library's message when that fails.
pub proof fn lemma_operator_version_is_requirement(value: Seq<char>)
    requires
        value.len() > 0,
        value[0] == '<' || value[0] == '>' || value[0] == '=' || value[0] == '^' || value[0] == '~'
            || (value[0] != 'v' && value.contains('*')),
    ensures
        spec_parse_semver_flag(value) == match spec_version_req_parse(value) {
            Ok(requirement) => Ok::<Seq<char>, Seq<char>>(requirement),
            Err(_) => Err("the version `"@ + value + "` is not a valid semver requirement"@),
        },
{
    if value.contains('*') && !is_requirement_operator(value[0]) {
        let i = choose|i: int| 0 <= i < value.len() && value[i] == '*';
        crate::text::lemma_find_from(value, seq!['*'], 0);
        assert(value.subrange(i, i + 1) =~= seq!['*']);
        assert(crate::text::occurs_at(value, seq!['*'], i));
        assert(find(value, seq!['*']) is Some);
    }
}

/// A version without an operator, a `*` or a leading `v` means exactly that
/// version: `14.1.1` reads as the requirement `=14.1.1` does.
pub proof fn lemma_bare_version_is_exact(value: Seq<char>)
    requires
        value.len() > 0,
        value[0] != 'v' && value[0] != '<' && value[0] != '>' && value[0] != '=' && value[0] != '^'
            && value[0] != '~',
        !value.contains('*'),
        spec_version_parse(trim(value)) is Ok,
    ensures
        spec_parse_semver_flag(value) == spec_version_req_parse("="@ + spec_version_parse(trim(value))->Ok_0),
{
    crate::text::lemma_find_from(value, seq!['*'], 0);
    if find(value, seq!['*']) is Some {
        let i = find(value, seq!['*'])->0;
        assert(value.subrange(i, i + 1)[0] == value[i]);
        assert(value.contains('*'));
    }
}

/// What a requirement flag becomes once `semver` has read it: the
/// requirement, or a message of this library's own in place of the error.
pub fn requirement_flag(value: &str, parsed: Result<String, String>) -> (res: Result<String, String>)
    ensures
        text_result(res) == match text_result(parsed) {
            Ok(requirement) => Ok(requirement),
            Err(_) => Err(invalid_requirement_message(value@)),
        },
{
    match parsed {
        Ok(requirement) => Ok(requirement),
        Err(_) => {
            let mut message = String::from_str("the version `");
            message.append(value);
            message.append("` is not a valid semver requirement");
            assert(message@ =~= invalid_requirement_message(value@));
            Err(message)
        },
    }
}

/// The message for a bare version that `semver` refused: its error, with a
/// tip to add an operator when the flag reads as a range.
pub fn refused_version_message(value: &str, error: String, reads_as_range: bool) -> (res: String)
    ensures
        res@ == if reads_as_range {
            error@ + range_tip(value@)
        } else {
            error@
        },
{
    let ghost error_text = error@;
    let mut message = error;
    if reads_as_range {
        message.append(
            "\n\n  tip: if you want to specify SemVer range, add an explicit qualifier, like '^",
        );
        message.append(value);
        message.append("'");
        assert(message@ =~= error_text + range_tip(value@));
    }
    message
}

/// Reads the version of a package reference. A bare version `1.2.3` means
/// exactly that version (`=1.2.3`); a flag that starts with an operator or
/// holds `*` is read as a requirement.
pub fn parse_semver_flag(value: &str) -> (res: Result<String, String>)
    ensures
        text_result(res) == spec_parse_semver_flag(value@),
{
    match version_flag_kind(value) {
        VersionFlagKind::Missing => Err(String::from_str("no version provided for the package spec")),
        VersionFlagKind::LeadingV => {
            let stripped = value.substring_char(1, value.unicode_len());
            let mut message = String::from_str("the version provided, `");
            message.append(value);
            message.append(
                "` is not a valid SemVer requirement\n\nhelp: try changing the version to `",
            );
            message.append(stripped);
            message.append("`");
            assert(message@ =~= leading_v_message(value@));
            Err(message)
        },
        VersionFlagKind::Requirement => requirement_flag(value, version_req_parse(value)),
        VersionFlagKind::Exact => match version_parse(trim_white_space(value)) {
            Ok(version) => {
                let exact = String::from_str("=").concat(version.as_str());
                version_req_parse(exact.as_str())
            },
            Err(error) => {
                let reads_as_range = version_req_parse(value).is_ok();
                Err(refused_version_message(value, error, reads_as_range))
            },
        },
    }
}

} // verus!
