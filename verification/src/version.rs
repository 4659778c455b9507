//! Semantic versions in file names, and the rule that tells where one
//! session of work ends and the next begins.

use vstd::prelude::*;

verus! {

/// The pattern that finds a semantic version inside a file name:
/// `MAJOR.MINOR.PATCH`, then an optional `-prerelease` and an optional
/// `+buildmetadata`, the three numbers without leading zeros.
pub const SEMVER_PATTERN: &'static str =
    r"(?P<major>0|[1-9]\d*)\.(?P<minor>0|[1-9]\d*)\.(?P<patch>0|[1-9]\d*)(?:-(?P<prerelease>(?:0|[1-9]\d*|\d*[a-zA-Z-][0-9a-zA-Z-]*)(?:\.(?:0|[1-9]\d*|\d*[a-zA-Z-][0-9a-zA-Z-]*))*))?(?:\+(?P<buildmetadata>[0-9a-zA-Z-]+(?:\.[0-9a-zA-Z-]+)*))?";

/// A semantic version, as plain values.
#[derive(Clone, Debug, PartialEq, Eq)]
pub struct Version {
    pub major: u64,
    pub minor: u64,
    pub patch: u64,
    /// The pre-release identifiers, dots included; empty for a release.
    pub pre: String,
    /// The build metadata, dots included; empty where there is none.
    pub build: String,
}

/// What `semver::Version::parse` makes of `text`: the three numbers, the
/// pre-release text and the build metadata, or `None` where it rejects
/// `text`.
pub uninterp spec fn semver_parse(text: Seq<char>) -> Option<(u64, u64, u64, Seq<char>, Seq<char>)>;

/// The text of the first match that `regex::Regex::find` reports for
/// `pattern` in `haystack`; `None` where there is no match, and where
/// `regex::Regex::new` does not accept `pattern`.
pub uninterp spec fn regex_search(pattern: Seq<char>, haystack: Seq<char>) -> Option<Seq<char>>;

/// The content of an optional version.
pub open spec fn version_parts(version: Option<Version>) -> Option<(u64, u64, u64, Seq<char>, Seq<char>)> {
    match version {
        Some(v) => Some(v.parts()),
        None => None,
    }
}

/// The version that a file name carries: the first stretch of the name that
/// matches `SEMVER_PATTERN`, read as a semantic version.
pub open spec fn version_in_name(name: Seq<char>) -> Option<(u64, u64, u64, Seq<char>, Seq<char>)> {
    match regex_search(SEMVER_PATTERN@, name) {
        Some(text) => semver_parse(text),
        None => None,
    }
}

/// Whether a session of work ends between a file of version `current` and
/// the file that follows it, of version `next`.
///
/// Between two versioned files a session ends where the minor or the major
/// number grows; a patch bump stays within the session. Where exactly one of
/// the two is versioned, a session ends unless `require_versions` is set.
pub open spec fn session_boundary(
    current: Option<Version>,
    next: Option<Version>,
    require_versions: bool,
) -> bool {
    match (current, next) {
        (Some(c), Some(n)) => n.minor > c.minor || n.major > c.major,
        (Some(_), None) => !require_versions,
        (None, Some(_)) => !require_versions,
        (None, None) => false,
    }
}

/// Hands `text` to `semver::Version::parse` and copies the fields of the
/// version it returns. Trusted: the result is what `semver_parse` names.
#[verifier::external_body]
fn semver_version_parse(text: &str) -> (version: Option<Version>)
    ensures
        version_parts(version) == semver_parse(text@),
{
    match semver::Version::parse(text) {
        Ok(v) => Some(
            Version {
                major: v.major,
                minor: v.minor,
                patch: v.patch,
                pre: v.pre.as_str().to_string(),
                build: v.build.as_str().to_string(),
            },
        ),
        Err(_) => None,
    }
}

/// Compiles `pattern` with `regex::Regex::new` and searches `haystack` with
/// `regex::Regex::find`. Trusted: the result is the matched text that
/// `regex_search` names.
#[verifier::external_body]
fn regex_find(pattern: &str, haystack: &str) -> (found: Option<String>)
    ensures
        match found {
            Some(text) => regex_search(pattern@, haystack@) == Some(text@),
            None => regex_search(pattern@, haystack@) is None,
        },
{
    match regex::Regex::new(pattern) {
        Ok(re) => match re.find(haystack) {
            Some(m) => Some(m.as_str().to_string()),
            None => None,
        },
        Err(_) => None,
    }
}

impl Version {
    /// The content of the version.
    pub open spec fn parts(&self) -> (u64, u64, u64, Seq<char>, Seq<char>) {
        (self.major, self.minor, self.patch, self.pre@, self.build@)
    }

    /// The release `major.minor.patch`.
    pub fn new(major: u64, minor: u64, patch: u64) -> (v: Version)
        ensures
            v.parts() == (major, minor, patch, Seq::<char>::empty(), Seq::<char>::empty()),
    {
        Version { major, minor, patch, pre: String::new(), build: String::new() }
    }

    /// Reads `text` as a semantic version; `None` where it is none.
    pub fn parse(text: &str) -> (v: Option<Version>)
        ensures
            version_parts(v) == semver_parse(text@),
    {
        semver_version_parse(text)
    }
}

/// The version that the file name `name` carries, if any.
pub fn extract_version(name: &str) -> (v: Option<Version>)
    ensures
        version_parts(v) == version_in_name(name@),
{
    match regex_find(SEMVER_PATTERN, name) {
        Some(text) => Version::parse(text.as_str()),
        None => None,
    }
}

/// Tells whether a session of work ends between two files that follow each
/// other, by their versions.
pub fn is_session_boundary(
    current_version: &Option<Version>,
    next_version: &Option<Version>,
    require_versions: bool,
) -> (boundary: bool)
    ensures
        boundary == session_boundary(*current_version, *next_version, require_versions),
{
    match (current_version, next_version) {
        (Some(c), Some(n)) => n.minor > c.minor || n.major > c.major,
        (Some(_), None) => !require_versions,
        (None, Some(_)) => !require_versions,
        (None, None) => false,
    }
}

/// Where both files must be versioned, a session ends only between two
/// versioned files, and it then ends there also where they need not be.
pub proof fn lemma_required_boundary(current: Option<Version>, next: Option<Version>)
    ensures
        session_boundary(current, next, true) ==> current is Some && next is Some,
        session_boundary(current, next, true) ==> session_boundary(current, next, false),
        current is Some && next is Some ==> session_boundary(current, next, true)
            == session_boundary(current, next, false),
        current is None && next is None ==> !session_boundary(current, next, false),
{
}

} // verus!
