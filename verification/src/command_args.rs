//! The version argument of the command line, checked as a semantic version.

use vstd::prelude::*;
use crate::model::ArchSpec;
use crate::text::{lowercase, to_lowercase};

verus! {

/// A semantic version: `major.minor.patch`, with its pre-release and build
/// parts (empty where absent).
#[derive(Clone, Debug)]
pub struct SemVer {
    pub major: u64,
    pub minor: u64,
    pub patch: u64,
    pub pre: String,
    pub build: String,
}

/// The parts of a semantic version as plain values.
pub open spec fn semver_parts(v: SemVer) -> (u64, u64, u64, Seq<char>, Seq<char>) {
    (v.major, v.minor, v.patch, v.pre@, v.build@)
}

/// What `semver::Version::parse` gives for a text: the parts of the version,
/// or `None` where the text is no semantic version.
pub uninterp spec fn semver_parse(s: Seq<char>) -> Option<(u64, u64, u64, Seq<char>, Seq<char>)>;

/// `semver::Version::parse`. Trusted: the parts of the version it returns (its
/// pre-release and build identifiers as text), or `None` where it returns an
/// error, are `semver_parse` of the text; what texts it accepts is not stated.
#[verifier::external_body]
pub(crate) fn parse_semver(s: &str) -> (r: Option<SemVer>)
    ensures
        match r {
            Some(v) => semver_parse(s@) == Some(semver_parts(v)),
            None => semver_parse(s@) is None,
        },
{
    match semver::Version::parse(s) {
        Ok(v) => Some(
            SemVer {
                major: v.major,
                minor: v.minor,
                patch: v.patch,
                pre: v.pre.as_str().to_string(),
                build: v.build.as_str().to_string(),
            },
        ),
        Err(_) => None,
    }
}

/// The version named on the command line.
#[derive(Clone, Debug)]
pub enum VersionSpec {
    /// Latest LTS version
    Lts,
    /// Latest version
    Latest,
    /// Newest installed version (`nvm use newest`)
    Newest,
    /// The version in use, switched to another architecture (`nvm use 32`,
    /// `nvm use 64`)
    Arch(ArchSpec),
    /// Exact semantic version, such as 1.1.0.
    Exact(SemVer),
}

/// The message that refuses the argument `s`.
pub open spec fn invalid_message(s: Seq<char>) -> Seq<char> {
    "'"@ + s + "' invalid. Possible values: <semver>(eg: 1.1.0), lts, latest."@
}

/// The message that refuses the argument `s`.
pub fn refusal(s: &str) -> (r: String)
    ensures
        r@ == invalid_message(s@),
{
    let mut message = String::from_str("'");
    message.append(s);
    message.append("' invalid. Possible values: <semver>(eg: 1.1.0), lts, latest.");
    message
}

/// `r` is what an argument `s` that is not a keyword gives where the parse of
/// its lower-case form gave `parsed`: the version, or the message that
/// refuses `s`.
pub open spec fn from_parsed_result(
    s: Seq<char>,
    parsed: Option<(u64, u64, u64, Seq<char>, Seq<char>)>,
    r: Result<VersionSpec, String>,
) -> bool {
    match parsed {
        Some(parts) => r matches Ok(VersionSpec::Exact(v)) && semver_parts(v) == parts,
        None => r matches Err(e) && e@ == invalid_message(s),
    }
}

/// `r` is what the argument `s`, of lower-case form `lower`, names: `lts`,
/// `latest`, `newest`, an architecture `32` or `64`, or a semantic version;
/// any other text is refused.
pub open spec fn names_version(s: Seq<char>, lower: Seq<char>, r: Result<VersionSpec, String>) -> bool {
    if lower == "lts"@ {
        r matches Ok(VersionSpec::Lts)
    } else if lower == "latest"@ {
        r matches Ok(VersionSpec::Latest)
    } else if lower == "newest"@ {
        r matches Ok(VersionSpec::Newest)
    } else if lower == "32"@ {
        r matches Ok(VersionSpec::Arch(ArchSpec::X86))
    } else if lower == "64"@ {
        r matches Ok(VersionSpec::Arch(ArchSpec::X64))
    } else {
        from_parsed_result(s, semver_parse(lower), r)
    }
}

impl VersionSpec {
    /// The exact version where the argument `s` parsed as `parsed`, else the
    /// message that refuses `s`.
    pub fn from_parsed(s: &str, parsed: Option<SemVer>) -> (r: Result<VersionSpec, String>)
        ensures
            from_parsed_result(
                s@,
                match parsed {
                    Some(v) => Some(semver_parts(v)),
                    None => None,
                },
                r,
            ),
    {
        match parsed {
            Some(v) => Ok(VersionSpec::Exact(v)),
            None => Err(refusal(s)),
        }
    }

    /// What the argument `s` names, given its lower-case form `lower`.
    pub fn from_lowercase(s: &str, lower: &str) -> (r: Result<VersionSpec, String>)
        ensures
            names_version(s@, lower@, r),
    {
        let l = String::from_str(lower);
        if l == String::from_str("lts") {
            Ok(VersionSpec::Lts)
        } else if l == String::from_str("latest") {
            Ok(VersionSpec::Latest)
        } else if l == String::from_str("newest") {
            Ok(VersionSpec::Newest)
        } else if l == String::from_str("32") {
            Ok(VersionSpec::Arch(ArchSpec::X86))
        } else if l == String::from_str("64") {
            Ok(VersionSpec::Arch(ArchSpec::X64))
        } else {
            let parsed = parse_semver(lower);
            VersionSpec::from_parsed(s, parsed)
        }
    }

    /// What a command-line argument names, in any case: `lts`, `latest`,
    /// `newest`, an architecture (`32` or `64`) or a semantic version; any
    /// other text is refused with a message.
    pub fn parse(s: &str) -> (r: Result<VersionSpec, String>)
        ensures
            names_version(s@, lowercase(s@), r),
    {
        let lower = to_lowercase(s);
        VersionSpec::from_lowercase(s, lower.as_str())
    }
}

impl std::str::FromStr for VersionSpec {
    type Err = String;

    fn from_str(s: &str) -> (r: Result<Self, Self::Err>)
        ensures
            names_version(s@, lowercase(s@), r),
    {
        VersionSpec::parse(s)
    }
}

} // verus!
