//! ADR (Architecture Decision Record) lifecycle types.
use vstd::prelude::*;

use crate::text::{
    all_ascii, ascii_lowercase, chars_eq, chars_to_string, extend_str, lowercase, str_chars, str_to_lowercase,
};

verus! {

/// Represents the lifecycle status of an ADR.
#[derive(Debug, Clone, Copy, PartialEq, Eq, Hash, Structural)]
pub enum AdrStatus {
    /// Decision is under consideration, not yet finalized.
    Proposed,
    /// Decision has been approved and is in effect.
    Accepted,
    /// Decision is no longer recommended but not replaced.
    Deprecated,
    /// Decision has been replaced by a newer ADR.
    Superseded,
}

/// The display name of a status.
pub open spec fn status_display(s: AdrStatus) -> Seq<char> {
    match s {
        AdrStatus::Proposed => "Proposed"@,
        AdrStatus::Accepted => "Accepted"@,
        AdrStatus::Deprecated => "Deprecated"@,
        AdrStatus::Superseded => "Superseded"@,
    }
}

/// The YAML value of a status.
pub open spec fn status_id(s: AdrStatus) -> Seq<char> {
    match s {
        AdrStatus::Proposed => "proposed"@,
        AdrStatus::Accepted => "accepted"@,
        AdrStatus::Deprecated => "deprecated"@,
        AdrStatus::Superseded => "superseded"@,
    }
}

/// The status whose YAML value is exactly `s`, if any.
pub open spec fn status_from_id(s: Seq<char>) -> Option<AdrStatus> {
    if s == "proposed"@ {
        Some(AdrStatus::Proposed)
    } else if s == "accepted"@ {
        Some(AdrStatus::Accepted)
    } else if s == "deprecated"@ {
        Some(AdrStatus::Deprecated)
    } else if s == "superseded"@ {
        Some(AdrStatus::Superseded)
    } else {
        None
    }
}

/// The message given for a status that cannot be parsed.
pub open spec fn invalid_status_message(s: Seq<char>) -> Seq<char> {
    "Invalid ADR status '"@ + s
        + "'. Expected one of: proposed, accepted, deprecated, superseded"@
}

/// What parsing a status from `s` gives: its lowercase form matched
/// against the four YAML values.
pub open spec fn parse_status(s: Seq<char>) -> Result<AdrStatus, Seq<char>> {
    match status_from_id(lowercase(s)) {
        Some(st) => Ok(st),
        None => Err(invalid_status_message(s)),
    }
}

/// Text of lower-case ASCII letters is ASCII and is its own lower case.
proof fn lemma_lowercase_letters(x: Seq<char>)
    requires
        forall|i: int| 0 <= i < x.len() ==> 'a' <= #[trigger] x[i] && x[i] <= 'z',
    ensures
        all_ascii(x),
        ascii_lowercase(x) == x,
{
    assert(ascii_lowercase(x) =~= x);
}

/// Each status id is lower-case ASCII letters, and the ids differ.
proof fn lemma_status_ids(s: AdrStatus)
    ensures
        all_ascii(status_id(s)),
        ascii_lowercase(status_id(s)) == status_id(s),
        status_from_id(status_id(s)) == Some(s),
{
    reveal_strlit("proposed");
    reveal_strlit("accepted");
    reveal_strlit("deprecated");
    reveal_strlit("superseded");
    let x = status_id(s);
    assert forall|i: int| 0 <= i < x.len() implies 'a' <= #[trigger] x[i] && x[i] <= 'z' by {
        match s {
            AdrStatus::Proposed => assert(x == seq!['p', 'r', 'o', 'p', 'o', 's', 'e', 'd']),
            AdrStatus::Accepted => assert(x == seq!['a', 'c', 'c', 'e', 'p', 't', 'e', 'd']),
            AdrStatus::Deprecated => assert(x == seq!['d', 'e', 'p', 'r', 'e', 'c', 'a', 't', 'e', 'd']),
            AdrStatus::Superseded => assert(x == seq!['s', 'u', 'p', 'e', 'r', 's', 'e', 'd', 'e', 'd']),
        }
    }
    lemma_lowercase_letters(x);
    let (p, a, d) = ("proposed"@, "accepted"@, "deprecated"@);
    assert(x != p ==> x.len() != p.len() || x[0] != p[0]);
    assert(x != a ==> x.len() != a.len() || x[0] != a[0]);
    assert(x != d ==> x.len() != d.len() || x[0] != d[0]);
}

/// Every status parses back from its own YAML value: parsing
/// `s.as_str()` gives `Ok(s)`.
pub proof fn lemma_status_parses_own_id(s: AdrStatus)
    ensures
        parse_status(status_id(s)) == Ok::<AdrStatus, Seq<char>>(s),
{
    lemma_status_ids(s);
}

/// A status reads back from its id, and parsing ignores the case of ASCII
/// letters: any text whose ASCII lower case is a status id parses as that
/// status.
pub proof fn lemma_status_round_trip(s: AdrStatus, t: Seq<char>)
    ensures
        status_from_id(status_id(s)) == Some(s),
        parse_status(status_id(s)) == Ok::<AdrStatus, Seq<char>>(s),
        all_ascii(t) && ascii_lowercase(t) == status_id(s) ==> parse_status(t) == Ok::<AdrStatus, Seq<char>>(s),
{
    lemma_status_ids(s);
}

impl AdrStatus {
    /// Returns the display name for this status.
    pub fn display_name(&self) -> (r: &'static str)
        ensures
            r@ == status_display(*self),
    {
        match self {
            AdrStatus::Proposed => "Proposed",
            AdrStatus::Accepted => "Accepted",
            AdrStatus::Deprecated => "Deprecated",
            AdrStatus::Superseded => "Superseded",
        }
    }

    /// Returns the YAML value (snake_case string) for this status.
    pub fn as_str(&self) -> (r: &'static str)
        ensures
            r@ == status_id(*self),
            parse_status(r@) == Ok::<AdrStatus, Seq<char>>(*self),
    {
        proof {
            lemma_status_parses_own_id(*self);
        }
        match self {
            AdrStatus::Proposed => "proposed",
            AdrStatus::Accepted => "accepted",
            AdrStatus::Deprecated => "deprecated",
            AdrStatus::Superseded => "superseded",
        }
    }

    /// Returns the status whose YAML value is exactly `s`.
    pub fn from_yaml_value(s: &str) -> (r: Option<AdrStatus>)
        ensures
            r == status_from_id(s@),
    {
        let v = str_chars(s);
        let p = str_chars("proposed");
        let a = str_chars("accepted");
        let d = str_chars("deprecated");
        let x = str_chars("superseded");
        if chars_eq(&v, &p) {
            Some(AdrStatus::Proposed)
        } else if chars_eq(&v, &a) {
            Some(AdrStatus::Accepted)
        } else if chars_eq(&v, &d) {
            Some(AdrStatus::Deprecated)
        } else if chars_eq(&v, &x) {
            Some(AdrStatus::Superseded)
        } else {
            None
        }
    }

    /// Parses a status, ignoring case.
    pub fn parse(s: &str) -> (r: Result<AdrStatus, String>)
        ensures
            match r {
                Ok(st) => parse_status(s@) == Ok::<AdrStatus, Seq<char>>(st),
                Err(msg) => parse_status(s@) == Err::<AdrStatus, Seq<char>>(msg@),
            },
    {
        let lower = str_to_lowercase(s);
        match AdrStatus::from_yaml_value(lower.as_str()) {
            Some(st) => Ok(st),
            None => {
                let mut msg: Vec<char> = Vec::new();
                extend_str(&mut msg, "Invalid ADR status '");
                extend_str(&mut msg, s);
                extend_str(&mut msg, "'. Expected one of: proposed, accepted, deprecated, superseded");
                Err(chars_to_string(&msg))
            },
        }
    }
}

impl std::str::FromStr for AdrStatus {
    type Err = String;

    fn from_str(s: &str) -> Result<Self, Self::Err> {
        AdrStatus::parse(s)
    }
}

} // verus!
