use vstd::prelude::*;

verus! {

/// Errors raised by the library.
///
/// Per-file parse failures (`NoEpMatches`, `ExpectedEpNumber`) are swallowed
/// while scanning a directory; everything else bubbles up to the caller.
#[derive(Debug)]
pub enum Error {
    /// The filename parser did not apply to the given filename.
    NoEpMatches { name: String },
    /// An episode capture was present but is not a number that fits.
    ExpectedEpNumber { name: String },
    /// Two files in one directory parsed to different series titles.
    MultipleTitles { expecting: String, found: String },
    /// No file in the directory parsed to an episode.
    NoEpisodes { path: String },
    /// The requested episode is not in the episode map.
    EpisodeNotFound { episode: u32 },
    /// A custom matcher pattern lacks a required named group.
    MissingEpisodeMatcherGroup { group: String },
    /// A custom matcher pattern is not a valid regular expression.
    Regex { matcher: String },
    /// No remote search result was similar enough to the local title.
    NoMatchingSeries { name: String },
    /// The remote catalog has no series with the given id.
    NotFound { id: u32 },
    /// A remote call failed in transit.
    Network,
    /// A score string was not within the accepted range.
    InvalidScore,
    /// Saving a series would break a uniqueness constraint.
    DatabaseConstraint { nickname: String },
    /// A stored token is not valid base64.
    Base64Decode,
    /// A numeric argument could not be parsed.
    ParseNum { value: String },
}

pub type LibResult<T> = Result<T, Error>;

impl Error {
    /// A short stable name for the error kind, for display by the caller.
    pub fn kind(&self) -> (r: &'static str)
        ensures
            r@.len() > 0,
    {
        proof {
            reveal_strlit("no episode matches");
            reveal_strlit("expected episode number");
            reveal_strlit("multiple titles");
            reveal_strlit("no episodes");
            reveal_strlit("episode not found");
            reveal_strlit("missing episode matcher group");
            reveal_strlit("invalid matcher regex");
            reveal_strlit("no matching series");
            reveal_strlit("series not found");
            reveal_strlit("network error");
            reveal_strlit("invalid score");
            reveal_strlit("database constraint");
            reveal_strlit("base64 decode error");
            reveal_strlit("invalid number");
        }
        match self {
            Error::NoEpMatches { .. } => "no episode matches",
            Error::ExpectedEpNumber { .. } => "expected episode number",
            Error::MultipleTitles { .. } => "multiple titles",
            Error::NoEpisodes { .. } => "no episodes",
            Error::EpisodeNotFound { .. } => "episode not found",
            Error::MissingEpisodeMatcherGroup { .. } => "missing episode matcher group",
            Error::Regex { .. } => "invalid matcher regex",
            Error::NoMatchingSeries { .. } => "no matching series",
            Error::NotFound { .. } => "series not found",
            Error::Network => "network error",
            Error::InvalidScore => "invalid score",
            Error::DatabaseConstraint { .. } => "database constraint",
            Error::Base64Decode => "base64 decode error",
            Error::ParseNum { .. } => "invalid number",
        }
    }
}

} // verus!
