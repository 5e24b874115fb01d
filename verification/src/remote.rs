use crate::err::Error;
use crate::score;
use vstd::prelude::*;

verus! {

/// The id of a series in the remote catalog.
pub type SeriesID = u32;

/// The watch status of a series on the user's list.
#[derive(Clone, Copy, Debug, PartialEq, Eq, Structural)]
pub enum Status {
    Watching,
    Completed,
    OnHold,
    Dropped,
    PlanToWatch,
    Rewatching,
}

impl Status {
    /// The code a relational store uses for this status.
    pub fn to_code(&self) -> (r: i16)
        ensures
            r == self.spec_code(),
    {
        match self {
            Status::Watching => 1,
            Status::Completed => 2,
            Status::OnHold => 3,
            Status::Dropped => 4,
            Status::PlanToWatch => 5,
            Status::Rewatching => 6,
        }
    }

    /// The status a stored code denotes; `None` for a code no status uses.
    pub fn from_code(code: i16) -> (r: Option<Status>)
        ensures
            r matches Some(s) ==> s.spec_code() == code,
            r is None <==> !(1 <= code <= 6),
    {
        match code {
            1 => Some(Status::Watching),
            2 => Some(Status::Completed),
            3 => Some(Status::OnHold),
            4 => Some(Status::Dropped),
            5 => Some(Status::PlanToWatch),
            6 => Some(Status::Rewatching),
            _ => None,
        }
    }

    pub open spec fn spec_code(self) -> i16 {
        match self {
            Status::Watching => 1,
            Status::Completed => 2,
            Status::OnHold => 3,
            Status::Dropped => 4,
            Status::PlanToWatch => 5,
            Status::Rewatching => 6,
        }
    }

    /// The status shown to the user, as text.
    pub fn name(&self) -> (r: &'static str)
        ensures
            r@.len() > 0,
    {
        proof {
            reveal_strlit("Watching");
            reveal_strlit("Completed");
            reveal_strlit("On Hold");
            reveal_strlit("Dropped");
            reveal_strlit("Plan To Watch");
            reveal_strlit("Rewatching");
        }
        match self {
            Status::Watching => "Watching",
            Status::Completed => "Completed",
            Status::OnHold => "On Hold",
            Status::Dropped => "Dropped",
            Status::PlanToWatch => "Plan To Watch",
            Status::Rewatching => "Rewatching",
        }
    }
}

impl Default for Status {
    /// A series not yet watched is planned to watch.
    fn default() -> (r: Self)
        ensures
            r == Status::PlanToWatch,
    {
        Status::PlanToWatch
    }
}

/// A calendar date, as plain fields.
///
/// The embedding application converts between this type and whatever date
/// representation its clock library uses.
#[derive(Clone, Copy, Debug, PartialEq, Eq, Structural)]
pub struct Date {
    pub year: i32,
    pub month: u8,
    pub day: u8,
}

impl Date {
    /// Months and days start at 1; day bounds are the coarse calendar bounds.
    pub open spec fn is_valid(self) -> bool {
        1 <= self.month <= 12 && 1 <= self.day <= 31
    }

    pub fn new(year: i32, month: u8, day: u8) -> (r: Date)
        requires
            1 <= month <= 12,
            1 <= day <= 31,
        ensures
            r == (Date { year, month, day }),
            r.is_valid(),
    {
        Date { year, month, day }
    }
}

/// Various title formats for a series.
#[derive(Clone, Debug)]
pub struct SeriesTitle {
    /// The title in romaji.
    pub romaji: String,
    /// The title in the user's preferred format.
    pub preferred: String,
}

/// The plain value of a series title.
pub struct SeriesTitleView {
    pub romaji: Seq<char>,
    pub preferred: Seq<char>,
}

impl View for SeriesTitle {
    type V = SeriesTitleView;

    open spec fn view(&self) -> SeriesTitleView {
        SeriesTitleView { romaji: self.romaji@, preferred: self.preferred@ }
    }
}

impl SeriesTitle {
    /// A copy with the same titles.
    pub fn duplicate(&self) -> (r: Self)
        ensures
            r@ == self@,
    {
        SeriesTitle {
            romaji: crate::text::clone_string(&self.romaji),
            preferred: crate::text::clone_string(&self.preferred),
        }
    }
}

/// Immutable catalog facts for one series.
#[derive(Clone, Debug)]
pub struct SeriesInfo {
    /// The id of the series in the remote catalog.
    pub id: SeriesID,
    /// The titles of the series.
    pub title: SeriesTitle,
    /// The number of episodes; 0 means ongoing or unknown.
    pub episodes: u32,
    /// The length of a single episode in minutes.
    pub episode_length: u32,
}

/// The plain value of a series' catalog facts.
pub struct SeriesInfoView {
    pub id: SeriesID,
    pub title: SeriesTitleView,
    pub episodes: u32,
    pub episode_length: u32,
}

impl View for SeriesInfo {
    type V = SeriesInfoView;

    open spec fn view(&self) -> SeriesInfoView {
        SeriesInfoView {
            id: self.id,
            title: self.title@,
            episodes: self.episodes,
            episode_length: self.episode_length,
        }
    }
}

impl SeriesInfo {
    /// A copy with the same catalog facts.
    pub fn duplicate(&self) -> (r: Self)
        ensures
            r@ == self@,
    {
        SeriesInfo {
            id: self.id,
            title: self.title.duplicate(),
            episodes: self.episodes,
            episode_length: self.episode_length,
        }
    }
}

/// A list entry for a series, as the remote reports it.
#[derive(Clone, Copy, Debug, PartialEq, Eq, Structural)]
pub struct SeriesEntry {
    /// The id of the series.
    pub id: SeriesID,
    /// The number of episodes that have been watched.
    pub watched_eps: u32,
    /// The score given by the user, between 0 and 100.
    pub score: Option<u8>,
    /// The user's current watch status of the series.
    pub status: Status,
    /// The number of times the user has rewatched the series.
    pub times_rewatched: u32,
    /// The date the user started watching the series.
    pub start_date: Option<Date>,
    /// The date the user finished watching the series.
    pub end_date: Option<Date>,
}

impl SeriesEntry {
    /// A fresh entry for the series with the given id.
    pub fn new(id: SeriesID) -> (r: Self)
        ensures
            r == SeriesEntry::spec_new(id),
    {
        Self {
            id,
            watched_eps: 0,
            score: None,
            status: Status::PlanToWatch,
            times_rewatched: 0,
            start_date: None,
            end_date: None,
        }
    }

    pub open spec fn spec_new(id: SeriesID) -> SeriesEntry {
        SeriesEntry {
            id,
            watched_eps: 0,
            score: None,
            status: Status::PlanToWatch,
            times_rewatched: 0,
            start_date: None,
            end_date: None,
        }
    }
}

/// Functionality to deal with scores from a tracking service.
pub trait ScoreParser {
    /// Parse the given score string to a value between 0 and 100.
    fn parse_score(&self, score: &str) -> (r: Option<u8>)
        ensures
            r matches Some(v) ==> v <= 100,
    ;

    /// Map the given score to its string equivalent.
    fn score_to_str(&self, score: u8) -> (r: String)
        requires
            score <= 100,
    ;
}

/// Core functionality to interact with a tracking service.
///
/// The library ships the offline backend; an online backend is provided by
/// the embedding application, which implements this trait over its transport.
pub trait RemoteService: ScoreParser {
    /// Whether this service is meant to be used without a connection.
    spec fn spec_is_offline(&self) -> bool;

    fn is_offline(&self) -> (r: bool)
        ensures
            r == self.spec_is_offline(),
    ;

    /// Search for a series' information by title; matches come back in the
    /// service's own confidence order, best first.
    fn search_info_by_name(&self, name: &str) -> (r: Result<Vec<SeriesInfo>, Error>);

    /// Get a series' information by its id.
    fn search_info_by_id(&self, id: SeriesID) -> (r: Result<SeriesInfo, Error>)
        ensures
            r matches Ok(info) ==> info.id == id,
    ;

    /// Retrieve the list entry for a series from the authenticated user;
    /// `None` means the user has not added the series.
    fn get_list_entry(&self, id: SeriesID) -> (r: Result<Option<SeriesEntry>, Error>)
        ensures
            r matches Ok(Some(e)) ==> e.id == id,
    ;

    /// Upload the entry to the authenticated user's list.
    fn update_list_entry(&self, entry: &SeriesEntry) -> (r: Result<(), Error>);
}

/// The backend used without a connection: queries find nothing and updates
/// are accepted as no-ops.
pub struct Offline {}

impl Offline {
    pub fn new() -> (r: Self)
        ensures
            r.spec_is_offline(),
    {
        Offline {  }
    }
}

impl ScoreParser for Offline {
    /// The default scale: the score's own decimal value.
    fn parse_score(&self, score_str: &str) -> (r: Option<u8>)
        ensures
            r == score::parse_score_spec(score_str@),
    {
        score::parse_score_str(score_str)
    }

    fn score_to_str(&self, score_val: u8) -> (r: String)
        ensures
            r@ == score::score_digits(score_val as int),
    {
        score::score_to_string(score_val)
    }
}

impl RemoteService for Offline {
    open spec fn spec_is_offline(&self) -> bool {
        true
    }

    fn is_offline(&self) -> (r: bool) {
        true
    }

    /// Without a connection no catalog is reachable: every search fails
    /// with `NotFound`.
    fn search_info_by_name(&self, name: &str) -> (r: Result<Vec<SeriesInfo>, Error>)
        ensures
            r matches Err(e) && e == (Error::NotFound { id: 0 }),
    {
        Err(Error::NotFound { id: 0 })
    }

    fn search_info_by_id(&self, id: SeriesID) -> (r: Result<SeriesInfo, Error>)
        ensures
            r matches Err(e) && e == (Error::NotFound { id }),
    {
        Err(Error::NotFound { id })
    }

    /// Offline, the user's list cannot be read: no entry is reported.
    fn get_list_entry(&self, id: SeriesID) -> (r: Result<Option<SeriesEntry>, Error>)
        ensures
            r matches Ok(v) && v is None,
    {
        Ok(None)
    }

    /// Updates are accepted as no-ops; the caller keeps its dirty flag.
    fn update_list_entry(&self, entry: &SeriesEntry) -> (r: Result<(), Error>)
        ensures
            r is Ok,
    {
        Ok(())
    }
}

/// The remote services the library itself can construct.
pub enum Remote {
    Offline(Offline),
}

impl Remote {
    pub fn offline() -> (r: Self)
        ensures
            r.spec_is_offline(),
    {
        Remote::Offline(Offline::new())
    }
}

impl ScoreParser for Remote {
    /// Every service the library constructs uses the default scale.
    fn parse_score(&self, score_str: &str) -> (r: Option<u8>)
        ensures
            r == score::parse_score_spec(score_str@),
    {
        match self {
            Remote::Offline(service) => service.parse_score(score_str),
        }
    }

    fn score_to_str(&self, score_val: u8) -> (r: String)
        ensures
            r@ == score::score_digits(score_val as int),
    {
        match self {
            Remote::Offline(service) => service.score_to_str(score_val),
        }
    }
}

impl RemoteService for Remote {
    open spec fn spec_is_offline(&self) -> bool {
        match self {
            Remote::Offline(service) => service.spec_is_offline(),
        }
    }

    fn is_offline(&self) -> (r: bool) {
        match self {
            Remote::Offline(service) => service.is_offline(),
        }
    }

    /// Offline, every search fails with `NotFound`.
    fn search_info_by_name(&self, name: &str) -> (r: Result<Vec<SeriesInfo>, Error>)
        ensures
            self.spec_is_offline() ==> (r matches Err(e) && e == (Error::NotFound { id: 0 })),
    {
        match self {
            Remote::Offline(service) => service.search_info_by_name(name),
        }
    }

    fn search_info_by_id(&self, id: SeriesID) -> (r: Result<SeriesInfo, Error>)
        ensures
            self.spec_is_offline() ==> (r matches Err(e) && e == (Error::NotFound { id })),
    {
        match self {
            Remote::Offline(service) => service.search_info_by_id(id),
        }
    }

    /// Offline, the user's list cannot be read: no entry is reported.
    fn get_list_entry(&self, id: SeriesID) -> (r: Result<Option<SeriesEntry>, Error>)
        ensures
            self.spec_is_offline() ==> (r matches Ok(v) && v is None),
    {
        match self {
            Remote::Offline(service) => service.get_list_entry(id),
        }
    }

    /// Offline, updates are accepted as no-ops.
    fn update_list_entry(&self, entry: &SeriesEntry) -> (r: Result<(), Error>)
        ensures
            self.spec_is_offline() ==> r is Ok,
    {
        match self {
            Remote::Offline(service) => service.update_list_entry(entry),
        }
    }
}

/// The base64 rendering of a byte string, as the standard padded alphabet
/// produces it.
pub uninterp spec fn b64_of(bytes: Seq<u8>) -> Seq<char>;

/// Relies on `base64::encode` (standard alphabet, padded): a deterministic
/// function of the input bytes alone.
#[verifier::external_body]
fn base64_encode(bytes: &[u8]) -> (r: String)
    ensures
        r@ == b64_of(bytes@),
{
    base64::encode(bytes)
}

/// Relies on `base64::decode`: it inverts `base64::encode`, so on any string
/// the encoder produced it returns exactly the bytes that were encoded.
#[verifier::external_body]
fn base64_decode(encoded: &str) -> (r: Option<Vec<u8>>)
    ensures
        forall|b: Seq<u8>| #[trigger] b64_of(b) == encoded@ ==> r is Some && r->0@ == b,
{
    base64::decode(encoded).ok()
}

/// A user's access token for a remote service, stored base64-encoded and
/// never displayed; the credential deliberately has no way to print itself.
#[derive(Clone)]
pub struct AccessToken {
    encoded_token: String,
}

impl AccessToken {
    /// The stored, encoded form of the token.
    pub closed spec fn encoded(self) -> Seq<char> {
        self.encoded_token@
    }

    /// Encode a new access token from the raw token bytes.
    pub fn encode(token: &[u8]) -> (r: Self)
        ensures
            r.encoded() == b64_of(token@),
    {
        Self { encoded_token: base64_encode(token) }
    }

    /// Wrap an already-encoded token, as read back from storage.
    pub fn from_encoded(encoded_token: String) -> (r: Self)
        ensures
            r.encoded() == encoded_token@,
    {
        Self { encoded_token }
    }

    /// The stored form, for the embedding application to persist.
    pub fn as_encoded(&self) -> (r: &String)
        ensures
            r@ == self.encoded(),
    {
        &self.encoded_token
    }

    /// Get the raw bytes of the access token.
    ///
    /// Decoding a token that `encode` produced yields exactly the bytes that
    /// were encoded.
    pub fn decode(&self) -> (r: Result<Vec<u8>, Error>)
        ensures
            forall|b: Seq<u8>| #[trigger] b64_of(b) == self.encoded() ==> r is Ok && r->Ok_0@ == b,
            r matches Err(e) ==> e is Base64Decode,
    {
        match base64_decode(self.encoded_token.as_str()) {
            Some(bytes) => Ok(bytes),
            None => Err(Error::Base64Decode),
        }
    }
}

} // verus!
