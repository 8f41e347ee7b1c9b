//! The OpenDota statistics service as this program uses it: which address to
//! ask for a player, and what the answers hold.
//!
//! Nothing here talks to the network. A request is an address, which the
//! caller fetches; the answer comes back as an `HttpReply`.

use crate::text::{byte_len, lemma_total_byte_len_prefix, total_byte_len};
use vstd::prelude::*;

verus! {

/// Root of the service.
pub const BASE_URL: &'static str = "https://api.opendota.com/api";

/// Longest text, in bytes, that is handed to the URL library in one piece.
/// An address may not grow beyond 4 GiB there; pieces of this size stay far
/// below that, also after escaping.
pub const MAX_URL_INPUT: usize = 0x1000_0000;

/// Most path segments that are appended in one go.
pub const MAX_URL_SEGMENTS: usize = 0x1_0000;

/// Why a request to the service gave no record.
#[derive(Clone, Copy, Debug, PartialEq, Eq, Structural)]
pub enum OpenDotaAPIError {
    /// No address could be made for the request.
    UrlParsing,
    /// The service could not be reached or refused the request.
    RequestFailed,
    /// The body of the answer could not be read as text.
    FailedResponseToString,
    /// The body of the answer is not the JSON that was asked for.
    MalformedResponse,
}

/// The collections of the service.
#[derive(Clone, Copy, Debug, PartialEq, Eq, Structural)]
pub enum Endpoint {
    Players,
}

/// What the caller got back for a request.
#[derive(Debug, PartialEq, Eq)]
pub enum HttpReply {
    /// The body of the answer.
    Body(String),
    /// The request did not go through.
    RequestFailed,
    /// An answer came, but its body could not be read as text.
    Unreadable,
}

/// A player's profile, each field as the JSON text that the service sent.
#[derive(Debug, PartialEq, Eq)]
pub struct PlayersAPIResponse {
    pub account_id: String,
    pub username: String,
    pub profile_picture: String,
}

/// A player's record of wins and losses.
#[derive(Clone, Copy, Debug, PartialEq, Eq, Structural)]
pub struct PlayersWinLoseResponse {
    pub win: i64,
    pub lose: i64,
}

/// The requests that this program makes.
#[derive(Clone, Copy, Debug, PartialEq, Eq, Structural)]
pub struct OpenDotaAPI {}

/// The address that the `url` crate makes of the address `base` when the
/// path segments `segments` are appended to its path; `None` where `base` is
/// no address or one whose path cannot be extended.
pub uninterp spec fn url_extended(base: Seq<char>, segments: Seq<Seq<char>>) -> Option<Seq<char>>;

/// The address that the `url` crate makes of the address `url` when its
/// query string is replaced by `query`; `None` where `url` is no address.
pub uninterp spec fn url_queried(url: Seq<char>, query: Seq<char>) -> Option<Seq<char>>;

/// The compact JSON text of the member that `serde_json` finds in the JSON
/// document `text` by following the object keys `path` from its root, with
/// `null` standing for whatever is not there; `None` where `text` is no JSON
/// document.
pub uninterp spec fn json_member(text: Seq<char>, path: Seq<Seq<char>>) -> Option<Seq<char>>;

/// The member found in the same way, as `serde_json` reads it as a signed
/// 64-bit integer: the outer `None` where `text` is no JSON document, the
/// inner one where the member is no such integer.
pub uninterp spec fn json_member_i64(text: Seq<char>, path: Seq<Seq<char>>) -> Option<
    Option<i64>,
>;

/// The pieces of an address are short enough to be handed to the URL library.
pub open spec fn fits_url(base: Seq<char>, segments: Seq<Seq<char>>) -> bool {
    &&& byte_len(base) <= MAX_URL_INPUT
    &&& segments.len() <= MAX_URL_SEGMENTS
    &&& total_byte_len(segments) <= MAX_URL_INPUT
}

/// Parses `base` with `url::Url::parse`, appends `segments` to its path with
/// `PathSegmentsMut::extend` (what `push` does, for each in turn), and gives
/// the address back as text. Nothing is proved of the library: the contract
/// only gives the text a name, which depends on the arguments alone. The
/// bound keeps the address below the 4 GiB beyond which the library panics.
#[verifier::external_body]
fn url_extend_path(base: &str, segments: &Vec<String>) -> (r: Option<String>)
    requires
        fits_url(base@, segments.deep_view()),
    ensures
        r.deep_view() == url_extended(base@, segments.deep_view()),
{
    let mut url = url::Url::parse(base).ok()?;
    match url.path_segments_mut() {
        Ok(mut path) => {
            path.extend(segments);
        },
        Err(()) => return None,
    }
    Some(url.into())
}

/// Parses `url` with `url::Url::parse`, replaces its query string with
/// `Url::set_query`, and gives the address back as text. Nothing is proved of
/// the library: the contract only gives the text a name, which depends on the
/// arguments alone. The bound keeps the address below the 4 GiB beyond which
/// the library panics.
#[verifier::external_body]
fn url_set_query(url: &str, query: &str) -> (r: Option<String>)
    requires
        byte_len(url@) <= MAX_URL_INPUT,
        byte_len(query@) <= MAX_URL_INPUT,
    ensures
        r.deep_view() == url_queried(url@, query@),
{
    let mut url = url::Url::parse(url).ok()?;
    url.set_query(Some(query));
    Some(url.into())
}

/// Parses `text` with `serde_json::from_str`, indexes the value with each key
/// of `path` in turn, and renders what is found there with the value's
/// `to_string`. Nothing is proved of the library: the contract only gives the
/// text a name, which depends on the arguments alone.
#[verifier::external_body]
fn json_member_text(text: &str, path: &Vec<String>) -> (r: Option<String>)
    ensures
        r.deep_view() == json_member(text@, path.deep_view()),
{
    match serde_json::from_str::<serde_json::Value>(text) {
        Ok(root) => Some(path.iter().fold(&root, |at, key| &at[key.as_str()]).to_string()),
        Err(_) => None,
    }
}

/// Parses `text` with `serde_json::from_str`, indexes the value with each key
/// of `path` in turn, and asks `Value::as_i64` for what is found there.
/// Nothing is proved of the library: the contract only gives the answer a
/// name, which depends on the arguments alone.
#[verifier::external_body]
fn json_member_integer(text: &str, path: &Vec<String>) -> (r: Option<Option<i64>>)
    ensures
        r == json_member_i64(text@, path.deep_view()),
{
    match serde_json::from_str::<serde_json::Value>(text) {
        Ok(root) => Some(path.iter().fold(&root, |at, key| &at[key.as_str()]).as_i64()),
        Err(_) => None,
    }
}

/// The address made of `base`, the path segments `segments` and, if there is
/// one, the query string `query`.
pub open spec fn spec_build_url(
    base: Seq<char>,
    segments: Seq<Seq<char>>,
    query: Option<Seq<char>>,
) -> Result<Seq<char>, OpenDotaAPIError> {
    if !fits_url(base, segments) {
        Err(OpenDotaAPIError::UrlParsing)
    } else {
        match (url_extended(base, segments), query) {
            (None, _) => Err(OpenDotaAPIError::UrlParsing),
            (Some(url), None) => Ok(url),
            (Some(url), Some(q)) => if byte_len(url) <= MAX_URL_INPUT && byte_len(q)
                <= MAX_URL_INPUT {
                match url_queried(url, q) {
                    Some(queried) => Ok(queried),
                    None => Err(OpenDotaAPIError::UrlParsing),
                }
            } else {
                Err(OpenDotaAPIError::UrlParsing)
            },
        }
    }
}

/// The name of an endpoint in an address.
pub open spec fn spec_endpoint_name(endpoint: Endpoint) -> Seq<char> {
    match endpoint {
        Endpoint::Players => "players"@,
    }
}

/// The address of a player's profile.
pub open spec fn spec_player_url(account_id: Seq<char>) -> Result<Seq<char>, OpenDotaAPIError> {
    spec_build_url(BASE_URL@, seq![spec_endpoint_name(Endpoint::Players), account_id], None)
}

/// The address of a player's wins and losses over the last twenty matches.
pub open spec fn spec_wl_url(account_id: Seq<char>) -> Result<Seq<char>, OpenDotaAPIError> {
    spec_build_url(
        BASE_URL@,
        seq![spec_endpoint_name(Endpoint::Players), account_id, "wl"@],
        Some("limit=20"@),
    )
}

/// The profile that a JSON document holds, if it is one.
pub open spec fn spec_player_object(response: Seq<char>) -> Option<
    (Seq<char>, Seq<char>, Seq<char>),
> {
    match (
        json_member(response, seq!["profile"@, "account_id"@]),
        json_member(response, seq!["profile"@, "personaname"@]),
        json_member(response, seq!["avatarmedium"@]),
    ) {
        (Some(account_id), Some(username), Some(profile_picture)) => Some(
            (account_id, username, profile_picture),
        ),
        _ => None,
    }
}

/// The wins and losses that a JSON document holds, if it holds both.
pub open spec fn spec_win_lose(response: Seq<char>) -> Option<PlayersWinLoseResponse> {
    match (
        json_member_i64(response, seq!["win"@]),
        json_member_i64(response, seq!["lose"@]),
    ) {
        (Some(Some(win)), Some(Some(lose))) => Some(PlayersWinLoseResponse { win, lose }),
        _ => None,
    }
}

impl PlayersAPIResponse {
    /// The three fields as values.
    pub open spec fn view(&self) -> (Seq<char>, Seq<char>, Seq<char>) {
        (self.account_id@, self.username@, self.profile_picture@)
    }

    pub fn account_id(&self) -> (r: &str)
        ensures
            r@ == self.account_id@,
    {
        self.account_id.as_str()
    }

    pub fn username(&self) -> (r: &str)
        ensures
            r@ == self.username@,
    {
        self.username.as_str()
    }

    pub fn profile_picture(&self) -> (r: &str)
        ensures
            r@ == self.profile_picture@,
    {
        self.profile_picture.as_str()
    }
}

impl Endpoint {
    /// The name of the endpoint in an address.
    pub fn to_string(&self) -> (r: String)
        ensures
            r@ == spec_endpoint_name(*self),
    {
        match self {
            Endpoint::Players => "players".to_owned(),
        }
    }
}

/// Adds up the bytes of `parts`, as long as the sum stays within the bound.
fn total_len_within(parts: &Vec<String>) -> (r: bool)
    ensures
        r == (total_byte_len(parts.deep_view()) <= MAX_URL_INPUT),
{
    let mut sum: usize = 0;
    let mut i: usize = 0;
    while i < parts.len()
        invariant
            i <= parts.len(),
            sum <= MAX_URL_INPUT,
            sum == total_byte_len(parts.deep_view().take(i as int)),
        decreases parts.len() - i,
    {
        let n: usize = parts[i].as_str().as_bytes().len();
        proof {
            let longer = parts.deep_view().take(i + 1);
            assert(longer.drop_last() =~= parts.deep_view().take(i as int));
            assert(longer.last() == parts[i as int]@);
            if n > MAX_URL_INPUT - sum {
                lemma_total_byte_len_prefix(parts.deep_view(), i + 1);
            }
        }
        if n > MAX_URL_INPUT - sum {
            return false;
        }
        sum = sum + n;
        i = i + 1;
    }
    assert(parts.deep_view().take(i as int) =~= parts.deep_view());
    true
}

/// Makes an address of `base`, the path segments `segments` and, if there is
/// one, the query string `query`.
pub fn build_url(base: &str, segments: &Vec<String>, query: Option<&str>) -> (r: Result<
    String,
    OpenDotaAPIError,
>)
    ensures
        match r {
            Ok(url) => spec_build_url(base@, segments.deep_view(), query.deep_view()) == Ok::<
                Seq<char>,
                OpenDotaAPIError,
            >(url@),
            Err(e) => spec_build_url(base@, segments.deep_view(), query.deep_view()) == Err::<
                Seq<char>,
                OpenDotaAPIError,
            >(e),
        },
{
    if base.as_bytes().len() > MAX_URL_INPUT || segments.len() > MAX_URL_SEGMENTS
        || !total_len_within(segments) {
        return Err(OpenDotaAPIError::UrlParsing);
    }
    let url = match url_extend_path(base, segments) {
        Some(url) => url,
        None => {
            return Err(OpenDotaAPIError::UrlParsing);
        },
    };
    match query {
        None => Ok(url),
        Some(q) => {
            if url.as_str().as_bytes().len() > MAX_URL_INPUT || q.as_bytes().len()
                > MAX_URL_INPUT {
                return Err(OpenDotaAPIError::UrlParsing);
            }
            match url_set_query(url.as_str(), q) {
                Some(queried) => Ok(queried),
                None => Err(OpenDotaAPIError::UrlParsing),
            }
        },
    }
}

impl OpenDotaAPI {
    /// The address to ask for a player's profile.
    pub fn prepare_player_url(account_id: &str) -> (r: Result<String, OpenDotaAPIError>)
        ensures
            match r {
                Ok(url) => spec_player_url(account_id@) == Ok::<Seq<char>, OpenDotaAPIError>(
                    url@,
                ),
                Err(e) => spec_player_url(account_id@) == Err::<Seq<char>, OpenDotaAPIError>(e),
            },
    {
        let mut segments: Vec<String> = Vec::new();
        segments.push(Endpoint::Players.to_string());
        segments.push(account_id.to_owned());
        assert(segments.deep_view() =~= seq![
            spec_endpoint_name(Endpoint::Players),
            account_id@,
        ]);
        build_url(BASE_URL, &segments, None)
    }

    /// The address to ask for a player's wins and losses over the last
    /// twenty matches.
    pub fn prepare_wl_url(account_id: &str) -> (r: Result<String, OpenDotaAPIError>)
        ensures
            match r {
                Ok(url) => spec_wl_url(account_id@) == Ok::<Seq<char>, OpenDotaAPIError>(url@),
                Err(e) => spec_wl_url(account_id@) == Err::<Seq<char>, OpenDotaAPIError>(e),
            },
    {
        let mut segments: Vec<String> = Vec::new();
        segments.push(Endpoint::Players.to_string());
        segments.push(account_id.to_owned());
        segments.push("wl".to_owned());
        assert(segments.deep_view() =~= seq![
            spec_endpoint_name(Endpoint::Players),
            account_id@,
            "wl"@,
        ]);
        build_url(BASE_URL, &segments, Some("limit=20"))
    }

    /// Reads a player's profile out of the body of an answer.
    pub fn parse_player_object(response: &str) -> (r: Option<PlayersAPIResponse>)
        ensures
            match r {
                Some(player) => spec_player_object(response@) == Some(player@),
                None => spec_player_object(response@) is None,
            },
    {
        let account_id = json_member_text(response, &keys2("profile", "account_id"));
        let username = json_member_text(response, &keys2("profile", "personaname"));
        let profile_picture = json_member_text(response, &keys1("avatarmedium"));
        match (account_id, username, profile_picture) {
            (Some(account_id), Some(username), Some(profile_picture)) => Some(
                PlayersAPIResponse { account_id, username, profile_picture },
            ),
            _ => None,
        }
    }

    /// Reads a player's wins and losses out of the body of an answer.
    pub fn parse_win_lose(response: &str) -> (r: Option<PlayersWinLoseResponse>)
        ensures
            r == spec_win_lose(response@),
    {
        let win = json_member_integer(response, &keys1("win"));
        let lose = json_member_integer(response, &keys1("lose"));
        match (win, lose) {
            (Some(Some(win)), Some(Some(lose))) => Some(PlayersWinLoseResponse { win, lose }),
            _ => None,
        }
    }

    /// Makes a player's profile of what came back for the request.
    pub fn fetch_player(reply: &HttpReply) -> (r: Result<PlayersAPIResponse, OpenDotaAPIError>)
        ensures
            match r {
                Ok(player) => spec_fetch_player(reply@) == Ok::<
                    (Seq<char>, Seq<char>, Seq<char>),
                    OpenDotaAPIError,
                >(player@),
                Err(e) => spec_fetch_player(reply@) == Err::<
                    (Seq<char>, Seq<char>, Seq<char>),
                    OpenDotaAPIError,
                >(e),
            },
    {
        match reply {
            HttpReply::Body(body) => match Self::parse_player_object(body.as_str()) {
                Some(player) => Ok(player),
                None => Err(OpenDotaAPIError::MalformedResponse),
            },
            HttpReply::RequestFailed => Err(OpenDotaAPIError::RequestFailed),
            HttpReply::Unreadable => Err(OpenDotaAPIError::FailedResponseToString),
        }
    }

    /// Makes a player's wins and losses of what came back for the request.
    pub fn fetch_player_wl(reply: &HttpReply) -> (r: Result<
        PlayersWinLoseResponse,
        OpenDotaAPIError,
    >)
        ensures
            r == spec_fetch_player_wl(reply@),
    {
        match reply {
            HttpReply::Body(body) => match Self::parse_win_lose(body.as_str()) {
                Some(record) => Ok(record),
                None => Err(OpenDotaAPIError::MalformedResponse),
            },
            HttpReply::RequestFailed => Err(OpenDotaAPIError::RequestFailed),
            HttpReply::Unreadable => Err(OpenDotaAPIError::FailedResponseToString),
        }
    }
}

/// A reply as a value.
pub enum ReplyModel {
    Body(Seq<char>),
    RequestFailed,
    Unreadable,
}

impl View for HttpReply {
    type V = ReplyModel;

    open spec fn view(&self) -> ReplyModel {
        match self {
            HttpReply::Body(body) => ReplyModel::Body(body@),
            HttpReply::RequestFailed => ReplyModel::RequestFailed,
            HttpReply::Unreadable => ReplyModel::Unreadable,
        }
    }
}

/// The wins and losses that a reply gives, or why it gives none.
pub open spec fn spec_fetch_player_wl(reply: ReplyModel) -> Result<
    PlayersWinLoseResponse,
    OpenDotaAPIError,
> {
    match reply {
        ReplyModel::Body(body) => match spec_win_lose(body) {
            Some(record) => Ok(record),
            None => Err(OpenDotaAPIError::MalformedResponse),
        },
        ReplyModel::RequestFailed => Err(OpenDotaAPIError::RequestFailed),
        ReplyModel::Unreadable => Err(OpenDotaAPIError::FailedResponseToString),
    }
}

/// The profile that a reply gives, or why it gives none.
pub open spec fn spec_fetch_player(reply: ReplyModel) -> Result<
    (Seq<char>, Seq<char>, Seq<char>),
    OpenDotaAPIError,
> {
    match reply {
        ReplyModel::Body(body) => match spec_player_object(body) {
            Some(player) => Ok(player),
            None => Err(OpenDotaAPIError::MalformedResponse),
        },
        ReplyModel::RequestFailed => Err(OpenDotaAPIError::RequestFailed),
        ReplyModel::Unreadable => Err(OpenDotaAPIError::FailedResponseToString),
    }
}

/// A key path of one key.
fn keys1(a: &str) -> (r: Vec<String>)
    ensures
        r.deep_view() == seq![a@],
{
    let mut keys: Vec<String> = Vec::new();
    keys.push(a.to_owned());
    assert(keys.deep_view() =~= seq![a@]);
    keys
}

/// A key path of two keys.
fn keys2(a: &str, b: &str) -> (r: Vec<String>)
    ensures
        r.deep_view() == seq![a@, b@],
{
    let mut keys: Vec<String> = Vec::new();
    keys.push(a.to_owned());
    keys.push(b.to_owned());
    assert(keys.deep_view() =~= seq![a@, b@]);
    keys
}

} // verus!
