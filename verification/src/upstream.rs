//! The upstream service: the request that asks for an account's games, and
//! the shape of the document that answers it.

use crate::decimal::{decimal, lemma_decimal_injective, push_decimal};
use crate::error::UpstreamError;
use crate::json::{
    json_document, json_tree, parse_value, value_items, value_member, value_unsigned, JsonTree,
};
use crate::model::{ApiGame, ApiResponse, ApiResponseContent, Envelope};
use vstd::prelude::*;
use vstd::string::StringExecFns;

verus! {

/// What came of one upstream call.
#[derive(Debug, PartialEq, Eq)]
pub enum UpstreamReply {
    /// The call failed before any answer arrived.
    Failed,
    /// Upstream answered, with this status and this body.
    Response { status: u16, body: String },
}

/// Where upstream answers which games an account owns.
pub const ENDPOINT: &'static str =
    "http://api.steampowered.com/IPlayerService/GetOwnedGames/v0001/";

/// The address that asks upstream for the games of one account: the
/// endpoint, then the key, the identifier in decimal, and the wish for JSON.
/// Neither the key nor the identifier is changed on the way in.
pub open spec fn request_url_text(key: Seq<char>, identifier: nat) -> Seq<char> {
    ENDPOINT@ + "?key="@ + key + "&steamid="@ + decimal(identifier) + "&format=json"@
}

/// Builds the address of the upstream request for one account.
pub fn request_url(key: &str, identifier: u64) -> (url: String)
    ensures
        url@ == request_url_text(key@, identifier as nat),
{
    let mut url = String::from_str(ENDPOINT);
    url.append("?key=");
    url.append(key);
    url.append("&steamid=");
    push_decimal(&mut url, identifier);
    url.append("&format=json");
    url
}

/// Requests for different accounts go to different addresses, so that what
/// upstream answers to one is never the answer to another.
pub proof fn lemma_request_url_injective(key: Seq<char>, a: nat, b: nat)
    requires
        a != b,
    ensures
        request_url_text(key, a) != request_url_text(key, b),
{
    let head = ENDPOINT@ + "?key="@ + key + "&steamid="@;
    let tail = "&format=json"@;
    let url_a = request_url_text(key, a);
    let url_b = request_url_text(key, b);
    if url_a == url_b {
        assert(url_a.len() == head.len() + decimal(a).len() + tail.len());
        assert(url_b.len() == head.len() + decimal(b).len() + tail.len());
        assert forall|i: int| 0 <= i < decimal(a).len() implies decimal(a)[i] == decimal(b)[i] by {
            assert(url_a[head.len() + i] == decimal(a)[i]);
            assert(url_b[head.len() + i] == decimal(b)[i]);
        }
        assert(decimal(a) =~= decimal(b));
        lemma_decimal_injective(a, b);
    }
}

/// The member of an object under `name`, where it is a whole number from zero
/// to `u64::MAX`.
pub open spec fn field_u64(tree: JsonTree, name: Seq<char>) -> Option<u64> {
    match tree.member(name) {
        Some(member) => member.unsigned(),
        None => None,
    }
}

/// The member of an object under `name`, where it is a whole number from zero
/// to `u32::MAX`.
pub open spec fn field_u32(tree: JsonTree, name: Seq<char>) -> Option<u32> {
    match field_u64(tree, name) {
        Some(n) if n <= u32::MAX => Some(n as u32),
        _ => None,
    }
}

/// Whether a tree is an object with every member that a game record needs,
/// each one a number that fits its field. Other members are of no concern.
pub open spec fn is_game(tree: JsonTree) -> bool {
    &&& field_u32(tree, "appid"@) is Some
    &&& field_u32(tree, "playtime_forever"@) is Some
    &&& field_u32(tree, "playtime_windows_forever"@) is Some
    &&& field_u32(tree, "playtime_mac_forever"@) is Some
    &&& field_u32(tree, "playtime_linux_forever"@) is Some
    &&& field_u64(tree, "rtime_last_played"@) is Some
}

/// The game record that a tree holds, where it holds one.
pub open spec fn game_of(tree: JsonTree) -> Option<ApiGame> {
    if is_game(tree) {
        Some(
            ApiGame {
                appid: field_u32(tree, "appid"@).unwrap(),
                playtime_forever: field_u32(tree, "playtime_forever"@).unwrap(),
                playtime_windows_forever: field_u32(tree, "playtime_windows_forever"@).unwrap(),
                playtime_mac_forever: field_u32(tree, "playtime_mac_forever"@).unwrap(),
                playtime_linux_forever: field_u32(tree, "playtime_linux_forever"@).unwrap(),
                rtime_last_played: field_u64(tree, "rtime_last_played"@).unwrap(),
            },
        )
    } else {
        None
    }
}

/// The game records that a list of trees holds, in order, where every one of
/// them holds a record.
pub open spec fn games_of(items: Seq<JsonTree>) -> Option<Seq<ApiGame>> {
    if forall|i: int| 0 <= i < items.len() ==> is_game(#[trigger] items[i]) {
        Some(Seq::new(items.len(), |i: int| game_of(items[i]).unwrap()))
    } else {
        None
    }
}

/// The upstream answer that a tree holds, where it holds one: an object
/// whose member `response` is an object with a count under `game_count` and
/// an array of game records under `games`.
pub open spec fn envelope_of(tree: JsonTree) -> Option<Envelope> {
    match tree.member("response"@) {
        Some(content) => match (field_u32(content, "game_count"@), content.member("games"@)) {
            (Some(game_count), Some(list)) => match list.items() {
                Some(items) => match games_of(items) {
                    Some(games) => Some(Envelope { game_count, games }),
                    None => None,
                },
                None => None,
            },
            _ => None,
        },
        None => None,
    }
}

/// What a body of text yields as an upstream answer: the envelope it holds,
/// or the reason why it holds none.
pub open spec fn envelope_in(body: Seq<char>) -> Result<Envelope, UpstreamError> {
    match json_document(body) {
        Some(tree) => match envelope_of(tree) {
            Some(envelope) => Ok(envelope),
            None => Err(UpstreamError::Schema),
        },
        None => Err(UpstreamError::Syntax),
    }
}

fn read_u64(value: &serde_json::Value, name: &str) -> (r: Option<u64>)
    ensures
        r == field_u64(json_tree(*value), name@),
{
    match value_member(value, name) {
        Some(member) => value_unsigned(member),
        None => None,
    }
}

fn read_u32(value: &serde_json::Value, name: &str) -> (r: Option<u32>)
    ensures
        r == field_u32(json_tree(*value), name@),
{
    match read_u64(value, name) {
        Some(n) => if n <= 0xffff_ffff {
            Some(n as u32)
        } else {
            None
        },
        None => None,
    }
}

/// Reads one game record from a JSON value.
pub fn decode_game(value: &serde_json::Value) -> (r: Option<ApiGame>)
    ensures
        r == game_of(json_tree(*value)),
{
    let appid = read_u32(value, "appid");
    let playtime_forever = read_u32(value, "playtime_forever");
    let playtime_windows_forever = read_u32(value, "playtime_windows_forever");
    let playtime_mac_forever = read_u32(value, "playtime_mac_forever");
    let playtime_linux_forever = read_u32(value, "playtime_linux_forever");
    let rtime_last_played = read_u64(value, "rtime_last_played");
    match (
        appid,
        playtime_forever,
        playtime_windows_forever,
        playtime_mac_forever,
        playtime_linux_forever,
        rtime_last_played,
    ) {
        (
            Some(appid),
            Some(playtime_forever),
            Some(playtime_windows_forever),
            Some(playtime_mac_forever),
            Some(playtime_linux_forever),
            Some(rtime_last_played),
        ) => Some(
            ApiGame {
                appid,
                playtime_forever,
                playtime_windows_forever,
                playtime_mac_forever,
                playtime_linux_forever,
                rtime_last_played,
            },
        ),
        _ => None,
    }
}

/// Reads a whole upstream answer from a JSON value. It succeeds exactly on
/// the values that hold an envelope, and then returns that envelope, with the
/// games in the order of the document.
pub fn decode_envelope(value: &serde_json::Value) -> (r: Result<ApiResponse, UpstreamError>)
    ensures
        match r {
            Ok(answer) => envelope_of(json_tree(*value)) == Some(answer@),
            Err(e) => e == UpstreamError::Schema && envelope_of(json_tree(*value)) is None,
        },
{
    let content = match value_member(value, "response") {
        Some(content) => content,
        None => return Err(UpstreamError::Schema),
    };
    let game_count = match read_u32(content, "game_count") {
        Some(game_count) => game_count,
        None => return Err(UpstreamError::Schema),
    };
    let list = match value_member(content, "games") {
        Some(list) => list,
        None => return Err(UpstreamError::Schema),
    };
    let items = match value_items(list) {
        Some(items) => items,
        None => return Err(UpstreamError::Schema),
    };
    let ghost trees = Seq::new(items@.len(), |i: int| json_tree(items@[i]));
    assert(envelope_of(json_tree(*value)) == match games_of(trees) {
        Some(games) => Some(Envelope { game_count, games }),
        None => None,
    });
    let mut games: Vec<ApiGame> = Vec::new();
    let mut i: usize = 0;
    while i < items.len()
        invariant
            i <= items.len(),
            trees == Seq::new(items@.len(), |i: int| json_tree(items@[i])),
            games_of(trees) is None ==> envelope_of(json_tree(*value)) is None,
            games@.len() == i,
            forall|j: int| 0 <= j < i ==> game_of(#[trigger] trees[j]) == Some(games@[j]),
        decreases items.len() - i,
    {
        match decode_game(&items[i]) {
            Some(game) => games.push(game),
            None => {
                assert(!is_game(trees[i as int]));
                return Err(UpstreamError::Schema);
            },
        }
        i += 1;
    }
    assert(games@ =~= games_of(trees).unwrap());
    Ok(ApiResponse { response: ApiResponseContent { game_count, games } })
}

/// Reads an upstream answer from the text of a body.
pub fn parse_envelope(body: &str) -> (r: Result<ApiResponse, UpstreamError>)
    ensures
        match r {
            Ok(answer) => envelope_in(body@) == Ok::<Envelope, UpstreamError>(answer@),
            Err(e) => envelope_in(body@) == Err::<Envelope, UpstreamError>(e),
        },
{
    match parse_value(body) {
        Ok(value) => decode_envelope(&value),
        Err(_) => Err(UpstreamError::Syntax),
    }
}

} // verus!
