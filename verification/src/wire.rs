//! The wire format that clients speak: eight bytes in, one JSON document out.

use crate::decimal::{decimal, push_decimal};
use crate::error::FramingError;
use crate::model::{Game, ReturnedData};
use vstd::prelude::*;
use vstd::string::StringExecFns;

verus! {

/// The width of an identifier on the wire, in bytes.
pub const IDENTIFIER_LEN: usize = 8;

/// The number that eight bytes denote in network byte order: the first byte
/// is the most significant.
pub open spec fn be_u64(bytes: Seq<u8>) -> nat
    recommends
        bytes.len() == 8,
{
    (bytes[0] * 0x0100_0000_0000_0000
        + bytes[1] * 0x0001_0000_0000_0000
        + bytes[2] * 0x0000_0100_0000_0000
        + bytes[3] * 0x0000_0001_0000_0000
        + bytes[4] * 0x0000_0000_0100_0000
        + bytes[5] * 0x0000_0000_0001_0000
        + bytes[6] * 0x0000_0000_0000_0100
        + bytes[7]) as nat
}

/// Reads the identifier from what a client sent before the read ended. With
/// eight bytes or more it is the number that the first eight denote; with
/// fewer the request is incomplete, and the error tells how many arrived.
pub fn decode_identifier(received: &[u8]) -> (r: Result<u64, FramingError>)
    ensures
        match r {
            Ok(identifier) => received@.len() >= 8 && identifier == be_u64(received@.take(8)),
            Err(e) => received@.len() < 8 && e.received == received@.len(),
        },
{
    if received.len() < IDENTIFIER_LEN {
        return Err(FramingError { received: received.len() });
    }
    let mut identifier: u64 = 0;
    let mut i: usize = 0;
    while i < IDENTIFIER_LEN
        invariant
            i <= 8,
            received@.len() >= 8,
            identifier as int == be_prefix(received@, i as int),
            identifier as int <= be_limit(i as int),
        decreases 8 - i,
    {
        identifier = identifier * 256 + received[i] as u64;
        i += 1;
    }
    proof {
        reveal_with_fuel(be_prefix, 9);
        let first = received@.take(8);
        assert(forall|k: int| 0 <= k < 8 ==> first[k] == received@[k]);
    }
    Ok(identifier)
}

/// The number that the first `n` bytes denote, most significant byte first.
spec fn be_prefix(bytes: Seq<u8>, n: int) -> int
    decreases n,
{
    if n <= 0 {
        0
    } else {
        be_prefix(bytes, n - 1) * 256 + bytes[n - 1]
    }
}

/// The largest number that `n` bytes can denote, for `n` up to eight.
spec fn be_limit(n: int) -> int {
    if n <= 0 {
        0
    } else if n == 1 {
        0xff
    } else if n == 2 {
        0xffff
    } else if n == 3 {
        0xff_ffff
    } else if n == 4 {
        0xffff_ffff
    } else if n == 5 {
        0xff_ffff_ffff
    } else if n == 6 {
        0xffff_ffff_ffff
    } else if n == 7 {
        0xff_ffff_ffff_ffff
    } else {
        0xffff_ffff_ffff_ffff
    }
}

/// The text of one game: an object with the application under `appid` and
/// the minutes under `playtime`, in that order and without any space.
pub open spec fn game_text(game: Game) -> Seq<char> {
    "{\"appid\":"@ + decimal(game.appid as nat) + ",\"playtime\":"@ + decimal(game.playtime as nat)
        + "}"@
}

/// The texts of a list of games, in order, with a comma between neighbours.
pub open spec fn games_text(games: Seq<Game>) -> Seq<char>
    decreases games.len(),
{
    if games.len() == 0 {
        Seq::empty()
    } else if games.len() == 1 {
        game_text(games[0])
    } else {
        games_text(games.drop_last()) + ","@ + game_text(games.last())
    }
}

/// The document that answers a request: an object whose only member,
/// `response`, is the array of the games.
pub open spec fn response_text(games: Seq<Game>) -> Seq<char> {
    "{\"response\":["@ + games_text(games) + "]}"@
}

/// With no game to report, the answer is the object with an empty array.
pub proof fn lemma_empty_response()
    ensures
        response_text(Seq::empty()) == "{\"response\":[]}"@,
{
    reveal_strlit("{\"response\":[");
    reveal_strlit("]}");
    reveal_strlit("{\"response\":[]}");
    assert(response_text(Seq::empty()) =~= "{\"response\":[]}"@);
}

fn push_game(out: &mut String, game: &Game)
    ensures
        final(out)@ == old(out)@ + game_text(*game),
{
    out.append("{\"appid\":");
    push_decimal(out, game.appid as u64);
    out.append(",\"playtime\":");
    push_decimal(out, game.playtime as u64);
    out.append("}");
    assert(out@ =~= old(out)@ + game_text(*game));
}

/// Writes the answer for a list of games as compact JSON.
pub fn encode_response(data: &ReturnedData) -> (text: String)
    ensures
        text@ == response_text(data@),
{
    let games = &data.response;
    let mut text = String::from_str("{\"response\":[");
    let mut i: usize = 0;
    while i < games.len()
        invariant
            i <= games.len(),
            text@ == "{\"response\":["@ + games_text(games@.take(i as int)),
        decreases games.len() - i,
    {
        if i > 0 {
            text.append(",");
        }
        push_game(&mut text, &games[i]);
        i += 1;
        proof {
            let done = games@.take(i as int);
            assert(done.drop_last() =~= games@.take(i - 1));
            assert(done.last() == games@[i - 1]);
            assert(text@ =~= "{\"response\":["@ + games_text(done));
        }
    }
    assert(games@.take(i as int) =~= games@);
    text.append("]}");
    text
}

} // verus!
