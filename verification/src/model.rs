//! The records that travel through one request: what upstream reports about
//! an account, and the reduced form that the relay hands on.

use vstd::prelude::*;

verus! {

/// One owned game as upstream reports it.
#[derive(Clone, Copy, Debug, PartialEq, Eq, Structural)]
pub struct ApiGame {
    pub appid: u32,
    pub playtime_forever: u32,
    pub playtime_windows_forever: u32,
    pub playtime_mac_forever: u32,
    pub playtime_linux_forever: u32,
    pub rtime_last_played: u64,
}

/// The body of an upstream answer: a count, and the games in the order in
/// which upstream listed them. The count is carried as reported; nothing
/// holds it to the length of the list.
#[derive(Debug, PartialEq, Eq)]
pub struct ApiResponseContent {
    pub game_count: u32,
    pub games: Vec<ApiGame>,
}

/// A whole upstream answer.
#[derive(Debug, PartialEq, Eq)]
pub struct ApiResponse {
    pub response: ApiResponseContent,
}

/// The mathematical content of an [`ApiResponse`].
pub struct Envelope {
    pub game_count: u32,
    pub games: Seq<ApiGame>,
}

impl View for ApiResponse {
    type V = Envelope;

    open spec fn view(&self) -> Envelope {
        Envelope { game_count: self.response.game_count, games: self.response.games@ }
    }
}

/// One owned game as the relay reports it: the application and the minutes
/// played on it in total.
#[derive(Clone, Copy, Debug, PartialEq, Eq, Structural)]
pub struct Game {
    pub appid: u32,
    pub playtime: u32,
}

impl Game {
    pub fn new(appid: u32, playtime: u32) -> (game: Self)
        ensures
            game == (Game { appid, playtime }),
    {
        Game { appid, playtime }
    }
}

/// What the relay answers: the projected games, wrapped once.
#[derive(Debug, PartialEq, Eq)]
pub struct ReturnedData {
    pub response: Vec<Game>,
}

impl View for ReturnedData {
    type V = Seq<Game>;

    open spec fn view(&self) -> Seq<Game> {
        self.response@
    }
}

impl ReturnedData {
    pub fn new(response: Vec<Game>) -> (data: Self)
        ensures
            data@ == response@,
    {
        ReturnedData { response }
    }
}

/// The projection of one upstream record: its application and its total
/// playtime, everything else dropped.
pub open spec fn projection(record: ApiGame) -> Game {
    Game { appid: record.appid, playtime: record.playtime_forever }
}

/// The projection of a list of upstream records, one for one and in order.
pub open spec fn projected(records: Seq<ApiGame>) -> Seq<Game> {
    Seq::new(records.len(), |i: int| projection(records[i]))
}

/// Projects every game of an upstream answer. The result has as many entries
/// as upstream listed, in the same order, and each carries the application
/// and the total playtime of the record at its place.
pub fn project_games(upstream: &ApiResponse) -> (data: ReturnedData)
    ensures
        data@ == projected(upstream@.games),
        data@.len() == upstream@.games.len(),
        forall|i: int|
            0 <= i < upstream@.games.len() ==> {
                &&& (#[trigger] data@[i]).appid == upstream@.games[i].appid
                &&& data@[i].playtime == upstream@.games[i].playtime_forever
            },
{
    let records = &upstream.response.games;
    let mut games: Vec<Game> = Vec::new();
    let mut i: usize = 0;
    while i < records.len()
        invariant
            i <= records.len(),
            games@ == projected(records@.take(i as int)),
        decreases records.len() - i,
    {
        let record = &records[i];
        games.push(Game::new(record.appid, record.playtime_forever));
        i += 1;
        assert(games@ =~= projected(records@.take(i as int)));
    }
    assert(records@.take(i as int) =~= records@);
    ReturnedData::new(games)
}

} // verus!
