use steam_relay::error::UpstreamError;
use steam_relay::model::{project_games, ApiGame, ApiResponse, ApiResponseContent, Game};
use steam_relay::upstream::{decode_envelope, decode_game, parse_envelope, request_url};

const ONE_GAME: &str = "{\"response\":{\"game_count\":1,\"games\":[{\"appid\":440,\"playtime_forever\":1234,\"playtime_windows_forever\":1000,\"playtime_mac_forever\":0,\"playtime_linux_forever\":234,\"rtime_last_played\":1600000000}]}}";

fn record(appid: u32, playtime_forever: u32) -> ApiGame {
    ApiGame {
        appid,
        playtime_forever,
        playtime_windows_forever: 1,
        playtime_mac_forever: 2,
        playtime_linux_forever: 3,
        rtime_last_played: 4,
    }
}

fn record_text(appid: &str, playtime_forever: &str) -> String {
    format!(
        "{{\"appid\":{},\"playtime_forever\":{},\"playtime_windows_forever\":1,\"playtime_mac_forever\":2,\"playtime_linux_forever\":3,\"rtime_last_played\":4}}",
        appid, playtime_forever
    )
}

fn body_of(count: &str, records: &[String]) -> String {
    format!("{{\"response\":{{\"game_count\":{},\"games\":[{}]}}}}", count, records.join(","))
}

fn value_of(text: &str) -> serde_json::Value {
    serde_json::from_str::<serde_json::Value>(text).unwrap()
}

#[test]
fn request_names_key_identifier_and_format() {
    assert_eq!(
        request_url("ABCDEF", 76561197960287930),
        "http://api.steampowered.com/IPlayerService/GetOwnedGames/v0001/?key=ABCDEF&steamid=76561197960287930&format=json"
    );
}

#[test]
fn request_with_the_smallest_and_largest_identifier() {
    assert_eq!(
        request_url("k", 0),
        "http://api.steampowered.com/IPlayerService/GetOwnedGames/v0001/?key=k&steamid=0&format=json"
    );
    assert_eq!(
        request_url("k", u64::MAX),
        "http://api.steampowered.com/IPlayerService/GetOwnedGames/v0001/?key=k&steamid=18446744073709551615&format=json"
    );
}

#[test]
fn request_takes_the_key_as_it_stands() {
    assert_eq!(
        request_url("", 5),
        "http://api.steampowered.com/IPlayerService/GetOwnedGames/v0001/?key=&steamid=5&format=json"
    );
    assert_eq!(
        request_url("a b&c\n", 5),
        "http://api.steampowered.com/IPlayerService/GetOwnedGames/v0001/?key=a b&c\n&steamid=5&format=json"
    );
}

#[test]
fn requests_for_different_accounts_differ() {
    assert_ne!(request_url("k", 1), request_url("k", 10));
    assert_ne!(request_url("k", 76561197960287930), request_url("k", 76561197960287931));
}

#[test]
fn one_record_is_read_in_full() {
    let answer = parse_envelope(ONE_GAME).unwrap();
    assert_eq!(
        answer,
        ApiResponse {
            response: ApiResponseContent {
                game_count: 1,
                games: vec![ApiGame {
                    appid: 440,
                    playtime_forever: 1234,
                    playtime_windows_forever: 1000,
                    playtime_mac_forever: 0,
                    playtime_linux_forever: 234,
                    rtime_last_played: 1600000000,
                }],
            },
        }
    );
}

#[test]
fn empty_list_is_an_answer() {
    let answer = parse_envelope("{\"response\":{\"game_count\":0,\"games\":[]}}").unwrap();
    assert_eq!(answer.response.game_count, 0);
    assert_eq!(answer.response.games, Vec::new());
}

#[test]
fn records_keep_their_order_and_number() {
    let records = [record_text("30", "3"), record_text("10", "1"), record_text("20", "2"), record_text("10", "7")];
    let answer = parse_envelope(&body_of("4", &records)).unwrap();
    assert_eq!(answer.response.games, vec![record(30, 3), record(10, 1), record(20, 2), record(10, 7)]);
}

#[test]
fn count_is_carried_as_reported() {
    let answer = parse_envelope(&body_of("17", &[record_text("1", "2")])).unwrap();
    assert_eq!(answer.response.game_count, 17);
    assert_eq!(answer.response.games.len(), 1);
}

#[test]
fn white_space_and_member_order_do_not_matter() {
    let body = " {\n \"response\" : { \"games\" : [ { \"rtime_last_played\" : 4, \"playtime_linux_forever\" : 3,\n \"playtime_mac_forever\" : 2, \"playtime_windows_forever\" : 1, \"playtime_forever\" : 9, \"appid\" : 8 } ],\n \"game_count\" : 1 } }\n";
    let answer = parse_envelope(body).unwrap();
    assert_eq!(answer.response.games, vec![record(8, 9)]);
}

#[test]
fn members_that_are_not_asked_for_are_passed_over() {
    let body = "{\"status\":\"ok\",\"response\":{\"game_count\":1,\"more\":[1,2],\"games\":[{\"appid\":8,\"name\":\"x\",\"playtime_forever\":9,\"playtime_windows_forever\":1,\"playtime_mac_forever\":2,\"playtime_linux_forever\":3,\"rtime_last_played\":4,\"playtime_2weeks\":-1.5}]}}";
    let answer = parse_envelope(body).unwrap();
    assert_eq!(answer.response.games, vec![record(8, 9)]);
}

#[test]
fn largest_values_fit() {
    let body = "{\"response\":{\"game_count\":4294967295,\"games\":[{\"appid\":4294967295,\"playtime_forever\":4294967295,\"playtime_windows_forever\":4294967295,\"playtime_mac_forever\":4294967295,\"playtime_linux_forever\":4294967295,\"rtime_last_played\":18446744073709551615}]}}";
    let answer = parse_envelope(body).unwrap();
    assert_eq!(answer.response.game_count, u32::MAX);
    assert_eq!(
        answer.response.games,
        vec![ApiGame {
            appid: u32::MAX,
            playtime_forever: u32::MAX,
            playtime_windows_forever: u32::MAX,
            playtime_mac_forever: u32::MAX,
            playtime_linux_forever: u32::MAX,
            rtime_last_played: u64::MAX,
        }]
    );
}

#[test]
fn text_that_is_no_json_is_a_syntax_error() {
    assert_eq!(parse_envelope(""), Err(UpstreamError::Syntax));
    assert_eq!(parse_envelope("<html>Forbidden</html>"), Err(UpstreamError::Syntax));
    assert_eq!(parse_envelope("{\"response\":"), Err(UpstreamError::Syntax));
    assert_eq!(parse_envelope("{response:{}}"), Err(UpstreamError::Syntax));
}

#[test]
fn text_after_the_document_is_a_syntax_error() {
    let body = format!("{} x", ONE_GAME);
    assert_eq!(parse_envelope(&body), Err(UpstreamError::Syntax));
}

#[test]
fn json_of_another_shape_is_a_schema_error() {
    assert_eq!(parse_envelope("{}"), Err(UpstreamError::Schema));
    assert_eq!(parse_envelope("[]"), Err(UpstreamError::Schema));
    assert_eq!(parse_envelope("null"), Err(UpstreamError::Schema));
    assert_eq!(parse_envelope("7"), Err(UpstreamError::Schema));
    assert_eq!(parse_envelope("\"response\""), Err(UpstreamError::Schema));
    assert_eq!(parse_envelope("{\"response\":{}}"), Err(UpstreamError::Schema));
    assert_eq!(parse_envelope("{\"response\":[1,[]]}"), Err(UpstreamError::Schema));
    assert_eq!(parse_envelope("{\"Response\":{\"game_count\":0,\"games\":[]}}"), Err(UpstreamError::Schema));
}

#[test]
fn missing_members_are_a_schema_error() {
    assert_eq!(parse_envelope("{\"response\":{\"games\":[]}}"), Err(UpstreamError::Schema));
    assert_eq!(parse_envelope("{\"response\":{\"game_count\":0}}"), Err(UpstreamError::Schema));
    let names = [
        "appid",
        "playtime_forever",
        "playtime_windows_forever",
        "playtime_mac_forever",
        "playtime_linux_forever",
        "rtime_last_played",
    ];
    for missing in names {
        let mut members = Vec::new();
        for name in names {
            if name != missing {
                members.push(format!("\"{}\":1", name));
            }
        }
        let body = body_of("1", &[format!("{{{}}}", members.join(","))]);
        assert_eq!(parse_envelope(&body), Err(UpstreamError::Schema));
    }
}

#[test]
fn members_of_the_wrong_type_are_a_schema_error() {
    for wrong in ["\"440\"", "null", "true", "[440]", "{\"n\":440}", "-1", "440.0", "4.4e2", "-0"] {
        let bad_appid = body_of("1", &[record_text(wrong, "1")]);
        assert_eq!(parse_envelope(&bad_appid), Err(UpstreamError::Schema));
        let bad_playtime = body_of("1", &[record_text("1", wrong)]);
        assert_eq!(parse_envelope(&bad_playtime), Err(UpstreamError::Schema));
        let bad_count = body_of(wrong, &[record_text("1", "1")]);
        assert_eq!(parse_envelope(&bad_count), Err(UpstreamError::Schema));
    }
    assert_eq!(parse_envelope("{\"response\":{\"game_count\":0,\"games\":{}}}"), Err(UpstreamError::Schema));
    assert_eq!(parse_envelope("{\"response\":{\"game_count\":0,\"games\":null}}"), Err(UpstreamError::Schema));
    assert_eq!(parse_envelope("{\"response\":{\"game_count\":0,\"games\":[7]}}"), Err(UpstreamError::Schema));
}

#[test]
fn numbers_that_do_not_fit_are_a_schema_error() {
    let too_wide = body_of("1", &[record_text("4294967296", "1")]);
    assert_eq!(parse_envelope(&too_wide), Err(UpstreamError::Schema));
    let count_too_wide = body_of("4294967296", &[]);
    assert_eq!(parse_envelope(&count_too_wide), Err(UpstreamError::Schema));
    let time_too_wide = "{\"response\":{\"game_count\":1,\"games\":[{\"appid\":1,\"playtime_forever\":1,\"playtime_windows_forever\":1,\"playtime_mac_forever\":1,\"playtime_linux_forever\":1,\"rtime_last_played\":18446744073709551616}]}}";
    assert_eq!(parse_envelope(time_too_wide), Err(UpstreamError::Schema));
}

#[test]
fn one_bad_record_spoils_the_answer() {
    let records = [record_text("1", "1"), record_text("2", "2"), String::from("{\"appid\":3}")];
    assert_eq!(parse_envelope(&body_of("3", &records)), Err(UpstreamError::Schema));
    let records = [String::from("{}"), record_text("2", "2")];
    assert_eq!(parse_envelope(&body_of("2", &records)), Err(UpstreamError::Schema));
}

#[test]
fn game_is_read_from_a_value() {
    assert_eq!(decode_game(&value_of(&record_text("440", "1234"))), Some(record(440, 1234)));
    assert_eq!(decode_game(&value_of("{\"appid\":440}")), None);
    assert_eq!(decode_game(&value_of("[440,1234,1,2,3,4]")), None);
    assert_eq!(decode_game(&serde_json::Value::Null), None);
}

#[test]
fn game_is_read_from_a_value_built_by_hand() {
    let mut object = serde_json::Map::new();
    object.insert(String::from("appid"), serde_json::Value::from(440u32));
    object.insert(String::from("playtime_forever"), serde_json::Value::from(1234u32));
    object.insert(String::from("playtime_windows_forever"), serde_json::Value::from(1u32));
    object.insert(String::from("playtime_mac_forever"), serde_json::Value::from(2u32));
    object.insert(String::from("playtime_linux_forever"), serde_json::Value::from(3u32));
    assert_eq!(decode_game(&serde_json::Value::Object(object.clone())), None);
    object.insert(String::from("rtime_last_played"), serde_json::Value::from(4u64));
    assert_eq!(decode_game(&serde_json::Value::Object(object.clone())), Some(record(440, 1234)));
    object.insert(String::from("appid"), serde_json::Value::from(-440i64));
    assert_eq!(decode_game(&serde_json::Value::Object(object)), None);
}

#[test]
fn envelope_is_read_from_a_value() {
    let answer = decode_envelope(&value_of(ONE_GAME)).unwrap();
    assert_eq!(answer.response.game_count, 1);
    assert_eq!(answer.response.games.len(), 1);
    assert_eq!(answer.response.games[0].appid, 440);
    assert_eq!(decode_envelope(&value_of("{\"response\":7}")), Err(UpstreamError::Schema));
    assert_eq!(decode_envelope(&serde_json::Value::Array(Vec::new())), Err(UpstreamError::Schema));
}

#[test]
fn projection_keeps_application_and_total_playtime() {
    let upstream = ApiResponse {
        response: ApiResponseContent {
            game_count: 3,
            games: vec![record(30, 3), record(10, 1), record(20, 2)],
        },
    };
    let data = project_games(&upstream);
    assert_eq!(data.response, vec![Game::new(30, 3), Game::new(10, 1), Game::new(20, 2)]);
}

#[test]
fn projection_of_no_games_is_empty() {
    let upstream = ApiResponse { response: ApiResponseContent { game_count: 0, games: Vec::new() } };
    assert_eq!(project_games(&upstream).response, Vec::new());
}

#[test]
fn projection_has_one_entry_for_each_record() {
    for n in [0usize, 1, 2, 17, 100] {
        let mut games = Vec::new();
        for i in 0..n {
            games.push(record(1000 - i as u32, i as u32 * 3));
        }
        let upstream = ApiResponse { response: ApiResponseContent { game_count: n as u32, games: games.clone() } };
        let data = project_games(&upstream);
        assert_eq!(data.response.len(), n);
        for i in 0..n {
            assert_eq!(data.response[i].appid, games[i].appid);
            assert_eq!(data.response[i].playtime, games[i].playtime_forever);
        }
    }
}
