use stamp::opendota::{
    build_url, Endpoint, HttpReply, OpenDotaAPI, OpenDotaAPIError, PlayersAPIResponse,
    PlayersWinLoseResponse, BASE_URL, MAX_URL_SEGMENTS,
};

const ANSWER: &str = r#"{"profile":{"account_id":83615933,"personaname":"Leon","avatarmedium":"https://cdn/a_medium.jpg"},"rank_tier":55}"#;

#[test]
fn the_player_address_ends_in_the_account() {
    assert_eq!(
        OpenDotaAPI::prepare_player_url("83615933"),
        Ok("https://api.opendota.com/api/players/83615933".to_string())
    );
}

#[test]
fn the_win_loss_address_asks_for_twenty_matches() {
    assert_eq!(
        OpenDotaAPI::prepare_wl_url("130643254"),
        Ok("https://api.opendota.com/api/players/130643254/wl?limit=20".to_string())
    );
}

#[test]
fn an_account_is_escaped_as_one_segment() {
    assert_eq!(
        OpenDotaAPI::prepare_player_url("a/b c%"),
        Ok("https://api.opendota.com/api/players/a%2Fb%20c%25".to_string())
    );
    assert_eq!(
        OpenDotaAPI::prepare_player_url(""),
        Ok("https://api.opendota.com/api/players/".to_string())
    );
    assert_eq!(
        OpenDotaAPI::prepare_wl_url(".."),
        Ok("https://api.opendota.com/api/players/wl?limit=20".to_string())
    );
}

#[test]
fn addresses_are_built_from_their_parts() {
    let segments = vec!["a".to_string(), "b".to_string()];
    assert_eq!(build_url("https://example.com", &segments, None), Ok("https://example.com/a/b".to_string()));
    assert_eq!(
        build_url("https://example.com/x?old=1", &segments, Some("new=2")),
        Ok("https://example.com/x/a/b?new=2".to_string())
    );
    assert_eq!(build_url(BASE_URL, &vec![], None), Ok(BASE_URL.to_string()));
}

#[test]
fn a_base_that_is_no_address_gives_no_address() {
    let segments = vec!["players".to_string()];
    assert_eq!(build_url("not an address", &segments, None), Err(OpenDotaAPIError::UrlParsing));
    assert_eq!(build_url("", &segments, None), Err(OpenDotaAPIError::UrlParsing));
    assert_eq!(build_url("mailto:someone@example.com", &segments, None), Err(OpenDotaAPIError::UrlParsing));
}

#[test]
fn too_many_segments_give_no_address() {
    let segments = vec![String::new(); MAX_URL_SEGMENTS + 1];
    assert_eq!(build_url(BASE_URL, &segments, None), Err(OpenDotaAPIError::UrlParsing));
}

#[test]
fn the_endpoint_has_its_name() {
    assert_eq!(Endpoint::Players.to_string(), "players");
}

#[test]
fn a_profile_is_read_as_json_text() {
    let player = OpenDotaAPI::parse_player_object(ANSWER).unwrap();
    assert_eq!(player.account_id(), "83615933");
    assert_eq!(player.username(), "\"Leon\"");
    assert_eq!(player.profile_picture(), "null");
}

#[test]
fn what_is_missing_in_a_profile_reads_as_null() {
    let player = OpenDotaAPI::parse_player_object(r#"{"avatarmedium":"pic","profile":[1,2]}"#);
    assert_eq!(
        player,
        Some(PlayersAPIResponse {
            account_id: "null".to_string(),
            username: "null".to_string(),
            profile_picture: "\"pic\"".to_string(),
        })
    );
    let nested = OpenDotaAPI::parse_player_object(r#"{"profile":{"personaname":{"b":1,"a":[true]}}}"#)
        .unwrap();
    assert_eq!(nested.username(), r#"{"a":[true],"b":1}"#);
}

#[test]
fn a_body_that_is_no_json_gives_no_profile() {
    assert_eq!(OpenDotaAPI::parse_player_object("<html>"), None);
    assert_eq!(OpenDotaAPI::parse_player_object(""), None);
    assert_eq!(OpenDotaAPI::parse_player_object("{\"profile\":"), None);
}

#[test]
fn wins_and_losses_are_read_as_integers() {
    assert_eq!(
        OpenDotaAPI::parse_win_lose(r#"{"win":12,"lose":8}"#),
        Some(PlayersWinLoseResponse { win: 12, lose: 8 })
    );
    assert_eq!(
        OpenDotaAPI::parse_win_lose(r#"{"lose":-3,"win":9223372036854775807,"x":1}"#),
        Some(PlayersWinLoseResponse { win: i64::MAX, lose: -3 })
    );
}

#[test]
fn counts_that_are_no_integers_give_no_record() {
    assert_eq!(OpenDotaAPI::parse_win_lose(r#"{"win":12}"#), None);
    assert_eq!(OpenDotaAPI::parse_win_lose(r#"{"win":12.0,"lose":8}"#), None);
    assert_eq!(OpenDotaAPI::parse_win_lose(r#"{"win":"12","lose":8}"#), None);
    assert_eq!(OpenDotaAPI::parse_win_lose(r#"{"win":9223372036854775808,"lose":8}"#), None);
    assert_eq!(OpenDotaAPI::parse_win_lose("not json"), None);
}

#[test]
fn a_reply_with_a_body_gives_the_profile() {
    let player = OpenDotaAPI::fetch_player(&HttpReply::Body(ANSWER.to_string())).unwrap();
    assert_eq!(player.account_id, "83615933");
    assert_eq!(player.username, "\"Leon\"");
    assert_eq!(player.profile_picture, "null");
}

#[test]
fn each_failed_reply_gives_its_error() {
    assert_eq!(
        OpenDotaAPI::fetch_player(&HttpReply::RequestFailed),
        Err(OpenDotaAPIError::RequestFailed)
    );
    assert_eq!(
        OpenDotaAPI::fetch_player(&HttpReply::Unreadable),
        Err(OpenDotaAPIError::FailedResponseToString)
    );
    assert_eq!(
        OpenDotaAPI::fetch_player(&HttpReply::Body("oops".to_string())),
        Err(OpenDotaAPIError::MalformedResponse)
    );
    assert_eq!(
        OpenDotaAPI::fetch_player_wl(&HttpReply::RequestFailed),
        Err(OpenDotaAPIError::RequestFailed)
    );
    assert_eq!(
        OpenDotaAPI::fetch_player_wl(&HttpReply::Unreadable),
        Err(OpenDotaAPIError::FailedResponseToString)
    );
    assert_eq!(
        OpenDotaAPI::fetch_player_wl(&HttpReply::Body(r#"{"win":1}"#.to_string())),
        Err(OpenDotaAPIError::MalformedResponse)
    );
}

#[test]
fn a_reply_with_a_body_gives_the_record() {
    assert_eq!(
        OpenDotaAPI::fetch_player_wl(&HttpReply::Body(r#"{"win":3,"lose":4}"#.to_string())),
        Ok(PlayersWinLoseResponse { win: 3, lose: 4 })
    );
}
