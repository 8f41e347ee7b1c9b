use stamp::opendota::{OpenDotaAPIError, PlayersAPIResponse, PlayersWinLoseResponse};
use stamp::roster::{Player, Stamp};

fn profile(account_id: &str, username: &str, picture: &str) -> PlayersAPIResponse {
    PlayersAPIResponse {
        account_id: account_id.to_string(),
        username: username.to_string(),
        profile_picture: picture.to_string(),
    }
}

#[test]
fn a_new_player_is_a_placeholder() {
    let player = Player::new();
    assert_eq!(player.player_name, "lol");
    assert_eq!(player.player_pic_url, "pending");
    assert_eq!(player.player_account_id, "1234");
    assert_eq!(player.win, -1);
    assert_eq!(player.lose, -1);
}

#[test]
fn a_player_is_shown_in_four_lines() {
    let player = Player {
        player_name: "Leon".to_string(),
        player_pic_url: "pic".to_string(),
        player_account_id: "83615933".to_string(),
        win: 12,
        lose: 0,
    };
    assert_eq!(
        player.render_player(),
        vec!["Name: Leon", "Account_ID: 83615933", "Win: 12", "Lose: 0"]
    );
    assert_eq!(
        Player::new().render_player(),
        vec!["Name: lol", "Account_ID: 1234", "Win: -1", "Lose: -1"]
    );
}

#[test]
fn a_new_roster_is_empty() {
    assert_eq!(Stamp::new().players.len(), 0);
}

#[test]
fn answers_add_a_player_at_the_end() {
    let mut stamp = Stamp::new();
    assert_eq!(
        stamp.fetch_players(
            Ok(profile("83615933", "\"Leon\"", "null")),
            Ok(PlayersWinLoseResponse { win: 5, lose: 7 })
        ),
        Ok(())
    );
    assert_eq!(
        stamp.fetch_players(
            Ok(profile("130643254", "\"Ana\"", "\"p\"")),
            Ok(PlayersWinLoseResponse { win: 1, lose: 2 })
        ),
        Ok(())
    );
    assert_eq!(stamp.players.len(), 2);
    assert_eq!(
        stamp.players[0],
        Player {
            player_name: "\"Leon\"".to_string(),
            player_pic_url: "null".to_string(),
            player_account_id: "83615933".to_string(),
            win: 5,
            lose: 7,
        }
    );
    assert_eq!(stamp.players[1].player_account_id, "130643254");
    assert_eq!(stamp.players[1].player_pic_url, "\"p\"");
}

#[test]
fn a_failed_request_adds_nobody() {
    let mut stamp = Stamp::new();
    assert_eq!(
        stamp.fetch_players(
            Err(OpenDotaAPIError::RequestFailed),
            Err(OpenDotaAPIError::MalformedResponse)
        ),
        Err(OpenDotaAPIError::RequestFailed)
    );
    assert_eq!(
        stamp.fetch_players(
            Ok(profile("1", "2", "3")),
            Err(OpenDotaAPIError::FailedResponseToString)
        ),
        Err(OpenDotaAPIError::FailedResponseToString)
    );
    assert_eq!(
        stamp.fetch_players(
            Err(OpenDotaAPIError::UrlParsing),
            Ok(PlayersWinLoseResponse { win: 1, lose: 2 })
        ),
        Err(OpenDotaAPIError::UrlParsing)
    );
    assert!(stamp.players.is_empty());
}
