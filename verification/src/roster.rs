//! The players of a lobby as the plain roster shows them.

use crate::decimal::{decimal_text, i64_to_string};
use crate::opendota::{OpenDotaAPIError, PlayersAPIResponse, PlayersWinLoseResponse};
use vstd::prelude::*;
use vstd::string::*;

verus! {

/// One player of the roster.
#[derive(Debug, PartialEq, Eq)]
pub struct Player {
    pub player_name: String,
    pub player_pic_url: String,
    pub player_account_id: String,
    pub win: i64,
    pub lose: i64,
}

/// A player as a value.
pub struct PlayerModel {
    pub player_name: Seq<char>,
    pub player_pic_url: Seq<char>,
    pub player_account_id: Seq<char>,
    pub win: i64,
    pub lose: i64,
}

/// The roster.
#[derive(Debug, PartialEq, Eq)]
pub struct Stamp {
    pub players: Vec<Player>,
}

impl View for Player {
    type V = PlayerModel;

    open spec fn view(&self) -> PlayerModel {
        PlayerModel {
            player_name: self.player_name@,
            player_pic_url: self.player_pic_url@,
            player_account_id: self.player_account_id@,
            win: self.win,
            lose: self.lose,
        }
    }
}

impl View for Stamp {
    type V = Seq<PlayerModel>;

    open spec fn view(&self) -> Seq<PlayerModel> {
        Seq::new(self.players@.len(), |i: int| self.players@[i]@)
    }
}

/// The player that stands in the roster until the service has answered.
pub open spec fn spec_placeholder() -> PlayerModel {
    PlayerModel {
        player_name: "lol"@,
        player_pic_url: "pending"@,
        player_account_id: "1234"@,
        win: -1i64,
        lose: -1i64,
    }
}

/// The player that the two answers of the service describe.
pub open spec fn spec_player_of(
    profile: (Seq<char>, Seq<char>, Seq<char>),
    record: PlayersWinLoseResponse,
) -> PlayerModel {
    PlayerModel {
        player_name: profile.1,
        player_pic_url: profile.2,
        player_account_id: profile.0,
        win: record.win,
        lose: record.lose,
    }
}

/// The lines that show a player, from top to bottom.
pub open spec fn spec_labels(player: PlayerModel) -> Seq<Seq<char>> {
    seq![
        "Name: "@ + player.player_name,
        "Account_ID: "@ + player.player_account_id,
        "Win: "@ + decimal_text(player.win as int),
        "Lose: "@ + decimal_text(player.lose as int),
    ]
}

impl Player {
    /// The player that stands in the roster until the service has answered.
    pub fn new() -> (r: Player)
        ensures
            r@ == spec_placeholder(),
    {
        Player {
            player_name: "lol".to_owned(),
            player_pic_url: "pending".to_owned(),
            player_account_id: "1234".to_owned(),
            win: -1,
            lose: -1,
        }
    }

    /// The lines that show this player, from top to bottom.
    pub fn render_player(&self) -> (labels: Vec<String>)
        ensures
            labels.deep_view() == spec_labels(self@),
    {
        let mut labels: Vec<String> = Vec::new();
        labels.push("Name: ".to_owned().concat(self.player_name.as_str()));
        labels.push("Account_ID: ".to_owned().concat(self.player_account_id.as_str()));
        labels.push("Win: ".to_owned().concat(i64_to_string(self.win).as_str()));
        labels.push("Lose: ".to_owned().concat(i64_to_string(self.lose).as_str()));
        assert(labels.deep_view() =~= spec_labels(self@));
        labels
    }
}

impl Stamp {
    /// A roster without players.
    pub fn new() -> (r: Stamp)
        ensures
            r@ == Seq::<PlayerModel>::empty(),
    {
        let r = Stamp { players: Vec::new() };
        assert(r@ =~= Seq::<PlayerModel>::empty());
        r
    }

    /// Adds the player that the two answers of the service describe, at the
    /// end of the roster. Where one of the requests failed the roster stays
    /// as it is, and the failure of the profile request comes first.
    pub fn fetch_players(
        &mut self,
        profile: Result<PlayersAPIResponse, OpenDotaAPIError>,
        record: Result<PlayersWinLoseResponse, OpenDotaAPIError>,
    ) -> (r: Result<(), OpenDotaAPIError>)
        ensures
            match (profile, record) {
                (Ok(p), Ok(w)) => r is Ok && final(self)@ == old(self)@.push(
                    spec_player_of(p@, w),
                ),
                (Err(e), _) => r == Err::<(), OpenDotaAPIError>(e) && final(self)@ == old(self)@,
                (Ok(_), Err(e)) => r == Err::<(), OpenDotaAPIError>(e) && final(self)@ == old(
                    self,
                )@,
            },
    {
        let response = match profile {
            Ok(response) => response,
            Err(e) => {
                return Err(e);
            },
        };
        let winlose = match record {
            Ok(winlose) => winlose,
            Err(e) => {
                return Err(e);
            },
        };
        let mut player = Player::new();
        player.player_name = response.username;
        player.player_account_id = response.account_id;
        player.player_pic_url = response.profile_picture;
        player.win = winlose.win;
        player.lose = winlose.lose;
        self.players.push(player);
        assert(final(self)@ =~= old(self)@.push(spec_player_of(response@, winlose)));
        Ok(())
    }
}

} // verus!
