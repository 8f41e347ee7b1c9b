//! The lobby window: the cards of the players that were found, how a card is
//! filled from the answers of the statistics service, and how the window
//! reacts to what happens.

use crate::decimal::{decimal_text, i64_to_string};
use vstd::prelude::*;
use vstd::string::*;

verus! {

/// The picture shown when a player has none.
pub const DEFAULT_IMAGE: &'static str = "resources/default.png";

/// Number of matches over which wins and losses are asked for.
pub const WIN_LOSS_LIMIT: i32 = 20;

/// Width and height of the picture on a card.
pub const CARD_IMAGE_SIZE: u16 = 100;

/// Space between the cards of a row.
pub const ROW_SPACING: u16 = 10;

/// Space between the two rows.
pub const COLUMN_SPACING: u16 = 10;

/// Number of cards in a full top row.
pub const TOP_ROW_CARDS: usize = 5;

/// Most cards that the window shows.
pub const MAX_CARDS: usize = 10;

/// Where the picture of a card comes from.
#[derive(Debug, PartialEq, Eq)]
pub enum PlayerImage {
    /// A file of the program.
    Path(String),
    /// The bytes that were downloaded.
    Memory(Vec<u8>),
}

/// The card of one player.
#[derive(Debug, PartialEq, Eq)]
pub struct DotaPlayer {
    pub name: String,
    pub image: PlayerImage,
    pub image_url: String,
    pub wins: String,
    pub losses: String,
}

/// What the service knows of a player's profile.
#[derive(Debug, PartialEq, Eq)]
pub struct Profile {
    pub personaname: Option<String>,
    pub avatarfull: Option<String>,
}

/// What came back for the request of a player's profile.
#[derive(Debug, PartialEq, Eq)]
pub enum ProfileReply {
    /// The request failed.
    Failed,
    /// The service answered, with or without a profile.
    Answered(Option<Profile>),
}

/// What the service knows of a player's wins and losses.
#[derive(Clone, Copy, Debug, PartialEq, Eq, Structural)]
pub struct WinLoss {
    pub win: Option<i32>,
    pub lose: Option<i32>,
}

/// The texts of a card.
#[derive(Debug, PartialEq, Eq)]
pub struct PlayerCard {
    pub name: String,
    pub wins: String,
    pub losses: String,
}

/// The players of the lobby that were loaded so far.
#[derive(Debug, PartialEq, Eq)]
pub struct DotaMatch {
    pub players: Vec<DotaPlayer>,
}

/// What can happen to the window.
#[derive(Debug, PartialEq, Eq)]
pub enum Message {
    LookingForMatch,
    /// The log announced a lobby with these players.
    MatchFound(Vec<i32>),
    /// The card of one player is ready.
    PlayerLoaded(DotaPlayer),
}

/// How the cards are laid out.
#[derive(Clone, Copy, Debug, PartialEq, Eq, Structural)]
pub struct RowLayout {
    /// Whether the window says that it is still looking for a match.
    pub looking: bool,
    /// Number of cards in the top row, from the first card on.
    pub top: usize,
    /// Number of cards in the bottom row, which follow those of the top row.
    pub bottom: usize,
}

/// The window.
#[derive(Debug, PartialEq, Eq)]
pub struct Stamp {
    pub dota_match: DotaMatch,
}

/// A picture as a value.
pub enum ImageModel {
    Path(Seq<char>),
    Memory(Seq<u8>),
}

/// A card as a value.
pub struct DotaPlayerModel {
    pub name: Seq<char>,
    pub image: ImageModel,
    pub image_url: Seq<char>,
    pub wins: Seq<char>,
    pub losses: Seq<char>,
}

impl PlayerImage {
    pub open spec fn model(&self) -> ImageModel {
        match self {
            PlayerImage::Path(path) => ImageModel::Path(path@),
            PlayerImage::Memory(bytes) => ImageModel::Memory(bytes@),
        }
    }
}

impl DotaPlayer {
    pub open spec fn model(&self) -> DotaPlayerModel {
        DotaPlayerModel {
            name: self.name@,
            image: self.image.model(),
            image_url: self.image_url@,
            wins: self.wins@,
            losses: self.losses@,
        }
    }
}

impl DotaMatch {
    pub open spec fn model(&self) -> Seq<DotaPlayerModel> {
        Seq::new(self.players@.len(), |i: int| self.players@[i].model())
    }
}

impl ProfileReply {
    /// The name that the service gave, if it answered with one.
    pub open spec fn personaname(&self) -> Option<Seq<char>> {
        match self {
            ProfileReply::Answered(Some(profile)) => profile.personaname.deep_view(),
            _ => None,
        }
    }

    /// The address of the picture that the service gave, if it answered with
    /// one.
    pub open spec fn avatarfull(&self) -> Option<Seq<char>> {
        match self {
            ProfileReply::Answered(Some(profile)) => profile.avatarfull.deep_view(),
            _ => None,
        }
    }
}

/// The card of a player of whom nothing is known.
pub open spec fn spec_private_player() -> DotaPlayerModel {
    DotaPlayerModel {
        name: "Private Player"@,
        image: ImageModel::Path(DEFAULT_IMAGE@),
        image_url: "None"@,
        wins: "0"@,
        losses: "0"@,
    }
}

/// A count as a card shows it: the number, or nothing where there is none.
pub open spec fn spec_count_text(count: Option<i32>) -> Seq<char> {
    match count {
        Some(n) => decimal_text(n as int),
        None => Seq::empty(),
    }
}

/// The address from which the picture of a card is downloaded; `None` where
/// the profile request failed, since the card is then not filled at all.
pub open spec fn spec_image_url(reply: ProfileReply) -> Option<Seq<char>> {
    match reply {
        ProfileReply::Failed => None,
        ProfileReply::Answered(_) => Some(
            match reply.avatarfull() {
                Some(url) => url,
                None => Seq::empty(),
            },
        ),
    }
}

/// The card that the answers of the service make.
///
/// Where the profile request failed the card stays that of a player of whom
/// nothing is known. Else each part that is missing gets its stand-in: the
/// name of a private profile, the default picture, empty counts.
pub open spec fn spec_player_info(
    reply: ProfileReply,
    image: Option<Seq<u8>>,
    win_loss: Option<WinLoss>,
) -> DotaPlayerModel {
    match reply {
        ProfileReply::Failed => spec_private_player(),
        ProfileReply::Answered(_) => DotaPlayerModel {
            name: match reply.personaname() {
                Some(name) => name,
                None => "Private Profile"@,
            },
            image: match image {
                Some(bytes) => ImageModel::Memory(bytes),
                None => ImageModel::Path(DEFAULT_IMAGE@),
            },
            image_url: spec_image_url(reply).unwrap(),
            wins: match win_loss {
                Some(record) => spec_count_text(record.win),
                None => Seq::empty(),
            },
            losses: match win_loss {
                Some(record) => spec_count_text(record.lose),
                None => Seq::empty(),
            },
        },
    }
}

/// How `n` cards are laid out: up to four in one row, five to ten in a full
/// top row and a bottom row, more than ten not at all.
pub open spec fn spec_rows(n: nat) -> RowLayout {
    if n == 0 {
        RowLayout { looking: true, top: 0, bottom: 0 }
    } else if n < TOP_ROW_CARDS {
        RowLayout { looking: false, top: n as usize, bottom: 0 }
    } else if n <= MAX_CARDS {
        RowLayout { looking: false, top: TOP_ROW_CARDS, bottom: (n - TOP_ROW_CARDS) as usize }
    } else {
        RowLayout { looking: false, top: 0, bottom: 0 }
    }
}

/// The requests that a message sets off: one for each player of a lobby that
/// was found, in the order of the lobby.
pub open spec fn spec_requests(message: Message) -> Seq<i32> {
    match message {
        Message::MatchFound(player_ids) => player_ids@,
        _ => Seq::empty(),
    }
}

/// The cards after a message: a card that is ready joins the others at the
/// end.
pub open spec fn spec_cards_after(cards: Seq<DotaPlayerModel>, message: Message) -> Seq<
    DotaPlayerModel,
> {
    match message {
        Message::PlayerLoaded(player) => cards.push(player.model()),
        _ => cards,
    }
}

/// A count as a card shows it.
fn count_text(count: Option<i32>) -> (r: String)
    ensures
        r@ == spec_count_text(count),
{
    match count {
        Some(n) => i64_to_string(n as i64),
        None => String::new(),
    }
}

impl DotaPlayer {
    /// The card of a player of whom nothing is known.
    pub fn new() -> (r: DotaPlayer)
        ensures
            r.model() == spec_private_player(),
    {
        DotaPlayer {
            name: "Private Player".to_owned(),
            image: PlayerImage::Path(DEFAULT_IMAGE.to_owned()),
            image_url: "None".to_owned(),
            wins: "0".to_owned(),
            losses: "0".to_owned(),
        }
    }

    /// The address from which the picture of a card is downloaded.
    pub fn image_url_of(reply: &ProfileReply) -> (r: Option<String>)
        ensures
            r.deep_view() == spec_image_url(*reply),
    {
        match reply {
            ProfileReply::Failed => None,
            ProfileReply::Answered(Some(Profile { avatarfull: Some(url), .. })) => Some(
                url.clone(),
            ),
            ProfileReply::Answered(_) => Some(String::new()),
        }
    }

    /// Fills a card from what the service answered: the profile, the picture
    /// that was downloaded from the address in it, and the wins and losses.
    pub fn fetch_player_info(
        reply: ProfileReply,
        image: Option<Vec<u8>>,
        win_loss: Option<WinLoss>,
    ) -> (r: DotaPlayer)
        ensures
            r.model() == spec_player_info(
                reply,
                match image {
                    Some(bytes) => Some(bytes@),
                    None => None,
                },
                win_loss,
            ),
    {
        let mut player = DotaPlayer::new();
        let profile = match reply {
            ProfileReply::Failed => {
                return player;
            },
            ProfileReply::Answered(Some(profile)) => profile,
            ProfileReply::Answered(None) => Profile { personaname: None, avatarfull: None },
        };
        player.name = match profile.personaname {
            Some(name) => name,
            None => "Private Profile".to_owned(),
        };
        player.image_url = match profile.avatarfull {
            Some(url) => url,
            None => String::new(),
        };
        player.image = match image {
            Some(bytes) => PlayerImage::Memory(bytes),
            None => PlayerImage::Path(DEFAULT_IMAGE.to_owned()),
        };
        let record = match win_loss {
            Some(record) => record,
            None => WinLoss { win: None, lose: None },
        };
        player.wins = count_text(record.win);
        player.losses = count_text(record.lose);
        player
    }

    /// The texts of this card.
    pub fn view(&self) -> (card: PlayerCard)
        ensures
            card.name@ == self.name@,
            card.wins@ == "Wins "@ + self.wins@,
            card.losses@ == "Loses "@ + self.losses@,
    {
        PlayerCard {
            name: self.name.clone(),
            wins: "Wins ".to_owned().concat(self.wins.as_str()),
            losses: "Loses ".to_owned().concat(self.losses.as_str()),
        }
    }
}

impl DotaMatch {
    /// A lobby of which no player is loaded yet.
    pub fn new() -> (r: DotaMatch)
        ensures
            r.model() == Seq::<DotaPlayerModel>::empty(),
    {
        let r = DotaMatch { players: Vec::new() };
        assert(r.model() =~= Seq::<DotaPlayerModel>::empty());
        r
    }
}

impl Default for DotaMatch {
    fn default() -> (r: DotaMatch)
        ensures
            r.model() == Seq::<DotaPlayerModel>::empty(),
    {
        DotaMatch::new()
    }
}

impl Stamp {
    /// The window as it opens: no card yet.
    pub fn new() -> (r: Stamp)
        ensures
            r.dota_match.model() == Seq::<DotaPlayerModel>::empty(),
    {
        Stamp { dota_match: DotaMatch::new() }
    }

    /// The title of the window.
    pub fn title(&self) -> (r: String)
        ensures
            r@ == "Dota 2 Stamp"@,
    {
        "Dota 2 Stamp".to_owned()
    }

    /// Takes a message. Gives the players whose cards are to be loaded next,
    /// and keeps the card that a message brings.
    pub fn update(&mut self, message: Message) -> (requests: Vec<i32>)
        ensures
            requests@ == spec_requests(message),
            final(self).dota_match.model() == spec_cards_after(
                old(self).dota_match.model(),
                message,
            ),
    {
        match message {
            Message::LookingForMatch => Vec::new(),
            Message::MatchFound(player_ids) => player_ids,
            Message::PlayerLoaded(player) => {
                self.dota_match.players.push(player);
                assert(final(self).dota_match.model() =~= old(self).dota_match.model().push(
                    player.model(),
                ));
                Vec::new()
            },
        }
    }

    /// How the cards are laid out.
    pub fn view(&self) -> (rows: RowLayout)
        ensures
            rows == spec_rows(self.dota_match.model().len()),
    {
        let n: usize = self.dota_match.players.len();
        if n == 0 {
            RowLayout { looking: true, top: 0, bottom: 0 }
        } else if n < TOP_ROW_CARDS {
            RowLayout { looking: false, top: n, bottom: 0 }
        } else if n <= MAX_CARDS {
            RowLayout { looking: false, top: TOP_ROW_CARDS, bottom: n - TOP_ROW_CARDS }
        } else {
            RowLayout { looking: false, top: 0, bottom: 0 }
        }
    }
}

/// The rows hold every card once as long as there are at most ten, and the
/// top row is filled before the bottom row gets a card.
pub proof fn lemma_rows_hold_all_cards(n: nat)
    ensures
        n <= MAX_CARDS ==> spec_rows(n).top + spec_rows(n).bottom == n,
        n > MAX_CARDS ==> spec_rows(n).top + spec_rows(n).bottom == 0,
        spec_rows(n).top <= TOP_ROW_CARDS,
        spec_rows(n).bottom > 0 ==> spec_rows(n).top == TOP_ROW_CARDS,
        spec_rows(n).looking <==> n == 0,
{
}

} // verus!
