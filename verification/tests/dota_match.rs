use stamp::dota_match::{
    DotaMatch, DotaPlayer, Message, PlayerImage, Profile, ProfileReply, RowLayout, Stamp,
    WinLoss, CARD_IMAGE_SIZE, COLUMN_SPACING, DEFAULT_IMAGE, ROW_SPACING, WIN_LOSS_LIMIT,
};
use stamp::style::{player_card, Container, ContainerStyle, Rgb};

fn answered(name: Option<&str>, avatar: Option<&str>) -> ProfileReply {
    ProfileReply::Answered(Some(Profile {
        personaname: name.map(|s| s.to_string()),
        avatarfull: avatar.map(|s| s.to_string()),
    }))
}

fn window_with(n: usize) -> Stamp {
    let mut stamp = Stamp::new();
    for _ in 0..n {
        stamp.update(Message::PlayerLoaded(DotaPlayer::new()));
    }
    stamp
}

#[test]
fn an_unknown_player_has_a_private_card() {
    let player = DotaPlayer::new();
    assert_eq!(player.name, "Private Player");
    assert_eq!(player.image, PlayerImage::Path("resources/default.png".to_string()));
    assert_eq!(player.image_url, "None");
    assert_eq!(player.wins, "0");
    assert_eq!(player.losses, "0");
    assert_eq!(DEFAULT_IMAGE, "resources/default.png");
}

#[test]
fn a_failed_profile_request_leaves_the_private_card() {
    let player = DotaPlayer::fetch_player_info(
        ProfileReply::Failed,
        Some(vec![1, 2, 3]),
        Some(WinLoss { win: Some(4), lose: Some(5) }),
    );
    assert_eq!(player, DotaPlayer::new());
    assert_eq!(DotaPlayer::image_url_of(&ProfileReply::Failed), None);
}

#[test]
fn a_full_answer_fills_the_card() {
    let reply = answered(Some("Leon"), Some("https://cdn/full.jpg"));
    assert_eq!(DotaPlayer::image_url_of(&reply), Some("https://cdn/full.jpg".to_string()));
    let player = DotaPlayer::fetch_player_info(
        reply,
        Some(vec![0xff, 0xd8]),
        Some(WinLoss { win: Some(12), lose: Some(8) }),
    );
    assert_eq!(
        player,
        DotaPlayer {
            name: "Leon".to_string(),
            image: PlayerImage::Memory(vec![0xff, 0xd8]),
            image_url: "https://cdn/full.jpg".to_string(),
            wins: "12".to_string(),
            losses: "8".to_string(),
        }
    );
}

#[test]
fn missing_parts_get_their_stand_ins() {
    let reply = answered(None, None);
    assert_eq!(DotaPlayer::image_url_of(&reply), Some(String::new()));
    let player = DotaPlayer::fetch_player_info(reply, None, None);
    assert_eq!(
        player,
        DotaPlayer {
            name: "Private Profile".to_string(),
            image: PlayerImage::Path(DEFAULT_IMAGE.to_string()),
            image_url: String::new(),
            wins: String::new(),
            losses: String::new(),
        }
    );
    let no_profile = DotaPlayer::fetch_player_info(
        ProfileReply::Answered(None),
        None,
        Some(WinLoss { win: None, lose: Some(-2) }),
    );
    assert_eq!(no_profile.name, "Private Profile");
    assert_eq!(no_profile.image_url, "");
    assert_eq!(no_profile.wins, "");
    assert_eq!(no_profile.losses, "-2");
    assert_eq!(DotaPlayer::image_url_of(&ProfileReply::Answered(None)), Some(String::new()));
}

#[test]
fn a_card_shows_name_wins_and_losses() {
    let player = DotaPlayer::fetch_player_info(
        answered(Some("Ana"), None),
        None,
        Some(WinLoss { win: Some(20), lose: Some(0) }),
    );
    let card = player.view();
    assert_eq!(card.name, "Ana");
    assert_eq!(card.wins, "Wins 20");
    assert_eq!(card.losses, "Loses 0");
    let private = DotaPlayer::new().view();
    assert_eq!(private.name, "Private Player");
    assert_eq!(private.wins, "Wins 0");
    assert_eq!(private.losses, "Loses 0");
    assert_eq!(CARD_IMAGE_SIZE, 100);
    assert_eq!(WIN_LOSS_LIMIT, 20);
}

#[test]
fn the_window_opens_without_cards() {
    let stamp = Stamp::new();
    assert!(stamp.dota_match.players.is_empty());
    assert_eq!(stamp.title(), "Dota 2 Stamp");
    assert_eq!(DotaMatch::new(), DotaMatch::default());
    assert_eq!(stamp.view(), RowLayout { looking: true, top: 0, bottom: 0 });
}

#[test]
fn a_lobby_sets_off_one_request_for_each_player() {
    let mut stamp = Stamp::new();
    assert_eq!(stamp.update(Message::LookingForMatch), Vec::<i32>::new());
    assert_eq!(
        stamp.update(Message::MatchFound(vec![416098293, 926498844, 193296043])),
        vec![416098293, 926498844, 193296043]
    );
    assert!(stamp.dota_match.players.is_empty());
}

#[test]
fn a_loaded_card_joins_the_others_at_the_end() {
    let mut stamp = Stamp::new();
    let first = DotaPlayer::fetch_player_info(answered(Some("A"), None), None, None);
    let second = DotaPlayer::fetch_player_info(answered(Some("B"), None), None, None);
    assert_eq!(stamp.update(Message::PlayerLoaded(first)), Vec::<i32>::new());
    assert_eq!(stamp.update(Message::PlayerLoaded(second)), Vec::<i32>::new());
    assert_eq!(stamp.dota_match.players.len(), 2);
    assert_eq!(stamp.dota_match.players[0].name, "A");
    assert_eq!(stamp.dota_match.players[1].name, "B");
}

#[test]
fn up_to_four_cards_stand_in_one_row() {
    assert_eq!(window_with(1).view(), RowLayout { looking: false, top: 1, bottom: 0 });
    assert_eq!(window_with(4).view(), RowLayout { looking: false, top: 4, bottom: 0 });
}

#[test]
fn five_to_ten_cards_stand_in_two_rows() {
    assert_eq!(window_with(5).view(), RowLayout { looking: false, top: 5, bottom: 0 });
    assert_eq!(window_with(6).view(), RowLayout { looking: false, top: 5, bottom: 1 });
    assert_eq!(window_with(10).view(), RowLayout { looking: false, top: 5, bottom: 5 });
    assert_eq!(ROW_SPACING, 10);
    assert_eq!(COLUMN_SPACING, 10);
}

#[test]
fn more_than_ten_cards_are_not_shown() {
    assert_eq!(window_with(11).view(), RowLayout { looking: false, top: 0, bottom: 0 });
}

#[test]
fn the_window_is_white_on_black() {
    assert_eq!(
        Container.style(),
        ContainerStyle {
            background: Some(Rgb { red: 0, green: 0, blue: 0 }),
            text_color: Some(Rgb { red: 255, green: 255, blue: 255 }),
            border_color: None,
        }
    );
}

#[test]
fn a_card_is_white_on_red_with_a_border() {
    assert_eq!(
        player_card.style(),
        ContainerStyle {
            background: Some(Rgb::red()),
            text_color: Some(Rgb::white()),
            border_color: Some(Rgb::white()),
        }
    );
    assert_eq!(Rgb::red(), Rgb { red: 255, green: 0, blue: 0 });
    assert_eq!(Rgb::black(), Rgb { red: 0, green: 0, blue: 0 });
}
