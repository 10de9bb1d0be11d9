use party_league::domain::{Community, Party, Player, Team};

#[test]
fn new_entities_start_enabled_with_unset_id() {
    let community = Community::new(String::from("Alpha"));
    assert_eq!(community.id, 0);
    assert!(community.is_enabled());
    assert!(community.players.is_empty());
    assert!(community.teams.is_empty());
    assert_eq!(community.created_at, community.updated_at);

    let player = Player::new(String::from("nick1"), 1);
    assert_eq!(player.id, 0);
    assert!(player.is_enabled());
    assert_eq!(player.community_id, 1);

    let team = Team::new(String::from("Red"), 1);
    assert_eq!(team.id, 0);
    assert!(team.players.is_empty());

    let party = Party::new(String::from("cs"), Vec::new(), 1);
    assert_eq!(party.id, 0);
    assert!(party.team_winner_id.is_none());
    assert!(!party.is_finished());
    assert!(party.is_enabled());
}

#[test]
fn add_player_is_idempotent() {
    let mut team = Team::new(String::from("Red"), 1);
    let mut player = Player::new(String::from("nick1"), 1);
    player.id = 5;
    team.add_player(player.clone());
    team.add_player(player);
    assert_eq!(team.players.len(), 1);
    assert_eq!(team.players[0].id, 5);
    assert_eq!(team.players[0].nickname.as_str(), "nick1");
}

#[test]
fn add_player_appends_distinct_members_in_order() {
    let mut team = Team::new(String::from("Red"), 1);
    let mut first = Player::new(String::from("nick1"), 1);
    first.id = 5;
    let mut second = Player::new(String::from("nick2"), 1);
    second.id = 6;
    team.add_player(first);
    team.add_player(second);
    assert_eq!(team.players.len(), 2);
    assert_eq!(team.players[0].id, 5);
    assert_eq!(team.players[1].id, 6);
}

#[test]
fn disable_clears_the_enabled_flag() {
    let mut community = Community::new(String::from("Alpha"));
    community.disable();
    assert!(!community.is_enabled());

    let mut player = Player::new(String::from("nick1"), 1);
    player.disable();
    assert!(!player.is_enabled());

    let mut party = Party::new(String::from("cs"), Vec::new(), 1);
    party.disable();
    assert!(!party.is_enabled());
}

#[test]
fn end_records_winner_and_finish_time() {
    let mut party = Party::new(String::from("cs"), Vec::new(), 1);
    assert!(!party.is_finished());
    party.end(Some(10));
    assert!(party.is_finished());
    assert_eq!(party.team_winner_id, Some(10));
}

#[test]
fn end_without_winner_still_finishes() {
    let mut party = Party::new(String::from("cs"), Vec::new(), 1);
    party.end(None);
    assert!(party.is_finished());
    assert!(party.team_winner_id.is_none());
}
