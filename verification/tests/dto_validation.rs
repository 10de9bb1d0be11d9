use party_league::dto::{
    AddPlayersIntoTeamDto, CreateCommunityDto, CreatePartyDto, CreatePlayerIntoCommunityDto,
    CreateTeamIntoCommunityDto, EndPartyDto,
};

#[test]
fn community_name_length_rule() {
    let ok = CreateCommunityDto { name: String::from("Alpha") };
    assert!(ok.validate().is_ok());
    let empty = CreateCommunityDto { name: String::new() };
    let msgs = empty.validate().unwrap_err();
    assert_eq!(msgs.len(), 1);
    assert_eq!(msgs[0].as_str(), "Name must be between 1 and 50 characters");
    let long = CreateCommunityDto { name: "x".repeat(51) };
    assert!(long.validate().is_err());
    let fifty = CreateCommunityDto { name: "x".repeat(50) };
    assert!(fifty.validate().is_ok());
}

#[test]
fn player_dto_collects_every_violation() {
    let bad = CreatePlayerIntoCommunityDto { nickname: String::new(), community_id: 0 };
    let msgs = bad.validate().unwrap_err();
    assert_eq!(msgs.len(), 2);
    assert_eq!(msgs[0].as_str(), "Nickname must be between 1 and 50 characters");
    assert_eq!(msgs[1].as_str(), "Community ID must be greater than 0");
    let good = CreatePlayerIntoCommunityDto { nickname: String::from("nick1"), community_id: 1 };
    assert!(good.validate().is_ok());
}

#[test]
fn team_dto_checks_name_and_community() {
    let bad = CreateTeamIntoCommunityDto { name: "x".repeat(60), community_id: -4 };
    let msgs = bad.validate().unwrap_err();
    assert_eq!(msgs.len(), 2);
    assert_eq!(msgs[1].as_str(), "Community ID must be a positive integer");
    let good = CreateTeamIntoCommunityDto { name: String::from("Red"), community_id: 2 };
    assert!(good.validate().is_ok());
}

#[test]
fn party_dto_rejects_blank_game_name_and_small_team_list() {
    let bad = CreatePartyDto {
        game_name: String::from("   "),
        teams_ids: vec![1],
        community_id: 0,
    };
    let msgs = bad.validate().unwrap_err();
    assert_eq!(msgs.len(), 3);
    assert_eq!(msgs[0].as_str(), "Community ID must be greater than 0");
    assert_eq!(msgs[1].as_str(), "Game name cannot be empty");
    assert_eq!(msgs[2].as_str(), "There must be at least two teams");
    let nonpositive = CreatePartyDto {
        game_name: String::from("cs"),
        teams_ids: vec![1, 0],
        community_id: 1,
    };
    let msgs = nonpositive.validate().unwrap_err();
    assert_eq!(msgs.len(), 1);
    assert_eq!(msgs[0].as_str(), "All team IDs must be greater than 0");
    let good = CreatePartyDto {
        game_name: String::from("cs"),
        teams_ids: vec![1, 2],
        community_id: 1,
    };
    assert!(good.validate().is_ok());
}

#[test]
fn add_players_dto_rules() {
    let bad = AddPlayersIntoTeamDto { team_id: 0, players_ids: Vec::new() };
    let msgs = bad.validate().unwrap_err();
    assert_eq!(msgs.len(), 2);
    assert_eq!(msgs[0].as_str(), "Team ID must be greater than 0");
    assert_eq!(msgs[1].as_str(), "Player IDs cannot be empty");
    let negative = AddPlayersIntoTeamDto { team_id: 3, players_ids: vec![1, -2] };
    let msgs = negative.validate().unwrap_err();
    assert_eq!(msgs.len(), 1);
    assert_eq!(msgs[0].as_str(), "All player IDs must be greater than 0");
    let good = AddPlayersIntoTeamDto { team_id: 3, players_ids: vec![1, 2] };
    assert!(good.validate().is_ok());
}

#[test]
fn end_party_dto_rules() {
    let bad = EndPartyDto { party_id: -1, team_winner_id: Some(0) };
    let msgs = bad.validate().unwrap_err();
    assert_eq!(msgs.len(), 2);
    assert_eq!(msgs[0].as_str(), "Party ID must be greater than 0");
    assert_eq!(msgs[1].as_str(), "Team winner ID must be greater than 0");
    let no_winner = EndPartyDto { party_id: 4, team_winner_id: None };
    assert!(no_winner.validate().is_ok());
    let good = EndPartyDto { party_id: 4, team_winner_id: Some(2) };
    assert!(good.validate().is_ok());
}
