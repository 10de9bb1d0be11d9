use party_league::api::{ApiErrorResponse, ApiResponse, PaginationMeta};
use party_league::date_time::DateTime;
use party_league::domain::{Community, Party, Player, Team};
use party_league::interfaces::{IResultGetCommunity, IResultGetParty};

#[test]
fn success_envelope_keeps_data_and_skips_pagination() {
    let resp = ApiResponse::success(vec![1, 2, 3]);
    assert_eq!(resp.data, vec![1, 2, 3]);
    assert!(resp.meta.is_none());
    assert!(resp.timestamp.contains('T'));
}

#[test]
fn pagination_envelope_carries_meta() {
    let meta = PaginationMeta {
        total: 10,
        page: 1,
        limit: 5,
        total_pages: 2,
        has_next_page: true,
        has_previous_page: false,
    };
    let resp = ApiResponse::with_pagination("payload", meta);
    assert_eq!(resp.data, "payload");
    let meta = resp.meta.unwrap();
    assert_eq!(meta.total, 10);
    assert!(meta.has_next_page);
}

#[test]
fn error_payload_keeps_its_message() {
    let err = ApiErrorResponse::new(String::from("Community not found"));
    assert_eq!(err.message.as_str(), "Community not found");
    assert!(err.timestamp.contains('T'));
}

#[test]
fn clock_reads_do_not_go_backwards() {
    let first = DateTime::now();
    let second = DateTime::now();
    assert!(second >= first);
}

#[test]
fn community_read_model_renders_timestamps_as_decimal_text() {
    let player = Player {
        id: 4,
        nickname: String::from("nick1"),
        community_id: 1,
        created_at: 123,
        updated_at: 456,
        enabled: true,
    };
    let team = Team {
        id: 7,
        name: String::from("Red"),
        players: vec![player.clone()],
        community_id: 1,
        created_at: -5,
        updated_at: 0,
        enabled: true,
    };
    let community = Community {
        id: 1,
        name: String::from("Alpha"),
        players: vec![player],
        teams: vec![team],
        created_at: 99,
        updated_at: 100,
        enabled: true,
    };
    let rendered = IResultGetCommunity::new(community);
    assert_eq!(rendered.id, 1);
    assert_eq!(rendered.name.as_str(), "Alpha");
    assert_eq!(rendered.created_at.as_str(), "99");
    assert_eq!(rendered.updated_at.as_str(), "100");
    assert_eq!(rendered.players.len(), 1);
    assert_eq!(rendered.players[0].created_at.as_str(), "123");
    assert_eq!(rendered.players[0].updated_at.as_str(), "456");
    assert_eq!(rendered.teams.len(), 1);
    assert_eq!(rendered.teams[0].created_at.as_str(), "-5");
    assert_eq!(rendered.teams[0].updated_at.as_str(), "0");
    assert_eq!(rendered.teams[0].players[0].nickname.as_str(), "nick1");
}

#[test]
fn party_read_model_keeps_winner_and_team_order() {
    let red = Team {
        id: 1,
        name: String::from("Red"),
        players: Vec::new(),
        community_id: 1,
        created_at: 10,
        updated_at: 10,
        enabled: true,
    };
    let blue = Team {
        id: 2,
        name: String::from("Blue"),
        players: Vec::new(),
        community_id: 1,
        created_at: 11,
        updated_at: 11,
        enabled: true,
    };
    let party = Party {
        id: 3,
        community_id: 1,
        game_name: String::from("cs"),
        teams: vec![red, blue],
        team_winner_id: Some(2),
        finished_at: Some(50),
        created_at: 40,
        updated_at: 50,
        enabled: true,
    };
    let rendered = IResultGetParty::new(party);
    assert_eq!(rendered.id, 3);
    assert_eq!(rendered.game_name.as_str(), "cs");
    assert_eq!(rendered.team_winner_id, Some(2));
    assert_eq!(rendered.created_at.as_str(), "40");
    assert_eq!(rendered.teams.len(), 2);
    assert_eq!(rendered.teams[0].name.as_str(), "Red");
    assert_eq!(rendered.teams[1].name.as_str(), "Blue");
}
