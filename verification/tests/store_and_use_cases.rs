use party_league::dto::{
    AddPlayersIntoTeamDto, CreateCommunityDto, CreatePartyDto, CreatePlayerIntoCommunityDto,
    CreateTeamIntoCommunityDto, EndPartyDto,
};
use party_league::error::DomainError;
use party_league::filter::IGetPartiesByParams;
use party_league::query::{build_dynamic_query, BindValue};
use party_league::store::MemoryStore;
use party_league::usecases::{
    add_players_into_team, create_community, create_party, create_player_into_community,
    create_team_into_community, delete_community, delete_party, delete_player_of_community,
    end_party, get_communities, get_community_by_id, get_parties, get_party_by_id,
};

const BASE: &str = "SELECT id, community_id, game_name, team_winner_id, finished_at, created_at, updated_at, enabled FROM parties";

/// Community "Alpha" (id 1) with players nick1 (id 1) and nick2 (id 2) and
/// teams Red (id 1, holding nick1) and Blue (id 2, empty).
fn alpha_fixture() -> MemoryStore {
    let mut store = MemoryStore::new();
    create_community(&mut store, CreateCommunityDto { name: String::from("Alpha") }).unwrap();
    create_player_into_community(
        &mut store,
        CreatePlayerIntoCommunityDto { nickname: String::from("nick1"), community_id: 1 },
    )
    .unwrap();
    create_player_into_community(
        &mut store,
        CreatePlayerIntoCommunityDto { nickname: String::from("nick2"), community_id: 1 },
    )
    .unwrap();
    create_team_into_community(
        &mut store,
        CreateTeamIntoCommunityDto { name: String::from("Red"), community_id: 1 },
    )
    .unwrap();
    create_team_into_community(
        &mut store,
        CreateTeamIntoCommunityDto { name: String::from("Blue"), community_id: 1 },
    )
    .unwrap();
    add_players_into_team(&mut store, AddPlayersIntoTeamDto { team_id: 1, players_ids: vec![1] })
        .unwrap();
    store
}

#[test]
fn end_to_end_scenario() {
    let store = alpha_fixture();

    // With no parties yet, the community filter builds one placeholder and
    // the in-memory query answers an empty sequence.
    let params = IGetPartiesByParams {
        community_id: Some(1),
        game_name: None,
        created_at: None,
        updated_at: None,
        teams_ids: None,
        team_winner_ids: None,
    };
    let (query, binds) = build_dynamic_query(BASE, &params);
    let mut expected = String::from(BASE);
    expected.push_str(" WHERE community_id = $1");
    assert_eq!(query.as_str(), expected.as_str());
    assert_eq!(binds.len(), 1);
    assert!(matches!(binds[0], BindValue::Id(1)));
    assert!(store.get_parties_by_params(&params).is_empty());

    // Create the party between Red and Blue, then find it by team id.
    let mut store = store;
    create_party(
        &mut store,
        CreatePartyDto {
            game_name: String::from("cs"),
            teams_ids: vec![1, 2],
            community_id: 1,
        },
    )
    .unwrap();
    let by_team = IGetPartiesByParams {
        community_id: None,
        game_name: None,
        created_at: None,
        updated_at: None,
        teams_ids: Some(vec![1]),
        team_winner_ids: None,
    };
    let parties = store.get_parties_by_params(&by_team);
    assert_eq!(parties.len(), 1);
    let party = &parties[0];
    assert_eq!(party.game_name.as_str(), "cs");
    assert_eq!(party.community_id, 1);
    assert_eq!(party.teams.len(), 2);
    assert_eq!(party.teams[0].name.as_str(), "Red");
    assert_eq!(party.teams[0].players.len(), 1);
    assert_eq!(party.teams[0].players[0].nickname.as_str(), "nick1");
    assert_eq!(party.teams[1].name.as_str(), "Blue");
    assert!(party.teams[1].players.is_empty());
}

#[test]
fn hydration_counts_and_disabled_exclusion() {
    let mut store = alpha_fixture();
    add_players_into_team(&mut store, AddPlayersIntoTeamDto { team_id: 2, players_ids: vec![2] })
        .unwrap();

    // Two enabled teams with one player each.
    let community = store.get_community_by_id(1).unwrap();
    assert_eq!(community.teams.len(), 2);
    assert_eq!(community.players.len(), 2);
    assert_eq!(community.teams[0].players.len(), 1);
    assert_eq!(community.teams[1].players.len(), 1);

    // A disabled player leaves every roster and the community projection.
    delete_player_of_community(&mut store, 1).unwrap();
    let community = store.get_community_by_id(1).unwrap();
    assert_eq!(community.players.len(), 1);
    assert_eq!(community.players[0].nickname.as_str(), "nick2");
    assert!(community.teams[0].players.is_empty());

    // A disabled player stays addressable by direct id look-up.
    let disabled = store.get_player_by_id(1).unwrap();
    assert!(!disabled.enabled);
}

#[test]
fn party_keeps_disabled_team_reference() {
    let mut store = alpha_fixture();
    create_party(
        &mut store,
        CreatePartyDto {
            game_name: String::from("cs"),
            teams_ids: vec![1, 2],
            community_id: 1,
        },
    )
    .unwrap();

    // Disable team Blue directly in the store, as a later save would.
    let mut blue = store.get_team_by_id(2).unwrap();
    blue.enabled = false;
    store.save_team(&blue).unwrap();

    // The disabled team no longer lists under its community...
    let community = store.get_community_by_id(1).unwrap();
    assert_eq!(community.teams.len(), 1);
    assert_eq!(community.teams[0].name.as_str(), "Red");

    // ...but the party fetched by id still references it.
    let party = store.get_party_by_id(1).unwrap();
    assert_eq!(party.teams.len(), 2);
    assert_eq!(party.teams[1].name.as_str(), "Blue");
    assert!(!party.teams[1].enabled);
}

#[test]
fn terminal_transitions_reject_a_second_disable() {
    let mut store = alpha_fixture();
    assert!(delete_community(&mut store, 1).is_ok());
    assert!(matches!(
        delete_community(&mut store, 1),
        Err(DomainError::PreconditionFailed)
    ));
    assert!(matches!(delete_community(&mut store, 99), Err(DomainError::NotFound)));

    assert!(delete_player_of_community(&mut store, 2).is_ok());
    assert!(matches!(
        delete_player_of_community(&mut store, 2),
        Err(DomainError::PreconditionFailed)
    ));

    create_party(
        &mut store,
        CreatePartyDto {
            game_name: String::from("cs"),
            teams_ids: vec![1, 2],
            community_id: 1,
        },
    )
    .unwrap();
    assert!(delete_party(&mut store, 1).is_ok());
    assert!(matches!(delete_party(&mut store, 1), Err(DomainError::PreconditionFailed)));
}

#[test]
fn ending_twice_is_rejected() {
    let mut store = alpha_fixture();
    create_party(
        &mut store,
        CreatePartyDto {
            game_name: String::from("cs"),
            teams_ids: vec![1, 2],
            community_id: 1,
        },
    )
    .unwrap();
    assert!(end_party(&mut store, EndPartyDto { party_id: 1, team_winner_id: Some(1) }).is_ok());
    let party = store.get_party_by_id(1).unwrap();
    assert!(party.is_finished());
    assert_eq!(party.team_winner_id, Some(1));
    assert!(matches!(
        end_party(&mut store, EndPartyDto { party_id: 1, team_winner_id: None }),
        Err(DomainError::PreconditionFailed)
    ));
}

#[test]
fn winner_must_belong_to_the_party() {
    let mut store = alpha_fixture();
    create_team_into_community(
        &mut store,
        CreateTeamIntoCommunityDto { name: String::from("Green"), community_id: 1 },
    )
    .unwrap();
    create_party(
        &mut store,
        CreatePartyDto {
            game_name: String::from("cs"),
            teams_ids: vec![1, 2],
            community_id: 1,
        },
    )
    .unwrap();
    // Green exists but is not one of the party's teams.
    assert!(matches!(
        end_party(&mut store, EndPartyDto { party_id: 1, team_winner_id: Some(3) }),
        Err(DomainError::PreconditionFailed)
    ));
    // An unknown team is a missing entity, not a precondition failure.
    assert!(matches!(
        end_party(&mut store, EndPartyDto { party_id: 1, team_winner_id: Some(42) }),
        Err(DomainError::NotFound)
    ));
    // No winner always ends an in-progress party.
    assert!(end_party(&mut store, EndPartyDto { party_id: 1, team_winner_id: None }).is_ok());
    let party = store.get_party_by_id(1).unwrap();
    assert!(party.is_finished());
    assert!(party.team_winner_id.is_none());
}

#[test]
fn uniqueness_probes_reject_duplicates() {
    let mut store = alpha_fixture();
    assert!(matches!(
        create_community(&mut store, CreateCommunityDto { name: String::from("Alpha") }),
        Err(DomainError::PreconditionFailed)
    ));
    assert!(matches!(
        create_community(&mut store, CreateCommunityDto { name: String::new() }),
        Err(DomainError::PreconditionFailed)
    ));
    assert!(matches!(
        create_player_into_community(
            &mut store,
            CreatePlayerIntoCommunityDto { nickname: String::from("nick1"), community_id: 1 },
        ),
        Err(DomainError::PreconditionFailed)
    ));
    assert!(matches!(
        create_player_into_community(
            &mut store,
            CreatePlayerIntoCommunityDto { nickname: String::from("nick3"), community_id: 7 },
        ),
        Err(DomainError::NotFound)
    ));
    assert!(matches!(
        create_team_into_community(
            &mut store,
            CreateTeamIntoCommunityDto { name: String::from("Red"), community_id: 1 },
        ),
        Err(DomainError::PreconditionFailed)
    ));
}

#[test]
fn partial_match_reports_exactly_the_unknown_ids() {
    let mut store = alpha_fixture();
    let r = add_players_into_team(
        &mut store,
        AddPlayersIntoTeamDto { team_id: 1, players_ids: vec![1, 50, 2, 60] },
    );
    match r {
        Err(DomainError::PartialMatch(missing)) => assert_eq!(missing, vec![50, 60]),
        _ => panic!("expected a partial match"),
    }
    // The found players were still added despite the partial failure.
    let team = store.get_team_by_id(1).unwrap();
    assert_eq!(team.players.len(), 2);

    // A request in which nothing resolves is not found and changes nothing.
    assert!(matches!(
        add_players_into_team(
            &mut store,
            AddPlayersIntoTeamDto { team_id: 1, players_ids: vec![50, 60] },
        ),
        Err(DomainError::NotFound)
    ));
    assert!(matches!(
        add_players_into_team(
            &mut store,
            AddPlayersIntoTeamDto { team_id: 42, players_ids: vec![1] },
        ),
        Err(DomainError::NotFound)
    ));
}

#[test]
fn membership_rows_are_never_duplicated() {
    let mut store = alpha_fixture();
    let before = store.team_players.len();
    add_players_into_team(&mut store, AddPlayersIntoTeamDto { team_id: 1, players_ids: vec![1] })
        .unwrap();
    assert_eq!(store.team_players.len(), before);
    add_players_into_team(&mut store, AddPlayersIntoTeamDto { team_id: 1, players_ids: vec![2] })
        .unwrap();
    assert_eq!(store.team_players.len(), before + 1);
}

#[test]
fn read_use_cases_render_aggregates() {
    let mut store = alpha_fixture();
    let single = get_community_by_id(&store, 1).unwrap();
    assert_eq!(single.data.name.as_str(), "Alpha");
    assert_eq!(single.data.players.len(), 2);
    assert_eq!(single.data.teams.len(), 2);
    assert!(matches!(get_community_by_id(&store, 9), Err(DomainError::NotFound)));

    let listing = get_communities(&store).unwrap();
    assert_eq!(listing.data.len(), 1);
    assert_eq!(listing.data[0].players[0].nickname.as_str(), "nick1");

    // An empty party listing is a success, not an error.
    let parties = get_parties(&store).unwrap();
    assert!(parties.data.is_empty());

    create_party(
        &mut store,
        CreatePartyDto {
            game_name: String::from("cs"),
            teams_ids: vec![1, 2],
            community_id: 1,
        },
    )
    .unwrap();
    let parties = get_parties(&store).unwrap();
    assert_eq!(parties.data.len(), 1);
    assert_eq!(parties.data[0].game_name.as_str(), "cs");
    assert_eq!(parties.data[0].teams.len(), 2);

    let one = get_party_by_id(&store, 1).unwrap();
    assert_eq!(one.data.community_id, 1);
    assert!(matches!(get_party_by_id(&store, 5), Err(DomainError::NotFound)));

    // An empty community listing is not found.
    let empty = MemoryStore::new();
    assert!(matches!(get_communities(&empty), Err(DomainError::NotFound)));
}

#[test]
fn scalar_filters_match_rows_exactly() {
    let mut store = alpha_fixture();
    create_party(
        &mut store,
        CreatePartyDto {
            game_name: String::from("cs"),
            teams_ids: vec![1, 2],
            community_id: 1,
        },
    )
    .unwrap();
    end_party(&mut store, EndPartyDto { party_id: 1, team_winner_id: Some(1) }).unwrap();
    create_party(
        &mut store,
        CreatePartyDto {
            game_name: String::from("chess"),
            teams_ids: vec![1, 2],
            community_id: 1,
        },
    )
    .unwrap();

    let by_game = IGetPartiesByParams {
        community_id: None,
        game_name: Some(String::from("chess")),
        created_at: None,
        updated_at: None,
        teams_ids: None,
        team_winner_ids: None,
    };
    let found = store.get_parties_by_params(&by_game);
    assert_eq!(found.len(), 1);
    assert_eq!(found[0].game_name.as_str(), "chess");

    let by_winner = IGetPartiesByParams {
        community_id: None,
        game_name: None,
        created_at: None,
        updated_at: None,
        teams_ids: None,
        team_winner_ids: Some(vec![1, 7]),
    };
    let found = store.get_parties_by_params(&by_winner);
    assert_eq!(found.len(), 1);
    assert_eq!(found[0].team_winner_id, Some(1));

    let by_other_winner = IGetPartiesByParams {
        community_id: None,
        game_name: None,
        created_at: None,
        updated_at: None,
        teams_ids: None,
        team_winner_ids: Some(vec![2]),
    };
    assert!(store.get_parties_by_params(&by_other_winner).is_empty());

    let by_community = IGetPartiesByParams {
        community_id: Some(8),
        game_name: None,
        created_at: None,
        updated_at: None,
        teams_ids: None,
        team_winner_ids: None,
    };
    assert!(store.get_parties_by_params(&by_community).is_empty());
}

#[test]
fn exhausted_id_space_is_a_store_failure() {
    let mut store = MemoryStore::new();
    store.next_community_id = i32::MAX;
    assert!(matches!(
        create_community(&mut store, CreateCommunityDto { name: String::from("Alpha") }),
        Err(DomainError::StoreFailure)
    ));
    // Nothing was persisted.
    assert!(store.communities.is_empty());
}

#[test]
fn disabled_team_frees_its_name() {
    let mut store = alpha_fixture();
    // While Red is enabled, its name is taken.
    assert!(matches!(
        create_team_into_community(
            &mut store,
            CreateTeamIntoCommunityDto { name: String::from("Red"), community_id: 1 },
        ),
        Err(DomainError::PreconditionFailed)
    ));

    // Disable Red: the uniqueness probe is scoped to enabled rows, so the
    // name becomes free again.
    let mut red = store.get_team_by_id(1).unwrap();
    red.enabled = false;
    store.save_team(&red).unwrap();
    assert!(!store.team_exists(String::from("Red"), 1));
    assert!(create_team_into_community(
        &mut store,
        CreateTeamIntoCommunityDto { name: String::from("Red"), community_id: 1 },
    )
    .is_ok());

    // The new team is a fresh row; the disabled one is still addressable.
    let fresh = store.get_team_by_id(3).unwrap();
    assert_eq!(fresh.name.as_str(), "Red");
    assert!(fresh.enabled);
    let old = store.get_team_by_id(1).unwrap();
    assert!(!old.enabled);
}
