use party_league::decimal::{i64_to_string, u64_to_string};
use party_league::filter::IGetPartiesByParams;
use party_league::query::{build_dynamic_query, BindValue};

const BASE: &str = "SELECT id, community_id, game_name, team_winner_id, finished_at, created_at, updated_at, enabled FROM parties";

fn dollar_count(s: &str) -> usize {
    s.chars().filter(|c| *c == '$').count()
}

#[test]
fn base_unchanged_when_all_filters_absent() {
    let params = IGetPartiesByParams::none();
    let (query, binds) = build_dynamic_query(BASE, &params);
    assert_eq!(query.as_str(), BASE);
    assert_eq!(binds.len(), 0);
}

#[test]
fn empty_team_set_behaves_as_absent() {
    let with_empty = IGetPartiesByParams {
        community_id: Some(3),
        game_name: None,
        created_at: None,
        updated_at: None,
        teams_ids: Some(Vec::new()),
        team_winner_ids: Some(Vec::new()),
    };
    let with_none = IGetPartiesByParams {
        community_id: Some(3),
        game_name: None,
        created_at: None,
        updated_at: None,
        teams_ids: None,
        team_winner_ids: None,
    };
    let (q1, b1) = build_dynamic_query(BASE, &with_empty);
    let (q2, b2) = build_dynamic_query(BASE, &with_none);
    assert_eq!(q1.as_str(), q2.as_str());
    assert_eq!(b1.len(), b2.len());
}

#[test]
fn single_community_filter_uses_first_placeholder() {
    let params = IGetPartiesByParams {
        community_id: Some(1),
        game_name: None,
        created_at: None,
        updated_at: None,
        teams_ids: None,
        team_winner_ids: None,
    };
    let (query, binds) = build_dynamic_query(BASE, &params);
    let mut expected = String::from(BASE);
    expected.push_str(" WHERE community_id = $1");
    assert_eq!(query.as_str(), expected.as_str());
    assert_eq!(binds.len(), 1);
    assert!(matches!(binds[0], BindValue::Id(1)));
}

#[test]
fn all_filters_emit_contiguous_placeholders() {
    let params = IGetPartiesByParams {
        community_id: Some(9),
        game_name: Some(String::from("cs")),
        created_at: Some(100),
        updated_at: Some(200),
        teams_ids: Some(vec![4, 5]),
        team_winner_ids: Some(vec![4]),
    };
    let (query, binds) = build_dynamic_query(BASE, &params);
    let mut expected = String::from(BASE);
    expected.push_str(" WHERE community_id = $1");
    expected.push_str(" AND game_name = $2");
    expected.push_str(" AND created_at = $3");
    expected.push_str(" AND updated_at = $4");
    expected.push_str(" AND id IN (SELECT party_id FROM party_teams WHERE team_id = ANY($5))");
    expected.push_str(" AND team_winner_id = ANY($6)");
    assert_eq!(query.as_str(), expected.as_str());
    assert_eq!(binds.len(), 6);
    assert_eq!(dollar_count(query.as_str()), binds.len());
    assert!(matches!(binds[0], BindValue::Id(9)));
    match &binds[1] {
        BindValue::Text(s) => assert_eq!(s.as_str(), "cs"),
        _ => panic!("second bound value should be the game name"),
    }
    assert!(matches!(binds[2], BindValue::Time(100)));
    assert!(matches!(binds[3], BindValue::Time(200)));
    match &binds[4] {
        BindValue::IdList(v) => assert_eq!(v, &vec![4, 5]),
        _ => panic!("fifth bound value should be the team id list"),
    }
    match &binds[5] {
        BindValue::IdList(v) => assert_eq!(v, &vec![4]),
        _ => panic!("sixth bound value should be the winner id list"),
    }
}

#[test]
fn subset_filters_renumber_without_gaps() {
    let params = IGetPartiesByParams {
        community_id: None,
        game_name: Some(String::from("chess")),
        created_at: None,
        updated_at: None,
        teams_ids: None,
        team_winner_ids: Some(vec![8, 9]),
    };
    let (query, binds) = build_dynamic_query(BASE, &params);
    let mut expected = String::from(BASE);
    expected.push_str(" WHERE game_name = $1 AND team_winner_id = ANY($2)");
    assert_eq!(query.as_str(), expected.as_str());
    assert_eq!(binds.len(), 2);
    assert_eq!(dollar_count(query.as_str()), 2);
}

#[test]
fn placeholder_count_matches_bound_values() {
    let combos = [
        (None, None),
        (Some(1), None),
        (None, Some(7)),
        (Some(2), Some(3)),
    ];
    for (cid, created) in combos {
        let params = IGetPartiesByParams {
            community_id: cid,
            game_name: None,
            created_at: created,
            updated_at: None,
            teams_ids: Some(vec![1]),
            team_winner_ids: None,
        };
        let (query, binds) = build_dynamic_query(BASE, &params);
        assert_eq!(dollar_count(query.as_str()), binds.len());
    }
}

#[test]
fn decimal_rendering_is_exact() {
    assert_eq!(u64_to_string(0).as_str(), "0");
    assert_eq!(u64_to_string(10).as_str(), "10");
    assert_eq!(u64_to_string(90210).as_str(), "90210");
    assert_eq!(i64_to_string(-45).as_str(), "-45");
    assert_eq!(i64_to_string(0).as_str(), "0");
    assert_eq!(i64_to_string(i64::MIN).as_str(), "-9223372036854775808");
    assert_eq!(i64_to_string(i64::MAX).as_str(), "9223372036854775807");
}
