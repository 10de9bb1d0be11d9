use vstd::prelude::*;

use crate::domain::{Community, CommunityView, Party, PartyView, Player, PlayerView, Team, TeamView};
use crate::filter::{
    FilterView, IGetPartiesByParams, ids_as_ints, teams_filter_present, winners_filter_present,
};

verus! {

// ---------------------------------------------------------------------------
// The persisted relational shape.
// ---------------------------------------------------------------------------

/// A row of the communities table.
pub struct CommunityRow {
    pub id: i32,
    pub name: String,
    pub enabled: bool,
    pub created_at: i64,
    pub updated_at: i64,
}

/// A row of the players table.
pub struct PlayerRow {
    pub id: i32,
    pub nickname: String,
    pub community_id: i32,
    pub enabled: bool,
    pub created_at: i64,
    pub updated_at: i64,
}

/// A row of the teams table.
pub struct TeamRow {
    pub id: i32,
    pub name: String,
    pub community_id: i32,
    pub enabled: bool,
    pub created_at: i64,
    pub updated_at: i64,
}

/// A row of the team membership join table.
pub struct TeamPlayerRow {
    pub team_id: i32,
    pub player_id: i32,
    pub enabled: bool,
    pub created_at: i64,
    pub updated_at: i64,
}

/// A row of the parties table.
pub struct PartyRow {
    pub id: i32,
    pub community_id: i32,
    pub game_name: String,
    pub team_winner_id: Option<i32>,
    pub finished_at: Option<i64>,
    pub enabled: bool,
    pub created_at: i64,
    pub updated_at: i64,
}

/// A row of the party membership join table.
pub struct PartyTeamRow {
    pub party_id: i32,
    pub team_id: i32,
}

/// An in-memory store holding the same normalized relational shape a
/// database would, with one id counter per entity table.
pub struct MemoryStore {
    pub communities: Vec<CommunityRow>,
    pub players: Vec<PlayerRow>,
    pub teams: Vec<TeamRow>,
    pub team_players: Vec<TeamPlayerRow>,
    pub parties: Vec<PartyRow>,
    pub party_teams: Vec<PartyTeamRow>,
    pub next_community_id: i32,
    pub next_player_id: i32,
    pub next_team_id: i32,
    pub next_party_id: i32,
}

// ---------------------------------------------------------------------------
// The mathematical reading of the store: membership, filtering, hydration.
// ---------------------------------------------------------------------------

/// The rows that satisfy a predicate, each turned into a value, in row order.
pub open spec fn filter_map<R, V>(rows: Seq<R>, p: spec_fn(R) -> bool, m: spec_fn(R) -> V) -> Seq<
    V,
>
    decreases rows.len(),
{
    if rows.len() == 0 {
        Seq::empty()
    } else {
        filter_map(rows.drop_last(), p, m) + (if p(rows.last()) {
            seq![m(rows.last())]
        } else {
            Seq::empty()
        })
    }
}

/// One filtering step: extending the scanned prefix by one row appends the
/// row's value exactly when the row satisfies the predicate.
pub proof fn lemma_filter_map_step<R, V>(rows: Seq<R>, p: spec_fn(R) -> bool, m: spec_fn(R) -> V, i: int)
    requires
        0 <= i < rows.len(),
    ensures
        filter_map(rows.take(i + 1), p, m) == filter_map(rows.take(i), p, m) + (if p(rows[i]) {
            seq![m(rows[i])]
        } else {
            Seq::empty()
        }),
{
    assert(rows.take(i + 1).drop_last() =~= rows.take(i));
    assert(rows.take(i + 1).last() == rows[i]);
}

/// Whether some row passing the predicate maps to the given value.
pub open spec fn arises_from<R, V>(
    rows: Seq<R>,
    p: spec_fn(R) -> bool,
    m: spec_fn(R) -> V,
    v: V,
) -> bool {
    exists|j: int| 0 <= j < rows.len() && p(#[trigger] rows[j]) && m(rows[j]) == v
}

/// What the filtered rows hold: every element arises from a row that passes
/// the predicate, and every passing row's value appears.
pub proof fn lemma_filter_map_elements<R, V>(rows: Seq<R>, p: spec_fn(R) -> bool, m: spec_fn(R) -> V)
    ensures
        forall|k: int|
            0 <= k < filter_map(rows, p, m).len() ==> arises_from(
                rows,
                p,
                m,
                #[trigger] filter_map(rows, p, m)[k],
            ),
        forall|j: int|
            0 <= j < rows.len() && p(#[trigger] rows[j]) ==> filter_map(rows, p, m).contains(
                m(rows[j]),
            ),
    decreases rows.len(),
{
    if rows.len() == 0 {
    } else {
        lemma_filter_map_elements(rows.drop_last(), p, m);
        assert forall|k: int| 0 <= k < filter_map(rows, p, m).len() implies arises_from(
            rows,
            p,
            m,
            #[trigger] filter_map(rows, p, m)[k],
        ) by {
            if k < filter_map(rows.drop_last(), p, m).len() {
                assert(filter_map(rows, p, m)[k] == filter_map(rows.drop_last(), p, m)[k]);
                assert(arises_from(
                    rows.drop_last(),
                    p,
                    m,
                    filter_map(rows.drop_last(), p, m)[k],
                ));
                let j = choose|j: int|
                    0 <= j < rows.drop_last().len() && p(#[trigger] rows.drop_last()[j]) && m(
                        rows.drop_last()[j],
                    ) == filter_map(rows.drop_last(), p, m)[k];
                assert(rows[j] == rows.drop_last()[j]);
                assert(p(rows[j]));
                assert(m(rows[j]) == filter_map(rows, p, m)[k]);
            } else {
                assert(p(rows[rows.len() - 1]));
                assert(filter_map(rows, p, m)[k] == m(rows[rows.len() - 1]));
            }
        }
        assert forall|j: int| 0 <= j < rows.len() && p(#[trigger] rows[j]) implies filter_map(
            rows,
            p,
            m,
        ).contains(m(rows[j])) by {
            if j < rows.len() - 1 {
                assert(rows.drop_last()[j] == rows[j]);
                assert(p(rows.drop_last()[j]));
                assert(filter_map(rows.drop_last(), p, m).contains(m(rows.drop_last()[j])));
                let k = choose|k: int|
                    0 <= k < filter_map(rows.drop_last(), p, m).len() && filter_map(
                        rows.drop_last(),
                        p,
                        m,
                    )[k] == m(rows.drop_last()[j]);
                assert(filter_map(rows, p, m)[k] == filter_map(rows.drop_last(), p, m)[k]);
                assert(filter_map(rows, p, m)[k] == m(rows[j]));
            } else {
                assert(filter_map(rows, p, m)[filter_map(rows, p, m).len() - 1] == m(
                    rows[rows.len() - 1],
                ));
                assert(filter_map(rows, p, m)[filter_map(rows, p, m).len() - 1] == m(rows[j]));
            }
        }
    }
}

/// Whether the membership relation links the given team and player.
pub open spec fn in_team(tp: Seq<TeamPlayerRow>, team_id: int, player_id: int) -> bool {
    exists|i: int|
        0 <= i < tp.len() && (#[trigger] tp[i]).team_id == team_id && tp[i].player_id == player_id
}

/// Whether the membership relation links the given party and team.
pub open spec fn in_party(pt: Seq<PartyTeamRow>, party_id: int, team_id: int) -> bool {
    exists|i: int|
        0 <= i < pt.len() && (#[trigger] pt[i]).party_id == party_id && pt[i].team_id == team_id
}

/// The aggregate view a player row hydrates to.
pub open spec fn player_view_of_row(r: PlayerRow) -> PlayerView {
    PlayerView {
        id: r.id as int,
        nickname: r.nickname@,
        community_id: r.community_id as int,
        created_at: r.created_at as int,
        updated_at: r.updated_at as int,
        enabled: r.enabled,
    }
}

/// All enabled players of a community, in row order.
pub open spec fn spec_community_players(s: MemoryStore, community_id: int) -> Seq<PlayerView> {
    filter_map(
        s.players@,
        |r: PlayerRow| r.community_id == community_id && r.enabled,
        |r: PlayerRow| player_view_of_row(r),
    )
}

/// The enabled roster of one team within a community, in row order.
pub open spec fn spec_team_players(s: MemoryStore, community_id: int, team_id: int) -> Seq<
    PlayerView,
> {
    filter_map(
        s.players@,
        |r: PlayerRow|
            r.community_id == community_id && r.enabled && in_team(
                s.team_players@,
                team_id,
                r.id as int,
            ),
        |r: PlayerRow| player_view_of_row(r),
    )
}

/// The aggregate view a team row hydrates to: the row's own fields plus its
/// current enabled roster.
pub open spec fn spec_team_of_row(t: TeamRow, s: MemoryStore) -> TeamView {
    TeamView {
        id: t.id as int,
        name: t.name@,
        players: spec_team_players(s, t.community_id as int, t.id as int),
        community_id: t.community_id as int,
        created_at: t.created_at as int,
        updated_at: t.updated_at as int,
        enabled: t.enabled,
    }
}

/// All enabled teams of a community, each with its roster, in row order.
pub open spec fn spec_community_teams(s: MemoryStore, community_id: int) -> Seq<TeamView> {
    filter_map(
        s.teams@,
        |t: TeamRow| t.community_id == community_id && t.enabled,
        |t: TeamRow| spec_team_of_row(t, s),
    )
}

/// The aggregate view a community row hydrates to.
pub open spec fn spec_hydrated_community(c: CommunityRow, s: MemoryStore) -> CommunityView {
    CommunityView {
        id: c.id as int,
        name: c.name@,
        players: spec_community_players(s, c.id as int),
        teams: spec_community_teams(s, c.id as int),
        created_at: c.created_at as int,
        updated_at: c.updated_at as int,
        enabled: c.enabled,
    }
}

/// Every team linked to a party, enabled or not: parties keep historical
/// team references. Each linked team carries its current enabled roster.
pub open spec fn spec_party_teams(s: MemoryStore, party_id: int) -> Seq<TeamView> {
    filter_map(
        s.teams@,
        |t: TeamRow| in_party(s.party_teams@, party_id, t.id as int),
        |t: TeamRow| spec_team_of_row(t, s),
    )
}

/// The aggregate view a party row hydrates to.
pub open spec fn spec_hydrated_party(p: PartyRow, s: MemoryStore) -> PartyView {
    PartyView {
        id: p.id as int,
        community_id: p.community_id as int,
        game_name: p.game_name@,
        teams: spec_party_teams(s, p.id as int),
        team_winner_id: match p.team_winner_id {
            Some(w) => Some(w as int),
            None => None,
        },
        finished_at: match p.finished_at {
            Some(t) => Some(t as int),
            None => None,
        },
        created_at: p.created_at as int,
        updated_at: p.updated_at as int,
        enabled: p.enabled,
    }
}

/// Whether a party row satisfies every present filter: equality for the
/// scalar filters, at least one linked team for the team id set, and a set
/// winner among the given ids for the winner set. Absent filters (and empty
/// id sets) hold of every row.
pub open spec fn party_matches(p: PartyRow, pt: Seq<PartyTeamRow>, f: FilterView) -> bool {
    &&& match f.community_id {
        Some(c) => p.community_id == c,
        None => true,
    }
    &&& match f.game_name {
        Some(g) => p.game_name@ == g,
        None => true,
    }
    &&& match f.created_at {
        Some(t) => p.created_at == t,
        None => true,
    }
    &&& match f.updated_at {
        Some(t) => p.updated_at == t,
        None => true,
    }
    &&& (teams_filter_present(f) ==> (exists|k: int|
        0 <= k < f.teams_ids.unwrap().len() && in_party(
            pt,
            p.id as int,
            #[trigger] f.teams_ids.unwrap()[k],
        )))
    &&& (winners_filter_present(f) ==> match p.team_winner_id {
        Some(w) => f.team_winner_ids.unwrap().contains(w as int),
        None => false,
    })
}

/// The parties a filter specification selects, hydrated, in row order.
pub open spec fn spec_matching_parties(s: MemoryStore, f: FilterView) -> Seq<PartyView> {
    filter_map(
        s.parties@,
        |p: PartyRow| party_matches(p, s.party_teams@, f),
        |p: PartyRow| spec_hydrated_party(p, s),
    )
}

// ---------------------------------------------------------------------------
// Reading the store.
// ---------------------------------------------------------------------------

/// Whether an id list holds the given id.
fn ids_contain(ids: &Vec<i32>, id: i32) -> (r: bool)
    ensures
        r == ids@.contains(id),
{
    let mut i: usize = 0;
    while i < ids.len()
        invariant
            i <= ids@.len(),
            forall|j: int| 0 <= j < i ==> ids@[j] != id,
        decreases ids@.len() - i,
    {
        if ids[i] == id {
            return true;
        }
        i = i + 1;
    }
    false
}

impl MemoryStore {
    /// An empty store; id assignment starts at one.
    pub fn new() -> (r: MemoryStore)
        ensures
            r.communities@.len() == 0,
            r.players@.len() == 0,
            r.teams@.len() == 0,
            r.team_players@.len() == 0,
            r.parties@.len() == 0,
            r.party_teams@.len() == 0,
            r.next_community_id == 1,
            r.next_player_id == 1,
            r.next_team_id == 1,
            r.next_party_id == 1,
    {
        MemoryStore {
            communities: Vec::new(),
            players: Vec::new(),
            teams: Vec::new(),
            team_players: Vec::new(),
            parties: Vec::new(),
            party_teams: Vec::new(),
            next_community_id: 1,
            next_player_id: 1,
            next_team_id: 1,
            next_party_id: 1,
        }
    }

    /// Whether the membership relation links the given team and player.
    fn linked_to_team(&self, team_id: i32, player_id: i32) -> (r: bool)
        ensures
            r == in_team(self.team_players@, team_id as int, player_id as int),
    {
        let mut i: usize = 0;
        while i < self.team_players.len()
            invariant
                i <= self.team_players@.len(),
                forall|j: int|
                    0 <= j < i ==> !((#[trigger] self.team_players@[j]).team_id == team_id
                        && self.team_players@[j].player_id == player_id),
            decreases self.team_players@.len() - i,
        {
            if self.team_players[i].team_id == team_id && self.team_players[i].player_id
                == player_id {
                return true;
            }
            i = i + 1;
        }
        false
    }

    /// Whether the membership relation links the given party and team.
    fn linked_to_party(&self, party_id: i32, team_id: i32) -> (r: bool)
        ensures
            r == in_party(self.party_teams@, party_id as int, team_id as int),
    {
        let mut i: usize = 0;
        while i < self.party_teams.len()
            invariant
                i <= self.party_teams@.len(),
                forall|j: int|
                    0 <= j < i ==> !((#[trigger] self.party_teams@[j]).party_id == party_id
                        && self.party_teams@[j].team_id == team_id),
            decreases self.party_teams@.len() - i,
        {
            if self.party_teams[i].party_id == party_id && self.party_teams[i].team_id == team_id {
                return true;
            }
            i = i + 1;
        }
        false
    }

    /// All enabled players of a community; the "enabled" rule is always
    /// implied on this path, never configurable.
    pub fn fetch_players_by_community(&self, community_id: i32) -> (r: Vec<Player>)
        ensures
            r.deep_view() == spec_community_players(*self, community_id as int),
    {
        let ghost p = |row: PlayerRow| row.community_id == community_id && row.enabled;
        let ghost m = |row: PlayerRow| player_view_of_row(row);
        let mut out: Vec<Player> = Vec::new();
        let mut i: usize = 0;
        proof {
            assert(out.deep_view() =~= filter_map(self.players@.take(0), p, m));
        }
        while i < self.players.len()
            invariant
                i <= self.players@.len(),
                out.deep_view() == filter_map(self.players@.take(i as int), p, m),
            decreases self.players@.len() - i,
        {
            proof {
                lemma_filter_map_step(self.players@, p, m, i as int);
                assert(filter_map(self.players@.take(i as int), p, m) + Seq::<PlayerView>::empty()
                    =~= filter_map(self.players@.take(i as int), p, m));
            }
            let ghost prev = out.deep_view();
            if self.players[i].community_id == community_id && self.players[i].enabled {
                let row = &self.players[i];
                out.push(
                    Player {
                        id: row.id,
                        nickname: row.nickname.clone(),
                        community_id: row.community_id,
                        created_at: row.created_at,
                        updated_at: row.updated_at,
                        enabled: true,
                    },
                );
                proof {
                    assert(out.deep_view() =~= prev.push(player_view_of_row(self.players@[i as int])));
                    assert(prev.push(m(self.players@[i as int])) =~= prev + seq![m(self.players@[i as int])]);
                }
            }
            i = i + 1;
        }
        proof {
            assert(self.players@.take(self.players@.len() as int) =~= self.players@);
        }
        out
    }

    /// The enabled roster of one team: enabled players of the community that
    /// the membership relation links to the team.
    pub fn fetch_team_players(&self, community_id: i32, team_id: i32) -> (r: Vec<Player>)
        ensures
            r.deep_view() == spec_team_players(*self, community_id as int, team_id as int),
    {
        let ghost p = |row: PlayerRow|
            row.community_id == community_id && row.enabled && in_team(
                self.team_players@,
                team_id as int,
                row.id as int,
            );
        let ghost m = |row: PlayerRow| player_view_of_row(row);
        let mut out: Vec<Player> = Vec::new();
        let mut i: usize = 0;
        proof {
            assert(out.deep_view() =~= filter_map(self.players@.take(0), p, m));
        }
        while i < self.players.len()
            invariant
                i <= self.players@.len(),
                out.deep_view() == filter_map(self.players@.take(i as int), p, m),
            decreases self.players@.len() - i,
        {
            proof {
                lemma_filter_map_step(self.players@, p, m, i as int);
                assert(filter_map(self.players@.take(i as int), p, m) + Seq::<PlayerView>::empty()
                    =~= filter_map(self.players@.take(i as int), p, m));
            }
            let ghost prev = out.deep_view();
            let candidate = self.players[i].community_id == community_id
                && self.players[i].enabled;
            if candidate && self.linked_to_team(team_id, self.players[i].id) {
                let row = &self.players[i];
                out.push(
                    Player {
                        id: row.id,
                        nickname: row.nickname.clone(),
                        community_id: row.community_id,
                        created_at: row.created_at,
                        updated_at: row.updated_at,
                        enabled: true,
                    },
                );
                proof {
                    assert(out.deep_view() =~= prev.push(player_view_of_row(self.players@[i as int])));
                    assert(prev.push(m(self.players@[i as int])) =~= prev + seq![m(self.players@[i as int])]);
                }
            }
            i = i + 1;
        }
        proof {
            assert(self.players@.take(self.players@.len() as int) =~= self.players@);
        }
        out
    }

    /// All enabled teams of a community, each hydrated with its roster.
    pub fn fetch_teams_by_community(&self, community_id: i32) -> (r: Vec<Team>)
        ensures
            r.deep_view() == spec_community_teams(*self, community_id as int),
    {
        let ghost p = |t: TeamRow| t.community_id == community_id && t.enabled;
        let ghost m = |t: TeamRow| spec_team_of_row(t, *self);
        let mut out: Vec<Team> = Vec::new();
        let mut i: usize = 0;
        proof {
            assert(out.deep_view() =~= filter_map(self.teams@.take(0), p, m));
        }
        while i < self.teams.len()
            invariant
                i <= self.teams@.len(),
                out.deep_view() == filter_map(self.teams@.take(i as int), p, m),
            decreases self.teams@.len() - i,
        {
            proof {
                lemma_filter_map_step(self.teams@, p, m, i as int);
                assert(filter_map(self.teams@.take(i as int), p, m) + Seq::<TeamView>::empty()
                    =~= filter_map(self.teams@.take(i as int), p, m));
            }
            let ghost prev = out.deep_view();
            if self.teams[i].community_id == community_id && self.teams[i].enabled {
                let tid = self.teams[i].id;
                let tcid = self.teams[i].community_id;
                let players = self.fetch_team_players(tcid, tid);
                let row = &self.teams[i];
                out.push(
                    Team {
                        id: row.id,
                        name: row.name.clone(),
                        players,
                        community_id: row.community_id,
                        created_at: row.created_at,
                        updated_at: row.updated_at,
                        enabled: true,
                    },
                );
                proof {
                    assert(out.deep_view() =~= prev.push(spec_team_of_row(self.teams@[i as int], *self)));
                    assert(prev.push(m(self.teams@[i as int])) =~= prev + seq![m(self.teams@[i as int])]);
                }
            }
            i = i + 1;
        }
        proof {
            assert(self.teams@.take(self.teams@.len() as int) =~= self.teams@);
        }
        out
    }

    /// Every team linked to the party, enabled or not, each hydrated with its
    /// current enabled roster.
    fn teams_of_party(&self, party_id: i32) -> (r: Vec<Team>)
        ensures
            r.deep_view() == spec_party_teams(*self, party_id as int),
    {
        let ghost p = |t: TeamRow| in_party(self.party_teams@, party_id as int, t.id as int);
        let ghost m = |t: TeamRow| spec_team_of_row(t, *self);
        let mut out: Vec<Team> = Vec::new();
        let mut i: usize = 0;
        proof {
            assert(out.deep_view() =~= filter_map(self.teams@.take(0), p, m));
        }
        while i < self.teams.len()
            invariant
                i <= self.teams@.len(),
                out.deep_view() == filter_map(self.teams@.take(i as int), p, m),
            decreases self.teams@.len() - i,
        {
            proof {
                lemma_filter_map_step(self.teams@, p, m, i as int);
                assert(filter_map(self.teams@.take(i as int), p, m) + Seq::<TeamView>::empty()
                    =~= filter_map(self.teams@.take(i as int), p, m));
            }
            let ghost prev = out.deep_view();
            if self.linked_to_party(party_id, self.teams[i].id) {
                let tid = self.teams[i].id;
                let tcid = self.teams[i].community_id;
                let players = self.fetch_team_players(tcid, tid);
                let row = &self.teams[i];
                out.push(
                    Team {
                        id: row.id,
                        name: row.name.clone(),
                        players,
                        community_id: row.community_id,
                        created_at: row.created_at,
                        updated_at: row.updated_at,
                        enabled: row.enabled,
                    },
                );
                proof {
                    assert(out.deep_view() =~= prev.push(spec_team_of_row(self.teams@[i as int], *self)));
                    assert(prev.push(m(self.teams@[i as int])) =~= prev + seq![m(self.teams@[i as int])]);
                }
            }
            i = i + 1;
        }
        proof {
            assert(self.teams@.take(self.teams@.len() as int) =~= self.teams@);
        }
        out
    }

    /// The community with the given id, hydrated, enabled or not; nothing
    /// when no row carries the id.
    pub fn get_community_by_id(&self, id: i32) -> (r: Option<Community>)
        ensures
            match r {
                Some(c) => exists|j: int|
                    0 <= j < self.communities@.len() && (#[trigger] self.communities@[j]).id == id
                        && c@ == spec_hydrated_community(self.communities@[j], *self),
                None => forall|j: int|
                    0 <= j < self.communities@.len() ==> (#[trigger] self.communities@[j]).id
                        != id,
            },
    {
        let mut i: usize = 0;
        while i < self.communities.len()
            invariant
                i <= self.communities@.len(),
                forall|j: int|
                    0 <= j < i ==> (#[trigger] self.communities@[j]).id != id,
            decreases self.communities@.len() - i,
        {
            if self.communities[i].id == id {
                let cid = self.communities[i].id;
                let players = self.fetch_players_by_community(cid);
                let teams = self.fetch_teams_by_community(cid);
                let row = &self.communities[i];
                let c = Community {
                    id: row.id,
                    name: row.name.clone(),
                    players,
                    teams,
                    created_at: row.created_at,
                    updated_at: row.updated_at,
                    enabled: row.enabled,
                };
                proof {
                    assert(c@ =~= spec_hydrated_community(self.communities@[i as int], *self));
                }
                return Some(c);
            }
            i = i + 1;
        }
        None
    }

    /// All enabled communities, hydrated, in row order.
    pub fn get_all_communities(&self) -> (r: Vec<Community>)
        ensures
            r.deep_view() == filter_map(
                self.communities@,
                |c: CommunityRow| c.enabled,
                |c: CommunityRow| spec_hydrated_community(c, *self),
            ),
    {
        let ghost p = |c: CommunityRow| c.enabled;
        let ghost m = |c: CommunityRow| spec_hydrated_community(c, *self);
        let mut out: Vec<Community> = Vec::new();
        let mut i: usize = 0;
        proof {
            assert(out.deep_view() =~= filter_map(self.communities@.take(0), p, m));
        }
        while i < self.communities.len()
            invariant
                i <= self.communities@.len(),
                out.deep_view() == filter_map(self.communities@.take(i as int), p, m),
            decreases self.communities@.len() - i,
        {
            proof {
                lemma_filter_map_step(self.communities@, p, m, i as int);
                assert(filter_map(self.communities@.take(i as int), p, m) + Seq::<CommunityView>::empty()
                    =~= filter_map(self.communities@.take(i as int), p, m));
            }
            let ghost prev = out.deep_view();
            if self.communities[i].enabled {
                let cid = self.communities[i].id;
                let players = self.fetch_players_by_community(cid);
                let teams = self.fetch_teams_by_community(cid);
                let row = &self.communities[i];
                out.push(
                    Community {
                        id: row.id,
                        name: row.name.clone(),
                        players,
                        teams,
                        created_at: row.created_at,
                        updated_at: row.updated_at,
                        enabled: row.enabled,
                    },
                );
                proof {
                    assert(out.deep_view() =~= prev.push(
                        spec_hydrated_community(self.communities@[i as int], *self),
                    ));
                    assert(prev.push(m(self.communities@[i as int])) =~= prev + seq![m(self.communities@[i as int])]);
                }
            }
            i = i + 1;
        }
        proof {
            assert(self.communities@.take(self.communities@.len() as int) =~= self.communities@);
        }
        out
    }

    /// The player with the given id, enabled or not.
    pub fn get_player_by_id(&self, id: i32) -> (r: Option<Player>)
        ensures
            match r {
                Some(p) => exists|j: int|
                    0 <= j < self.players@.len() && (#[trigger] self.players@[j]).id == id && p@
                        == player_view_of_row(self.players@[j]),
                None => forall|j: int|
                    0 <= j < self.players@.len() ==> (#[trigger] self.players@[j]).id != id,
            },
    {
        let mut i: usize = 0;
        while i < self.players.len()
            invariant
                i <= self.players@.len(),
                forall|j: int| 0 <= j < i ==> (#[trigger] self.players@[j]).id != id,
            decreases self.players@.len() - i,
        {
            if self.players[i].id == id {
                let row = &self.players[i];
                let p = Player {
                    id: row.id,
                    nickname: row.nickname.clone(),
                    community_id: row.community_id,
                    created_at: row.created_at,
                    updated_at: row.updated_at,
                    enabled: row.enabled,
                };
                proof {
                    assert(p@ =~= player_view_of_row(self.players@[i as int]));
                }
                return Some(p);
            }
            i = i + 1;
        }
        None
    }

    /// The players whose ids appear in the given list, enabled or not, in
    /// row order. Ids that match no row contribute nothing.
    pub fn get_players_by_ids(&self, ids: Vec<i32>) -> (r: Vec<Player>)
        ensures
            r.deep_view() == filter_map(
                self.players@,
                |row: PlayerRow| ids@.contains(row.id),
                |row: PlayerRow| player_view_of_row(row),
            ),
    {
        let ghost p = |row: PlayerRow| ids@.contains(row.id);
        let ghost m = |row: PlayerRow| player_view_of_row(row);
        let mut out: Vec<Player> = Vec::new();
        let mut i: usize = 0;
        proof {
            assert(out.deep_view() =~= filter_map(self.players@.take(0), p, m));
        }
        while i < self.players.len()
            invariant
                i <= self.players@.len(),
                out.deep_view() == filter_map(self.players@.take(i as int), p, m),
            decreases self.players@.len() - i,
        {
            proof {
                lemma_filter_map_step(self.players@, p, m, i as int);
                assert(filter_map(self.players@.take(i as int), p, m) + Seq::<PlayerView>::empty()
                    =~= filter_map(self.players@.take(i as int), p, m));
            }
            let ghost prev = out.deep_view();
            if ids_contain(&ids, self.players[i].id) {
                let row = &self.players[i];
                out.push(
                    Player {
                        id: row.id,
                        nickname: row.nickname.clone(),
                        community_id: row.community_id,
                        created_at: row.created_at,
                        updated_at: row.updated_at,
                        enabled: row.enabled,
                    },
                );
                proof {
                    assert(out.deep_view() =~= prev.push(player_view_of_row(self.players@[i as int])));
                    assert(prev.push(m(self.players@[i as int])) =~= prev + seq![m(self.players@[i as int])]);
                }
            }
            i = i + 1;
        }
        proof {
            assert(self.players@.take(self.players@.len() as int) =~= self.players@);
        }
        out
    }

    /// The team with the given id, enabled or not, with its roster.
    pub fn get_team_by_id(&self, id: i32) -> (r: Option<Team>)
        ensures
            match r {
                Some(t) => exists|j: int|
                    0 <= j < self.teams@.len() && (#[trigger] self.teams@[j]).id == id && t@
                        == spec_team_of_row(self.teams@[j], *self) && t.name
                        == self.teams@[j].name && t.enabled == self.teams@[j].enabled && t.id
                        == self.teams@[j].id,
                None => forall|j: int|
                    0 <= j < self.teams@.len() ==> (#[trigger] self.teams@[j]).id != id,
            },
    {
        let mut i: usize = 0;
        while i < self.teams.len()
            invariant
                i <= self.teams@.len(),
                forall|j: int| 0 <= j < i ==> (#[trigger] self.teams@[j]).id != id,
            decreases self.teams@.len() - i,
        {
            if self.teams[i].id == id {
                let tid = self.teams[i].id;
                let tcid = self.teams[i].community_id;
                let players = self.fetch_team_players(tcid, tid);
                let row = &self.teams[i];
                let t = Team {
                    id: row.id,
                    name: row.name.clone(),
                    players,
                    community_id: row.community_id,
                    created_at: row.created_at,
                    updated_at: row.updated_at,
                    enabled: row.enabled,
                };
                proof {
                    assert(t@ =~= spec_team_of_row(self.teams@[i as int], *self));
                }
                return Some(t);
            }
            i = i + 1;
        }
        None
    }

    /// The teams whose ids appear in the given list, enabled or not, each
    /// with its roster, in row order.
    pub fn get_teams_by_ids(&self, ids: Vec<i32>) -> (r: Vec<Team>)
        ensures
            r.deep_view() == filter_map(
                self.teams@,
                |t: TeamRow| ids@.contains(t.id),
                |t: TeamRow| spec_team_of_row(t, *self),
            ),
    {
        let ghost p = |t: TeamRow| ids@.contains(t.id);
        let ghost m = |t: TeamRow| spec_team_of_row(t, *self);
        let mut out: Vec<Team> = Vec::new();
        let mut i: usize = 0;
        proof {
            assert(out.deep_view() =~= filter_map(self.teams@.take(0), p, m));
        }
        while i < self.teams.len()
            invariant
                i <= self.teams@.len(),
                out.deep_view() == filter_map(self.teams@.take(i as int), p, m),
            decreases self.teams@.len() - i,
        {
            proof {
                lemma_filter_map_step(self.teams@, p, m, i as int);
                assert(filter_map(self.teams@.take(i as int), p, m) + Seq::<TeamView>::empty()
                    =~= filter_map(self.teams@.take(i as int), p, m));
            }
            let ghost prev = out.deep_view();
            if ids_contain(&ids, self.teams[i].id) {
                let tid = self.teams[i].id;
                let tcid = self.teams[i].community_id;
                let players = self.fetch_team_players(tcid, tid);
                let row = &self.teams[i];
                out.push(
                    Team {
                        id: row.id,
                        name: row.name.clone(),
                        players,
                        community_id: row.community_id,
                        created_at: row.created_at,
                        updated_at: row.updated_at,
                        enabled: row.enabled,
                    },
                );
                proof {
                    assert(out.deep_view() =~= prev.push(spec_team_of_row(self.teams@[i as int], *self)));
                    assert(prev.push(m(self.teams@[i as int])) =~= prev + seq![m(self.teams@[i as int])]);
                }
            }
            i = i + 1;
        }
        proof {
            assert(self.teams@.take(self.teams@.len() as int) =~= self.teams@);
        }
        out
    }

    /// The party with the given id, hydrated, enabled or not.
    pub fn get_party_by_id(&self, id: i32) -> (r: Option<Party>)
        ensures
            match r {
                Some(p) => exists|j: int|
                    0 <= j < self.parties@.len() && (#[trigger] self.parties@[j]).id == id && p@
                        == spec_hydrated_party(self.parties@[j], *self),
                None => forall|j: int|
                    0 <= j < self.parties@.len() ==> (#[trigger] self.parties@[j]).id != id,
            },
    {
        let mut i: usize = 0;
        while i < self.parties.len()
            invariant
                i <= self.parties@.len(),
                forall|j: int| 0 <= j < i ==> (#[trigger] self.parties@[j]).id != id,
            decreases self.parties@.len() - i,
        {
            if self.parties[i].id == id {
                let pid = self.parties[i].id;
                let teams = self.teams_of_party(pid);
                let row = &self.parties[i];
                let p = Party {
                    id: row.id,
                    community_id: row.community_id,
                    game_name: row.game_name.clone(),
                    teams,
                    team_winner_id: row.team_winner_id,
                    finished_at: row.finished_at,
                    created_at: row.created_at,
                    updated_at: row.updated_at,
                    enabled: row.enabled,
                };
                proof {
                    assert(p@ =~= spec_hydrated_party(self.parties@[i as int], *self));
                }
                return Some(p);
            }
            i = i + 1;
        }
        None
    }

    /// Whether any of the given team ids is linked to the party.
    fn party_has_any_team(&self, party_id: i32, ids: &Vec<i32>) -> (r: bool)
        ensures
            r == (exists|k: int|
                0 <= k < ids@.len() && in_party(
                    self.party_teams@,
                    party_id as int,
                    #[trigger] ids@[k] as int,
                )),
    {
        let mut i: usize = 0;
        while i < ids.len()
            invariant
                i <= ids@.len(),
                forall|k: int|
                    0 <= k < i ==> !in_party(
                        self.party_teams@,
                        party_id as int,
                        #[trigger] ids@[k] as int,
                    ),
            decreases ids@.len() - i,
        {
            if self.linked_to_party(party_id, ids[i]) {
                return true;
            }
            i = i + 1;
        }
        false
    }

    /// Whether a party row satisfies every present filter.
    fn row_matches(&self, row: &PartyRow, params: &IGetPartiesByParams) -> (r: bool)
        ensures
            r == party_matches(*row, self.party_teams@, params@),
    {
        let m1 = match params.community_id {
            Some(c) => row.community_id == c,
            None => true,
        };
        let m2 = match &params.game_name {
            Some(g) => row.game_name == *g,
            None => true,
        };
        let m3 = match params.created_at {
            Some(t) => row.created_at == t,
            None => true,
        };
        let m4 = match params.updated_at {
            Some(t) => row.updated_at == t,
            None => true,
        };
        let m5 = match &params.teams_ids {
            Some(ids) => {
                if ids.len() > 0 {
                    let any = self.party_has_any_team(row.id, ids);
                    proof {
                        lemma_mapped_any(self.party_teams@, row.id as int, ids@);
                    }
                    any
                } else {
                    true
                }
            },
            None => true,
        };
        let m6 = match &params.team_winner_ids {
            Some(ids) => {
                if ids.len() > 0 {
                    match row.team_winner_id {
                        Some(w) => {
                            let c = ids_contain(ids, w);
                            proof {
                                lemma_mapped_contains(ids@, w);
                            }
                            c
                        },
                        None => false,
                    }
                } else {
                    true
                }
            },
            None => true,
        };
        m1 && m2 && m3 && m4 && m5 && m6
    }

    /// The parties the filter specification selects, hydrated, in row order:
    /// no rows is an empty result, not a failure.
    pub fn get_parties_by_params(&self, params: &IGetPartiesByParams) -> (r: Vec<Party>)
        ensures
            r.deep_view() == spec_matching_parties(*self, params@),
    {
        let ghost f = params@;
        let ghost p = |row: PartyRow| party_matches(row, self.party_teams@, f);
        let ghost m = |row: PartyRow| spec_hydrated_party(row, *self);
        let mut out: Vec<Party> = Vec::new();
        let mut i: usize = 0;
        proof {
            assert(out.deep_view() =~= filter_map(self.parties@.take(0), p, m));
        }
        while i < self.parties.len()
            invariant
                i <= self.parties@.len(),
                out.deep_view() == filter_map(self.parties@.take(i as int), p, m),
            decreases self.parties@.len() - i,
        {
            proof {
                lemma_filter_map_step(self.parties@, p, m, i as int);
                assert(filter_map(self.parties@.take(i as int), p, m) + Seq::<PartyView>::empty()
                    =~= filter_map(self.parties@.take(i as int), p, m));
            }
            let ghost prev = out.deep_view();
            let is_match = {
                let row = &self.parties[i];
                self.row_matches(row, params)
            };
            if is_match {
                let pid = self.parties[i].id;
                let teams = self.teams_of_party(pid);
                let row = &self.parties[i];
                out.push(
                    Party {
                        id: row.id,
                        community_id: row.community_id,
                        game_name: row.game_name.clone(),
                        teams,
                        team_winner_id: row.team_winner_id,
                        finished_at: row.finished_at,
                        created_at: row.created_at,
                        updated_at: row.updated_at,
                        enabled: row.enabled,
                    },
                );
                proof {
                    assert(out.deep_view() =~= prev.push(spec_hydrated_party(self.parties@[i as int], *self)));
                    assert(prev.push(m(self.parties@[i as int])) =~= prev + seq![m(self.parties@[i as int])]);
                }
            }
            i = i + 1;
        }
        proof {
            assert(self.parties@.take(self.parties@.len() as int) =~= self.parties@);
        }
        out
    }

    /// Whether an enabled community with the given name exists.
    pub fn community_exists(&self, name: String) -> (r: bool)
        ensures
            r == (exists|j: int|
                0 <= j < self.communities@.len() && (#[trigger] self.communities@[j]).name@
                    == name@ && self.communities@[j].enabled),
    {
        let mut i: usize = 0;
        while i < self.communities.len()
            invariant
                i <= self.communities@.len(),
                forall|j: int|
                    0 <= j < i ==> !((#[trigger] self.communities@[j]).name@ == name@
                        && self.communities@[j].enabled),
            decreases self.communities@.len() - i,
        {
            if self.communities[i].enabled && self.communities[i].name == name {
                return true;
            }
            i = i + 1;
        }
        false
    }

    /// Whether an enabled player with the given nickname exists in the
    /// community.
    pub fn player_exists(&self, nickname: String, community_id: i32) -> (r: bool)
        ensures
            r == (exists|j: int|
                0 <= j < self.players@.len() && (#[trigger] self.players@[j]).nickname@
                    == nickname@ && self.players@[j].community_id == community_id
                    && self.players@[j].enabled),
    {
        let mut i: usize = 0;
        while i < self.players.len()
            invariant
                i <= self.players@.len(),
                forall|j: int|
                    0 <= j < i ==> !((#[trigger] self.players@[j]).nickname@ == nickname@
                        && self.players@[j].community_id == community_id
                        && self.players@[j].enabled),
            decreases self.players@.len() - i,
        {
            if self.players[i].enabled && self.players[i].community_id == community_id
                && self.players[i].nickname == nickname {
                return true;
            }
            i = i + 1;
        }
        false
    }

    /// Whether an enabled team with the given name exists in the community;
    /// like every uniqueness probe, it is scoped to enabled rows, so a
    /// disabled team frees its name.
    pub fn team_exists(&self, name: String, community_id: i32) -> (r: bool)
        ensures
            r == (exists|j: int|
                0 <= j < self.teams@.len() && (#[trigger] self.teams@[j]).name@ == name@
                    && self.teams@[j].community_id == community_id && self.teams@[j].enabled),
    {
        let mut i: usize = 0;
        while i < self.teams.len()
            invariant
                i <= self.teams@.len(),
                forall|j: int|
                    0 <= j < i ==> !((#[trigger] self.teams@[j]).name@ == name@
                        && self.teams@[j].community_id == community_id
                        && self.teams@[j].enabled),
            decreases self.teams@.len() - i,
        {
            if self.teams[i].enabled && self.teams[i].community_id == community_id
                && self.teams[i].name == name {
                return true;
            }
            i = i + 1;
        }
        false
    }
}

/// Containment in an id list and in its mathematical image agree.
proof fn lemma_mapped_contains(ids: Seq<i32>, x: i32)
    ensures
        ids.contains(x) <==> ids_as_ints(ids).contains(x as int),
{
    let m = ids_as_ints(ids);
    if ids.contains(x) {
        let k = choose|k: int| 0 <= k < ids.len() && ids[k] == x;
        assert(m[k] == x as int);
    }
    if m.contains(x as int) {
        let k = choose|k: int| 0 <= k < m.len() && m[k] == x as int;
        assert(ids[k] as int == x as int);
        assert(ids[k] == x);
    }
}

/// Linking through an id list and through its mathematical image agree.
proof fn lemma_mapped_any(pt: Seq<PartyTeamRow>, party_id: int, ids: Seq<i32>)
    ensures
        (exists|k: int| 0 <= k < ids.len() && in_party(pt, party_id, #[trigger] ids[k] as int))
            <==> (exists|k: int|
            0 <= k < ids_as_ints(ids).len() && in_party(
                pt,
                party_id,
                #[trigger] ids_as_ints(ids)[k],
            )),
{
    let m = ids_as_ints(ids);
    if exists|k: int| 0 <= k < ids.len() && in_party(pt, party_id, #[trigger] ids[k] as int) {
        let k = choose|k: int| 0 <= k < ids.len() && in_party(pt, party_id, #[trigger] ids[k] as int);
        assert(m[k] == ids[k] as int);
        assert(in_party(pt, party_id, m[k]));
    }
    if exists|k: int| 0 <= k < m.len() && in_party(pt, party_id, #[trigger] m[k]) {
        let k = choose|k: int| 0 <= k < m.len() && in_party(pt, party_id, #[trigger] m[k]);
        assert(m[k] == ids[k] as int);
        assert(in_party(pt, party_id, ids[k] as int));
    }
}


// ---------------------------------------------------------------------------
// Writing the store.
// ---------------------------------------------------------------------------

/// The row an inserted community persists: root fields only, enabled, id
/// assigned by the store.
pub open spec fn spec_community_row(c: Community, id: i32) -> CommunityRow {
    CommunityRow {
        id: id,
        name: c.name,
        enabled: true,
        created_at: c.created_at,
        updated_at: c.updated_at,
    }
}

/// The row an inserted player persists.
pub open spec fn spec_player_row(p: Player, id: i32) -> PlayerRow {
    PlayerRow {
        id: id,
        nickname: p.nickname,
        community_id: p.community_id,
        enabled: true,
        created_at: p.created_at,
        updated_at: p.updated_at,
    }
}

/// The row an inserted team persists; memberships are written by save, not
/// cascaded here.
pub open spec fn spec_team_row(t: Team, id: i32) -> TeamRow {
    TeamRow {
        id: id,
        name: t.name,
        community_id: t.community_id,
        enabled: true,
        created_at: t.created_at,
        updated_at: t.updated_at,
    }
}

/// The row an inserted party persists: in progress and enabled.
pub open spec fn spec_party_row(p: Party, id: i32) -> PartyRow {
    PartyRow {
        id: id,
        community_id: p.community_id,
        game_name: p.game_name,
        team_winner_id: p.team_winner_id,
        finished_at: None,
        enabled: true,
        created_at: p.created_at,
        updated_at: p.updated_at,
    }
}

/// How save rewrites a community row: the mutated scalar fields are copied
/// onto the row with the matching id; creation time is immutable; every
/// other row is kept.
pub open spec fn spec_saved_community_row(row: CommunityRow, c: Community) -> CommunityRow {
    if row.id == c.id {
        CommunityRow {
            id: row.id,
            name: c.name,
            enabled: c.enabled,
            created_at: row.created_at,
            updated_at: c.updated_at,
        }
    } else {
        row
    }
}

/// How save rewrites a player row.
pub open spec fn spec_saved_player_row(row: PlayerRow, p: Player) -> PlayerRow {
    if row.id == p.id {
        PlayerRow {
            id: row.id,
            nickname: p.nickname,
            community_id: row.community_id,
            enabled: p.enabled,
            created_at: row.created_at,
            updated_at: p.updated_at,
        }
    } else {
        row
    }
}

/// How save rewrites a team row: name and enabled flag only; the row's
/// timestamps are kept.
pub open spec fn spec_saved_team_row(row: TeamRow, t: Team) -> TeamRow {
    if row.id == t.id {
        TeamRow {
            id: row.id,
            name: t.name,
            community_id: row.community_id,
            enabled: t.enabled,
            created_at: row.created_at,
            updated_at: row.updated_at,
        }
    } else {
        row
    }
}

/// How save rewrites a party row.
pub open spec fn spec_saved_party_row(row: PartyRow, p: Party) -> PartyRow {
    if row.id == p.id {
        PartyRow {
            id: row.id,
            community_id: row.community_id,
            game_name: p.game_name,
            team_winner_id: p.team_winner_id,
            finished_at: p.finished_at,
            enabled: p.enabled,
            created_at: row.created_at,
            updated_at: p.updated_at,
        }
    } else {
        row
    }
}

/// Everything but the communities table and its counter agrees.
pub open spec fn same_but_communities(a: MemoryStore, b: MemoryStore) -> bool {
    &&& a.players@ == b.players@
    &&& a.teams@ == b.teams@
    &&& a.team_players@ == b.team_players@
    &&& a.parties@ == b.parties@
    &&& a.party_teams@ == b.party_teams@
    &&& a.next_player_id == b.next_player_id
    &&& a.next_team_id == b.next_team_id
    &&& a.next_party_id == b.next_party_id
}

/// Everything but the players table and its counter agrees.
pub open spec fn same_but_players(a: MemoryStore, b: MemoryStore) -> bool {
    &&& a.communities@ == b.communities@
    &&& a.teams@ == b.teams@
    &&& a.team_players@ == b.team_players@
    &&& a.parties@ == b.parties@
    &&& a.party_teams@ == b.party_teams@
    &&& a.next_community_id == b.next_community_id
    &&& a.next_team_id == b.next_team_id
    &&& a.next_party_id == b.next_party_id
}

/// Everything but the teams and membership tables and the team counter
/// agrees.
pub open spec fn same_but_teams(a: MemoryStore, b: MemoryStore) -> bool {
    &&& a.communities@ == b.communities@
    &&& a.players@ == b.players@
    &&& a.parties@ == b.parties@
    &&& a.party_teams@ == b.party_teams@
    &&& a.next_community_id == b.next_community_id
    &&& a.next_player_id == b.next_player_id
    &&& a.next_party_id == b.next_party_id
}

/// Everything but the parties and party membership tables and the party
/// counter agrees.
pub open spec fn same_but_parties(a: MemoryStore, b: MemoryStore) -> bool {
    &&& a.communities@ == b.communities@
    &&& a.players@ == b.players@
    &&& a.teams@ == b.teams@
    &&& a.team_players@ == b.team_players@
    &&& a.next_community_id == b.next_community_id
    &&& a.next_player_id == b.next_player_id
    &&& a.next_team_id == b.next_team_id
}

impl MemoryStore {
    /// Well-formedness: every assigned id is positive and below its table's
    /// counter, so a counter value is never an existing row's id.
    pub open spec fn wf(self) -> bool {
        &&& 1 <= self.next_community_id
        &&& 1 <= self.next_player_id
        &&& 1 <= self.next_team_id
        &&& 1 <= self.next_party_id
        &&& forall|i: int|
            0 <= i < self.communities@.len() ==> 0 < (#[trigger] self.communities@[i]).id
                < self.next_community_id
        &&& forall|i: int|
            0 <= i < self.players@.len() ==> 0 < (#[trigger] self.players@[i]).id
                < self.next_player_id
        &&& forall|i: int|
            0 <= i < self.teams@.len() ==> 0 < (#[trigger] self.teams@[i]).id < self.next_team_id
        &&& forall|i: int|
            0 <= i < self.parties@.len() ==> 0 < (#[trigger] self.parties@[i]).id
                < self.next_party_id
        &&& forall|i: int, j: int|
            0 <= i < j < self.communities@.len() ==> (#[trigger] self.communities@[i]).id != (
            #[trigger] self.communities@[j]).id
        &&& forall|i: int, j: int|
            0 <= i < j < self.players@.len() ==> (#[trigger] self.players@[i]).id != (
            #[trigger] self.players@[j]).id
        &&& forall|i: int, j: int|
            0 <= i < j < self.teams@.len() ==> (#[trigger] self.teams@[i]).id != (
            #[trigger] self.teams@[j]).id
        &&& forall|i: int, j: int|
            0 <= i < j < self.parties@.len() ==> (#[trigger] self.parties@[i]).id != (
            #[trigger] self.parties@[j]).id
    }

    /// Persists a community's root fields under a fresh id; fails only when
    /// the id space is exhausted.
    pub fn insert_community(&mut self, community: &Community) -> (r: Result<i32, crate::error::DomainError>)
        requires
            old(self).wf(),
        ensures
            final(self).wf(),
            same_but_communities(*final(self), *old(self)),
            r is Err <==> old(self).next_community_id == i32::MAX,
            match r {
                Ok(id) => {
                    &&& id == old(self).next_community_id
                    &&& final(self).next_community_id == old(self).next_community_id + 1
                    &&& final(self).communities@ == old(self).communities@.push(
                        (spec_community_row(*community, id)),
                    )
                },
                Err(e) => e is StoreFailure && *final(self) == *old(self),
            },
    {
        if self.next_community_id == i32::MAX {
            return Err(crate::error::DomainError::StoreFailure);
        }
        let id = self.next_community_id;
        self.next_community_id = id + 1;
        self.communities.push(
            CommunityRow {
                id,
                name: community.name.clone(),
                enabled: true,
                created_at: community.created_at,
                updated_at: community.updated_at,
            },
        );
        Ok(id)
    }

    /// Persists a player's root fields under a fresh id.
    pub fn insert_player(&mut self, player: &Player) -> (r: Result<i32, crate::error::DomainError>)
        requires
            old(self).wf(),
        ensures
            final(self).wf(),
            same_but_players(*final(self), *old(self)),
            r is Err <==> old(self).next_player_id == i32::MAX,
            match r {
                Ok(id) => {
                    &&& id == old(self).next_player_id
                    &&& final(self).next_player_id == old(self).next_player_id + 1
                    &&& final(self).players@ == old(self).players@.push(
                        (spec_player_row(*player, id)),
                    )
                },
                Err(e) => e is StoreFailure && *final(self) == *old(self),
            },
    {
        if self.next_player_id == i32::MAX {
            return Err(crate::error::DomainError::StoreFailure);
        }
        let id = self.next_player_id;
        self.next_player_id = id + 1;
        self.players.push(
            PlayerRow {
                id,
                nickname: player.nickname.clone(),
                community_id: player.community_id,
                enabled: true,
                created_at: player.created_at,
                updated_at: player.updated_at,
            },
        );
        Ok(id)
    }

    /// Persists a team's root fields under a fresh id; its memberships are
    /// written by save, not here.
    pub fn insert_team(&mut self, team: &Team) -> (r: Result<i32, crate::error::DomainError>)
        requires
            old(self).wf(),
        ensures
            final(self).wf(),
            same_but_teams(*final(self), *old(self)),
            final(self).team_players@ == old(self).team_players@,
            r is Err <==> old(self).next_team_id == i32::MAX,
            match r {
                Ok(id) => {
                    &&& id == old(self).next_team_id
                    &&& final(self).next_team_id == old(self).next_team_id + 1
                    &&& final(self).teams@ == old(self).teams@.push((spec_team_row(*team, id)))
                },
                Err(e) => e is StoreFailure && *final(self) == *old(self),
            },
    {
        if self.next_team_id == i32::MAX {
            return Err(crate::error::DomainError::StoreFailure);
        }
        let id = self.next_team_id;
        self.next_team_id = id + 1;
        self.teams.push(
            TeamRow {
                id,
                name: team.name.clone(),
                community_id: team.community_id,
                enabled: true,
                created_at: team.created_at,
                updated_at: team.updated_at,
            },
        );
        Ok(id)
    }

    /// Persists a party's root fields under a fresh id and one membership
    /// row per participating team, in team order.
    pub fn insert_party(&mut self, party: &Party) -> (r: Result<i32, crate::error::DomainError>)
        requires
            old(self).wf(),
        ensures
            final(self).wf(),
            same_but_parties(*final(self), *old(self)),
            r is Err <==> old(self).next_party_id == i32::MAX,
            match r {
                Ok(id) => {
                    &&& id == old(self).next_party_id
                    &&& final(self).next_party_id == old(self).next_party_id + 1
                    &&& final(self).parties@ == old(self).parties@.push(
                        (spec_party_row(*party, id)),
                    )
                    &&& final(self).party_teams@ == old(self).party_teams@ + party.teams@
                        .map_values(
                        |t: Team| (PartyTeamRow { party_id: id, team_id: t.id }),
                    )
                },
                Err(e) => e is StoreFailure && *final(self) == *old(self),
            },
    {
        if self.next_party_id == i32::MAX {
            return Err(crate::error::DomainError::StoreFailure);
        }
        let id = self.next_party_id;
        self.next_party_id = id + 1;
        self.parties.push(
            PartyRow {
                id,
                community_id: party.community_id,
                game_name: party.game_name.clone(),
                team_winner_id: party.team_winner_id,
                finished_at: None,
                enabled: true,
                created_at: party.created_at,
                updated_at: party.updated_at,
            },
        );
        let ghost link = |t: Team| (PartyTeamRow { party_id: id, team_id: t.id });
        let mut k: usize = 0;
        proof {
            assert(self.party_teams@ =~= old(self).party_teams@ + party.teams@.take(0).map_values(
                link,
            ));
        }
        while k < party.teams.len()
            invariant
                k <= party.teams@.len(),
                self.party_teams@ == old(self).party_teams@ + party.teams@.take(
                    k as int,
                ).map_values(link),
                self.parties@ == old(self).parties@.push((spec_party_row(*party, id))),
                self.next_party_id == old(self).next_party_id + 1,
                same_but_parties(*self, *old(self)),
            decreases party.teams@.len() - k,
        {
            let tid = party.teams[k].id;
            self.party_teams.push(PartyTeamRow { party_id: id, team_id: tid });
            proof {
                assert(party.teams@.take(k as int + 1).map_values(link) =~= party.teams@.take(
                    k as int,
                ).map_values(link).push(link(party.teams@[k as int])));
                assert(self.party_teams@ =~= old(self).party_teams@ + party.teams@.take(
                    k as int + 1,
                ).map_values(link));
            }
            k = k + 1;
        }
        proof {
            assert(party.teams@.take(party.teams@.len() as int) =~= party.teams@);
        }
        Ok(id)
    }

    /// Persists a community's mutated scalar fields onto the row with its
    /// id; creation time is immutable; no matching row is a quiet no-op.
    pub fn save_community(&mut self, community: &Community) -> (r: Result<
        (),
        crate::error::DomainError,
    >)
        requires
            old(self).wf(),
        ensures
            final(self).wf(),
            r is Ok,
            same_but_communities(*final(self), *old(self)),
            final(self).next_community_id == old(self).next_community_id,
            final(self).communities@.len() == old(self).communities@.len(),
            forall|j: int|
                0 <= j < old(self).communities@.len() ==> final(self).communities@[j]
                    == spec_saved_community_row(old(self).communities@[j], *community),
    {
        let n = self.communities.len();
        let mut i: usize = 0;
        while i < n
            invariant
                i <= n,
                n == self.communities@.len(),
                self.communities@.len() == old(self).communities@.len(),
                forall|j: int|
                    0 <= j < i ==> self.communities@[j] == spec_saved_community_row(
                        old(self).communities@[j],
                        *community,
                    ),
                forall|j: int| i <= j < n ==> self.communities@[j] == old(self).communities@[j],
                same_but_communities(*self, *old(self)),
                self.next_community_id == old(self).next_community_id,
            decreases n - i,
        {
            if self.communities[i].id == community.id {
                let created = self.communities[i].created_at;
                self.communities.set(
                    i,
                    CommunityRow {
                        id: community.id,
                        name: community.name.clone(),
                        enabled: community.enabled,
                        created_at: created,
                        updated_at: community.updated_at,
                    },
                );
            }
            i = i + 1;
        }
        Ok(())
    }

    /// Persists a player's mutated scalar fields onto the row with its id.
    pub fn save_player(&mut self, player: &Player) -> (r: Result<(), crate::error::DomainError>)
        requires
            old(self).wf(),
        ensures
            final(self).wf(),
            r is Ok,
            same_but_players(*final(self), *old(self)),
            final(self).next_player_id == old(self).next_player_id,
            final(self).players@.len() == old(self).players@.len(),
            forall|j: int|
                0 <= j < old(self).players@.len() ==> final(self).players@[j]
                    == spec_saved_player_row(old(self).players@[j], *player),
    {
        let n = self.players.len();
        let mut i: usize = 0;
        while i < n
            invariant
                i <= n,
                n == self.players@.len(),
                self.players@.len() == old(self).players@.len(),
                forall|j: int|
                    0 <= j < i ==> self.players@[j] == spec_saved_player_row(
                        old(self).players@[j],
                        *player,
                    ),
                forall|j: int| i <= j < n ==> self.players@[j] == old(self).players@[j],
                same_but_players(*self, *old(self)),
                self.next_player_id == old(self).next_player_id,
            decreases n - i,
        {
            if self.players[i].id == player.id {
                let created = self.players[i].created_at;
                let community_id = self.players[i].community_id;
                self.players.set(
                    i,
                    PlayerRow {
                        id: player.id,
                        nickname: player.nickname.clone(),
                        community_id,
                        enabled: player.enabled,
                        created_at: created,
                        updated_at: player.updated_at,
                    },
                );
            }
            i = i + 1;
        }
        Ok(())
    }

    /// Persists a party's mutated scalar fields onto the row with its id.
    pub fn save_party(&mut self, party: &Party) -> (r: Result<(), crate::error::DomainError>)
        requires
            old(self).wf(),
        ensures
            final(self).wf(),
            r is Ok,
            same_but_parties(*final(self), *old(self)),
            final(self).party_teams@ == old(self).party_teams@,
            final(self).next_party_id == old(self).next_party_id,
            final(self).parties@.len() == old(self).parties@.len(),
            forall|j: int|
                0 <= j < old(self).parties@.len() ==> final(self).parties@[j]
                    == spec_saved_party_row(old(self).parties@[j], *party),
    {
        let n = self.parties.len();
        let mut i: usize = 0;
        while i < n
            invariant
                i <= n,
                n == self.parties@.len(),
                self.parties@.len() == old(self).parties@.len(),
                forall|j: int|
                    0 <= j < i ==> self.parties@[j] == spec_saved_party_row(
                        old(self).parties@[j],
                        *party,
                    ),
                forall|j: int| i <= j < n ==> self.parties@[j] == old(self).parties@[j],
                same_but_parties(*self, *old(self)),
                self.party_teams@ == old(self).party_teams@,
                self.next_party_id == old(self).next_party_id,
            decreases n - i,
        {
            if self.parties[i].id == party.id {
                let created = self.parties[i].created_at;
                let community_id = self.parties[i].community_id;
                self.parties.set(
                    i,
                    PartyRow {
                        id: party.id,
                        community_id,
                        game_name: party.game_name.clone(),
                        team_winner_id: party.team_winner_id,
                        finished_at: party.finished_at,
                        enabled: party.enabled,
                        created_at: created,
                        updated_at: party.updated_at,
                    },
                );
            }
            i = i + 1;
        }
        Ok(())
    }

    /// Persists a team's mutated scalar fields and upserts a membership row
    /// for every roster player not yet linked, never duplicating a link.
    /// Afterwards every roster player is linked to the team.
    pub fn save_team(&mut self, team: &Team) -> (r: Result<(), crate::error::DomainError>)
        requires
            old(self).wf(),
        ensures
            final(self).wf(),
            r is Ok,
            same_but_teams(*final(self), *old(self)),
            final(self).next_team_id == old(self).next_team_id,
            final(self).teams@.len() == old(self).teams@.len(),
            forall|j: int|
                0 <= j < old(self).teams@.len() ==> final(self).teams@[j] == spec_saved_team_row(
                    old(self).teams@[j],
                    *team,
                ),
            final(self).team_players@.len() >= old(self).team_players@.len(),
            final(self).team_players@.take(old(self).team_players@.len() as int) == old(
                self,
            ).team_players@,
            forall|j: int|
                old(self).team_players@.len() <= j < final(self).team_players@.len() ==> {
                    &&& (#[trigger] final(self).team_players@[j]).team_id == team.id
                    &&& crate::domain::has_player_id(
                        team@.players,
                        final(self).team_players@[j].player_id as int,
                    )
                    &&& !in_team(
                        old(self).team_players@,
                        team.id as int,
                        final(self).team_players@[j].player_id as int,
                    )
                },
            forall|j1: int, j2: int|
                old(self).team_players@.len() <= j1 < j2 < final(self).team_players@.len()
                    ==> (#[trigger] final(self).team_players@[j1]).player_id != (
                #[trigger] final(self).team_players@[j2]).player_id,
            forall|k: int|
                0 <= k < team@.players.len() ==> in_team(
                    final(self).team_players@,
                    team.id as int,
                    (#[trigger] team@.players[k]).id,
                ),
    {
        let n = self.teams.len();
        let mut i: usize = 0;
        while i < n
            invariant
                i <= n,
                n == self.teams@.len(),
                self.teams@.len() == old(self).teams@.len(),
                forall|j: int|
                    0 <= j < i ==> self.teams@[j] == spec_saved_team_row(
                        old(self).teams@[j],
                        *team,
                    ),
                forall|j: int| i <= j < n ==> self.teams@[j] == old(self).teams@[j],
                same_but_teams(*self, *old(self)),
                self.team_players@ == old(self).team_players@,
                self.next_team_id == old(self).next_team_id,
            decreases n - i,
        {
            if self.teams[i].id == team.id {
                let created = self.teams[i].created_at;
                let updated = self.teams[i].updated_at;
                let community_id = self.teams[i].community_id;
                self.teams.set(
                    i,
                    TeamRow {
                        id: team.id,
                        name: team.name.clone(),
                        community_id,
                        enabled: team.enabled,
                        created_at: created,
                        updated_at: updated,
                    },
                );
            }
            i = i + 1;
        }
        let now = crate::date_time::DateTime::now();
        let mut k: usize = 0;
        while k < team.players.len()
            invariant
                k <= team.players@.len(),
                self.teams@.len() == old(self).teams@.len(),
                forall|j: int|
                    0 <= j < old(self).teams@.len() ==> self.teams@[j] == spec_saved_team_row(
                        old(self).teams@[j],
                        *team,
                    ),
                same_but_teams(*self, *old(self)),
                self.next_team_id == old(self).next_team_id,
                self.team_players@.len() >= old(self).team_players@.len(),
                self.team_players@.take(old(self).team_players@.len() as int) == old(
                    self,
                ).team_players@,
                forall|j: int|
                    old(self).team_players@.len() <= j < self.team_players@.len() ==> {
                        &&& (#[trigger] self.team_players@[j]).team_id == team.id
                        &&& crate::domain::has_player_id(
                            team@.players,
                            self.team_players@[j].player_id as int,
                        )
                        &&& !in_team(
                            old(self).team_players@,
                            team.id as int,
                            self.team_players@[j].player_id as int,
                        )
                    },
                forall|j1: int, j2: int|
                    old(self).team_players@.len() <= j1 < j2 < self.team_players@.len() ==> (
                    #[trigger] self.team_players@[j1]).player_id != (
                    #[trigger] self.team_players@[j2]).player_id,
                forall|kk: int|
                    0 <= kk < k ==> in_team(
                        self.team_players@,
                        team.id as int,
                        (#[trigger] team@.players[kk]).id,
                    ),
            decreases team.players@.len() - k,
        {
            let pid = team.players[k].id;
            let enabled = team.players[k].enabled;
            let ghost before = self.team_players@;
            if !self.linked_to_team(team.id, pid) {
                let row = TeamPlayerRow {
                    team_id: team.id,
                    player_id: pid,
                    enabled,
                    created_at: now,
                    updated_at: now,
                };
                self.team_players.push(row);
                proof {
                    assert(self.team_players@ == before.push(row));
                    assert(self.team_players@.take(before.len() as int) =~= before);
                    assert(self.team_players@.take(old(self).team_players@.len() as int)
                        =~= before.take(old(self).team_players@.len() as int));
                    assert forall|j: int|
                        old(self).team_players@.len() <= j
                            < self.team_players@.len() implies !in_team(
                        old(self).team_players@,
                        team.id as int,
                        (#[trigger] self.team_players@[j]).player_id as int,
                    ) && self.team_players@[j].team_id == team.id && crate::domain::has_player_id(
                        team@.players,
                        self.team_players@[j].player_id as int,
                    ) by {
                        if j < before.len() {
                            assert(self.team_players@[j] == before[j]);
                        } else {
                            assert(self.team_players@[j] == row);
                            assert(team@.players[k as int].id == pid as int);
                            lemma_in_team_shrink(before, old(self).team_players@, team.id as int, pid as int);
                        }
                    }
                    assert forall|j1: int, j2: int|
                        old(self).team_players@.len() <= j1 < j2
                            < self.team_players@.len() implies (
                    #[trigger] self.team_players@[j1]).player_id != (
                    #[trigger] self.team_players@[j2]).player_id by {
                        if j2 == before.len() {
                            assert(self.team_players@[j1] == before[j1]);
                            if self.team_players@[j1].player_id == pid {
                                assert(in_team(before, team.id as int, pid as int));
                            }
                        } else {
                            assert(self.team_players@[j1] == before[j1]);
                            assert(self.team_players@[j2] == before[j2]);
                        }
                    }
                    assert forall|kk: int| 0 <= kk < k + 1 implies in_team(
                        self.team_players@,
                        team.id as int,
                        (#[trigger] team@.players[kk]).id,
                    ) by {
                        if kk < k {
                            lemma_in_team_grow(before, self.team_players@, team.id as int, team@.players[kk].id);
                        } else {
                            assert(self.team_players@[before.len() as int] == row);
                        }
                    }
                }
            } else {
                proof {
                    assert forall|kk: int| 0 <= kk < k + 1 implies in_team(
                        self.team_players@,
                        team.id as int,
                        (#[trigger] team@.players[kk]).id,
                    ) by {
                        if kk == k {
                            assert(team@.players[kk].id == pid as int);
                        }
                    }
                }
            }
            k = k + 1;
        }
        Ok(())
    }
}

/// A link present in a prefix is present in the whole relation.
proof fn lemma_in_team_grow(tp1: Seq<TeamPlayerRow>, tp2: Seq<TeamPlayerRow>, team_id: int, player_id: int)
    requires
        tp1.len() <= tp2.len(),
        tp2.take(tp1.len() as int) == tp1,
        in_team(tp1, team_id, player_id),
    ensures
        in_team(tp2, team_id, player_id),
{
    let w = choose|i: int|
        0 <= i < tp1.len() && (#[trigger] tp1[i]).team_id == team_id && tp1[i].player_id
            == player_id;
    assert(tp2[w] == tp1[w]);
}

/// A link absent from the whole relation is absent from a prefix of it.
proof fn lemma_in_team_shrink(tp1: Seq<TeamPlayerRow>, tp2: Seq<TeamPlayerRow>, team_id: int, player_id: int)
    requires
        tp2.len() <= tp1.len(),
        tp1.take(tp2.len() as int) == tp2,
        !in_team(tp1, team_id, player_id),
    ensures
        !in_team(tp2, team_id, player_id),
{
    if in_team(tp2, team_id, player_id) {
        let w = choose|i: int|
            0 <= i < tp2.len() && (#[trigger] tp2[i]).team_id == team_id && tp2[i].player_id
                == player_id;
        assert(tp1[w] == tp2[w]);
    }
}


// ---------------------------------------------------------------------------
// Laws of hydration.
// ---------------------------------------------------------------------------

/// Hydration completeness for a community: the hydrated player list holds
/// exactly the enabled players of the community (each exactly as its row
/// reads), and the hydrated team list holds exactly the enabled teams of the
/// community, each carrying its own roster; disabled rows are excluded.
pub proof fn lemma_hydration_completeness(s: MemoryStore, community_id: int)
    ensures
        forall|k: int|
            0 <= k < spec_community_players(s, community_id).len() ==> (
            #[trigger] spec_community_players(s, community_id)[k]).enabled
                && spec_community_players(s, community_id)[k].community_id == community_id,
        forall|j: int|
            0 <= j < s.players@.len() && (#[trigger] s.players@[j]).enabled
                && s.players@[j].community_id == community_id ==> spec_community_players(
                s,
                community_id,
            ).contains(player_view_of_row(s.players@[j])),
        forall|k: int|
            0 <= k < spec_community_teams(s, community_id).len() ==> (
            #[trigger] spec_community_teams(s, community_id)[k]).enabled
                && spec_community_teams(s, community_id)[k].community_id == community_id
                && spec_community_teams(s, community_id)[k].players == spec_team_players(
                s,
                community_id,
                spec_community_teams(s, community_id)[k].id,
            ),
        forall|j: int|
            0 <= j < s.teams@.len() && (#[trigger] s.teams@[j]).enabled
                && s.teams@[j].community_id == community_id ==> spec_community_teams(
                s,
                community_id,
            ).contains(spec_team_of_row(s.teams@[j], s)),
{
    let pp = |r: PlayerRow| r.community_id == community_id && r.enabled;
    let pm = |r: PlayerRow| player_view_of_row(r);
    lemma_filter_map_elements(s.players@, pp, pm);
    assert forall|k: int| 0 <= k < spec_community_players(s, community_id).len() implies (
    #[trigger] spec_community_players(s, community_id)[k]).enabled && spec_community_players(
        s,
        community_id,
    )[k].community_id == community_id by {
        assert(arises_from(s.players@, pp, pm, filter_map(s.players@, pp, pm)[k]));
        let j = choose|j: int|
            0 <= j < s.players@.len() && pp(#[trigger] s.players@[j]) && pm(s.players@[j])
                == filter_map(s.players@, pp, pm)[k];
        assert(pm(s.players@[j]).enabled);
    }
    let tp = |t: TeamRow| t.community_id == community_id && t.enabled;
    let tm = |t: TeamRow| spec_team_of_row(t, s);
    lemma_filter_map_elements(s.teams@, tp, tm);
    assert forall|k: int| 0 <= k < spec_community_teams(s, community_id).len() implies (
    #[trigger] spec_community_teams(s, community_id)[k]).enabled && spec_community_teams(
        s,
        community_id,
    )[k].community_id == community_id && spec_community_teams(s, community_id)[k].players
        == spec_team_players(s, community_id, spec_community_teams(s, community_id)[k].id) by {
        assert(arises_from(s.teams@, tp, tm, filter_map(s.teams@, tp, tm)[k]));
        let j = choose|j: int|
            0 <= j < s.teams@.len() && tp(#[trigger] s.teams@[j]) && tm(s.teams@[j]) == filter_map(
                s.teams@,
                tp,
                tm,
            )[k];
        assert(tm(s.teams@[j]).enabled);
        assert(tm(s.teams@[j]).players == spec_team_players(
            s,
            s.teams@[j].community_id as int,
            s.teams@[j].id as int,
        ));
    }
}

/// A hydrated roster holds exactly the enabled players of the community that
/// the membership relation links to the team, so a disabled player is never
/// part of a roster, and an enabled linked one always is.
pub proof fn lemma_roster_exact(s: MemoryStore, community_id: int, team_id: int)
    ensures
        forall|q: int|
            0 <= q < spec_team_players(s, community_id, team_id).len() ==> (
            #[trigger] spec_team_players(s, community_id, team_id)[q]).enabled
                && spec_team_players(s, community_id, team_id)[q].community_id == community_id
                && in_team(
                s.team_players@,
                team_id,
                spec_team_players(s, community_id, team_id)[q].id,
            ),
        forall|j: int|
            0 <= j < s.players@.len() && (#[trigger] s.players@[j]).enabled
                && s.players@[j].community_id == community_id && in_team(
                s.team_players@,
                team_id,
                s.players@[j].id as int,
            ) ==> spec_team_players(s, community_id, team_id).contains(
                player_view_of_row(s.players@[j]),
            ),
{
    let pp = |r: PlayerRow|
        r.community_id == community_id && r.enabled && in_team(
            s.team_players@,
            team_id,
            r.id as int,
        );
    let pm = |r: PlayerRow| player_view_of_row(r);
    lemma_filter_map_elements(s.players@, pp, pm);
    assert forall|q: int| 0 <= q < spec_team_players(s, community_id, team_id).len() implies (
    #[trigger] spec_team_players(s, community_id, team_id)[q]).enabled && spec_team_players(
        s,
        community_id,
        team_id,
    )[q].community_id == community_id && in_team(
        s.team_players@,
        team_id,
        spec_team_players(s, community_id, team_id)[q].id,
    ) by {
        assert(arises_from(s.players@, pp, pm, filter_map(s.players@, pp, pm)[q]));
        let j = choose|j: int|
            0 <= j < s.players@.len() && pp(#[trigger] s.players@[j]) && pm(s.players@[j])
                == filter_map(s.players@, pp, pm)[q];
        assert(pm(s.players@[j]).enabled);
        assert(pm(s.players@[j]).id == s.players@[j].id as int);
    }
}

/// A party keeps its historical team references: every team row the
/// membership relation links to the party appears in the party's hydration,
/// whether or not the team is still enabled.
pub proof fn lemma_party_retains_teams(s: MemoryStore, party_id: int)
    ensures
        forall|j: int|
            0 <= j < s.teams@.len() && in_party(
                s.party_teams@,
                party_id,
                (#[trigger] s.teams@[j]).id as int,
            ) ==> spec_party_teams(s, party_id).contains(spec_team_of_row(s.teams@[j], s)),
        forall|k: int|
            0 <= k < spec_party_teams(s, party_id).len() ==> in_party(
                s.party_teams@,
                party_id,
                (#[trigger] spec_party_teams(s, party_id)[k]).id,
            ) && spec_party_teams(s, party_id)[k].players == spec_team_players(
                s,
                spec_party_teams(s, party_id)[k].community_id,
                spec_party_teams(s, party_id)[k].id,
            ),
{
    let tp = |t: TeamRow| in_party(s.party_teams@, party_id, t.id as int);
    let tm = |t: TeamRow| spec_team_of_row(t, s);
    lemma_filter_map_elements(s.teams@, tp, tm);
    assert forall|k: int| 0 <= k < spec_party_teams(s, party_id).len() implies in_party(
        s.party_teams@,
        party_id,
        (#[trigger] spec_party_teams(s, party_id)[k]).id,
    ) && spec_party_teams(s, party_id)[k].players == spec_team_players(
        s,
        spec_party_teams(s, party_id)[k].community_id,
        spec_party_teams(s, party_id)[k].id,
    ) by {
        assert(arises_from(s.teams@, tp, tm, filter_map(s.teams@, tp, tm)[k]));
        let j = choose|j: int|
            0 <= j < s.teams@.len() && tp(#[trigger] s.teams@[j]) && tm(s.teams@[j]) == filter_map(
                s.teams@,
                tp,
                tm,
            )[k];
        assert(tm(s.teams@[j]).id == s.teams@[j].id as int);
        assert(tm(s.teams@[j]).players == spec_team_players(
            s,
            s.teams@[j].community_id as int,
            s.teams@[j].id as int,
        ));
    }
}

} // verus!
