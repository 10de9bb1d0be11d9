use vstd::prelude::*;

use crate::date_time::DateTime;

verus! {

// ---------------------------------------------------------------------------
// Mathematical views of the aggregates.
// ---------------------------------------------------------------------------

/// Mathematical model of a player.
#[verifier::ext_equal]
pub struct PlayerView {
    pub id: int,
    pub nickname: Seq<char>,
    pub community_id: int,
    pub created_at: int,
    pub updated_at: int,
    pub enabled: bool,
}

/// Mathematical model of a team, member players included by value.
#[verifier::ext_equal]
pub struct TeamView {
    pub id: int,
    pub name: Seq<char>,
    pub players: Seq<PlayerView>,
    pub community_id: int,
    pub created_at: int,
    pub updated_at: int,
    pub enabled: bool,
}

/// Mathematical model of a community with its read projections.
#[verifier::ext_equal]
pub struct CommunityView {
    pub id: int,
    pub name: Seq<char>,
    pub players: Seq<PlayerView>,
    pub teams: Seq<TeamView>,
    pub created_at: int,
    pub updated_at: int,
    pub enabled: bool,
}

/// Mathematical model of a party.
#[verifier::ext_equal]
pub struct PartyView {
    pub id: int,
    pub community_id: int,
    pub game_name: Seq<char>,
    pub teams: Seq<TeamView>,
    pub team_winner_id: Option<int>,
    pub finished_at: Option<int>,
    pub created_at: int,
    pub updated_at: int,
    pub enabled: bool,
}

// ---------------------------------------------------------------------------
// Player
// ---------------------------------------------------------------------------

/// A player, owned by exactly one community. Timestamps are whole seconds
/// since the Unix epoch.
pub struct Player {
    pub id: i32,
    pub nickname: String,
    pub community_id: i32,
    pub created_at: i64,
    pub updated_at: i64,
    pub enabled: bool,
}

impl View for Player {
    type V = PlayerView;

    open spec fn view(&self) -> PlayerView {
        PlayerView {
            id: self.id as int,
            nickname: self.nickname@,
            community_id: self.community_id as int,
            created_at: self.created_at as int,
            updated_at: self.updated_at as int,
            enabled: self.enabled,
        }
    }
}

impl DeepView for Player {
    type V = PlayerView;

    open spec fn deep_view(&self) -> PlayerView {
        self.view()
    }
}

impl Clone for Player {
    fn clone(&self) -> (r: Self)
        ensures
            r == *self,
    {
        Player {
            id: self.id,
            nickname: self.nickname.clone(),
            community_id: self.community_id,
            created_at: self.created_at,
            updated_at: self.updated_at,
            enabled: self.enabled,
        }
    }
}

impl Player {
    /// A fresh player: identity unset, enabled, created and updated now.
    pub fn new(nickname: String, community_id: i32) -> (r: Player)
        ensures
            r@.id == 0,
            r@.nickname == nickname@,
            r@.community_id == community_id as int,
            r@.enabled,
            r@.created_at == r@.updated_at,
    {
        let now = DateTime::now();
        Player {
            id: 0,
            nickname,
            community_id,
            created_at: now,
            updated_at: now,
            enabled: true,
        }
    }

    /// The terminal soft-delete transition: clears the enabled flag and
    /// refreshes the update time; every other field is kept.
    pub fn disable(&mut self)
        ensures
            !final(self)@.enabled,
            final(self)@.id == old(self)@.id,
            final(self)@.nickname == old(self)@.nickname,
            final(self)@.community_id == old(self)@.community_id,
            final(self)@.created_at == old(self)@.created_at,
    {
        self.enabled = false;
        self.updated_at = DateTime::now();
    }

    pub fn is_enabled(&self) -> (r: bool)
        ensures
            r == self@.enabled,
    {
        self.enabled
    }
}

// ---------------------------------------------------------------------------
// Team
// ---------------------------------------------------------------------------

/// Whether some team in the sequence carries the given id.
pub open spec fn has_team_id(teams: Seq<TeamView>, id: int) -> bool {
    exists|i: int| 0 <= i < teams.len() && (#[trigger] teams[i]).id == id
}

/// Whether some player in the sequence already carries the given id.
pub open spec fn has_player_id(players: Seq<PlayerView>, id: int) -> bool {
    exists|i: int| 0 <= i < players.len() && players[i].id == id
}

/// Membership addition is idempotent on the player's id: a player whose id is
/// already present leaves the list unchanged.
pub open spec fn spec_add_player(players: Seq<PlayerView>, p: PlayerView) -> Seq<PlayerView> {
    if has_player_id(players, p.id) {
        players
    } else {
        players.push(p)
    }
}

/// A team, holding value copies of its member players.
pub struct Team {
    pub id: i32,
    pub name: String,
    pub players: Vec<Player>,
    pub community_id: i32,
    pub created_at: i64,
    pub updated_at: i64,
    pub enabled: bool,
}

impl View for Team {
    type V = TeamView;

    open spec fn view(&self) -> TeamView {
        TeamView {
            id: self.id as int,
            name: self.name@,
            players: self.players.deep_view(),
            community_id: self.community_id as int,
            created_at: self.created_at as int,
            updated_at: self.updated_at as int,
            enabled: self.enabled,
        }
    }
}

impl DeepView for Team {
    type V = TeamView;

    open spec fn deep_view(&self) -> TeamView {
        self.view()
    }
}

impl Clone for Team {
    fn clone(&self) -> (r: Self)
        ensures
            r@ == self@,
    {
        let players = self.players.clone();
        proof {
            assert forall|i: int| 0 <= i < self.players@.len() implies self.players@[i]
                == players@[i] by {
                assert(cloned::<Player>(self.players@[i], players@[i]));
            }
            assert(players@ =~= self.players@);
        }
        let t = Team {
            id: self.id,
            name: self.name.clone(),
            players,
            community_id: self.community_id,
            created_at: self.created_at,
            updated_at: self.updated_at,
            enabled: self.enabled,
        };
        proof {
            assert(t@ =~= self@);
        }
        t
    }
}

impl Team {
    /// A fresh team: identity unset, no members, enabled.
    pub fn new(name: String, community_id: i32) -> (r: Team)
        ensures
            r@.id == 0,
            r@.name == name@,
            r@.players =~= Seq::<PlayerView>::empty(),
            r@.community_id == community_id as int,
            r@.enabled,
            r@.created_at == r@.updated_at,
    {
        let now = DateTime::now();
        let t = Team {
            id: 0,
            name,
            players: Vec::new(),
            community_id,
            created_at: now,
            updated_at: now,
            enabled: true,
        };
        proof {
            assert(t@.players =~= Seq::<PlayerView>::empty());
        }
        t
    }

    /// Appends a member, unless a player with the same id is already on the
    /// roster; the update time is refreshed either way.
    pub fn add_player(&mut self, player: Player)
        ensures
            final(self)@.players == spec_add_player(old(self)@.players, player@),
            final(self).id == old(self).id,
            final(self).name == old(self).name,
            final(self).community_id == old(self).community_id,
            final(self).created_at == old(self).created_at,
            final(self).enabled == old(self).enabled,
    {
        let n = self.players.len();
        let mut i: usize = 0;
        let mut present = false;
        while i < n
            invariant
                *self == *old(self),
                n == self.players.len(),
                i <= n,
                present == has_player_id(self@.players.take(i as int), player@.id),
            decreases n - i,
        {
            let hit = self.players[i].id == player.id;
            if hit {
                present = true;
            }
            proof {
                let pre = self@.players;
                let i1 = i as int + 1;
                if hit {
                    assert(pre.take(i1)[i as int].id == player@.id);
                    assert(has_player_id(pre.take(i1), player@.id));
                } else if present {
                    let k = choose|k: int|
                        0 <= k < i && pre.take(i as int)[k].id == player@.id;
                    assert(pre.take(i1)[k].id == player@.id);
                    assert(has_player_id(pre.take(i1), player@.id));
                } else {
                    assert forall|j: int| 0 <= j < i1 implies #[trigger] pre.take(i1)[j].id
                        != player@.id by {
                        if j < i {
                            assert(pre.take(i as int)[j].id != player@.id);
                            assert(pre.take(i1)[j] == pre.take(i as int)[j]);
                        } else {
                            assert(pre.take(i1)[j] == pre[i as int]);
                        }
                    }
                    assert(!has_player_id(pre.take(i1), player@.id));
                }
            }
            i = i + 1;
        }
        proof {
            assert(self@.players.take(n as int) =~= self@.players);
        }
        if !present {
            self.players.push(player);
            proof {
                assert(self@.players =~= old(self)@.players.push(player@));
            }
        }
        self.updated_at = DateTime::now();
    }
}

// ---------------------------------------------------------------------------
// Community
// ---------------------------------------------------------------------------

/// A community; its player and team collections are read projections,
/// materialized only when the aggregate is hydrated from the store.
pub struct Community {
    pub id: i32,
    pub name: String,
    pub players: Vec<Player>,
    pub teams: Vec<Team>,
    pub created_at: i64,
    pub updated_at: i64,
    pub enabled: bool,
}

impl View for Community {
    type V = CommunityView;

    open spec fn view(&self) -> CommunityView {
        CommunityView {
            id: self.id as int,
            name: self.name@,
            players: self.players.deep_view(),
            teams: self.teams.deep_view(),
            created_at: self.created_at as int,
            updated_at: self.updated_at as int,
            enabled: self.enabled,
        }
    }
}

impl DeepView for Community {
    type V = CommunityView;

    open spec fn deep_view(&self) -> CommunityView {
        self.view()
    }
}

impl Community {
    /// A fresh community: identity unset, empty projections, enabled.
    pub fn new(name: String) -> (r: Community)
        ensures
            r@.id == 0,
            r@.name == name@,
            r@.players =~= Seq::<PlayerView>::empty(),
            r@.teams =~= Seq::<TeamView>::empty(),
            r@.enabled,
            r@.created_at == r@.updated_at,
    {
        let now = DateTime::now();
        let c = Community {
            id: 0,
            name,
            players: Vec::new(),
            teams: Vec::new(),
            created_at: now,
            updated_at: now,
            enabled: true,
        };
        proof {
            assert(c@.players =~= Seq::<PlayerView>::empty());
            assert(c@.teams =~= Seq::<TeamView>::empty());
        }
        c
    }

    /// The terminal soft-delete transition.
    pub fn disable(&mut self)
        ensures
            !final(self)@.enabled,
            final(self)@.id == old(self)@.id,
            final(self)@.name == old(self)@.name,
            final(self)@.players == old(self)@.players,
            final(self)@.teams == old(self)@.teams,
            final(self)@.created_at == old(self)@.created_at,
    {
        self.enabled = false;
        self.updated_at = DateTime::now();
    }

    pub fn is_enabled(&self) -> (r: bool)
        ensures
            r == self@.enabled,
    {
        self.enabled
    }
}

// ---------------------------------------------------------------------------
// Party
// ---------------------------------------------------------------------------

/// A match between teams of one community, with an optional winner and an
/// optional finish time set by the end transition.
pub struct Party {
    pub id: i32,
    pub community_id: i32,
    pub game_name: String,
    pub teams: Vec<Team>,
    pub team_winner_id: Option<i32>,
    pub finished_at: Option<i64>,
    pub created_at: i64,
    pub updated_at: i64,
    pub enabled: bool,
}

impl View for Party {
    type V = PartyView;

    open spec fn view(&self) -> PartyView {
        PartyView {
            id: self.id as int,
            community_id: self.community_id as int,
            game_name: self.game_name@,
            teams: self.teams.deep_view(),
            team_winner_id: match self.team_winner_id {
                Some(w) => Some(w as int),
                None => None,
            },
            finished_at: match self.finished_at {
                Some(t) => Some(t as int),
                None => None,
            },
            created_at: self.created_at as int,
            updated_at: self.updated_at as int,
            enabled: self.enabled,
        }
    }
}

impl DeepView for Party {
    type V = PartyView;

    open spec fn deep_view(&self) -> PartyView {
        self.view()
    }
}

impl Party {
    /// A fresh, in-progress party over the given teams.
    pub fn new(game_name: String, teams: Vec<Team>, community_id: i32) -> (r: Party)
        ensures
            r@.id == 0,
            r@.community_id == community_id as int,
            r@.game_name == game_name@,
            r@.teams == teams.deep_view(),
            r@.team_winner_id is None,
            r@.finished_at is None,
            r@.enabled,
            r@.created_at == r@.updated_at,
    {
        let now = DateTime::now();
        Party {
            id: 0,
            community_id,
            teams,
            team_winner_id: None,
            game_name,
            finished_at: None,
            created_at: now,
            updated_at: now,
            enabled: true,
        }
    }

    /// The end transition: records the winner (possibly none) and stamps the
    /// finish time. Guarding against ending twice is the caller's rule.
    pub fn end(&mut self, winner_team_id: Option<i32>)
        ensures
            final(self)@.team_winner_id == (match winner_team_id {
                Some(w) => Some(w as int),
                None => None::<int>,
            }),
            final(self)@.finished_at is Some,
            final(self)@.id == old(self)@.id,
            final(self)@.community_id == old(self)@.community_id,
            final(self)@.game_name == old(self)@.game_name,
            final(self)@.teams == old(self)@.teams,
            final(self)@.created_at == old(self)@.created_at,
            final(self)@.enabled == old(self)@.enabled,
    {
        self.team_winner_id = winner_team_id;
        self.finished_at = Some(DateTime::now());
        self.updated_at = DateTime::now();
    }

    pub fn is_finished(&self) -> (r: bool)
        ensures
            r == (self@.finished_at is Some),
    {
        self.finished_at.is_some()
    }

    /// The terminal soft-delete transition.
    pub fn disable(&mut self)
        ensures
            !final(self)@.enabled,
            final(self)@.id == old(self)@.id,
            final(self)@.community_id == old(self)@.community_id,
            final(self)@.game_name == old(self)@.game_name,
            final(self)@.teams == old(self)@.teams,
            final(self)@.team_winner_id == old(self)@.team_winner_id,
            final(self)@.finished_at == old(self)@.finished_at,
            final(self)@.created_at == old(self)@.created_at,
    {
        self.enabled = false;
        self.updated_at = DateTime::now();
    }

    pub fn is_enabled(&self) -> (r: bool)
        ensures
            r == self@.enabled,
    {
        self.enabled
    }
}


// ---------------------------------------------------------------------------
// Laws of membership addition.
// ---------------------------------------------------------------------------

/// Which ids a roster holds after an addition: the added player's id and the
/// ids already present, nothing else.
pub proof fn lemma_add_player_has(players: Seq<PlayerView>, p: PlayerView, x: int)
    ensures
        has_player_id(spec_add_player(players, p), x) <==> (has_player_id(players, x) || p.id
            == x),
{
    let r = spec_add_player(players, p);
    if has_player_id(players, p.id) {
        if p.id == x {
            let i = choose|i: int| 0 <= i < players.len() && players[i].id == p.id;
            assert(players[i].id == x);
        }
    } else {
        if has_player_id(players, x) {
            let i = choose|i: int| 0 <= i < players.len() && players[i].id == x;
            assert(r[i] == players[i]);
            assert(r[i].id == x);
        }
        if p.id == x {
            assert(r[players.len() as int] == p);
        }
        if has_player_id(r, x) && !has_player_id(players, x) && p.id != x {
            let i = choose|i: int| 0 <= i < r.len() && r[i].id == x;
            if i < players.len() {
                assert(players[i] == r[i]);
            } else {
                assert(r[i] == p);
            }
            assert(false);
        }
    }
}

/// Adding the same player twice is the same as adding it once: membership
/// addition is idempotent.
pub proof fn lemma_add_player_idempotent(players: Seq<PlayerView>, p: PlayerView)
    ensures
        spec_add_player(spec_add_player(players, p), p) == spec_add_player(players, p),
{
    let once = spec_add_player(players, p);
    lemma_add_player_has(players, p, p.id);
    assert(has_player_id(once, p.id));
}

/// How many roster entries carry an id.
pub open spec fn count_with_id(players: Seq<PlayerView>, id: int) -> nat
    decreases players.len(),
{
    if players.len() == 0 {
        0
    } else {
        count_with_id(players.drop_last(), id) + (if players.last().id == id {
            1nat
        } else {
            0nat
        })
    }
}

proof fn lemma_count_with_id_push(players: Seq<PlayerView>, p: PlayerView, id: int)
    ensures
        count_with_id(players.push(p), id) == count_with_id(players, id) + (if p.id == id {
            1nat
        } else {
            0nat
        }),
{
    assert(players.push(p).drop_last() =~= players);
    assert(players.push(p).last() == p);
}

proof fn lemma_count_with_id_zero(players: Seq<PlayerView>, id: int)
    requires
        !has_player_id(players, id),
    ensures
        count_with_id(players, id) == 0,
    decreases players.len(),
{
    if players.len() > 0 {
        assert forall|i: int| 0 <= i < players.drop_last().len() implies players.drop_last()[i].id
            != id by {
            assert(players.drop_last()[i] == players[i]);
            assert(players[i].id != id);
        }
        lemma_count_with_id_zero(players.drop_last(), id);
        assert(players.last().id != id);
    }
}

/// Adding a player to a roster that does not yet hold its id, once or twice,
/// leaves exactly one entry carrying that id.
pub proof fn lemma_add_player_single_entry(players: Seq<PlayerView>, p: PlayerView)
    requires
        !has_player_id(players, p.id),
    ensures
        count_with_id(spec_add_player(players, p), p.id) == 1,
        count_with_id(spec_add_player(spec_add_player(players, p), p), p.id) == 1,
{
    lemma_count_with_id_zero(players, p.id);
    lemma_count_with_id_push(players, p, p.id);
    lemma_add_player_idempotent(players, p);
}

} // verus!
