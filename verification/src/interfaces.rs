use vstd::prelude::*;

use crate::decimal::{dec_chars_signed, i64_to_string};
use crate::domain::{Community, CommunityView, Party, PartyView, PlayerView, TeamView};

verus! {

// ---------------------------------------------------------------------------
// The read-model shapes handed to callers, timestamps rendered as text.
// ---------------------------------------------------------------------------

/// Mathematical model of a player read-model entry.
#[verifier::ext_equal]
pub struct ResultPlayerView {
    pub id: int,
    pub nickname: Seq<char>,
    pub created_at: Seq<char>,
    pub updated_at: Seq<char>,
}

/// Mathematical model of a team read-model entry.
#[verifier::ext_equal]
pub struct ResultTeamView {
    pub id: int,
    pub name: Seq<char>,
    pub players: Seq<ResultPlayerView>,
    pub created_at: Seq<char>,
    pub updated_at: Seq<char>,
}

/// How a hydrated player maps to its read model.
pub open spec fn result_player_of(p: PlayerView) -> ResultPlayerView {
    ResultPlayerView {
        id: p.id,
        nickname: p.nickname,
        created_at: dec_chars_signed(p.created_at),
        updated_at: dec_chars_signed(p.updated_at),
    }
}

/// How a hydrated team maps to its read model.
pub open spec fn result_team_of(t: TeamView) -> ResultTeamView {
    ResultTeamView {
        id: t.id,
        name: t.name,
        players: t.players.map_values(|p: PlayerView| result_player_of(p)),
        created_at: dec_chars_signed(t.created_at),
        updated_at: dec_chars_signed(t.updated_at),
    }
}

/// One player inside a community or party read model.
pub struct IResultPlayer {
    pub id: i32,
    pub nickname: String,
    pub created_at: String,
    pub updated_at: String,
}

impl View for IResultPlayer {
    type V = ResultPlayerView;

    open spec fn view(&self) -> ResultPlayerView {
        ResultPlayerView {
            id: self.id as int,
            nickname: self.nickname@,
            created_at: self.created_at@,
            updated_at: self.updated_at@,
        }
    }
}

impl DeepView for IResultPlayer {
    type V = ResultPlayerView;

    open spec fn deep_view(&self) -> ResultPlayerView {
        self.view()
    }
}

/// One team inside a community or party read model.
pub struct IResultTeams {
    pub id: i32,
    pub name: String,
    pub players: Vec<IResultPlayer>,
    pub created_at: String,
    pub updated_at: String,
}

impl View for IResultTeams {
    type V = ResultTeamView;

    open spec fn view(&self) -> ResultTeamView {
        ResultTeamView {
            id: self.id as int,
            name: self.name@,
            players: self.players.deep_view(),
            created_at: self.created_at@,
            updated_at: self.updated_at@,
        }
    }
}

impl DeepView for IResultTeams {
    type V = ResultTeamView;

    open spec fn deep_view(&self) -> ResultTeamView {
        self.view()
    }
}

/// Maps hydrated players to their read model, in order.
fn map_players(players: &Vec<crate::domain::Player>) -> (r: Vec<IResultPlayer>)
    ensures
        r.deep_view() == players.deep_view().map_values(|p: PlayerView| result_player_of(p)),
{
    let ghost f = |p: PlayerView| result_player_of(p);
    let mut out: Vec<IResultPlayer> = Vec::new();
    let mut i: usize = 0;
    proof {
        assert(out.deep_view() =~= players.deep_view().take(0).map_values(f));
    }
    while i < players.len()
        invariant
            i <= players@.len(),
            out.deep_view() == players.deep_view().take(i as int).map_values(f),
        decreases players@.len() - i,
    {
        let p = &players[i];
        out.push(
            IResultPlayer {
                id: p.id,
                nickname: p.nickname.clone(),
                created_at: i64_to_string(p.created_at),
                updated_at: i64_to_string(p.updated_at),
            },
        );
        proof {
            assert(players.deep_view().take(i as int + 1).map_values(f)
                =~= players.deep_view().take(i as int).map_values(f).push(
                f(players@[i as int].deep_view()),
            ));
            assert(out.deep_view() =~= players.deep_view().take(i as int).map_values(f).push(
                f(players@[i as int].deep_view()),
            ));
        }
        i = i + 1;
    }
    proof {
        assert(players.deep_view().take(players.deep_view().len() as int) =~= players.deep_view());
    }
    out
}

/// Maps hydrated teams to their read model, in order.
fn map_teams(teams: &Vec<crate::domain::Team>) -> (r: Vec<IResultTeams>)
    ensures
        r.deep_view() == teams.deep_view().map_values(|t: TeamView| result_team_of(t)),
{
    let ghost f = |t: TeamView| result_team_of(t);
    let mut out: Vec<IResultTeams> = Vec::new();
    let mut i: usize = 0;
    proof {
        assert(out.deep_view() =~= teams.deep_view().take(0).map_values(f));
    }
    while i < teams.len()
        invariant
            i <= teams@.len(),
            out.deep_view() == teams.deep_view().take(i as int).map_values(f),
        decreases teams@.len() - i,
    {
        let t = &teams[i];
        let players = map_players(&t.players);
        out.push(
            IResultTeams {
                id: t.id,
                name: t.name.clone(),
                players,
                created_at: i64_to_string(t.created_at),
                updated_at: i64_to_string(t.updated_at),
            },
        );
        proof {
            assert(teams.deep_view().take(i as int + 1).map_values(f) =~= teams.deep_view().take(
                i as int,
            ).map_values(f).push(f(teams@[i as int].deep_view())));
            assert(out.deep_view() =~= teams.deep_view().take(i as int).map_values(f).push(
                f(teams@[i as int].deep_view()),
            ));
        }
        i = i + 1;
    }
    proof {
        assert(teams.deep_view().take(teams.deep_view().len() as int) =~= teams.deep_view());
    }
    out
}

// ---------------------------------------------------------------------------
// Community read model.
// ---------------------------------------------------------------------------

/// Mathematical model of the community read model.
#[verifier::ext_equal]
pub struct ResultCommunityView {
    pub id: int,
    pub name: Seq<char>,
    pub created_at: Seq<char>,
    pub updated_at: Seq<char>,
    pub players: Seq<ResultPlayerView>,
    pub teams: Seq<ResultTeamView>,
}

/// How a hydrated community maps to its read model.
pub open spec fn result_community_of(c: CommunityView) -> ResultCommunityView {
    ResultCommunityView {
        id: c.id,
        name: c.name,
        created_at: dec_chars_signed(c.created_at),
        updated_at: dec_chars_signed(c.updated_at),
        players: c.players.map_values(|p: PlayerView| result_player_of(p)),
        teams: c.teams.map_values(|t: TeamView| result_team_of(t)),
    }
}

/// The shape a fetched community is answered with.
pub struct IResultGetCommunity {
    pub id: i32,
    pub name: String,
    pub created_at: String,
    pub updated_at: String,
    pub players: Vec<IResultPlayer>,
    pub teams: Vec<IResultTeams>,
}

impl View for IResultGetCommunity {
    type V = ResultCommunityView;

    open spec fn view(&self) -> ResultCommunityView {
        ResultCommunityView {
            id: self.id as int,
            name: self.name@,
            created_at: self.created_at@,
            updated_at: self.updated_at@,
            players: self.players.deep_view(),
            teams: self.teams.deep_view(),
        }
    }
}

impl DeepView for IResultGetCommunity {
    type V = ResultCommunityView;

    open spec fn deep_view(&self) -> ResultCommunityView {
        self.view()
    }
}

impl IResultGetCommunity {
    /// Renders a hydrated community: timestamps become decimal text, players
    /// and teams keep their order.
    pub fn new(community: Community) -> (r: IResultGetCommunity)
        ensures
            r@ == result_community_of(community@),
    {
        let players = map_players(&community.players);
        let teams = map_teams(&community.teams);
        let r = IResultGetCommunity {
            id: community.id,
            name: community.name,
            created_at: i64_to_string(community.created_at),
            updated_at: i64_to_string(community.updated_at),
            players,
            teams,
        };
        proof {
            assert(r@ =~= result_community_of(community@));
        }
        r
    }
}

// ---------------------------------------------------------------------------
// Party read model.
// ---------------------------------------------------------------------------

/// Mathematical model of the party read model.
#[verifier::ext_equal]
pub struct ResultPartyView {
    pub id: int,
    pub community_id: int,
    pub game_name: Seq<char>,
    pub team_winner_id: Option<int>,
    pub created_at: Seq<char>,
    pub updated_at: Seq<char>,
    pub teams: Seq<ResultTeamView>,
}

/// How a hydrated party maps to its read model; the finish time is not part
/// of the answer shape.
pub open spec fn result_party_of(p: PartyView) -> ResultPartyView {
    ResultPartyView {
        id: p.id,
        community_id: p.community_id,
        game_name: p.game_name,
        team_winner_id: p.team_winner_id,
        created_at: dec_chars_signed(p.created_at),
        updated_at: dec_chars_signed(p.updated_at),
        teams: p.teams.map_values(|t: TeamView| result_team_of(t)),
    }
}

/// The shape a fetched party is answered with.
pub struct IResultGetParty {
    pub id: i32,
    pub community_id: i32,
    pub game_name: String,
    pub team_winner_id: Option<i32>,
    pub created_at: String,
    pub updated_at: String,
    pub teams: Vec<IResultTeams>,
}

impl View for IResultGetParty {
    type V = ResultPartyView;

    open spec fn view(&self) -> ResultPartyView {
        ResultPartyView {
            id: self.id as int,
            community_id: self.community_id as int,
            game_name: self.game_name@,
            team_winner_id: match self.team_winner_id {
                Some(w) => Some(w as int),
                None => None,
            },
            created_at: self.created_at@,
            updated_at: self.updated_at@,
            teams: self.teams.deep_view(),
        }
    }
}

impl DeepView for IResultGetParty {
    type V = ResultPartyView;

    open spec fn deep_view(&self) -> ResultPartyView {
        self.view()
    }
}

impl IResultGetParty {
    /// Renders a hydrated party: timestamps become decimal text, teams keep
    /// their order.
    pub fn new(party: Party) -> (r: IResultGetParty)
        ensures
            r@ == result_party_of(party@),
    {
        let teams = map_teams(&party.teams);
        let r = IResultGetParty {
            id: party.id,
            community_id: party.community_id,
            game_name: party.game_name,
            team_winner_id: party.team_winner_id,
            created_at: i64_to_string(party.created_at),
            updated_at: i64_to_string(party.updated_at),
            teams,
        };
        proof {
            assert(r@ =~= result_party_of(party@));
        }
        r
    }
}

} // verus!
