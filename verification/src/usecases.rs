use vstd::prelude::*;

use crate::api::ApiResponse;
use crate::domain::{Community, Player, Team, Party, CommunityView, PartyView};
use crate::dto::{
    AddPlayersIntoTeamDto, CreateCommunityDto, CreatePartyDto, CreatePlayerIntoCommunityDto,
    CreateTeamIntoCommunityDto, EndPartyDto,
};
use crate::error::DomainError;
use crate::filter::{FilterView, IGetPartiesByParams};
use crate::interfaces::{
    IResultGetCommunity, IResultGetParty, result_community_of, result_party_of,
};
use crate::store::{
    MemoryStore, CommunityRow, PlayerRow, TeamRow, filter_map, in_team, in_party,
    spec_hydrated_community, spec_hydrated_party, spec_team_of_row, same_but_communities,
    same_but_players, same_but_teams, same_but_parties,
};

verus! {

// ---------------------------------------------------------------------------
// The conditions the use cases decide on.
// ---------------------------------------------------------------------------

/// Whether an enabled community already carries the name.
pub open spec fn community_name_taken(s: MemoryStore, name: Seq<char>) -> bool {
    exists|j: int|
        0 <= j < s.communities@.len() && (#[trigger] s.communities@[j]).name@ == name
            && s.communities@[j].enabled
}

/// Whether a community row carries the id, enabled or not.
pub open spec fn community_found(s: MemoryStore, id: i32) -> bool {
    exists|j: int| 0 <= j < s.communities@.len() && (#[trigger] s.communities@[j]).id == id
}

/// Whether an enabled community row carries the id.
pub open spec fn community_active(s: MemoryStore, id: i32) -> bool {
    exists|j: int|
        0 <= j < s.communities@.len() && (#[trigger] s.communities@[j]).id == id
            && s.communities@[j].enabled
}

/// Whether an enabled player of the community already carries the nickname.
pub open spec fn player_nick_taken(s: MemoryStore, nickname: Seq<char>, community_id: i32) -> bool {
    exists|j: int|
        0 <= j < s.players@.len() && (#[trigger] s.players@[j]).nickname@ == nickname
            && s.players@[j].community_id == community_id && s.players@[j].enabled
}

/// Whether a player row carries the id, enabled or not.
pub open spec fn player_found(s: MemoryStore, id: i32) -> bool {
    exists|j: int| 0 <= j < s.players@.len() && (#[trigger] s.players@[j]).id == id
}

/// Whether an enabled player row carries the id.
pub open spec fn player_active(s: MemoryStore, id: i32) -> bool {
    exists|j: int|
        0 <= j < s.players@.len() && (#[trigger] s.players@[j]).id == id
            && s.players@[j].enabled
}

/// Whether an enabled team of the community already carries the name; a
/// disabled team frees its name for reuse.
pub open spec fn team_name_taken(s: MemoryStore, name: Seq<char>, community_id: i32) -> bool {
    exists|j: int|
        0 <= j < s.teams@.len() && (#[trigger] s.teams@[j]).name@ == name
            && s.teams@[j].community_id == community_id && s.teams@[j].enabled
}

/// Whether a team row carries the id, enabled or not.
pub open spec fn team_found(s: MemoryStore, id: i32) -> bool {
    exists|j: int| 0 <= j < s.teams@.len() && (#[trigger] s.teams@[j]).id == id
}

/// Whether a party row carries the id, enabled or not.
pub open spec fn party_found(s: MemoryStore, id: i32) -> bool {
    exists|j: int| 0 <= j < s.parties@.len() && (#[trigger] s.parties@[j]).id == id
}

/// Whether an enabled party row carries the id.
pub open spec fn party_active(s: MemoryStore, id: i32) -> bool {
    exists|j: int|
        0 <= j < s.parties@.len() && (#[trigger] s.parties@[j]).id == id
            && s.parties@[j].enabled
}

/// Whether the party with the id has already been ended.
pub open spec fn party_finished(s: MemoryStore, id: i32) -> bool {
    exists|j: int|
        0 <= j < s.parties@.len() && (#[trigger] s.parties@[j]).id == id
            && s.parties@[j].finished_at is Some
}

// ---------------------------------------------------------------------------
// Creation.
// ---------------------------------------------------------------------------

/// Creates a community: an empty name or a name an enabled community already
/// carries is a precondition failure; otherwise the community is persisted
/// enabled under a fresh id, its two timestamps equal.
pub fn create_community(store: &mut MemoryStore, dto: CreateCommunityDto) -> (r: Result<
    (),
    DomainError,
>)
    requires
        old(store).wf(),
    ensures
        final(store).wf(),
        same_but_communities(*final(store), *old(store)),
        ({
            let blank = dto.name@.len() == 0;
            let taken = community_name_taken(*old(store), dto.name@);
            let full = old(store).next_community_id == i32::MAX;
            &&& (r is Ok <==> !blank && !taken && !full)
            &&& match r {
                Ok(_) => {
                    &&& final(store).next_community_id == old(store).next_community_id + 1
                    &&& final(store).communities@.len() == old(store).communities@.len() + 1
                    &&& final(store).communities@.take(old(store).communities@.len() as int)
                        == old(store).communities@
                    &&& final(store).communities@.last().id == old(store).next_community_id
                    &&& final(store).communities@.last().name@ == dto.name@
                    &&& final(store).communities@.last().enabled
                    &&& final(store).communities@.last().created_at == final(store).communities@.last().updated_at
                },
                Err(e) => {
                    &&& *final(store) == *old(store)
                    &&& (e is PreconditionFailed <==> blank || taken)
                    &&& (e is StoreFailure <==> !blank && !taken && full)
                },
            }
        }),
{
    if dto.name.as_str().is_empty() {
        return Err(DomainError::PreconditionFailed);
    }
    if store.community_exists(dto.name.clone()) {
        return Err(DomainError::PreconditionFailed);
    }
    let community = Community::new(dto.name);
    match store.insert_community(&community) {
        Ok(_) => Ok(()),
        Err(e) => Err(e),
    }
}

/// Creates a player inside a community: the community must exist (enabled or
/// not); a nickname an enabled player of the community already carries is a
/// precondition failure; otherwise the player is persisted enabled under a
/// fresh id.
pub fn create_player_into_community(
    store: &mut MemoryStore,
    dto: CreatePlayerIntoCommunityDto,
) -> (r: Result<(), DomainError>)
    requires
        old(store).wf(),
    ensures
        final(store).wf(),
        same_but_players(*final(store), *old(store)),
        ({
            let found = community_found(*old(store), dto.community_id);
            let taken = player_nick_taken(*old(store), dto.nickname@, dto.community_id);
            let full = old(store).next_player_id == i32::MAX;
            &&& (r is Ok <==> found && !taken && !full)
            &&& match r {
                Ok(_) => {
                    &&& final(store).next_player_id == old(store).next_player_id + 1
                    &&& final(store).players@.len() == old(store).players@.len() + 1
                    &&& final(store).players@.take(old(store).players@.len() as int) == old(store).players@
                    &&& final(store).players@.last().id == old(store).next_player_id
                    &&& final(store).players@.last().nickname@ == dto.nickname@
                    &&& final(store).players@.last().community_id == dto.community_id
                    &&& final(store).players@.last().enabled
                    &&& final(store).players@.last().created_at == final(store).players@.last().updated_at
                },
                Err(e) => {
                    &&& *final(store) == *old(store)
                    &&& (e is NotFound <==> !found)
                    &&& (e is PreconditionFailed <==> found && taken)
                    &&& (e is StoreFailure <==> found && !taken && full)
                },
            }
        }),
{
    let community = match store.get_community_by_id(dto.community_id) {
        Some(c) => c,
        None => {
            return Err(DomainError::NotFound);
        },
    };
    if store.player_exists(dto.nickname.clone(), community.id) {
        return Err(DomainError::PreconditionFailed);
    }
    let player = Player::new(dto.nickname, dto.community_id);
    match store.insert_player(&player) {
        Ok(_) => Ok(()),
        Err(e) => Err(e),
    }
}

/// Creates a team inside a community: a name an enabled team of the
/// community already carries is a precondition failure; then the community
/// must exist (enabled or not); otherwise the team is persisted enabled
/// under a fresh id, with no memberships.
pub fn create_team_into_community(
    store: &mut MemoryStore,
    dto: CreateTeamIntoCommunityDto,
) -> (r: Result<(), DomainError>)
    requires
        old(store).wf(),
    ensures
        final(store).wf(),
        same_but_teams(*final(store), *old(store)),
        final(store).team_players@ == old(store).team_players@,
        ({
            let taken = team_name_taken(*old(store), dto.name@, dto.community_id);
            let found = community_found(*old(store), dto.community_id);
            let full = old(store).next_team_id == i32::MAX;
            &&& (r is Ok <==> !taken && found && !full)
            &&& match r {
                Ok(_) => {
                    &&& final(store).next_team_id == old(store).next_team_id + 1
                    &&& final(store).teams@.len() == old(store).teams@.len() + 1
                    &&& final(store).teams@.take(old(store).teams@.len() as int) == old(store).teams@
                    &&& final(store).teams@.last().id == old(store).next_team_id
                    &&& final(store).teams@.last().name@ == dto.name@
                    &&& final(store).teams@.last().community_id == dto.community_id
                    &&& final(store).teams@.last().enabled
                    &&& final(store).teams@.last().created_at == final(store).teams@.last().updated_at
                },
                Err(e) => {
                    &&& *final(store) == *old(store)
                    &&& (e is PreconditionFailed <==> taken)
                    &&& (e is NotFound <==> !taken && !found)
                    &&& (e is StoreFailure <==> !taken && found && full)
                },
            }
        }),
{
    if store.team_exists(dto.name.clone(), dto.community_id) {
        return Err(DomainError::PreconditionFailed);
    }
    let community = match store.get_community_by_id(dto.community_id) {
        Some(c) => c,
        None => {
            return Err(DomainError::NotFound);
        },
    };
    let team = Team::new(dto.name, community.id);
    match store.insert_team(&team) {
        Ok(_) => Ok(()),
        Err(e) => Err(e),
    }
}


// ---------------------------------------------------------------------------
// Soft deletion.
// ---------------------------------------------------------------------------

/// How disabling rewrites the communities table: the row with the id keeps
/// its identity, name and creation time and loses its enabled flag; every
/// other row is untouched.
pub open spec fn spec_disabled_communities(a: MemoryStore, b: MemoryStore, id: i32) -> bool {
    &&& a.communities@.len() == b.communities@.len()
    &&& forall|i: int|
        #![trigger b.communities@[i]]
        0 <= i < b.communities@.len() ==> if b.communities@[i].id == id {
            &&& a.communities@[i].id == b.communities@[i].id
            &&& a.communities@[i].name@ == b.communities@[i].name@
            &&& a.communities@[i].created_at == b.communities@[i].created_at
            &&& !a.communities@[i].enabled
        } else {
            a.communities@[i] == b.communities@[i]
        }
}

/// How disabling rewrites the players table.
pub open spec fn spec_disabled_players(a: MemoryStore, b: MemoryStore, id: i32) -> bool {
    &&& a.players@.len() == b.players@.len()
    &&& forall|i: int|
        #![trigger b.players@[i]]
        0 <= i < b.players@.len() ==> if b.players@[i].id == id {
            &&& a.players@[i].id == b.players@[i].id
            &&& a.players@[i].nickname@ == b.players@[i].nickname@
            &&& a.players@[i].community_id == b.players@[i].community_id
            &&& a.players@[i].created_at == b.players@[i].created_at
            &&& !a.players@[i].enabled
        } else {
            a.players@[i] == b.players@[i]
        }
}

/// How disabling rewrites the parties table: everything but the enabled flag
/// and the update time is kept.
pub open spec fn spec_disabled_parties(a: MemoryStore, b: MemoryStore, id: i32) -> bool {
    &&& a.parties@.len() == b.parties@.len()
    &&& forall|i: int|
        #![trigger b.parties@[i]]
        0 <= i < b.parties@.len() ==> if b.parties@[i].id == id {
            &&& a.parties@[i].id == b.parties@[i].id
            &&& a.parties@[i].community_id == b.parties@[i].community_id
            &&& a.parties@[i].game_name@ == b.parties@[i].game_name@
            &&& a.parties@[i].team_winner_id == b.parties@[i].team_winner_id
            &&& a.parties@[i].finished_at == b.parties@[i].finished_at
            &&& a.parties@[i].created_at == b.parties@[i].created_at
            &&& !a.parties@[i].enabled
        } else {
            a.parties@[i] == b.parties@[i]
        }
}

/// Soft-deletes a community: disabling one that is already disabled is a
/// precondition failure, a missing one is not found; otherwise the row loses
/// its enabled flag, terminally.
pub fn delete_community(store: &mut MemoryStore, community_id: i32) -> (r: Result<
    (),
    DomainError,
>)
    requires
        old(store).wf(),
    ensures
        final(store).wf(),
        same_but_communities(*final(store), *old(store)),
        final(store).next_community_id == old(store).next_community_id,
        r is Ok <==> community_active(*old(store), community_id),
        match r {
            Ok(_) => spec_disabled_communities(*final(store), *old(store), community_id),
            Err(e) => {
                &&& *final(store) == *old(store)
                &&& (e is NotFound <==> !community_found(*old(store), community_id))
                &&& (e is PreconditionFailed <==> community_found(*old(store), community_id)
                    && !community_active(*old(store), community_id))
            },
        },
{
    let community = match store.get_community_by_id(community_id) {
        Some(c) => c,
        None => {
            return Err(DomainError::NotFound);
        },
    };
    if !community.is_enabled() {
        return Err(DomainError::PreconditionFailed);
    }
    let mut community = community;
    community.disable();
    let _ = store.save_community(&community);
    Ok(())
}

/// Soft-deletes a player: disabling one that is already disabled is a
/// precondition failure, a missing one is not found.
pub fn delete_player_of_community(store: &mut MemoryStore, player_id: i32) -> (r: Result<
    (),
    DomainError,
>)
    requires
        old(store).wf(),
    ensures
        final(store).wf(),
        same_but_players(*final(store), *old(store)),
        final(store).next_player_id == old(store).next_player_id,
        r is Ok <==> player_active(*old(store), player_id),
        match r {
            Ok(_) => spec_disabled_players(*final(store), *old(store), player_id),
            Err(e) => {
                &&& *final(store) == *old(store)
                &&& (e is NotFound <==> !player_found(*old(store), player_id))
                &&& (e is PreconditionFailed <==> player_found(*old(store), player_id)
                    && !player_active(*old(store), player_id))
            },
        },
{
    let player = match store.get_player_by_id(player_id) {
        Some(p) => p,
        None => {
            return Err(DomainError::NotFound);
        },
    };
    if !player.is_enabled() {
        return Err(DomainError::PreconditionFailed);
    }
    let mut player = player;
    player.disable();
    let _ = store.save_player(&player);
    Ok(())
}

/// Soft-deletes a party: disabling one that is already disabled is a
/// precondition failure, a missing one is not found. The party's winner,
/// finish time and team links are kept.
pub fn delete_party(store: &mut MemoryStore, party_id: i32) -> (r: Result<(), DomainError>)
    requires
        old(store).wf(),
    ensures
        final(store).wf(),
        same_but_parties(*final(store), *old(store)),
        final(store).party_teams@ == old(store).party_teams@,
        final(store).next_party_id == old(store).next_party_id,
        r is Ok <==> party_active(*old(store), party_id),
        match r {
            Ok(_) => spec_disabled_parties(*final(store), *old(store), party_id),
            Err(e) => {
                &&& *final(store) == *old(store)
                &&& (e is NotFound <==> !party_found(*old(store), party_id))
                &&& (e is PreconditionFailed <==> party_found(*old(store), party_id)
                    && !party_active(*old(store), party_id))
            },
        },
{
    let party = match store.get_party_by_id(party_id) {
        Some(p) => p,
        None => {
            return Err(DomainError::NotFound);
        },
    };
    if !party.is_enabled() {
        return Err(DomainError::PreconditionFailed);
    }
    let mut party = party;
    party.disable();
    let _ = store.save_party(&party);
    Ok(())
}

// ---------------------------------------------------------------------------
// Ending a party.
// ---------------------------------------------------------------------------

/// Whether a team row with the given id is linked to the party, so the
/// hydrated party's team list holds it.
pub open spec fn winner_in_party(s: MemoryStore, party_id: i32, winner_id: i32) -> bool {
    exists|j: int|
        0 <= j < s.teams@.len() && in_party(
            s.party_teams@,
            party_id as int,
            (#[trigger] s.teams@[j]).id as int,
        ) && s.teams@[j].id == winner_id
}

/// How ending rewrites the parties table: the row with the id records the
/// winner (possibly none) and a finish time; everything else is kept.
pub open spec fn spec_ended_parties(
    a: MemoryStore,
    b: MemoryStore,
    id: i32,
    winner: Option<i32>,
) -> bool {
    &&& a.parties@.len() == b.parties@.len()
    &&& forall|i: int|
        #![trigger b.parties@[i]]
        0 <= i < b.parties@.len() ==> if b.parties@[i].id == id {
            &&& a.parties@[i].id == b.parties@[i].id
            &&& a.parties@[i].community_id == b.parties@[i].community_id
            &&& a.parties@[i].game_name@ == b.parties@[i].game_name@
            &&& a.parties@[i].team_winner_id == winner
            &&& a.parties@[i].finished_at is Some
            &&& a.parties@[i].enabled == b.parties@[i].enabled
            &&& a.parties@[i].created_at == b.parties@[i].created_at
        } else {
            a.parties@[i] == b.parties@[i]
        }
}

/// Ends a party: a missing party or a missing winner team is not found;
/// ending an already-finished party, or naming a winner that is not one of
/// the party's own teams, is a precondition failure. Ending with no winner
/// always succeeds for an in-progress party. On success the winner and a
/// finish time are recorded, exactly once.
pub fn end_party(store: &mut MemoryStore, dto: EndPartyDto) -> (r: Result<(), DomainError>)
    requires
        old(store).wf(),
    ensures
        final(store).wf(),
        same_but_parties(*final(store), *old(store)),
        final(store).party_teams@ == old(store).party_teams@,
        final(store).next_party_id == old(store).next_party_id,
        ({
            let found = party_found(*old(store), dto.party_id);
            let finished = party_finished(*old(store), dto.party_id);
            let winner_known = match dto.team_winner_id {
                Some(w) => team_found(*old(store), w),
                None => true,
            };
            let winner_in = match dto.team_winner_id {
                Some(w) => winner_in_party(*old(store), dto.party_id, w),
                None => true,
            };
            &&& (r is Ok <==> found && !finished && winner_known && winner_in)
            &&& match r {
                Ok(_) => spec_ended_parties(
                    *final(store),
                    *old(store),
                    dto.party_id,
                    dto.team_winner_id,
                ),
                Err(e) => {
                    &&& *final(store) == *old(store)
                    &&& (e is NotFound <==> !found || (found && !finished && !winner_known))
                    &&& (e is PreconditionFailed <==> found && (finished || (!finished
                        && winner_known && !winner_in)))
                },
            }
        }),
{
    let party = match store.get_party_by_id(dto.party_id) {
        Some(p) => p,
        None => {
            return Err(DomainError::NotFound);
        },
    };
    if party.is_finished() {
        return Err(DomainError::PreconditionFailed);
    }
    let team_winner = match dto.team_winner_id {
        Some(team_id) => match store.get_team_by_id(team_id) {
            Some(t) => Some(t),
            None => {
                return Err(DomainError::NotFound);
            },
        },
        None => None,
    };
    if let Some(ref team) = team_winner {
        let mut in_this_party = false;
        let mut k: usize = 0;
        while k < party.teams.len()
            invariant
                k <= party.teams@.len(),
                !in_this_party ==> forall|j: int|
                    0 <= j < k ==> (#[trigger] party.teams@[j]).id != team.id,
                in_this_party ==> crate::domain::has_team_id(party@.teams, team.id as int),
            decreases party.teams@.len() - k,
        {
            if party.teams[k].id == team.id {
                in_this_party = true;
                proof {
                    assert(party@.teams[k as int].id == team.id as int);
                }
            }
            k = k + 1;
        }
        if !in_this_party {
            proof {
                assert forall|j: int| 0 <= j < party@.teams.len() implies (
                #[trigger] party@.teams[j]).id != team.id as int by {
                    assert(party.teams@[j].id != team.id);
                }
                lemma_winner_membership(*store, party, *team, dto.party_id);
            }
            return Err(DomainError::PreconditionFailed);
        }
        proof {
            lemma_winner_membership(*store, party, *team, dto.party_id);
        }
    }
    let mut party = party;
    let winner_id = match team_winner {
        Some(t) => Some(t.id),
        None => None,
    };
    party.end(winner_id);
    let _ = store.save_party(&party);
    Ok(())
}

/// The hydrated party's team list holds the winner's id exactly when a team
/// row with that id is linked to the party.
proof fn lemma_winner_membership(s: MemoryStore, party: Party, team: Team, party_id: i32)
    requires
        s.wf(),
        exists|j: int|
            0 <= j < s.parties@.len() && (#[trigger] s.parties@[j]).id == party_id && party@
                == spec_hydrated_party(s.parties@[j], s),
        party.id == party_id,
    ensures
        crate::domain::has_team_id(party@.teams, team.id as int) <==> winner_in_party(
            s,
            party_id,
            team.id,
        ),
{
    let jr = choose|j: int|
        0 <= j < s.parties@.len() && (#[trigger] s.parties@[j]).id == party_id && party@
            == spec_hydrated_party(s.parties@[j], s);
    let p = |t: TeamRow| in_party(s.party_teams@, party_id as int, t.id as int);
    let m = |t: TeamRow| spec_team_of_row(t, s);
    assert(party@.teams == filter_map(s.teams@, p, m));
    crate::store::lemma_filter_map_elements(s.teams@, p, m);
    if crate::domain::has_team_id(party@.teams, team.id as int) {
        let k = choose|k: int|
            0 <= k < party@.teams.len() && (#[trigger] party@.teams[k]).id == team.id as int;
        assert(crate::store::arises_from(s.teams@, p, m, filter_map(s.teams@, p, m)[k]));
        let j = choose|j: int|
            0 <= j < s.teams@.len() && p(#[trigger] s.teams@[j]) && m(s.teams@[j]) == filter_map(
                s.teams@,
                p,
                m,
            )[k];
        assert(s.teams@[j].id as int == party@.teams[k].id);
        assert(in_party(s.party_teams@, party_id as int, s.teams@[j].id as int));
    }
    if winner_in_party(s, party_id, team.id) {
        let j = choose|j: int|
            0 <= j < s.teams@.len() && in_party(
                s.party_teams@,
                party_id as int,
                (#[trigger] s.teams@[j]).id as int,
            ) && s.teams@[j].id == team.id;
        assert(p(s.teams@[j]));
        assert(filter_map(s.teams@, p, m).contains(m(s.teams@[j])));
        let k = choose|k: int|
            0 <= k < filter_map(s.teams@, p, m).len() && filter_map(s.teams@, p, m)[k] == m(
                s.teams@[j],
            );
        assert(party@.teams[k].id == team.id as int);
    }
}


// ---------------------------------------------------------------------------
// Creating a party.
// ---------------------------------------------------------------------------

/// The hydrated teams whose ids appear in the list, in row order.
pub open spec fn spec_selected_teams(s: MemoryStore, ids: Seq<i32>) -> Seq<crate::domain::TeamView> {
    filter_map(
        s.teams@,
        |t: TeamRow| ids.contains(t.id),
        |t: TeamRow| spec_team_of_row(t, s),
    )
}

/// Creates a party: the community must exist (enabled or not), and every
/// requested team id must resolve to a team row, or nothing is persisted.
/// On success the party is persisted in progress, enabled, with no winner,
/// under a fresh id, and one membership row per resolved team, in row order.
pub fn create_party(store: &mut MemoryStore, dto: CreatePartyDto) -> (r: Result<(), DomainError>)
    requires
        old(store).wf(),
    ensures
        final(store).wf(),
        same_but_parties(*final(store), *old(store)),
        ({
            let found = community_found(*old(store), dto.community_id);
            let selected = spec_selected_teams(*old(store), dto.teams_ids@);
            let all_resolved = selected.len() == dto.teams_ids@.len();
            let full = old(store).next_party_id == i32::MAX;
            &&& (r is Ok <==> found && all_resolved && !full)
            &&& match r {
                Ok(_) => {
                    &&& final(store).next_party_id == old(store).next_party_id + 1
                    &&& final(store).parties@.len() == old(store).parties@.len() + 1
                    &&& final(store).parties@.take(old(store).parties@.len() as int) == old(store).parties@
                    &&& final(store).parties@.last().id == old(store).next_party_id
                    &&& final(store).parties@.last().community_id == dto.community_id
                    &&& final(store).parties@.last().game_name@ == dto.game_name@
                    &&& final(store).parties@.last().team_winner_id is None
                    &&& final(store).parties@.last().finished_at is None
                    &&& final(store).parties@.last().enabled
                    &&& final(store).parties@.last().created_at == final(store).parties@.last().updated_at
                    &&& final(store).party_teams@.len() == old(store).party_teams@.len()
                        + selected.len()
                    &&& final(store).party_teams@.take(old(store).party_teams@.len() as int)
                        == old(store).party_teams@
                    &&& forall|k: int|
                        0 <= k < selected.len() ==> {
                            &&& (#[trigger] final(store).party_teams@[old(store).party_teams@.len() + k]).party_id == old(store).next_party_id
                            &&& final(store).party_teams@[old(store).party_teams@.len()
                                + k].team_id as int == selected[k].id
                        }
                },
                Err(e) => {
                    &&& *final(store) == *old(store)
                    &&& (e is NotFound <==> !found || (found && !all_resolved))
                    &&& (e is StoreFailure <==> found && all_resolved && full)
                },
            }
        }),
{
    let community = match store.get_community_by_id(dto.community_id) {
        Some(c) => c,
        None => {
            return Err(DomainError::NotFound);
        },
    };
    let ids = crate::query::clone_id_vec(&dto.teams_ids);
    let teams = store.get_teams_by_ids(ids);
    if teams.len() != dto.teams_ids.len() {
        return Err(DomainError::NotFound);
    }
    let party = Party::new(dto.game_name, teams, community.id);
    let ghost pre = *store;
    match store.insert_party(&party) {
        Ok(id) => {
            proof {
                let selected = spec_selected_teams(pre, dto.teams_ids@);
                let link = |t: Team| (crate::store::PartyTeamRow { party_id: id, team_id: t.id });
                assert forall|k: int| 0 <= k < selected.len() implies {
                    &&& (#[trigger] final(store).party_teams@[pre.party_teams@.len()
                        + k]).party_id == pre.next_party_id
                    &&& final(store).party_teams@[pre.party_teams@.len() + k].team_id as int
                        == selected[k].id
                } by {
                    assert(final(store).party_teams@[pre.party_teams@.len() + k]
                        == party.teams@.map_values(link)[k]);
                    assert(party.teams@.map_values(link)[k] == link(party.teams@[k]));
                    assert(party.teams.deep_view()[k] == party.teams@[k]@);
                    assert(party.teams@[k]@.id == selected[k].id);
                }
                assert(final(store).party_teams@.take(pre.party_teams@.len() as int)
                    =~= pre.party_teams@);
            }
            Ok(())
        },
        Err(e) => Err(e),
    }
}

// ---------------------------------------------------------------------------
// Reading aggregates for callers.
// ---------------------------------------------------------------------------

/// Answers one community by id, rendered for callers; a missing id is not
/// found.
pub fn get_community_by_id(store: &MemoryStore, community_id: i32) -> (r: Result<
    ApiResponse<IResultGetCommunity>,
    DomainError,
>)
    ensures
        match r {
            Ok(resp) => exists|j: int|
                0 <= j < store.communities@.len() && (#[trigger] store.communities@[j]).id
                    == community_id && resp.data@ == result_community_of(
                    spec_hydrated_community(store.communities@[j], *store),
                ),
            Err(e) => e is NotFound && !community_found(*store, community_id),
        },
{
    let community = match store.get_community_by_id(community_id) {
        Some(c) => c,
        None => {
            return Err(DomainError::NotFound);
        },
    };
    let result = IResultGetCommunity::new(community);
    Ok(ApiResponse::success(result))
}

/// Answers every enabled community, rendered for callers, in row order; an
/// empty listing is not found.
pub fn get_communities(store: &MemoryStore) -> (r: Result<
    ApiResponse<Vec<IResultGetCommunity>>,
    DomainError,
>)
    ensures
        ({
            let hydrated = filter_map(
                store.communities@,
                |c: CommunityRow| c.enabled,
                |c: CommunityRow| spec_hydrated_community(c, *store),
            );
            match r {
                Ok(resp) => hydrated.len() > 0 && resp.data.deep_view() == hydrated.map_values(
                    |c: CommunityView| result_community_of(c),
                ),
                Err(e) => e is NotFound && hydrated.len() == 0,
            }
        }),
{
    let communities = store.get_all_communities();
    if communities.len() == 0 {
        return Err(DomainError::NotFound);
    }
    let ghost f = |c: CommunityView| result_community_of(c);
    let ghost orig = communities.deep_view();
    let mut communities = communities;
    let mut out: Vec<IResultGetCommunity> = Vec::new();
    proof {
        assert(communities.deep_view() =~= orig.skip(0));
        assert(out.deep_view() =~= orig.take(0).map_values(f));
    }
    while communities.len() > 0
        invariant
            out@.len() + communities@.len() == orig.len(),
            communities.deep_view() == orig.skip(out@.len() as int),
            out.deep_view() == orig.take(out@.len() as int).map_values(f),
        decreases communities@.len(),
    {
        let ghost k = out@.len() as int;
        let ghost prevseq = communities@;
        let ghost prevdeep = communities.deep_view();
        let c = communities.remove(0);
        proof {
            assert(prevdeep == orig.skip(k));
            assert(c == prevseq[0]);
            assert(prevdeep[0] == prevseq[0].deep_view());
            assert(c@ == orig[k]);
            assert forall|i: int| 0 <= i < communities.deep_view().len() implies communities.deep_view()[i]
                == orig.skip(k + 1)[i] by {
                assert(communities@[i] == prevseq[i + 1]);
                assert(communities.deep_view()[i] == prevseq[i + 1].deep_view());
                assert(prevdeep[i + 1] == prevseq[i + 1].deep_view());
            }
            assert(communities.deep_view() =~= orig.skip(k + 1));
        }
        let item = IResultGetCommunity::new(c);
        out.push(item);
        proof {
            assert(orig.take(k + 1).map_values(f) =~= orig.take(k).map_values(f).push(f(orig[k])));
            assert(out.deep_view() =~= orig.take(k).map_values(f).push(f(orig[k])));
        }
    }
    proof {
        assert(orig.take(out@.len() as int) =~= orig);
    }
    Ok(ApiResponse::success(out))
}

/// Answers one party by id, rendered for callers; a missing id is not found.
pub fn get_party_by_id(store: &MemoryStore, party_id: i32) -> (r: Result<
    ApiResponse<IResultGetParty>,
    DomainError,
>)
    ensures
        match r {
            Ok(resp) => exists|j: int|
                0 <= j < store.parties@.len() && (#[trigger] store.parties@[j]).id == party_id
                    && resp.data@ == result_party_of(
                    spec_hydrated_party(store.parties@[j], *store),
                ),
            Err(e) => e is NotFound && !party_found(*store, party_id),
        },
{
    let party = match store.get_party_by_id(party_id) {
        Some(p) => p,
        None => {
            return Err(DomainError::NotFound);
        },
    };
    let result = IResultGetParty::new(party);
    Ok(ApiResponse::success(result))
}

/// Answers every party, rendered for callers, in row order: the listing is
/// driven by a filter specification with every field absent, so no clause
/// narrows it; an empty listing is a valid, successful answer.
pub fn get_parties(store: &MemoryStore) -> (r: Result<
    ApiResponse<Vec<IResultGetParty>>,
    DomainError,
>)
    ensures
        r is Ok,
        ({
            let none = FilterView {
                community_id: None,
                game_name: None,
                created_at: None,
                updated_at: None,
                teams_ids: None,
                team_winner_ids: None,
            };
            match r {
                Ok(resp) => resp.data.deep_view() == crate::store::spec_matching_parties(
                    *store,
                    none,
                ).map_values(|p: PartyView| result_party_of(p)),
                Err(_) => false,
            }
        }),
{
    let params = IGetPartiesByParams::none();
    proof {
        let none = FilterView {
            community_id: None,
            game_name: None,
            created_at: None,
            updated_at: None,
            teams_ids: None,
            team_winner_ids: None,
        };
        assert(params@ =~= none);
    }
    let parties = store.get_parties_by_params(&params);
    let ghost f = |p: PartyView| result_party_of(p);
    let ghost orig = parties.deep_view();
    let mut parties = parties;
    let mut out: Vec<IResultGetParty> = Vec::new();
    proof {
        assert(parties.deep_view() =~= orig.skip(0));
        assert(out.deep_view() =~= orig.take(0).map_values(f));
    }
    while parties.len() > 0
        invariant
            out@.len() + parties@.len() == orig.len(),
            parties.deep_view() == orig.skip(out@.len() as int),
            out.deep_view() == orig.take(out@.len() as int).map_values(f),
        decreases parties@.len(),
    {
        let ghost k = out@.len() as int;
        let ghost prevseq = parties@;
        let ghost prevdeep = parties.deep_view();
        let p = parties.remove(0);
        proof {
            assert(prevdeep == orig.skip(k));
            assert(p == prevseq[0]);
            assert(prevdeep[0] == prevseq[0].deep_view());
            assert(p@ == orig[k]);
            assert forall|i: int| 0 <= i < parties.deep_view().len() implies parties.deep_view()[i]
                == orig.skip(k + 1)[i] by {
                assert(parties@[i] == prevseq[i + 1]);
                assert(parties.deep_view()[i] == prevseq[i + 1].deep_view());
                assert(prevdeep[i + 1] == prevseq[i + 1].deep_view());
            }
            assert(parties.deep_view() =~= orig.skip(k + 1));
        }
        let item = IResultGetParty::new(p);
        out.push(item);
        proof {
            assert(orig.take(k + 1).map_values(f) =~= orig.take(k).map_values(f).push(f(orig[k])));
            assert(out.deep_view() =~= orig.take(k).map_values(f).push(f(orig[k])));
        }
    }
    proof {
        assert(orig.take(out@.len() as int) =~= orig);
    }
    Ok(ApiResponse::success(out))
}


// ---------------------------------------------------------------------------
// Batch membership addition.
// ---------------------------------------------------------------------------

/// Whether any player row's id appears in the requested list.
pub open spec fn any_player_selected(s: MemoryStore, ids: Seq<i32>) -> bool {
    exists|j: int| 0 <= j < s.players@.len() && ids.contains((#[trigger] s.players@[j]).id)
}

/// Whether the requested id resolves to a player row.
pub open spec fn player_selected(s: MemoryStore, ids: Seq<i32>, pid: int) -> bool {
    exists|j: int|
        0 <= j < s.players@.len() && (#[trigger] s.players@[j]).id as int == pid && ids.contains(
            s.players@[j].id,
        )
}

/// The requested ids that resolve to no player row, in request order,
/// duplicates kept.
pub open spec fn spec_missing_ids(s: MemoryStore, ids: Seq<i32>) -> Seq<i32> {
    filter_map(ids, |id: i32| !player_found(s, id), |id: i32| id)
}

/// How the batch addition rewrites the store: the teams table is unchanged
/// (the team's scalar fields are rewritten to their own values), old
/// membership rows are kept in place, every appended row links a distinct,
/// previously unlinked, requested player to the team, and afterwards every
/// requested player that resolves to a row is linked to the team.
pub open spec fn spec_roster_extended(
    a: MemoryStore,
    b: MemoryStore,
    team_id: i32,
    ids: Seq<i32>,
) -> bool {
    &&& a.teams@ == b.teams@
    &&& a.team_players@.len() >= b.team_players@.len()
    &&& a.team_players@.take(b.team_players@.len() as int) == b.team_players@
    &&& forall|j: int|
        b.team_players@.len() <= j < a.team_players@.len() ==> {
            &&& (#[trigger] a.team_players@[j]).team_id == team_id
            &&& !in_team(b.team_players@, team_id as int, a.team_players@[j].player_id as int)
            &&& player_selected(b, ids, a.team_players@[j].player_id as int)
        }
    &&& forall|j1: int, j2: int|
        b.team_players@.len() <= j1 < j2 < a.team_players@.len() ==> (
        #[trigger] a.team_players@[j1]).player_id != (#[trigger] a.team_players@[j2]).player_id
    &&& forall|j: int|
        0 <= j < b.players@.len() && ids.contains((#[trigger] b.players@[j]).id) ==> in_team(
            a.team_players@,
            team_id as int,
            b.players@[j].id as int,
        )
}

/// Adds the requested players to the team's roster: a missing team, or a
/// request in which no id resolves to a player, is not found; otherwise the
/// roster is extended idempotently and saved, and if some requested ids
/// resolved to no player the operation still persists but reports exactly
/// those ids as a partial match.
#[verifier::rlimit(100)]
#[verifier::spinoff_prover]
pub fn add_players_into_team(store: &mut MemoryStore, dto: AddPlayersIntoTeamDto) -> (r: Result<
    (),
    DomainError,
>)
    requires
        old(store).wf(),
    ensures
        final(store).wf(),
        same_but_teams(*final(store), *old(store)),
        final(store).next_team_id == old(store).next_team_id,
        ({
            let team_ok = team_found(*old(store), dto.team_id);
            let any = any_player_selected(*old(store), dto.players_ids@);
            let missing = spec_missing_ids(*old(store), dto.players_ids@);
            &&& (r is Ok <==> team_ok && any && missing.len() == 0)
            &&& match r {
                Ok(_) => spec_roster_extended(
                    *final(store),
                    *old(store),
                    dto.team_id,
                    dto.players_ids@,
                ),
                Err(e) => {
                    &&& (e is NotFound <==> !team_ok || !any)
                    &&& (e is NotFound ==> *final(store) == *old(store))
                    &&& (e is PartialMatch <==> team_ok && any && missing.len() > 0)
                    &&& match e {
                        DomainError::PartialMatch(ids) => ids@ == missing
                            && spec_roster_extended(
                            *final(store),
                            *old(store),
                            dto.team_id,
                            dto.players_ids@,
                        ),
                        _ => true,
                    }
                    &&& !(e is PreconditionFailed)
                    &&& !(e is StoreFailure)
                },
            }
        }),
{
    let ghost sel = dto.players_ids@;
    let team = match store.get_team_by_id(dto.team_id) {
        Some(t) => t,
        None => {
            return Err(DomainError::NotFound);
        },
    };
    let ids = crate::query::clone_id_vec(&dto.players_ids);
    let players = store.get_players_by_ids(ids);
    let ghost pp = |row: PlayerRow| sel.contains(row.id);
    let ghost pm = |row: PlayerRow| crate::store::player_view_of_row(row);
    proof {
        assert(players.deep_view() == filter_map(store.players@, pp, pm));
        crate::store::lemma_filter_map_elements(store.players@, pp, pm);
    }
    if players.len() == 0 {
        proof {
            assert(!any_player_selected(*old(store), sel)) by {
                if any_player_selected(*old(store), sel) {
                    let j = choose|j: int|
                        0 <= j < store.players@.len() && sel.contains(
                            (#[trigger] store.players@[j]).id,
                        );
                    assert(pp(store.players@[j]));
                    assert(filter_map(store.players@, pp, pm).contains(pm(store.players@[j])));
                }
            }
        }
        return Err(DomainError::NotFound);
    }
    proof {
        assert(any_player_selected(*old(store), sel)) by {
            assert(crate::store::arises_from(
                store.players@,
                pp,
                pm,
                filter_map(store.players@, pp, pm)[0],
            ));
            let j = choose|j: int|
                0 <= j < store.players@.len() && pp(#[trigger] store.players@[j]) && pm(
                    store.players@[j],
                ) == filter_map(store.players@, pp, pm)[0];
            assert(sel.contains(store.players@[j].id));
        }
        assert forall|kk: int| 0 <= kk < players.deep_view().len() implies player_selected(
            *old(store),
            sel,
            (#[trigger] players.deep_view()[kk]).id,
        ) by {
            assert(crate::store::arises_from(
                store.players@,
                pp,
                pm,
                filter_map(store.players@, pp, pm)[kk],
            ));
            let j = choose|j: int|
                0 <= j < store.players@.len() && pp(#[trigger] store.players@[j]) && pm(
                    store.players@[j],
                ) == filter_map(store.players@, pp, pm)[kk];
            assert(store.players@[j].id as int == players.deep_view()[kk].id);
        }
    }
    let ghost team0 = team;
    let mut team = team;
    let mut k: usize = 0;
    while k < players.len()
        invariant
            k <= players@.len(),
            team.id == team0.id,
            team.name == team0.name,
            team.community_id == team0.community_id,
            team.enabled == team0.enabled,
            forall|kk: int|
                0 <= kk < k ==> crate::domain::has_player_id(
                    team@.players,
                    (#[trigger] players.deep_view()[kk]).id,
                ),
            forall|q: int|
                0 <= q < team@.players.len() ==> crate::domain::has_player_id(
                    team0@.players,
                    (#[trigger] team@.players[q]).id,
                ) || player_selected(*old(store), sel, team@.players[q].id),
        decreases players@.len() - k,
    {
        let p = players[k].clone();
        let ghost roster0 = team@.players;
        proof {
            assert(p == players@[k as int]);
            assert(p@ == players.deep_view()[k as int]);
        }
        team.add_player(p);
        proof {
            assert(team@.players == crate::domain::spec_add_player(roster0, p@));
            crate::domain::lemma_add_player_has(roster0, p@, p@.id);
            assert forall|kk: int| 0 <= kk < k + 1 implies crate::domain::has_player_id(
                team@.players,
                (#[trigger] players.deep_view()[kk]).id,
            ) by {
                crate::domain::lemma_add_player_has(roster0, p@, players.deep_view()[kk].id);
            }
            assert forall|q: int| 0 <= q < team@.players.len() implies crate::domain::has_player_id(
                team0@.players,
                (#[trigger] team@.players[q]).id,
            ) || player_selected(*old(store), sel, team@.players[q].id) by {
                if q < roster0.len() {
                    assert(team@.players[q] == roster0[q]);
                } else {
                    assert(team@.players[q] == p@);
                    assert(player_selected(*old(store), sel, players.deep_view()[k as int].id));
                }
            }
        }
        k = k + 1;
    }
    let ghost pre_save = *store;
    let _ = store.save_team(&team);
    proof {
        // The team's scalar fields were rewritten to their own values, so the
        // teams table is unchanged.
        let jt = choose|j: int|
            0 <= j < pre_save.teams@.len() && (#[trigger] pre_save.teams@[j]).id == dto.team_id
                && team0@ == spec_team_of_row(pre_save.teams@[j], pre_save) && team0.name
                == pre_save.teams@[j].name && team0.enabled == pre_save.teams@[j].enabled
                && team0.id == pre_save.teams@[j].id;
        assert forall|i: int| 0 <= i < pre_save.teams@.len() implies final(store).teams@[i] == (
        #[trigger] pre_save.teams@[i]) by {
            assert(final(store).teams@[i] == crate::store::spec_saved_team_row(
                pre_save.teams@[i],
                team,
            ));
            if pre_save.teams@[i].id == team.id {
                assert(i == jt);
            }
        }
        assert(final(store).teams@ =~= pre_save.teams@);
        // The roster fetched from the store is already linked, so every
        // appended row links
        // a requested player.
        let rp = |row: PlayerRow|
            row.community_id == pre_save.teams@[jt].community_id && row.enabled && in_team(
                pre_save.team_players@,
                pre_save.teams@[jt].id as int,
                row.id as int,
            );
        crate::store::lemma_filter_map_elements(pre_save.players@, rp, pm);
        assert(team0@.players == filter_map(pre_save.players@, rp, pm));
        assert forall|j: int|
            pre_save.team_players@.len() <= j < final(store).team_players@.len() implies (
        player_selected(*old(store), sel, (#[trigger] final(store).team_players@[j]).player_id as int)) by {
            let pid = final(store).team_players@[j].player_id as int;
            assert(crate::domain::has_player_id(team@.players, pid));
            let q = choose|q: int| 0 <= q < team@.players.len() && team@.players[q].id == pid;
            if crate::domain::has_player_id(team0@.players, pid) {
                let q0 = choose|q0: int|
                    0 <= q0 < team0@.players.len() && team0@.players[q0].id == pid;
                assert(crate::store::arises_from(
                    pre_save.players@,
                    rp,
                    pm,
                    filter_map(pre_save.players@, rp, pm)[q0],
                ));
                let jj = choose|jj: int|
                    0 <= jj < pre_save.players@.len() && rp(#[trigger] pre_save.players@[jj]) && pm(
                        pre_save.players@[jj],
                    ) == filter_map(pre_save.players@, rp, pm)[q0];
                assert(in_team(pre_save.team_players@, team.id as int, pid));
                assert(false);
            }
        }
        // Every requested player that resolves to a row ends up linked.
        assert forall|j: int|
            0 <= j < old(store).players@.len() && sel.contains(
                (#[trigger] old(store).players@[j]).id,
            ) implies in_team(
            final(store).team_players@,
            dto.team_id as int,
            old(store).players@[j].id as int,
        ) by {
            assert(pp(old(store).players@[j]));
            assert(filter_map(old(store).players@, pp, pm).contains(pm(old(store).players@[j])));
            let kk = choose|kk: int|
                0 <= kk < filter_map(old(store).players@, pp, pm).len() && filter_map(
                    old(store).players@,
                    pp,
                    pm,
                )[kk] == pm(old(store).players@[j]);
            assert(crate::domain::has_player_id(
                team@.players,
                players.deep_view()[kk].id,
            ));
            let q = choose|q: int|
                0 <= q < team@.players.len() && team@.players[q].id == players.deep_view()[kk].id;
            assert(in_team(
                final(store).team_players@,
                team.id as int,
                (#[trigger] team@.players[q]).id,
            ));
        }
        assert(spec_roster_extended(*final(store), *old(store), dto.team_id, sel));
    }
    // Report the requested ids that resolved to no player.
    let ghost mp = |id: i32| !player_found(*old(store), id);
    let ghost mm = |id: i32| id;
    let mut missing: Vec<i32> = Vec::new();
    let mut i: usize = 0;
    proof {
        assert(missing@ =~= filter_map(sel.take(0), mp, mm));
    }
    while i < dto.players_ids.len()
        invariant
            i <= sel.len(),
            missing@ == filter_map(sel.take(i as int), mp, mm),
        decreases sel.len() - i,
    {
        proof {
            crate::store::lemma_filter_map_step(sel, mp, mm, i as int);
            assert(filter_map(sel.take(i as int), mp, mm) + Seq::<i32>::empty() =~= filter_map(
                sel.take(i as int),
                mp,
                mm,
            ));
        }
        let ghost prevm = missing@;
        let id = dto.players_ids[i];
        let known = match store.get_player_by_id(id) {
            Some(_) => true,
            None => false,
        };
        if !known {
            missing.push(id);
            proof {
                assert(missing@ =~= prevm.push(id));
                assert(prevm.push(mm(sel[i as int])) =~= prevm + seq![mm(sel[i as int])]);
            }
        }
        i = i + 1;
    }
    proof {
        assert(sel.take(sel.len() as int) =~= sel);
    }
    if missing.len() > 0 {
        return Err(DomainError::PartialMatch(missing));
    }
    Ok(())
}

} // verus!
