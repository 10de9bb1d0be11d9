use vstd::prelude::*;
use vstd::string::{StrSliceExecFns, StringExecFns};

verus! {

// ---------------------------------------------------------------------------
// Validation vocabulary.
// ---------------------------------------------------------------------------

/// Whether a character counts as white space.
pub uninterp spec fn spec_is_whitespace(c: char) -> bool;

/// Relies on char::is_whitespace: whether the character has the Unicode
/// White_Space property, a function of the character alone.
#[verifier::external_body]
fn char_is_whitespace(c: char) -> (r: bool)
    ensures
        r == spec_is_whitespace(c),
{
    c.is_whitespace()
}

/// A string is blank when every character is white space; trimming such a
/// string leaves nothing.
pub open spec fn is_blank(s: Seq<char>) -> bool {
    forall|i: int| 0 <= i < s.len() ==> spec_is_whitespace(s[i])
}

/// Whether every id in the list is positive.
pub open spec fn all_ids_positive(ids: Seq<i32>) -> bool {
    forall|k: int| 0 <= k < ids.len() ==> (#[trigger] ids[k]) > 0
}

/// Whether the whole string is white space.
fn string_is_blank(s: &String) -> (r: bool)
    ensures
        r == is_blank(s@),
{
    let n = s.as_str().unicode_len();
    let mut i: usize = 0;
    while i < n
        invariant
            i <= n,
            n == s@.len(),
            forall|j: int| 0 <= j < i ==> spec_is_whitespace(s@[j]),
        decreases n - i,
    {
        let c = s.as_str().get_char(i);
        if !char_is_whitespace(c) {
            return false;
        }
        i = i + 1;
    }
    true
}

/// Whether every id in the list is positive.
fn ids_all_positive(ids: &Vec<i32>) -> (r: bool)
    ensures
        r == all_ids_positive(ids@),
{
    let mut i: usize = 0;
    while i < ids.len()
        invariant
            i <= ids@.len(),
            forall|j: int| 0 <= j < i ==> (#[trigger] ids@[j]) > 0,
        decreases ids@.len() - i,
    {
        if ids[i] <= 0 {
            return false;
        }
        i = i + 1;
    }
    true
}

// ---------------------------------------------------------------------------
// The request shapes, each with its validation rules.
// ---------------------------------------------------------------------------

/// Request to create a community.
pub struct CreateCommunityDto {
    pub name: String,
}

impl CreateCommunityDto {
    /// The messages of the violated rules, in rule order.
    pub open spec fn violations(&self) -> Seq<Seq<char>> {
        if 1 <= self.name@.len() <= 50 {
            Seq::empty()
        } else {
            seq!["Name must be between 1 and 50 characters"@]
        }
    }

    /// Accepts the request exactly when every rule holds; otherwise answers
    /// the violated rules' messages.
    pub fn validate(&self) -> (r: Result<(), Vec<String>>)
        ensures
            r is Ok <==> self.violations().len() == 0,
            match r {
                Ok(_) => true,
                Err(msgs) => msgs.deep_view() == self.violations(),
            },
    {
        let l = self.name.as_str().unicode_len();
        if 1 <= l && l <= 50 {
            Ok(())
        } else {
            let mut msgs: Vec<String> = Vec::new();
            msgs.push(String::from_str("Name must be between 1 and 50 characters"));
            proof {
                assert(msgs.deep_view() =~= self.violations());
            }
            Err(msgs)
        }
    }
}

/// Request to create a player inside a community.
pub struct CreatePlayerIntoCommunityDto {
    pub nickname: String,
    pub community_id: i32,
}

impl CreatePlayerIntoCommunityDto {
    /// The messages of the violated rules, in rule order.
    pub open spec fn violations(&self) -> Seq<Seq<char>> {
        (if 1 <= self.nickname@.len() <= 50 {
            Seq::empty()
        } else {
            seq!["Nickname must be between 1 and 50 characters"@]
        }) + (if self.community_id >= 1 {
            Seq::empty()
        } else {
            seq!["Community ID must be greater than 0"@]
        })
    }

    /// Accepts the request exactly when every rule holds.
    pub fn validate(&self) -> (r: Result<(), Vec<String>>)
        ensures
            r is Ok <==> self.violations().len() == 0,
            match r {
                Ok(_) => true,
                Err(msgs) => msgs.deep_view() == self.violations(),
            },
    {
        let mut msgs: Vec<String> = Vec::new();
        let l = self.nickname.as_str().unicode_len();
        if !(1 <= l && l <= 50) {
            msgs.push(String::from_str("Nickname must be between 1 and 50 characters"));
        }
        if !(self.community_id >= 1) {
            msgs.push(String::from_str("Community ID must be greater than 0"));
        }
        proof {
            assert(msgs.deep_view() =~= self.violations());
        }
        if msgs.len() == 0 {
            Ok(())
        } else {
            Err(msgs)
        }
    }
}

/// Request to create a team inside a community.
pub struct CreateTeamIntoCommunityDto {
    pub name: String,
    pub community_id: i32,
}

impl CreateTeamIntoCommunityDto {
    /// The messages of the violated rules, in rule order.
    pub open spec fn violations(&self) -> Seq<Seq<char>> {
        (if 1 <= self.name@.len() <= 50 {
            Seq::empty()
        } else {
            seq!["Name must be between 1 and 50 characters"@]
        }) + (if self.community_id >= 1 {
            Seq::empty()
        } else {
            seq!["Community ID must be a positive integer"@]
        })
    }

    /// Accepts the request exactly when every rule holds.
    pub fn validate(&self) -> (r: Result<(), Vec<String>>)
        ensures
            r is Ok <==> self.violations().len() == 0,
            match r {
                Ok(_) => true,
                Err(msgs) => msgs.deep_view() == self.violations(),
            },
    {
        let mut msgs: Vec<String> = Vec::new();
        let l = self.name.as_str().unicode_len();
        if !(1 <= l && l <= 50) {
            msgs.push(String::from_str("Name must be between 1 and 50 characters"));
        }
        if !(self.community_id >= 1) {
            msgs.push(String::from_str("Community ID must be a positive integer"));
        }
        proof {
            assert(msgs.deep_view() =~= self.violations());
        }
        if msgs.len() == 0 {
            Ok(())
        } else {
            Err(msgs)
        }
    }
}

/// Request to create a party between teams of one community.
pub struct CreatePartyDto {
    pub game_name: String,
    pub teams_ids: Vec<i32>,
    pub community_id: i32,
}

impl CreatePartyDto {
    /// The messages of the violated rules, in rule order.
    pub open spec fn violations(&self) -> Seq<Seq<char>> {
        (if self.community_id > 0 {
            Seq::empty()
        } else {
            seq!["Community ID must be greater than 0"@]
        }) + (if !is_blank(self.game_name@) {
            Seq::empty()
        } else {
            seq!["Game name cannot be empty"@]
        }) + (if self.teams_ids@.len() >= 2 {
            Seq::empty()
        } else {
            seq!["There must be at least two teams"@]
        }) + (if all_ids_positive(self.teams_ids@) {
            Seq::empty()
        } else {
            seq!["All team IDs must be greater than 0"@]
        })
    }

    /// Accepts the request exactly when every rule holds.
    pub fn validate(&self) -> (r: Result<(), Vec<String>>)
        ensures
            r is Ok <==> self.violations().len() == 0,
            match r {
                Ok(_) => true,
                Err(msgs) => msgs.deep_view() == self.violations(),
            },
    {
        let mut msgs: Vec<String> = Vec::new();
        if self.community_id <= 0 {
            msgs.push(String::from_str("Community ID must be greater than 0"));
        }
        if string_is_blank(&self.game_name) {
            msgs.push(String::from_str("Game name cannot be empty"));
        }
        if self.teams_ids.len() < 2 {
            msgs.push(String::from_str("There must be at least two teams"));
        }
        if !ids_all_positive(&self.teams_ids) {
            msgs.push(String::from_str("All team IDs must be greater than 0"));
        }
        proof {
            assert(msgs.deep_view() =~= self.violations());
        }
        if msgs.len() == 0 {
            Ok(())
        } else {
            Err(msgs)
        }
    }
}

/// Request to add players to a team's roster.
pub struct AddPlayersIntoTeamDto {
    pub team_id: i32,
    pub players_ids: Vec<i32>,
}

impl AddPlayersIntoTeamDto {
    /// The messages of the violated rules, in rule order.
    pub open spec fn violations(&self) -> Seq<Seq<char>> {
        (if self.team_id > 0 {
            Seq::empty()
        } else {
            seq!["Team ID must be greater than 0"@]
        }) + (if self.players_ids@.len() > 0 {
            Seq::empty()
        } else {
            seq!["Player IDs cannot be empty"@]
        }) + (if all_ids_positive(self.players_ids@) {
            Seq::empty()
        } else {
            seq!["All player IDs must be greater than 0"@]
        })
    }

    /// Accepts the request exactly when every rule holds.
    pub fn validate(&self) -> (r: Result<(), Vec<String>>)
        ensures
            r is Ok <==> self.violations().len() == 0,
            match r {
                Ok(_) => true,
                Err(msgs) => msgs.deep_view() == self.violations(),
            },
    {
        let mut msgs: Vec<String> = Vec::new();
        if self.team_id <= 0 {
            msgs.push(String::from_str("Team ID must be greater than 0"));
        }
        if self.players_ids.len() == 0 {
            msgs.push(String::from_str("Player IDs cannot be empty"));
        }
        if !ids_all_positive(&self.players_ids) {
            msgs.push(String::from_str("All player IDs must be greater than 0"));
        }
        proof {
            assert(msgs.deep_view() =~= self.violations());
        }
        if msgs.len() == 0 {
            Ok(())
        } else {
            Err(msgs)
        }
    }
}

/// Request to end a party, optionally naming the winning team.
pub struct EndPartyDto {
    pub party_id: i32,
    pub team_winner_id: Option<i32>,
}

impl EndPartyDto {
    /// The messages of the violated rules, in rule order.
    pub open spec fn violations(&self) -> Seq<Seq<char>> {
        (if self.party_id > 0 {
            Seq::empty()
        } else {
            seq!["Party ID must be greater than 0"@]
        }) + (if match self.team_winner_id {
            Some(w) => w > 0,
            None => true,
        } {
            Seq::empty()
        } else {
            seq!["Team winner ID must be greater than 0"@]
        })
    }

    /// Accepts the request exactly when every rule holds.
    pub fn validate(&self) -> (r: Result<(), Vec<String>>)
        ensures
            r is Ok <==> self.violations().len() == 0,
            match r {
                Ok(_) => true,
                Err(msgs) => msgs.deep_view() == self.violations(),
            },
    {
        let mut msgs: Vec<String> = Vec::new();
        if self.party_id <= 0 {
            msgs.push(String::from_str("Party ID must be greater than 0"));
        }
        let winner_bad = match self.team_winner_id {
            Some(w) => w <= 0,
            None => false,
        };
        if winner_bad {
            msgs.push(String::from_str("Team winner ID must be greater than 0"));
        }
        proof {
            assert(msgs.deep_view() =~= self.violations());
        }
        if msgs.len() == 0 {
            Ok(())
        } else {
            Err(msgs)
        }
    }
}

} // verus!
