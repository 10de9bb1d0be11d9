use vstd::prelude::*;

verus! {

/// The mathematical image of an id list.
pub open spec fn ids_as_ints(ids: Seq<i32>) -> Seq<int> {
    ids.map_values(|v: i32| v as int)
}

/// Mathematical model of a filter specification.
#[verifier::ext_equal]
pub struct FilterView {
    pub community_id: Option<int>,
    pub game_name: Option<Seq<char>>,
    pub created_at: Option<int>,
    pub updated_at: Option<int>,
    pub teams_ids: Option<Seq<int>>,
    pub team_winner_ids: Option<Seq<int>>,
}

/// The optional predicates of a party query. Every field may be absent; an
/// absent field contributes nothing to the built query. An empty id
/// collection is treated as absent, not as "matches nothing".
pub struct IGetPartiesByParams {
    pub community_id: Option<i32>,
    pub game_name: Option<String>,
    pub created_at: Option<i64>,
    pub updated_at: Option<i64>,
    pub teams_ids: Option<Vec<i32>>,
    pub team_winner_ids: Option<Vec<i32>>,
}

impl View for IGetPartiesByParams {
    type V = FilterView;

    open spec fn view(&self) -> FilterView {
        FilterView {
            community_id: match self.community_id {
                Some(v) => Some(v as int),
                None => None,
            },
            game_name: match self.game_name {
                Some(ref s) => Some(s@),
                None => None,
            },
            created_at: match self.created_at {
                Some(v) => Some(v as int),
                None => None,
            },
            updated_at: match self.updated_at {
                Some(v) => Some(v as int),
                None => None,
            },
            teams_ids: match self.teams_ids {
                Some(ref v) => Some(ids_as_ints(v@)),
                None => None,
            },
            team_winner_ids: match self.team_winner_ids {
                Some(ref v) => Some(ids_as_ints(v@)),
                None => None,
            },
        }
    }
}

impl IGetPartiesByParams {
    /// A specification with every filter absent.
    pub fn none() -> (r: IGetPartiesByParams)
        ensures
            r@.community_id is None,
            r@.game_name is None,
            r@.created_at is None,
            r@.updated_at is None,
            r@.teams_ids is None,
            r@.team_winner_ids is None,
    {
        IGetPartiesByParams {
            community_id: None,
            game_name: None,
            created_at: None,
            updated_at: None,
            teams_ids: None,
            team_winner_ids: None,
        }
    }
}

// ---------------------------------------------------------------------------
// Which filters take part in a query.
// ---------------------------------------------------------------------------

pub open spec fn community_filter_present(f: FilterView) -> bool {
    f.community_id is Some
}

pub open spec fn game_filter_present(f: FilterView) -> bool {
    f.game_name is Some
}

pub open spec fn created_filter_present(f: FilterView) -> bool {
    f.created_at is Some
}

pub open spec fn updated_filter_present(f: FilterView) -> bool {
    f.updated_at is Some
}

/// An empty id set is treated as if the filter were absent.
pub open spec fn teams_filter_present(f: FilterView) -> bool {
    match f.teams_ids {
        Some(ids) => ids.len() > 0,
        None => false,
    }
}

/// An empty id set is treated as if the filter were absent.
pub open spec fn winners_filter_present(f: FilterView) -> bool {
    match f.team_winner_ids {
        Some(ids) => ids.len() > 0,
        None => false,
    }
}

} // verus!
