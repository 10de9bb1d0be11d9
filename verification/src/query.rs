use vstd::prelude::*;
use vstd::string::StringExecFns;

use crate::decimal::{dec_chars, digit_char, push_dec_u64};
use crate::filter::{FilterView, IGetPartiesByParams, community_filter_present, game_filter_present, created_filter_present, updated_filter_present, teams_filter_present, winners_filter_present};

verus! {

// ---------------------------------------------------------------------------
// Counting placeholders in query text.
// ---------------------------------------------------------------------------

/// The number of occurrences of a character in a sequence.
pub open spec fn count_char(s: Seq<char>, c: char) -> nat
    decreases s.len(),
{
    if s.len() == 0 {
        0
    } else {
        count_char(s.drop_last(), c) + (if s.last() == c {
            1nat
        } else {
            0nat
        })
    }
}

/// Counting distributes over concatenation.
pub proof fn lemma_count_char_concat(a: Seq<char>, b: Seq<char>, c: char)
    ensures
        count_char(a + b, c) == count_char(a, c) + count_char(b, c),
    decreases b.len(),
{
    if b.len() == 0 {
        assert(a + b =~= a);
    } else {
        lemma_count_char_concat(a, b.drop_last(), c);
        assert((a + b).drop_last() =~= a + b.drop_last());
        assert((a + b).last() == b.last());
    }
}

/// A decimal representation consists of digits only, so it holds no dollar sign.
pub proof fn lemma_dec_chars_no_dollar(n: nat)
    ensures
        count_char(dec_chars(n), '$') == 0,
    decreases n,
{
    if n < 10 {
        assert(count_char(dec_chars(n), '$') == 0) by {
            reveal_with_fuel(count_char, 3);
        }
    } else {
        lemma_dec_chars_no_dollar(n / 10);
        lemma_count_char_concat(dec_chars(n / 10), seq![digit_char(n % 10)], '$');
        assert(count_char(seq![digit_char(n % 10)], '$') == 0) by {
            reveal_with_fuel(count_char, 3);
        }
    }
}

// ---------------------------------------------------------------------------
// The clauses a filter specification contributes, in their fixed order.
// ---------------------------------------------------------------------------

/// The six optional predicates, in the order in which their clauses are
/// appended to the query.
pub enum ClauseKind {
    CommunityId,
    GameName,
    CreatedAt,
    UpdatedAt,
    TeamsIds,
    TeamWinnerIds,
}

/// The text of a clause up to and including its dollar sign.
pub open spec fn clause_prefix(k: ClauseKind) -> Seq<char> {
    match k {
        ClauseKind::CommunityId => "community_id = $"@,
        ClauseKind::GameName => "game_name = $"@,
        ClauseKind::CreatedAt => "created_at = $"@,
        ClauseKind::UpdatedAt => "updated_at = $"@,
        ClauseKind::TeamsIds => "id IN (SELECT party_id FROM party_teams WHERE team_id = ANY($"@,
        ClauseKind::TeamWinnerIds => "team_winner_id = ANY($"@,
    }
}

/// The text of a clause after its placeholder ordinal.
pub open spec fn clause_suffix(k: ClauseKind) -> Seq<char> {
    match k {
        ClauseKind::CommunityId => Seq::empty(),
        ClauseKind::GameName => Seq::empty(),
        ClauseKind::CreatedAt => Seq::empty(),
        ClauseKind::UpdatedAt => Seq::empty(),
        ClauseKind::TeamsIds => "))"@,
        ClauseKind::TeamWinnerIds => ")"@,
    }
}

/// One complete clause carrying the given placeholder ordinal.
pub open spec fn clause_text(k: ClauseKind, ord: nat) -> Seq<char> {
    clause_prefix(k) + dec_chars(ord) + clause_suffix(k)
}

/// The kinds of the filters that are present, in the fixed emission order.
pub open spec fn active_kinds(f: FilterView) -> Seq<ClauseKind> {
    (if community_filter_present(f) {
        seq![ClauseKind::CommunityId]
    } else {
        Seq::empty()
    }) + (if game_filter_present(f) {
        seq![ClauseKind::GameName]
    } else {
        Seq::empty()
    }) + (if created_filter_present(f) {
        seq![ClauseKind::CreatedAt]
    } else {
        Seq::empty()
    }) + (if updated_filter_present(f) {
        seq![ClauseKind::UpdatedAt]
    } else {
        Seq::empty()
    }) + (if teams_filter_present(f) {
        seq![ClauseKind::TeamsIds]
    } else {
        Seq::empty()
    }) + (if winners_filter_present(f) {
        seq![ClauseKind::TeamWinnerIds]
    } else {
        Seq::empty()
    })
}

/// The clause texts of the given kinds: the clause at position i (counting
/// from zero) carries placeholder ordinal i + 1, so ordinals are contiguous
/// and strictly increasing and are never renumbered.
pub open spec fn clause_texts(ks: Seq<ClauseKind>) -> Seq<Seq<char>> {
    Seq::new(ks.len(), |i: int| clause_text(ks[i], (i + 1) as nat))
}

/// Clause texts joined with the AND connective.
pub open spec fn join_and(ss: Seq<Seq<char>>) -> Seq<char>
    decreases ss.len(),
{
    if ss.len() == 0 {
        Seq::empty()
    } else if ss.len() == 1 {
        ss[0]
    } else {
        join_and(ss.drop_last()) + " AND "@ + ss.last()
    }
}

/// The query text built from a base projection and the given clause kinds:
/// the base unchanged when no clause applies, otherwise the base, one WHERE
/// keyword, and the joined clauses.
pub open spec fn assembled(base: Seq<char>, ks: Seq<ClauseKind>) -> Seq<char> {
    if ks.len() == 0 {
        base
    } else {
        base + " WHERE "@ + join_and(clause_texts(ks))
    }
}

/// The full query text for a filter specification.
pub open spec fn spec_query(base: Seq<char>, f: FilterView) -> Seq<char> {
    assembled(base, active_kinds(f))
}

// ---------------------------------------------------------------------------
// Bound values.
// ---------------------------------------------------------------------------

/// A value bound to one placeholder.
pub enum BindValue {
    Id(i32),
    Time(i64),
    Text(String),
    IdList(Vec<i32>),
}

/// Mathematical model of a bound value.
#[verifier::ext_equal]
pub enum BindValueView {
    Id(int),
    Time(int),
    Text(Seq<char>),
    IdList(Seq<int>),
}

impl View for BindValue {
    type V = BindValueView;

    open spec fn view(&self) -> BindValueView {
        match self {
            BindValue::Id(v) => BindValueView::Id(*v as int),
            BindValue::Time(v) => BindValueView::Time(*v as int),
            BindValue::Text(s) => BindValueView::Text(s@),
            BindValue::IdList(v) => BindValueView::IdList(v@.map_values(|x: i32| x as int)),
        }
    }
}

impl DeepView for BindValue {
    type V = BindValueView;

    open spec fn deep_view(&self) -> BindValueView {
        self.view()
    }
}

pub open spec fn bind_community(f: FilterView) -> Seq<BindValueView> {
    match f.community_id {
        Some(v) => seq![BindValueView::Id(v)],
        None => Seq::empty(),
    }
}

pub open spec fn bind_game(f: FilterView) -> Seq<BindValueView> {
    match f.game_name {
        Some(s) => seq![BindValueView::Text(s)],
        None => Seq::empty(),
    }
}

pub open spec fn bind_created(f: FilterView) -> Seq<BindValueView> {
    match f.created_at {
        Some(t) => seq![BindValueView::Time(t)],
        None => Seq::empty(),
    }
}

pub open spec fn bind_updated(f: FilterView) -> Seq<BindValueView> {
    match f.updated_at {
        Some(t) => seq![BindValueView::Time(t)],
        None => Seq::empty(),
    }
}

pub open spec fn bind_teams(f: FilterView) -> Seq<BindValueView> {
    if teams_filter_present(f) {
        seq![BindValueView::IdList(f.teams_ids.unwrap())]
    } else {
        Seq::empty()
    }
}

pub open spec fn bind_winners(f: FilterView) -> Seq<BindValueView> {
    if winners_filter_present(f) {
        seq![BindValueView::IdList(f.team_winner_ids.unwrap())]
    } else {
        Seq::empty()
    }
}

/// The bound values of a filter specification, in the same fixed order as the
/// clauses: one value for each present filter, none for an absent one.
pub open spec fn spec_bind_values(f: FilterView) -> Seq<BindValueView> {
    bind_community(f) + bind_game(f) + bind_created(f) + bind_updated(f) + bind_teams(f)
        + bind_winners(f)
}

// ---------------------------------------------------------------------------
// The builder.
// ---------------------------------------------------------------------------

/// Builds the final query text and the matching ordered bound values from a
/// base projection and a filter specification. Filters that are absent (or
/// empty id sets) contribute neither a clause nor a value nor a placeholder
/// slot; placeholder ordinals count up from one in emission order.
#[verifier::rlimit(100)]
#[verifier::spinoff_prover]
pub fn build_dynamic_query(base_query: &str, filters: &IGetPartiesByParams) -> (r: (
    String,
    Vec<BindValue>,
))
    ensures
        r.0@ == spec_query(base_query@, filters@),
        r.1.deep_view() == spec_bind_values(filters@),
{
    let ghost f = filters@;
    let mut q = String::new();
    q.append(base_query);
    let mut binds: Vec<BindValue> = Vec::new();
    let mut count: usize = 0;
    let ghost mut kinds: Seq<ClauseKind> = Seq::empty();
    proof {
        assert(q@ =~= base_query@);
        assert(q@ =~= assembled(base_query@, kinds));
        assert(binds.deep_view() =~= Seq::<BindValueView>::empty());
    }

    if let Some(cid) = filters.community_id {
        if count == 0 {
            q.append(" WHERE ");
        } else {
            q.append(" AND ");
        }
        q.append("community_id = $");
        push_dec_u64(&mut q, count as u64 + 1);
        binds.push(BindValue::Id(cid));
        proof {
            lemma_extend(
                base_query@,
                kinds,
                ClauseKind::CommunityId,
                q@,
                assembled(base_query@, kinds) + (if kinds.len() == 0 {
                    " WHERE "@
                } else {
                    " AND "@
                }),
            );
            kinds = kinds.push(ClauseKind::CommunityId);
        }
        count = count + 1;
    }
    proof {
        assert(kinds =~= active_kinds_1(f));
        assert(count == kinds.len());
        assert(binds.deep_view() =~= bind_community(f));
    }

    if let Some(g) = &filters.game_name {
        if count == 0 {
            q.append(" WHERE ");
        } else {
            q.append(" AND ");
        }
        q.append("game_name = $");
        push_dec_u64(&mut q, count as u64 + 1);
        binds.push(BindValue::Text(g.clone()));
        proof {
            lemma_extend(
                base_query@,
                kinds,
                ClauseKind::GameName,
                q@,
                assembled(base_query@, kinds) + (if kinds.len() == 0 {
                    " WHERE "@
                } else {
                    " AND "@
                }),
            );
            kinds = kinds.push(ClauseKind::GameName);
        }
        count = count + 1;
    }
    proof {
        assert(kinds =~= active_kinds_2(f));
        assert(count == kinds.len());
        assert(binds.deep_view() =~= bind_community(f) + bind_game(f));
    }

    if let Some(t) = filters.created_at {
        if count == 0 {
            q.append(" WHERE ");
        } else {
            q.append(" AND ");
        }
        q.append("created_at = $");
        push_dec_u64(&mut q, count as u64 + 1);
        binds.push(BindValue::Time(t));
        proof {
            lemma_extend(
                base_query@,
                kinds,
                ClauseKind::CreatedAt,
                q@,
                assembled(base_query@, kinds) + (if kinds.len() == 0 {
                    " WHERE "@
                } else {
                    " AND "@
                }),
            );
            kinds = kinds.push(ClauseKind::CreatedAt);
        }
        count = count + 1;
    }
    proof {
        assert(kinds =~= active_kinds_3(f));
        assert(count == kinds.len());
        assert(binds.deep_view() =~= bind_community(f) + bind_game(f) + bind_created(f));
    }

    if let Some(t) = filters.updated_at {
        if count == 0 {
            q.append(" WHERE ");
        } else {
            q.append(" AND ");
        }
        q.append("updated_at = $");
        push_dec_u64(&mut q, count as u64 + 1);
        binds.push(BindValue::Time(t));
        proof {
            lemma_extend(
                base_query@,
                kinds,
                ClauseKind::UpdatedAt,
                q@,
                assembled(base_query@, kinds) + (if kinds.len() == 0 {
                    " WHERE "@
                } else {
                    " AND "@
                }),
            );
            kinds = kinds.push(ClauseKind::UpdatedAt);
        }
        count = count + 1;
    }
    proof {
        assert(kinds =~= active_kinds_4(f));
        assert(count == kinds.len());
        assert(binds.deep_view() =~= bind_community(f) + bind_game(f) + bind_created(f)
            + bind_updated(f));
    }

    if let Some(ids) = &filters.teams_ids {
        if ids.len() > 0 {
            if count == 0 {
                q.append(" WHERE ");
            } else {
                q.append(" AND ");
            }
            q.append("id IN (SELECT party_id FROM party_teams WHERE team_id = ANY($");
            push_dec_u64(&mut q, count as u64 + 1);
            q.append("))");
            let copy = clone_id_vec(ids);
            binds.push(BindValue::IdList(copy));
            proof {
                lemma_extend(
                    base_query@,
                    kinds,
                    ClauseKind::TeamsIds,
                    q@,
                    assembled(base_query@, kinds) + (if kinds.len() == 0 {
                        " WHERE "@
                    } else {
                        " AND "@
                    }),
                );
                kinds = kinds.push(ClauseKind::TeamsIds);
            }
            count = count + 1;
        }
    }
    proof {
        assert(kinds =~= active_kinds_5(f));
        assert(count == kinds.len());
        assert(binds.deep_view() =~= bind_community(f) + bind_game(f) + bind_created(f)
            + bind_updated(f) + bind_teams(f));
    }

    if let Some(ids) = &filters.team_winner_ids {
        if ids.len() > 0 {
            if count == 0 {
                q.append(" WHERE ");
            } else {
                q.append(" AND ");
            }
            q.append("team_winner_id = ANY($");
            push_dec_u64(&mut q, count as u64 + 1);
            q.append(")");
            let copy = clone_id_vec(ids);
            binds.push(BindValue::IdList(copy));
            proof {
                lemma_extend(
                    base_query@,
                    kinds,
                    ClauseKind::TeamWinnerIds,
                    q@,
                    assembled(base_query@, kinds) + (if kinds.len() == 0 {
                        " WHERE "@
                    } else {
                        " AND "@
                    }),
                );
                kinds = kinds.push(ClauseKind::TeamWinnerIds);
            }
            count = count + 1;
        }
    }
    proof {
        assert(kinds =~= active_kinds(f));
        assert(q@ == spec_query(base_query@, f));
        assert(binds.deep_view() =~= spec_bind_values(f));
    }

    (q, binds)
}

/// A fresh copy of an id list.
pub(crate) fn clone_id_vec(ids: &Vec<i32>) -> (r: Vec<i32>)
    ensures
        r@ == ids@,
{
    let r = ids.clone();
    proof {
        assert forall|i: int| 0 <= i < ids@.len() implies ids@[i] == r@[i] by {
            assert(cloned::<i32>(ids@[i], r@[i]));
        }
        assert(r@ =~= ids@);
    }
    r
}

// The prefixes of the active kinds after each of the six fields has been
// considered, used to relate the builder's progress to the full sequence.
pub open spec fn active_kinds_1(f: FilterView) -> Seq<ClauseKind> {
    if community_filter_present(f) {
        seq![ClauseKind::CommunityId]
    } else {
        Seq::empty()
    }
}

pub open spec fn active_kinds_2(f: FilterView) -> Seq<ClauseKind> {
    active_kinds_1(f) + (if game_filter_present(f) {
        seq![ClauseKind::GameName]
    } else {
        Seq::empty()
    })
}

pub open spec fn active_kinds_3(f: FilterView) -> Seq<ClauseKind> {
    active_kinds_2(f) + (if created_filter_present(f) {
        seq![ClauseKind::CreatedAt]
    } else {
        Seq::empty()
    })
}

pub open spec fn active_kinds_4(f: FilterView) -> Seq<ClauseKind> {
    active_kinds_3(f) + (if updated_filter_present(f) {
        seq![ClauseKind::UpdatedAt]
    } else {
        Seq::empty()
    })
}

pub open spec fn active_kinds_5(f: FilterView) -> Seq<ClauseKind> {
    active_kinds_4(f) + (if teams_filter_present(f) {
        seq![ClauseKind::TeamsIds]
    } else {
        Seq::empty()
    })
}

/// Extending an assembled query by one clause of kind `k`: appending the
/// separator, the clause prefix, the next ordinal and the clause suffix
/// yields the assembly over the extended kind sequence.
proof fn lemma_extend(base: Seq<char>, ks: Seq<ClauseKind>, k: ClauseKind, q_new: Seq<char>, q_sep: Seq<char>)
    requires
        q_new =~= q_sep + clause_prefix(k) + dec_chars((ks.len() + 1) as nat) + clause_suffix(k),
        q_sep == assembled(base, ks) + (if ks.len() == 0 {
            " WHERE "@
        } else {
            " AND "@
        }),
    ensures
        q_new == assembled(base, ks.push(k)),
{
    let ks1 = ks.push(k);
    let ct = clause_text(k, (ks.len() + 1) as nat);
    assert(clause_texts(ks1) =~= clause_texts(ks).push(ct)) by {
        assert forall|i: int| 0 <= i < ks1.len() implies clause_texts(ks1)[i] == clause_texts(
            ks,
        ).push(ct)[i] by {
            if i < ks.len() {
                assert(ks1[i] == ks[i]);
            } else {
                assert(ks1[i] == k);
            }
        }
    }
    if ks.len() == 0 {
        assert(join_and(clause_texts(ks1)) == ct) by {
            assert(clause_texts(ks1).len() == 1);
            assert(clause_texts(ks1)[0] == ct);
        }
        assert(q_new =~= base + " WHERE "@ + join_and(clause_texts(ks1)));
    } else {
        assert(clause_texts(ks1).drop_last() =~= clause_texts(ks));
        assert(clause_texts(ks1).last() == ct);
        assert(join_and(clause_texts(ks1)) == join_and(clause_texts(ks)) + " AND "@ + ct);
        assert(q_new =~= base + " WHERE "@ + join_and(clause_texts(ks1)));
    }
}

// ---------------------------------------------------------------------------
// Laws of the builder.
// ---------------------------------------------------------------------------

#[verifier::rlimit(100)]
#[verifier::spinoff_prover]
proof fn lemma_teams_prefix_dollar_count()
    ensures
        count_char("id IN (SELECT party_id FROM party_teams WHERE team_id = ANY($"@, '$') == 1,
{
    reveal_strlit("id IN (SELECT party_id FROM party_teams WHERE team_id = ANY($");
    let s = "id IN (SELECT party_id FROM party_teams WHERE team_id = ANY($"@;
    let a = s.subrange(0, 20);
    let b = s.subrange(20, 40);
    let c = s.subrange(40, 61);
    assert(count_char(a, '$') == 0) by {
        reveal_with_fuel(count_char, 22);
    }
    assert(count_char(b, '$') == 0) by {
        reveal_with_fuel(count_char, 22);
    }
    assert(count_char(c, '$') == 1) by {
        reveal_with_fuel(count_char, 23);
    }
    lemma_count_char_concat(a, b, '$');
    lemma_count_char_concat(a + b, c, '$');
    assert(s =~= (a + b) + c);
}

proof fn lemma_literal_dollar_counts()
    ensures
        count_char("community_id = $"@, '$') == 1,
        count_char("game_name = $"@, '$') == 1,
        count_char("created_at = $"@, '$') == 1,
        count_char("updated_at = $"@, '$') == 1,
        count_char("id IN (SELECT party_id FROM party_teams WHERE team_id = ANY($"@, '$') == 1,
        count_char("team_winner_id = ANY($"@, '$') == 1,
        count_char("))"@, '$') == 0,
        count_char(")"@, '$') == 0,
        count_char(" AND "@, '$') == 0,
        count_char(" WHERE "@, '$') == 0,
{
    reveal_strlit("community_id = $");
    reveal_strlit("game_name = $");
    reveal_strlit("created_at = $");
    reveal_strlit("updated_at = $");
    lemma_teams_prefix_dollar_count();
    reveal_strlit("team_winner_id = ANY($");
    reveal_strlit("))");
    reveal_strlit(")");
    reveal_strlit(" AND ");
    reveal_strlit(" WHERE ");
    assert(count_char("community_id = $"@, '$') == 1) by {
        reveal_with_fuel(count_char, 20);
    }
    assert(count_char("game_name = $"@, '$') == 1) by {
        reveal_with_fuel(count_char, 20);
    }
    assert(count_char("created_at = $"@, '$') == 1) by {
        reveal_with_fuel(count_char, 20);
    }
    assert(count_char("updated_at = $"@, '$') == 1) by {
        reveal_with_fuel(count_char, 20);
    }
    assert(count_char("team_winner_id = ANY($"@, '$') == 1) by {
        reveal_with_fuel(count_char, 30);
    }
    assert(count_char("))"@, '$') == 0) by {
        reveal_with_fuel(count_char, 5);
    }
    assert(count_char(")"@, '$') == 0) by {
        reveal_with_fuel(count_char, 5);
    }
    assert(count_char(" AND "@, '$') == 0) by {
        reveal_with_fuel(count_char, 8);
    }
    assert(count_char(" WHERE "@, '$') == 0) by {
        reveal_with_fuel(count_char, 10);
    }
}

/// Every clause carries exactly one placeholder.
proof fn lemma_clause_one_dollar(k: ClauseKind, ord: nat)
    ensures
        count_char(clause_text(k, ord), '$') == 1,
{
    lemma_literal_dollar_counts();
    lemma_dec_chars_no_dollar(ord);
    lemma_count_char_concat(clause_prefix(k), dec_chars(ord), '$');
    lemma_count_char_concat(clause_prefix(k) + dec_chars(ord), clause_suffix(k), '$');
    assert(count_char(Seq::<char>::empty(), '$') == 0) by {
        reveal_with_fuel(count_char, 2);
    }
}

proof fn lemma_join_and_dollar_count(ks: Seq<ClauseKind>)
    ensures
        count_char(join_and(clause_texts(ks)), '$') == ks.len(),
    decreases ks.len(),
{
    let ts = clause_texts(ks);
    if ks.len() == 0 {
        assert(count_char(Seq::<char>::empty(), '$') == 0) by {
            reveal_with_fuel(count_char, 2);
        }
    } else if ks.len() == 1 {
        assert(ts[0] == clause_text(ks[0], 1));
        lemma_clause_one_dollar(ks[0], 1);
    } else {
        lemma_join_and_dollar_count(ks.drop_last());
        assert(ts.drop_last() =~= clause_texts(ks.drop_last()));
        assert(ts.last() == clause_text(ks.last(), ks.len() as nat));
        lemma_count_char_concat(join_and(ts.drop_last()), " AND "@, '$');
        lemma_count_char_concat(join_and(ts.drop_last()) + " AND "@, ts.last(), '$');
        lemma_clause_one_dollar(ks.last(), ks.len() as nat);
        lemma_literal_dollar_counts();
    }
}

/// Placeholder correspondence: for every filter combination, the emitted
/// query text carries exactly as many placeholders as there are bound values,
/// and the clause at position i (counting from zero) carries placeholder
/// ordinal i + 1, so the Nth placeholder's ordinal is N.
pub proof fn lemma_placeholder_correspondence(base: Seq<char>, f: FilterView)
    requires
        count_char(base, '$') == 0,
    ensures
        spec_bind_values(f).len() == active_kinds(f).len(),
        count_char(spec_query(base, f), '$') == spec_bind_values(f).len(),
        forall|i: int|
            0 <= i < active_kinds(f).len() ==> #[trigger] clause_texts(active_kinds(f))[i]
                == clause_prefix(active_kinds(f)[i]) + dec_chars((i + 1) as nat) + clause_suffix(
                active_kinds(f)[i],
            ),
{
    let ks = active_kinds(f);
    assert(spec_bind_values(f).len() == ks.len());
    if ks.len() == 0 {
        assert(spec_query(base, f) == base);
    } else {
        lemma_join_and_dollar_count(ks);
        lemma_literal_dollar_counts();
        lemma_count_char_concat(base, " WHERE "@, '$');
        lemma_count_char_concat(base + " WHERE "@, join_and(clause_texts(ks)), '$');
        assert(spec_query(base, f) == (base + " WHERE "@) + join_and(clause_texts(ks)));
    }
}

/// Absence is a no-op: a filter specification with every field absent (or an
/// empty id set) yields the base query unchanged and no bound values.
pub proof fn lemma_absence_is_noop(base: Seq<char>, f: FilterView)
    requires
        f.community_id is None,
        f.game_name is None,
        f.created_at is None,
        f.updated_at is None,
        !teams_filter_present(f),
        !winners_filter_present(f),
    ensures
        spec_query(base, f) == base,
        spec_bind_values(f) == Seq::<BindValueView>::empty(),
{
    assert(active_kinds(f) =~= Seq::<ClauseKind>::empty());
    assert(spec_bind_values(f) =~= Seq::<BindValueView>::empty());
}

/// An empty id set is treated exactly as an absent one: two filter
/// specifications that differ only in holding an empty team id set rather
/// than none produce identical query text and identical bound values.
pub proof fn lemma_empty_set_is_absent(base: Seq<char>, f1: FilterView, f2: FilterView)
    requires
        f1.community_id == f2.community_id,
        f1.game_name == f2.game_name,
        f1.created_at == f2.created_at,
        f1.updated_at == f2.updated_at,
        f1.teams_ids == Some(Seq::<int>::empty()),
        f2.teams_ids is None,
        f1.team_winner_ids == f2.team_winner_ids,
    ensures
        spec_query(base, f1) == spec_query(base, f2),
        spec_bind_values(f1) == spec_bind_values(f2),
{
    assert(active_kinds(f1) =~= active_kinds(f2));
    assert(spec_bind_values(f1) =~= spec_bind_values(f2));
}

} // verus!
