//! What joins make of the states of an entity, round after round.

use vstd::prelude::*;

use crate::models::{JoinDefView, JoinFiredView};

verus! {

/// Whether joins are at rest: where all that a join waits for is given, the region that it moves is
/// where it leads.
pub open spec fn are_at_rest(
    joins: Seq<JoinDefView>,
    states: Map<Seq<char>, Seq<char>>,
) -> bool {
    forall|k: int| 0 <= k < joins.len() ==> !crate::laws::lists::is_due(#[trigger] joins[k], states)
}

/// One round moves a region to where the last join that is due on it leads, and leaves alone each
/// region on which none is due.
pub proof fn law_a_round_moves_what_is_due(
    joins: Seq<JoinDefView>,
    states: Map<Seq<char>, Seq<char>>,
    region: Seq<char>,
    k: int,
)
    ensures
        ({
            let after = crate::engine::cascade(joins, states, 1).0;
            &&& 0 <= k < joins.len() && crate::laws::lists::is_due(joins[k], states)
                && joins[k].target_region == region && (forall|j: int|
                k < j < joins.len() && crate::laws::lists::is_due(#[trigger] joins[j], states)
                    ==> joins[j].target_region != region) ==> after.contains_key(region)
                && after[region] == joins[k].target_state
            &&& (forall|j: int|
                0 <= j < joins.len() && crate::laws::lists::is_due(#[trigger] joins[j], states)
                    ==> joins[j].target_region != region) ==> after.contains_key(region)
                == states.contains_key(region) && (states.contains_key(region) ==> after[region]
                == states[region])
        }),
{
    lemma_round(joins, states, region, k);
    let fired = crate::engine::round_firings(joins, states);
    reveal_with_fuel(crate::engine::cascade, 2);
    if fired.len() == 0 {
        assert(crate::engine::after_firings(states, fired) == states);
    }
}

/// What the firings of a round make of a region.
proof fn lemma_round(
    joins: Seq<JoinDefView>,
    states: Map<Seq<char>, Seq<char>>,
    region: Seq<char>,
    k: int,
)
    ensures
        ({
            let after = crate::engine::after_firings(
                states,
                crate::engine::round_firings(joins, states),
            );
            &&& 0 <= k < joins.len() && crate::laws::lists::is_due(joins[k], states)
                && joins[k].target_region == region && (forall|j: int|
                k < j < joins.len() && crate::laws::lists::is_due(#[trigger] joins[j], states)
                    ==> joins[j].target_region != region) ==> after.contains_key(region)
                && after[region] == joins[k].target_state
            &&& (forall|j: int|
                0 <= j < joins.len() && crate::laws::lists::is_due(#[trigger] joins[j], states)
                    ==> joins[j].target_region != region) ==> after.contains_key(region)
                == states.contains_key(region) && (states.contains_key(region) ==> after[region]
                == states[region])
        }),
    decreases joins.len(),
{
    if joins.len() > 0 {
        let rest = joins.drop_last();
        let last = joins[joins.len() - 1];
        let fewer = crate::engine::round_firings(rest, states);
        let fired = crate::engine::round_firings(joins, states);
        lemma_round(rest, states, region, k);
        assert(crate::laws::lists::is_due(last, states) == crate::engine::join_fires(
            last,
            states,
        ));
        if crate::laws::lists::is_due(last, states) {
            assert(fired =~= fewer.push(crate::engine::firing(last, states)));
            assert(fired.drop_last() =~= fewer);
        } else {
            assert(fired =~= fewer);
        }
        if forall|j: int|
            0 <= j < joins.len() && crate::laws::lists::is_due(#[trigger] joins[j], states)
                ==> joins[j].target_region != region {
            assert forall|j: int|
                0 <= j < rest.len() && crate::laws::lists::is_due(
                    #[trigger] rest[j],
                    states,
                ) implies rest[j].target_region != region by {
                assert(rest[j] == joins[j]);
            }
        }
        if 0 <= k < rest.len() && (forall|j: int|
            k < j < joins.len() && crate::laws::lists::is_due(#[trigger] joins[j], states)
                ==> joins[j].target_region != region) {
            assert(rest[k] == joins[k]);
            assert forall|j: int|
                k < j < rest.len() && crate::laws::lists::is_due(
                    #[trigger] rest[j],
                    states,
                ) implies rest[j].target_region != region by {
                assert(rest[j] == joins[j]);
            }
        }
    }
}

/// Where joins are at rest, any number of rounds changes nothing and fires none. Otherwise rounds
/// add up: more rounds are one round, and then the others from where it has led.
pub proof fn law_rounds_add_up(
    joins: Seq<JoinDefView>,
    states: Map<Seq<char>, Seq<char>>,
    rounds: nat,
)
    ensures
        ({
            let all = crate::engine::cascade(joins, states, rounds + 1);
            let sources = crate::engine::cascade_joins(joins, states, rounds + 1);
            let (next, fired) = crate::engine::cascade(joins, states, 1);
            let rest = crate::engine::cascade(joins, next, rounds);
            &&& crate::engine::cascade(joins, states, 0) == (
                states,
                Seq::<JoinFiredView>::empty(),
            )
            &&& crate::engine::cascade_joins(joins, states, 0) == Seq::<JoinDefView>::empty()
            &&& fired == crate::engine::round_firings(joins, states)
            &&& crate::engine::cascade_joins(joins, states, 1) == crate::engine::round_joins(
                joins,
                states,
            )
            &&& are_at_rest(joins, states) <==> fired.len() == 0
            &&& are_at_rest(joins, states) ==> all == (states, Seq::<JoinFiredView>::empty())
                && sources.len() == 0
            &&& !are_at_rest(joins, states) ==> all == (rest.0, fired + rest.1) && sources
                == crate::engine::cascade_joins(joins, states, 1) + crate::engine::cascade_joins(
                joins,
                next,
                rounds,
            )
        }),
{
    let fired = crate::engine::round_firings(joins, states);
    let sources = crate::engine::round_joins(joins, states);
    reveal_with_fuel(crate::engine::cascade, 2);
    reveal_with_fuel(crate::engine::cascade_joins, 2);
    lemma_at_rest(joins, states);
    assert(fired + Seq::<JoinFiredView>::empty() =~= fired);
    assert(sources + Seq::<JoinDefView>::empty() =~= sources);
    if fired.len() == 0 {
        assert(fired =~= Seq::<JoinFiredView>::empty());
        assert(sources =~= Seq::<JoinDefView>::empty());
    }
}

/// Joins are at rest exactly if none fires in the next round.
pub proof fn lemma_at_rest(joins: Seq<JoinDefView>, states: Map<Seq<char>, Seq<char>>)
    ensures
        are_at_rest(joins, states) <==> crate::engine::round_firings(joins, states).len() == 0,
{
    crate::laws::lists::law_due_joins_fire_once_in_order(joins, states);
    let picks = choose|picks: Seq<int>| #[trigger]
        crate::laws::lists::joins_fire_at(
            joins,
            states,
            crate::engine::round_joins(joins, states),
            crate::engine::round_firings(joins, states),
            picks,
        );
    if picks.len() > 0 {
        assert(crate::laws::lists::is_due(joins[picks[0]], states));
    }
    if !are_at_rest(joins, states) {
        let k = choose|k: int|
            0 <= k < joins.len() && crate::laws::lists::is_due(#[trigger] joins[k], states);
        assert(picks.contains(k));
    }
}

/// Where fewer joins have fired than rounds were allowed, they have come to rest.
pub proof fn law_joins_come_to_rest(
    joins: Seq<JoinDefView>,
    states: Map<Seq<char>, Seq<char>>,
    rounds: nat,
)
    requires
        crate::engine::cascade(joins, states, rounds).1.len() < rounds,
    ensures
        are_at_rest(joins, crate::engine::cascade(joins, states, rounds).0),
{
    crate::engine::law_joins_settle(joins, states, rounds);
    lemma_at_rest(joins, crate::engine::cascade(joins, states, rounds).0);
}

} // verus!
