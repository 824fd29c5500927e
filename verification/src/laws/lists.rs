//! What is picked out of a list: exactly the items that fit, in their order.

use vstd::prelude::*;

use crate::actions::FiredActionView;
use crate::models::{
    ActionDefView, JoinDefView, JoinFiredView, RegionDefView, TransitionDefView,
};
use crate::scheduler::TimeoutView;
use crate::transition_core::CompoundView;

verus! {

/// Whether positions rise, within a list of `n` items.
pub open spec fn rises_within(picks: Seq<int>, n: int) -> bool {
    &&& forall|i: int| 0 <= i < picks.len() ==> 0 <= #[trigger] picks[i] < n
    &&& forall|i: int, j: int| 0 <= i < j < picks.len() ==> #[trigger] picks[i] < #[trigger] picks[j]
}

/// Positions still rise when the list grows, and when its last position is added to them.
proof fn lemma_grow(picks: Seq<int>, n: int)
    requires
        0 <= n,
        rises_within(picks, n),
    ensures
        rises_within(picks, n + 1),
        rises_within(picks.push(n), n + 1),
        picks.push(n).contains(n),
        forall|i: int| #[trigger] picks.contains(i) ==> picks.push(n).contains(i),
{
    let more = picks.push(n);
    assert(more[picks.len() as int] == n);
    assert forall|i: int| #[trigger] picks.contains(i) implies more.contains(i) by {
        let k = choose|k: int| 0 <= k < picks.len() && picks[k] == i;
        assert(more[k] == i);
    }
    assert forall|i: int| 0 <= i < more.len() implies 0 <= #[trigger] more[i] < n + 1 by {
        if i < picks.len() {
            assert(more[i] == picks[i]);
        }
    }
    assert forall|i: int, j: int| 0 <= i < j < more.len() implies #[trigger] more[i]
        < #[trigger] more[j] by {
        assert(more[i] == picks[i]);
        if j < picks.len() {
            assert(more[j] == picks[j]);
        }
    }
}

// ── Actions of a state ──────────────────────────────────────────────────────

/// Whether an action is one on entering a state in a region.
pub open spec fn belongs_to(
    action: ActionDefView,
    state: Seq<char>,
    region: Option<Seq<char>>,
) -> bool {
    &&& action.on_enter == state
    &&& action.region matches Some(scope) ==> region == Some(scope)
}

/// Whether a list of firing actions is made of the actions at the given positions.
pub open spec fn fires_at(
    actions: Seq<ActionDefView>,
    state: Seq<char>,
    region: Option<Seq<char>>,
    firing: Seq<FiredActionView>,
    picks: Seq<int>,
) -> bool {
    &&& rises_within(picks, actions.len() as int)
    &&& firing.len() == picks.len()
    &&& forall|k: int|
        0 <= k < picks.len() ==> {
            let action = actions[#[trigger] picks[k]];
            &&& belongs_to(action, state, region)
            &&& firing[k] == (action.on_enter, action.action, action.region)
        }
    &&& forall|i: int|
        0 <= i < actions.len() && belongs_to(#[trigger] actions[i], state, region)
            ==> picks.contains(i)
}

/// What fires on entering a state is each action on that state, without a region or for the region
/// that enters it, once, in the order of the definition.
pub proof fn law_actions_fire_once_in_order(
    actions: Seq<ActionDefView>,
    state: Seq<char>,
    region: Option<Seq<char>>,
)
    ensures
        exists|picks: Seq<int>| #[trigger]
            fires_at(
                actions,
                state,
                region,
                crate::actions::fired_actions(actions, state, region),
                picks,
            ),
    decreases actions.len(),
{
    let firing = crate::actions::fired_actions(actions, state, region);
    if actions.len() == 0 {
        assert(fires_at(actions, state, region, firing, Seq::empty()));
    } else {
        let rest = actions.drop_last();
        let last = rest.len() as int;
        law_actions_fire_once_in_order(rest, state, region);
        let fewer = crate::actions::fired_actions(rest, state, region);
        let earlier = choose|picks: Seq<int>| #[trigger]
            fires_at(rest, state, region, fewer, picks);
        lemma_grow(earlier, last);
        let picks = if belongs_to(actions[last], state, region) {
            earlier.push(last)
        } else {
            earlier
        };
        assert forall|k: int| 0 <= k < picks.len() implies {
            let action = actions[#[trigger] picks[k]];
            &&& belongs_to(action, state, region)
            &&& firing[k] == (action.on_enter, action.action, action.region)
        } by {
            if k < earlier.len() {
                assert(picks[k] == earlier[k]);
                assert(actions[earlier[k]] == rest[earlier[k]]);
                assert(firing[k] == fewer[k]);
            }
        }
        assert forall|i: int|
            0 <= i < actions.len() && belongs_to(#[trigger] actions[i], state, region) implies
            picks.contains(i) by {
            if i < rest.len() {
                assert(rest[i] == actions[i]);
                assert(earlier.contains(i));
            }
        }
        assert(fires_at(actions, state, region, firing, picks));
    }
}

// ── Joins of a round ────────────────────────────────────────────────────────

/// The state of a region, or the empty text where it has none.
pub open spec fn state_in(states: Map<Seq<char>, Seq<char>>, region: Seq<char>) -> Seq<char> {
    if states.contains_key(region) {
        states[region]
    } else {
        Seq::empty()
    }
}

/// Whether a join is due: each region that it waits for is in the required state, and the region
/// that it moves is not yet where it leads.
pub open spec fn is_due(join: JoinDefView, states: Map<Seq<char>, Seq<char>>) -> bool {
    &&& forall|region: Seq<char>| #[trigger]
        join.when.contains_key(region) ==> states.contains_key(region) && states[region]
            == join.when[region]
    &&& state_in(states, join.target_region) != join.target_state
}

/// Whether firings are those of the joins at the given positions.
pub open spec fn joins_fire_at(
    joins: Seq<JoinDefView>,
    states: Map<Seq<char>, Seq<char>>,
    sources: Seq<JoinDefView>,
    fired: Seq<JoinFiredView>,
    picks: Seq<int>,
) -> bool {
    &&& rises_within(picks, joins.len() as int)
    &&& fired.len() == picks.len()
    &&& sources.len() == picks.len()
    &&& forall|k: int|
        0 <= k < picks.len() ==> {
            let join = joins[#[trigger] picks[k]];
            &&& is_due(join, states)
            &&& sources[k] == join
            &&& fired[k].target_region == join.target_region
            &&& fired[k].target_state == join.target_state
            &&& fired[k].from_state == state_in(states, join.target_region)
        }
    &&& forall|i: int|
        0 <= i < joins.len() && is_due(#[trigger] joins[i], states) ==> picks.contains(i)
}

/// In a round each join that is due fires, once, in the order of the definition, and no other.
pub proof fn law_due_joins_fire_once_in_order(
    joins: Seq<JoinDefView>,
    states: Map<Seq<char>, Seq<char>>,
)
    ensures
        exists|picks: Seq<int>| #[trigger]
            joins_fire_at(
                joins,
                states,
                crate::engine::round_joins(joins, states),
                crate::engine::round_firings(joins, states),
                picks,
            ),
    decreases joins.len(),
{
    let sources = crate::engine::round_joins(joins, states);
    let fired = crate::engine::round_firings(joins, states);
    if joins.len() == 0 {
        assert(joins_fire_at(joins, states, sources, fired, Seq::empty()));
    } else {
        let rest = joins.drop_last();
        let last = rest.len() as int;
        law_due_joins_fire_once_in_order(rest, states);
        let fewer_sources = crate::engine::round_joins(rest, states);
        let fewer = crate::engine::round_firings(rest, states);
        let earlier = choose|picks: Seq<int>| #[trigger]
            joins_fire_at(rest, states, fewer_sources, fewer, picks);
        lemma_grow(earlier, last);
        let picks = if is_due(joins[last], states) {
            earlier.push(last)
        } else {
            earlier
        };
        assert forall|k: int| 0 <= k < picks.len() implies {
            let join = joins[#[trigger] picks[k]];
            &&& is_due(join, states)
            &&& sources[k] == join
            &&& fired[k].target_region == join.target_region
            &&& fired[k].target_state == join.target_state
            &&& fired[k].from_state == state_in(states, join.target_region)
        } by {
            if k < earlier.len() {
                assert(picks[k] == earlier[k]);
                assert(joins[earlier[k]] == rest[earlier[k]]);
                assert(fired[k] == fewer[k]);
                assert(sources[k] == fewer_sources[k]);
            }
        }
        assert forall|i: int| 0 <= i < joins.len() && is_due(#[trigger] joins[i], states) implies
            picks.contains(i) by {
            if i < rest.len() {
                assert(rest[i] == joins[i]);
                assert(earlier.contains(i));
            }
        }
        assert(joins_fire_at(joins, states, sources, fired, picks));
    }
}

// ── Timeouts of a machine ───────────────────────────────────────────────────

/// The seconds that a guard waits for: its field `timeout_seconds`, where that is an integer that
/// fits.
pub open spec fn waits_for(t: TransitionDefView, seconds: i64) -> bool {
    &&& t.on == "$timeout"@
    &&& t.guard matches Some(crate::json::ValueView::Object(fields))
    &&& fields.contains_key("timeout_seconds"@)
    &&& fields["timeout_seconds"@] matches crate::json::ValueView::Number(n)
    &&& match n {
        crate::json::NumberView::PosInt(m) => m == seconds,
        crate::json::NumberView::NegInt(m) => m == seconds,
        crate::json::NumberView::Float(_) => false,
    }
}

/// Whether timeouts are those of the transitions at the given positions.
pub open spec fn waits_at(
    transitions: Seq<TransitionDefView>,
    found: Seq<TimeoutView>,
    picks: Seq<int>,
) -> bool {
    &&& rises_within(picks, transitions.len() as int)
    &&& found.len() == picks.len()
    &&& forall|k: int|
        0 <= k < picks.len() ==> {
            let t = transitions[#[trigger] picks[k]];
            found[k].transition == t && waits_for(t, found[k].seconds)
        }
    &&& forall|i: int, seconds: i64|
        0 <= i < transitions.len() && #[trigger] waits_for(transitions[i], seconds)
            ==> picks.contains(i)
}

/// The timeouts of a machine are its transitions on the timeout event that wait for a number of
/// seconds, each once, in the order of the definition.
pub proof fn law_timeouts_are_listed_once_in_order(transitions: Seq<TransitionDefView>)
    ensures
        exists|picks: Seq<int>| #[trigger]
            waits_at(transitions, crate::scheduler::timeouts(transitions), picks),
    decreases transitions.len(),
{
    let found = crate::scheduler::timeouts(transitions);
    if transitions.len() == 0 {
        assert(waits_at(transitions, found, Seq::empty()));
    } else {
        let rest = transitions.drop_last();
        let last = rest.len() as int;
        let t = transitions[last];
        law_timeouts_are_listed_once_in_order(rest);
        let fewer = crate::scheduler::timeouts(rest);
        let earlier = choose|picks: Seq<int>| #[trigger] waits_at(rest, fewer, picks);
        lemma_grow(earlier, last);
        let waits = t.on == "$timeout"@ && crate::scheduler::timeout_seconds(t.guard) is Some;
        let picks = if waits {
            earlier.push(last)
        } else {
            earlier
        };
        assert forall|k: int| 0 <= k < picks.len() implies {
            let t = transitions[#[trigger] picks[k]];
            found[k].transition == t && waits_for(t, found[k].seconds)
        } by {
            if k < earlier.len() {
                assert(picks[k] == earlier[k]);
                assert(transitions[earlier[k]] == rest[earlier[k]]);
                assert(found[k] == fewer[k]);
            }
        }
        assert forall|i: int, seconds: i64|
            0 <= i < transitions.len() && #[trigger] waits_for(transitions[i], seconds) implies
            picks.contains(i) by {
            if i < rest.len() {
                assert(rest[i] == transitions[i]);
                assert(waits_for(rest[i], seconds));
            }
        }
        assert(waits_at(transitions, found, picks));
    }
}

// ── Compound states of an entity ────────────────────────────────────────────

/// Whether a region is in a compound state.
pub open spec fn is_in_compound(region: RegionDefView, states: Map<Seq<char>, Seq<char>>) -> bool {
    states.contains_key(region.id) && region.sub_machines.contains_key(states[region.id])
}

/// Whether compound states are those of the regions at the given positions.
pub open spec fn compounds_at(
    regions: Seq<RegionDefView>,
    states: Map<Seq<char>, Seq<char>>,
    compounds: Seq<CompoundView>,
    picks: Seq<int>,
) -> bool {
    &&& rises_within(picks, regions.len() as int)
    &&& compounds.len() == picks.len()
    &&& forall|k: int|
        0 <= k < picks.len() ==> {
            let region = regions[#[trigger] picks[k]];
            &&& is_in_compound(region, states)
            &&& compounds[k].region == region.id
            &&& compounds[k].state == states[region.id]
            &&& compounds[k].sub_machine == region.sub_machines[states[region.id]]
        }
    &&& forall|i: int|
        0 <= i < regions.len() && is_in_compound(#[trigger] regions[i], states)
            ==> picks.contains(i)
}

/// The compound states of a parallel machine, region by region.
proof fn lemma_regional_compounds(
    regions: Seq<RegionDefView>,
    states: Map<Seq<char>, Seq<char>>,
)
    ensures
        exists|picks: Seq<int>| #[trigger]
            compounds_at(
                regions,
                states,
                crate::transition_core::regional_compounds(regions, states),
                picks,
            ),
    decreases regions.len(),
{
    let compounds = crate::transition_core::regional_compounds(regions, states);
    if regions.len() == 0 {
        assert(compounds_at(regions, states, compounds, Seq::empty()));
    } else {
        let rest = regions.drop_last();
        let last = rest.len() as int;
        lemma_regional_compounds(rest, states);
        let fewer = crate::transition_core::regional_compounds(rest, states);
        let earlier = choose|picks: Seq<int>| #[trigger] compounds_at(rest, states, fewer, picks);
        lemma_grow(earlier, last);
        let picks = if is_in_compound(regions[last], states) {
            earlier.push(last)
        } else {
            earlier
        };
        assert forall|k: int| 0 <= k < picks.len() implies {
            let region = regions[#[trigger] picks[k]];
            &&& is_in_compound(region, states)
            &&& compounds[k].region == region.id
            &&& compounds[k].state == states[region.id]
            &&& compounds[k].sub_machine == region.sub_machines[states[region.id]]
        } by {
            if k < earlier.len() {
                assert(picks[k] == earlier[k]);
                assert(regions[earlier[k]] == rest[earlier[k]]);
                assert(compounds[k] == fewer[k]);
            }
        }
        assert forall|i: int|
            0 <= i < regions.len() && is_in_compound(#[trigger] regions[i], states) implies
            picks.contains(i) by {
            if i < rest.len() {
                assert(rest[i] == regions[i]);
                assert(earlier.contains(i));
            }
        }
        assert(compounds_at(regions, states, compounds, picks));
    }
}

/// The compound states in which an entity is: of a parallel machine one for each region that is in
/// one, in the order of the definition; of a flat machine its only state, if that is compound.
pub proof fn law_every_active_child_is_asked(
    machine: crate::models::MachineDefinitionView,
    states: Map<Seq<char>, Seq<char>>,
)
    ensures
        ({
            let compounds = crate::transition_core::active_compounds(machine, states);
            if machine.regions.len() > 0 {
                exists|picks: Seq<int>| #[trigger]
                    compounds_at(machine.regions, states, compounds, picks)
            } else if machine.sub_machines.contains_key(state_in(states, "_"@)) {
                &&& compounds.len() == 1
                &&& compounds[0].state == state_in(states, "_"@)
                &&& compounds[0].region == "_"@
                &&& compounds[0].sub_machine == machine.sub_machines[state_in(states, "_"@)]
            } else {
                compounds.len() == 0
            }
        }),
{
    let compounds = crate::transition_core::active_compounds(machine, states);
    if machine.regions.len() > 0 {
        lemma_regional_compounds(machine.regions, states);
        let picks = choose|picks: Seq<int>| #[trigger]
            compounds_at(
                machine.regions,
                states,
                crate::transition_core::regional_compounds(machine.regions, states),
                picks,
            );
        assert(compounds_at(machine.regions, states, compounds, picks));
    } else {
        assert(state_in(states, "_"@) == crate::engine::state_or_empty(
            states,
            crate::models::DEFAULT_REGION@,
        ));
    }
}

} // verus!
