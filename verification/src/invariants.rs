//! What every move keeps: an entity of a consistent machine is in states that its machine
//! declares.

use vstd::prelude::*;

use crate::json::ValueView;
use crate::models::{
    EntityView, JoinDefView, JoinFiredView, MachineDefinitionView, RegionDefView,
    TransitionDefView, DEFAULT_REGION,
};

verus! {

/// Whether a join leads a region to a state.
pub open spec fn is_join_target(
    joins: Seq<JoinDefView>,
    region: Seq<char>,
    state: Seq<char>,
) -> bool {
    exists|k: int|
        0 <= k < joins.len() && (#[trigger] joins[k]).target_region == region
            && joins[k].target_state == state
}

/// Whether a machine declares a state for a region: the region lists it, or a join leads to it.
pub open spec fn is_declared(
    machine: MachineDefinitionView,
    region: Seq<char>,
    state: Seq<char>,
) -> bool {
    if crate::machine::is_parallel(machine) {
        crate::machine::region_with_id(machine.regions, region) matches Some(r) && (
        r.states.contains(state) || is_join_target(machine.joins, region, state))
    } else {
        region == DEFAULT_REGION@ && machine.states.contains(state)
    }
}

/// Whether a region is one of the machine's.
pub open spec fn has_region(machine: MachineDefinitionView, region: Seq<char>) -> bool {
    if crate::machine::is_parallel(machine) {
        crate::machine::region_with_id(machine.regions, region) is Some
    } else {
        region == DEFAULT_REGION@
    }
}

/// Whether each region of a machine, and no other, is in a state that the machine declares for it.
pub open spec fn fits(machine: MachineDefinitionView, states: Map<Seq<char>, Seq<char>>) -> bool {
    forall|region: Seq<char>|
        {
            &&& #[trigger] states.contains_key(region) <==> has_region(machine, region)
            &&& states.contains_key(region) ==> is_declared(machine, region, states[region])
        }
}

/// Whether the joins of a machine lead to declared states. Those of a consistent parallel machine
/// do; those of a flat machine are not checked when it is created.
pub open spec fn joins_fit(machine: MachineDefinitionView) -> bool {
    forall|k: int, states: Map<Seq<char>, Seq<char>>|
        0 <= k < machine.joins.len() && fits(machine, states) && #[trigger]
            crate::engine::join_fires(machine.joins[k], states) ==> is_declared(
            machine,
            machine.joins[k].target_region,
            machine.joins[k].target_state,
        )
}

/// The region with an ID is among the regions, and has that ID.
proof fn lemma_region_with_id(regions: Seq<RegionDefView>, id: Seq<char>)
    ensures
        crate::machine::region_with_id(regions, id) matches Some(r) ==> r.id == id
            && regions.contains(r),
    decreases regions.len(),
{
    if regions.len() > 0 {
        let rest = regions.drop_last();
        if regions.last().id == id {
            assert(regions[regions.len() - 1] == regions.last());
        } else {
            lemma_region_with_id(rest, id);
            if let Some(r) = crate::machine::region_with_id(rest, id) {
                let i = choose|i: int| 0 <= i < rest.len() && rest[i] == r;
                assert(regions[i] == r);
            }
        }
    }
}

/// The initial states have a state for each region, namely the initial state of the region.
proof fn lemma_initial_states(regions: Seq<RegionDefView>)
    ensures
        forall|id: Seq<char>|
            {
                &&& #[trigger] crate::machine::initial_states(regions).contains_key(id)
                    <==> crate::machine::region_with_id(regions, id) is Some
                &&& crate::machine::region_with_id(regions, id) matches Some(r)
                    ==> crate::machine::initial_states(regions)[id] == r.initial_state
            },
    decreases regions.len(),
{
    if regions.len() > 0 {
        let rest = regions.drop_last();
        lemma_initial_states(rest);
        assert forall|id: Seq<char>|
            (#[trigger] crate::machine::initial_states(regions).contains_key(id)
                <==> crate::machine::region_with_id(regions, id) is Some) && (
            crate::machine::region_with_id(regions, id) matches Some(r)
                ==> crate::machine::initial_states(regions)[id] == r.initial_state) by {
            assert(crate::machine::initial_states(rest).contains_key(id)
                <==> crate::machine::region_with_id(rest, id) is Some);
        }
    }
}

/// A new entity of a consistent machine is in states that the machine declares.
pub proof fn law_initial_states_fit(machine: MachineDefinitionView)
    requires
        crate::machine::is_valid(machine),
    ensures
        fits(machine, crate::machine::initial_map(machine)),
{
    if crate::machine::is_parallel(machine) {
        lemma_initial_states(machine.regions);
        let states = crate::machine::initial_map(machine);
        assert forall|id: Seq<char>|
            (#[trigger] states.contains_key(id) <==> has_region(machine, id))
                && (states.contains_key(id) ==> is_declared(machine, id, states[id])) by {
            lemma_region_with_id(machine.regions, id);
            if let Some(r) = crate::machine::region_with_id(machine.regions, id) {
                let i = choose|i: int| 0 <= i < machine.regions.len() && machine.regions[i] == r;
                assert(machine.regions[i].states.contains(machine.regions[i].initial_state));
            }
        }
    }
}

/// The joins of a consistent parallel machine lead to declared states.
pub proof fn law_joins_of_valid_machines_fit(machine: MachineDefinitionView)
    requires
        crate::machine::is_valid(machine),
        crate::machine::is_parallel(machine),
    ensures
        joins_fit(machine),
{
    assert forall|k: int, states: Map<Seq<char>, Seq<char>>|
        0 <= k < machine.joins.len() && fits(machine, states) && #[trigger]
            crate::engine::join_fires(machine.joins[k], states) implies is_declared(
        machine,
        machine.joins[k].target_region,
        machine.joins[k].target_state,
    ) by {
        assert(crate::machine::join_fits(machine.regions, machine.joins[k]));
    }
}

/// Moving a region to a state that the machine declares for it keeps all states declared.
proof fn lemma_insert_fits(
    machine: MachineDefinitionView,
    states: Map<Seq<char>, Seq<char>>,
    region: Seq<char>,
    to_state: Seq<char>,
)
    requires
        fits(machine, states),
        is_declared(machine, region, to_state),
    ensures
        fits(machine, states.insert(region, to_state)),
{
    let after = states.insert(region, to_state);
    assert forall|r: Seq<char>|
        (#[trigger] after.contains_key(r) <==> has_region(machine, r)) && (after.contains_key(r)
            ==> is_declared(machine, r, after[r])) by {
        if r != region {
            assert(states.contains_key(r) == after.contains_key(r));
        }
    }
}

/// Firings that lead to declared states keep all states declared.
proof fn lemma_firings_fit(
    machine: MachineDefinitionView,
    states: Map<Seq<char>, Seq<char>>,
    fired: Seq<JoinFiredView>,
)
    requires
        fits(machine, states),
        forall|i: int|
            0 <= i < fired.len() ==> is_declared(
                machine,
                (#[trigger] fired[i]).target_region,
                fired[i].target_state,
            ),
    ensures
        fits(machine, crate::engine::after_firings(states, fired)),
    decreases fired.len(),
{
    if fired.len() > 0 {
        let rest = fired.drop_last();
        assert forall|i: int| 0 <= i < rest.len() implies is_declared(
            machine,
            (#[trigger] rest[i]).target_region,
            rest[i].target_state,
        ) by {
            assert(rest[i] == fired[i]);
        }
        lemma_firings_fit(machine, states, rest);
        assert(is_declared(
            machine,
            fired[fired.len() - 1].target_region,
            fired[fired.len() - 1].target_state,
        ));
        lemma_insert_fits(
            machine,
            crate::engine::after_firings(states, rest),
            fired.last().target_region,
            fired.last().target_state,
        );
    }
}

/// The firings of a round lead where the joins that fire lead.
proof fn lemma_round_is_declared(
    machine: MachineDefinitionView,
    joins: Seq<JoinDefView>,
    states: Map<Seq<char>, Seq<char>>,
)
    requires
        forall|k: int|
            0 <= k < joins.len() && crate::engine::join_fires(#[trigger] joins[k], states)
                ==> is_declared(machine, joins[k].target_region, joins[k].target_state),
    ensures
        forall|i: int|
            0 <= i < crate::engine::round_firings(joins, states).len() ==> is_declared(
                machine,
                (#[trigger] crate::engine::round_firings(joins, states)[i]).target_region,
                crate::engine::round_firings(joins, states)[i].target_state,
            ),
    decreases joins.len(),
{
    if joins.len() > 0 {
        let rest = joins.drop_last();
        let fired = crate::engine::round_firings(joins, states);
        let fewer = crate::engine::round_firings(rest, states);
        assert forall|k: int|
            0 <= k < rest.len() && crate::engine::join_fires(
                #[trigger] rest[k],
                states,
            ) implies is_declared(machine, rest[k].target_region, rest[k].target_state) by {
            assert(joins[k] == rest[k]);
        }
        lemma_round_is_declared(machine, rest, states);
        assert forall|i: int| 0 <= i < fired.len() implies is_declared(
            machine,
            (#[trigger] fired[i]).target_region,
            fired[i].target_state,
        ) by {
            if i < fewer.len() {
                assert(fired[i] == fewer[i]);
            } else {
                assert(joins[joins.len() - 1] == joins.last());
            }
        }
    }
}

/// Joins that lead to declared states keep all states declared.
pub proof fn law_joins_keep_states_declared(
    machine: MachineDefinitionView,
    states: Map<Seq<char>, Seq<char>>,
    rounds: nat,
)
    requires
        joins_fit(machine),
        fits(machine, states),
    ensures
        fits(machine, crate::engine::cascade(machine.joins, states, rounds).0),
    decreases rounds,
{
    let fired = crate::engine::round_firings(machine.joins, states);
    if rounds > 0 && fired.len() > 0 {
        assert forall|k: int|
            0 <= k < machine.joins.len() && crate::engine::join_fires(
                #[trigger] machine.joins[k],
                states,
            ) implies is_declared(
            machine,
            machine.joins[k].target_region,
            machine.joins[k].target_state,
        ) by {}
        lemma_round_is_declared(machine, machine.joins, states);
        lemma_firings_fit(machine, states, fired);
        law_joins_keep_states_declared(
            machine,
            crate::engine::after_firings(states, fired),
            (rounds - 1) as nat,
        );
    }
}

/// A region that moves to a declared state, with the joins that follow, leaves the entity in
/// declared states.
pub proof fn law_moves_keep_states_declared(
    machine: MachineDefinitionView,
    entity: EntityView,
    region: Seq<char>,
    to_state: Seq<char>,
)
    requires
        joins_fit(machine),
        fits(machine, crate::entity::stored_state(entity.current_state)),
        is_declared(machine, region, to_state),
    ensures
        fits(machine, crate::plan::moved(machine, entity, region, to_state).0),
{
    let states = crate::entity::stored_state(entity.current_state);
    lemma_insert_fits(machine, states, region, to_state);
    law_joins_keep_states_declared(
        machine,
        states.insert(region, to_state),
        crate::plan::MAX_JOIN_DEPTH as nat,
    );
}

/// The transition of a consistent machine that an event sets off, with the joins that follow,
/// leaves the entity in declared states.
pub proof fn law_transitions_keep_states_declared(
    machine: MachineDefinitionView,
    entity: EntityView,
    event_type: Seq<char>,
    params: Map<Seq<char>, Seq<char>>,
)
    requires
        crate::machine::is_valid(machine),
        joins_fit(machine),
        fits(machine, crate::entity::stored_state(entity.current_state)),
    ensures
        crate::engine::evaluation(
            machine.transitions,
            crate::entity::stored_state(entity.current_state),
            event_type,
            params,
            entity.context,
        ) matches Some(result) ==> fits(
            machine,
            crate::plan::moved(machine, entity, result.region, result.to_state).0,
        ),
{
    let states = crate::entity::stored_state(entity.current_state);
    crate::engine::law_first_match_wins(
        machine.transitions,
        states,
        event_type,
        params,
        entity.context,
    );
    if let Some(result) = crate::engine::evaluation(
        machine.transitions,
        states,
        event_type,
        params,
        entity.context,
    ) {
        let k = choose|k: int| #[trigger]
            crate::engine::is_first_enabled(
                machine.transitions,
                k,
                states,
                event_type,
                params,
                entity.context,
            ) && result == crate::engine::transition_result(machine.transitions[k]);
        let t = machine.transitions[k];
        assert(states.contains_key(result.region));
        assert(is_declared(machine, result.region, result.to_state));
        law_moves_keep_states_declared(machine, entity, result.region, result.to_state);
    }
}

/// When the child of a compound state of a consistent flat machine is done, the parent advances to
/// a declared state.
pub proof fn law_completions_keep_states_declared(
    machine: MachineDefinitionView,
    entity: EntityView,
    state: Seq<char>,
    final_state: Seq<char>,
)
    requires
        crate::machine::is_valid(machine),
        !crate::machine::is_parallel(machine),
        joins_fit(machine),
        fits(machine, crate::entity::stored_state(entity.current_state)),
        machine.sub_machines.contains_key(state),
        machine.sub_machines[state].on_final.contains_key(final_state),
    ensures
        fits(
            machine,
            crate::plan::moved(
                machine,
                entity,
                DEFAULT_REGION@,
                machine.sub_machines[state].on_final[final_state],
            ).0,
        ),
{
    assert(crate::machine::sub_machine_fits(machine, state, machine.sub_machines[state]));
    law_moves_keep_states_declared(
        machine,
        entity,
        DEFAULT_REGION@,
        machine.sub_machines[state].on_final[final_state],
    );
}

/// A transition of a consistent machine that fires on its own, with the joins that follow, leaves
/// the entity of a parallel machine in declared states.
pub proof fn law_timeouts_keep_states_declared(
    machine: MachineDefinitionView,
    t: TransitionDefView,
    states: Map<Seq<char>, Seq<char>>,
    rounds: nat,
)
    requires
        crate::machine::is_valid(machine),
        crate::machine::is_parallel(machine),
        machine.transitions.contains(t),
        fits(machine, states),
    ensures
        fits(
            machine,
            crate::engine::cascade(
                machine.joins,
                states.insert(crate::engine::transition_region(t), t.to),
                rounds,
            ).0,
        ),
{
    let i = choose|i: int| 0 <= i < machine.transitions.len() && machine.transitions[i] == t;
    assert(machine.transitions[i].region is Some);
    law_joins_of_valid_machines_fit(machine);
    lemma_insert_fits(machine, states, crate::engine::transition_region(t), t.to);
    law_joins_keep_states_declared(
        machine,
        states.insert(crate::engine::transition_region(t), t.to),
        rounds,
    );
}

/// A transition of a consistent flat machine that fires on its own leads to a declared state.
pub proof fn law_flat_timeouts_lead_to_declared_states(
    machine: MachineDefinitionView,
    t: TransitionDefView,
    stored: Seq<char>,
    read: Option<Map<Seq<char>, Seq<char>>>,
)
    requires
        crate::machine::is_valid(machine),
        !crate::machine::is_parallel(machine),
        machine.transitions.contains(t),
    ensures
        is_declared(
            machine,
            DEFAULT_REGION@,
            crate::scheduler::timed_out(machine, t, stored, read).stored,
        ),
{
    let i = choose|i: int| 0 <= i < machine.transitions.len() && machine.transitions[i] == t;
    assert(machine.states.contains(machine.transitions[i].to));
}

/// A consistent machine does not start in a compound state, so that a new entity of a flat machine
/// has no child.
pub proof fn law_entities_start_without_children(machine: MachineDefinitionView)
    requires
        crate::machine::is_valid(machine),
        !crate::machine::is_parallel(machine),
    ensures
        crate::transition_core::active_compounds(
            machine,
            crate::machine::initial_map(machine),
        ).len() == 0,
{
    if machine.sub_machines.contains_key(machine.initial_state) {
        assert(crate::machine::sub_machine_fits(
            machine,
            machine.initial_state,
            machine.sub_machines[machine.initial_state],
        ));
    }
}

/// A change of an entity names the version at which the entity was read.
pub proof fn law_changes_name_the_version_read(
    event: crate::plan::EventView,
    machine: MachineDefinitionView,
    entity: EntityView,
    cause: crate::plan::Cause,
    url: Seq<char>,
    t: TransitionDefView,
    row: crate::scheduler::TimedOutEntityView,
    read: Option<Map<Seq<char>, Seq<char>>>,
    now: i64,
)
    ensures
        crate::plan::plan(event, machine, entity, cause).update.state_version
            == entity.state_version,
        crate::scheduler::timeout_move(url, machine, t, row, read, now).state_version
            == row.state_version,
{
}

/// The parameters of an event become part of the context of the entity, as strings; the rest of
/// the context stays.
pub proof fn law_context_gains_the_parameters(
    context: Map<Seq<char>, ValueView>,
    params: Map<Seq<char>, Seq<char>>,
    key: Seq<char>,
)
    ensures
        ({
            let merged = crate::plan::merged_context(context, params);
            if params.contains_key(key) {
                merged.contains_key(key) && merged[key] == ValueView::String(params[key])
            } else {
                merged.contains_key(key) == context.contains_key(key) && (context.contains_key(key)
                    ==> merged[key] == context[key])
            }
        }),
{
}

/// The children that an entity has in different states are different entities.
pub proof fn law_children_are_told_apart(entity_id: Seq<char>, a: Seq<char>, b: Seq<char>)
    ensures
        crate::plan::child_id(entity_id, a) == crate::plan::child_id(entity_id, b) <==> a == b,
{
    let head = entity_id + "::sub::"@;
    let left = crate::plan::child_id(entity_id, a);
    let right = crate::plan::child_id(entity_id, b);
    assert(a =~= left.subrange(head.len() as int, left.len() as int));
    assert(b =~= right.subrange(head.len() as int, right.len() as int));
}

/// Regions advance independently of each other: a move leaves every region as it is but the one
/// that moves and those that joins are listed to have moved.
pub proof fn law_regions_are_independent(
    machine: MachineDefinitionView,
    entity: EntityView,
    region: Seq<char>,
    to_state: Seq<char>,
    other: Seq<char>,
)
    requires
        other != region,
        crate::engine::spares(crate::plan::moved(machine, entity, region, to_state).1, other),
    ensures
        ({
            let before = crate::entity::stored_state(entity.current_state);
            let after = crate::plan::moved(machine, entity, region, to_state).0;
            &&& after.contains_key(other) == before.contains_key(other)
            &&& before.contains_key(other) ==> after[other] == before[other]
        }),
{
    crate::engine::law_joins_move_their_targets_only(
        machine.joins,
        crate::entity::stored_state(entity.current_state).insert(region, to_state),
        crate::plan::MAX_JOIN_DEPTH as nat,
        other,
    );
}

/// A move puts its region in the target state, unless a join that follows moves it on.
pub proof fn law_moves_reach_their_target(
    machine: MachineDefinitionView,
    entity: EntityView,
    region: Seq<char>,
    to_state: Seq<char>,
)
    requires
        crate::engine::spares(crate::plan::moved(machine, entity, region, to_state).1, region),
    ensures
        crate::plan::moved(machine, entity, region, to_state).0.contains_key(region),
        crate::plan::moved(machine, entity, region, to_state).0[region] == to_state,
{
    crate::engine::law_joins_move_their_targets_only(
        machine.joins,
        crate::entity::stored_state(entity.current_state).insert(region, to_state),
        crate::plan::MAX_JOIN_DEPTH as nat,
        region,
    );
}

/// Whether an event sets a transition off depends on the state of its own region only.
pub proof fn law_transitions_look_at_their_region_only(
    t: TransitionDefView,
    states: Map<Seq<char>, Seq<char>>,
    others: Map<Seq<char>, Seq<char>>,
    event_type: Seq<char>,
    params: Map<Seq<char>, Seq<char>>,
    context: Map<Seq<char>, ValueView>,
)
    requires
        crate::machine::lookup(states, crate::engine::transition_region(t))
            == crate::machine::lookup(others, crate::engine::transition_region(t)),
    ensures
        crate::engine::is_enabled(t, states, event_type, params, context)
            == crate::engine::is_enabled(t, others, event_type, params, context),
{
}

} // verus!
