//! Which machine definitions are accepted, and what follows from one.

use vstd::prelude::*;

use crate::models::{
    ActionDefView, CreateMachineRequestView, JoinDefView, MachineDefinitionView, RegionDefView,
    SubMachineDefView, TransitionDefView, UpdateMachineRequestView,
};

verus! {

/// Whether a position is that of the region with an ID. Of two regions with the same ID the later
/// one counts.
pub open spec fn is_the_region(regions: Seq<RegionDefView>, id: Seq<char>, i: int) -> bool {
    &&& 0 <= i < regions.len()
    &&& regions[i].id == id
    &&& forall|j: int| i < j < regions.len() ==> (#[trigger] regions[j]).id != id
}

/// Whether the region with an ID lists a state.
pub open spec fn lists_state(
    regions: Seq<RegionDefView>,
    id: Seq<char>,
    state: Seq<char>,
) -> bool {
    exists|i: int| #[trigger] is_the_region(regions, id, i) && regions[i].states.contains(state)
}

/// Whether there is a region with an ID.
pub open spec fn has_id(regions: Seq<RegionDefView>, id: Seq<char>) -> bool {
    exists|i: int| 0 <= i < regions.len() && (#[trigger] regions[i]).id == id
}

/// Whether a transition of a parallel machine names a region and two states that it lists.
pub open spec fn is_sound_transition(regions: Seq<RegionDefView>, t: TransitionDefView) -> bool {
    &&& t.region matches Some(id)
    &&& lists_state(regions, id, t.from)
    &&& lists_state(regions, id, t.to)
}

/// Whether a join waits for states that regions list, and moves a region that there is.
pub open spec fn is_sound_join(regions: Seq<RegionDefView>, join: JoinDefView) -> bool {
    &&& forall|id: Seq<char>| #[trigger]
        join.when.contains_key(id) ==> lists_state(regions, id, join.when[id])
    &&& has_id(regions, join.target_region)
}

/// The region with an ID is the last one with that ID.
proof fn lemma_the_region(regions: Seq<RegionDefView>, id: Seq<char>)
    ensures
        match crate::machine::region_with_id(regions, id) {
            Some(region) => exists|i: int| #[trigger]
                is_the_region(regions, id, i) && regions[i] == region,
            None => !has_id(regions, id),
        },
    decreases regions.len(),
{
    if regions.len() > 0 {
        let rest = regions.drop_last();
        let last = regions.len() - 1;
        if regions[last].id == id {
            assert(is_the_region(regions, id, last));
        } else {
            lemma_the_region(rest, id);
            match crate::machine::region_with_id(rest, id) {
                Some(region) => {
                    let i = choose|i: int| #[trigger]
                        is_the_region(rest, id, i) && rest[i] == region;
                    assert forall|j: int| i < j < regions.len() implies (#[trigger] regions[j]).id
                        != id by {
                        if j < last {
                            assert(regions[j] == rest[j]);
                        }
                    }
                    assert(is_the_region(regions, id, i));
                },
                None => {
                    if has_id(regions, id) {
                        let i = choose|i: int|
                            0 <= i < regions.len() && (#[trigger] regions[i]).id == id;
                        assert(rest[i].id == id);
                    }
                },
            }
        }
    }
}

/// What the region with an ID lists.
proof fn lemma_region_with_id(regions: Seq<RegionDefView>, id: Seq<char>, state: Seq<char>)
    ensures
        crate::machine::region_with_id(regions, id) is Some <==> has_id(regions, id),
        (crate::machine::region_with_id(regions, id) matches Some(region)
            && region.states.contains(state)) <==> lists_state(regions, id, state),
{
    lemma_the_region(regions, id);
    if let Some(region) = crate::machine::region_with_id(regions, id) {
        let i = choose|i: int| #[trigger] is_the_region(regions, id, i) && regions[i] == region;
        assert(regions[i].id == id);
        if lists_state(regions, id, state) {
            let k = choose|k: int| #[trigger]
                is_the_region(regions, id, k) && regions[k].states.contains(state);
            assert(i == k) by {
                if i < k {
                    assert(regions[k].id != id);
                } else if k < i {
                    assert(regions[i].id != id);
                }
            }
        }
    }
}

/// A parallel machine is accepted exactly if it has an ID, each region has an ID and starts in one
/// of its states, each transition names a region and two of its states, and each join waits for
/// listed states and moves a region of the machine.
pub proof fn law_parallel_machines_are_accepted(machine: MachineDefinitionView)
    requires
        machine.regions.len() > 0,
    ensures
        crate::machine::is_valid(machine) <==> {
            &&& machine.machine_id.len() > 0
            &&& forall|i: int|
                0 <= i < machine.regions.len() ==> (#[trigger] machine.regions[i]).id.len() > 0
                    && machine.regions[i].states.contains(machine.regions[i].initial_state)
            &&& forall|i: int|
                0 <= i < machine.transitions.len() ==> is_sound_transition(
                    machine.regions,
                    #[trigger] machine.transitions[i],
                )
            &&& forall|i: int|
                0 <= i < machine.joins.len() ==> is_sound_join(
                    machine.regions,
                    #[trigger] machine.joins[i],
                )
        },
{
    let regions = machine.regions;
    assert forall|id: Seq<char>, state: Seq<char>|
        (crate::machine::region_with_id(regions, id) is Some <==> has_id(regions, id)) && ((
        crate::machine::region_with_id(regions, id) matches Some(region)
            && region.states.contains(state)) <==> #[trigger] lists_state(regions, id, state)) by {
        lemma_region_with_id(regions, id, state);
    }
    assert forall|i: int| 0 <= i < machine.transitions.len() implies (is_sound_transition(
        regions,
        #[trigger] machine.transitions[i],
    ) <==> {
        &&& machine.transitions[i].region matches Some(id)
        &&& crate::machine::region_with_id(regions, id) matches Some(region)
        &&& region.states.contains(machine.transitions[i].from)
        &&& region.states.contains(machine.transitions[i].to)
    }) by {
        let t = machine.transitions[i];
        if let Some(id) = t.region {
            lemma_region_with_id(regions, id, t.from);
            lemma_region_with_id(regions, id, t.to);
        }
    }
    assert forall|i: int| 0 <= i < machine.joins.len() implies (is_sound_join(
        regions,
        #[trigger] machine.joins[i],
    ) <==> crate::machine::join_fits(regions, machine.joins[i])) by {
        let join = machine.joins[i];
        lemma_region_with_id(regions, join.target_region, join.target_state);
        assert forall|id: Seq<char>| #[trigger] join.when.contains_key(id) implies (lists_state(
            regions,
            id,
            join.when[id],
        ) <==> crate::machine::condition_fault(regions, id, join.when[id]) is None) by {
            lemma_region_with_id(regions, id, join.when[id]);
        }
    }
}

/// A flat machine is accepted exactly if it has an ID, starts in one of its states, and names only
/// its own states in its transitions, its actions, its compound states and the states to which
/// those lead, none of which is the one that it starts in.
pub proof fn law_flat_machines_are_accepted(machine: MachineDefinitionView)
    requires
        machine.regions.len() == 0,
    ensures
        crate::machine::is_valid(machine) <==> {
            &&& machine.machine_id.len() > 0
            &&& machine.states.contains(machine.initial_state)
            &&& forall|i: int|
                0 <= i < machine.transitions.len() ==> machine.states.contains(
                    (#[trigger] machine.transitions[i]).from,
                ) && machine.states.contains(machine.transitions[i].to)
            &&& forall|i: int|
                0 <= i < machine.actions.len() ==> machine.states.contains(
                    (#[trigger] machine.actions[i]).on_enter,
                )
            &&& forall|state: Seq<char>| #[trigger]
                machine.sub_machines.contains_key(state) ==> machine.states.contains(state) && state
                    != machine.initial_state && (forall|last: Seq<char>| #[trigger]
                    machine.sub_machines[state].on_final.contains_key(last)
                        ==> machine.states.contains(machine.sub_machines[state].on_final[last]))
        },
{
}

/// Whether a parallel machine is accepted does not depend on its actions, nor on what only flat
/// machines use.
pub proof fn law_parallel_machines_may_have_any_actions(
    machine: MachineDefinitionView,
    actions: Seq<ActionDefView>,
    states: Seq<Seq<char>>,
    initial_state: Seq<char>,
    sub_machines: Map<Seq<char>, SubMachineDefView>,
)
    requires
        machine.regions.len() > 0,
    ensures
        crate::machine::is_valid(machine) == crate::machine::is_valid(
            (MachineDefinitionView { actions, states, initial_state, sub_machines, ..machine }),
        ),
{
    let other = MachineDefinitionView {
        actions,
        states,
        initial_state,
        sub_machines,
        ..machine
    };
    law_parallel_machines_are_accepted(machine);
    law_parallel_machines_are_accepted(other);
    assert(other.regions == machine.regions);
    assert(other.transitions == machine.transitions);
    assert(other.joins == machine.joins);
    assert(other.machine_id == machine.machine_id);
}

/// Whether a flat machine is accepted does not depend on joins, which only parallel machines use,
/// nor on its tenant.
pub proof fn law_flat_machines_may_have_any_joins(
    machine: MachineDefinitionView,
    joins: Seq<JoinDefView>,
    tenant_id: Seq<char>,
)
    requires
        machine.regions.len() == 0,
    ensures
        crate::machine::is_valid(machine) == crate::machine::is_valid(
            (MachineDefinitionView { joins, tenant_id, ..machine }),
        ),
{
    let other = MachineDefinitionView { joins, tenant_id, ..machine };
    law_flat_machines_are_accepted(machine);
    law_flat_machines_are_accepted(other);
    assert(other.states == machine.states);
    assert(other.transitions == machine.transitions);
    assert(other.actions == machine.actions);
    assert(other.sub_machines == machine.sub_machines);
}

/// A machine that is refused for want of an ID, a state or a region is told so first.
pub proof fn law_faults_are_told_in_order(machine: MachineDefinitionView, message: Seq<char>)
    requires
        crate::machine::tells_fault(machine, message),
    ensures
        machine.machine_id.len() == 0 ==> message == "machine_id is required"@,
        machine.machine_id.len() > 0 && machine.regions.len() == 0 && machine.states.len() == 0
            ==> message == "at least one state is required"@,
        machine.machine_id.len() > 0 && machine.regions.len() == 0 && machine.states.len() > 0
            && !machine.states.contains(machine.initial_state) ==> message == "initial_state '"@
            + machine.initial_state + "' is not in states list"@,
        machine.machine_id.len() > 0 && machine.regions.len() > 0 && machine.regions[0].id.len()
            == 0 ==> message == "region id is required"@,
{
    if machine.regions.len() > 0 {
        let findings = machine.regions.map_values(
            |r: RegionDefView| crate::machine::region_fault(r),
        );
        assert(findings[0] == crate::machine::region_fault(machine.regions[0]));
    }
}

/// The first transition of a flat machine that names a state which there is not is the one that is
/// told, with that state; an action is told only where all transitions are sound.
pub proof fn law_the_first_faulty_part_of_a_flat_machine_is_told(
    machine: MachineDefinitionView,
    message: Seq<char>,
    i: int,
)
    requires
        machine.machine_id.len() > 0,
        machine.regions.len() == 0,
        machine.states.contains(machine.initial_state),
        crate::machine::tells_fault(machine, message),
    ensures
        0 <= i < machine.transitions.len() && (forall|k: int|
            0 <= k < i ==> machine.states.contains((#[trigger] machine.transitions[k]).from)
                && machine.states.contains(machine.transitions[k].to)) ==> {
            let t = machine.transitions[i];
            &&& !machine.states.contains(t.from) ==> message == "transition 'from' state '"@
                + t.from + "' not in states"@
            &&& machine.states.contains(t.from) && !machine.states.contains(t.to) ==> message
                == "transition 'to' state '"@ + t.to + "' not in states"@
        },
        0 <= i < machine.actions.len() && (forall|k: int|
            0 <= k < machine.transitions.len() ==> machine.states.contains(
                (#[trigger] machine.transitions[k]).from,
            ) && machine.states.contains(machine.transitions[k].to)) && (forall|k: int|
            0 <= k < i ==> machine.states.contains((#[trigger] machine.actions[k]).on_enter))
            && !machine.states.contains(machine.actions[i].on_enter) ==> message
            == "action on_enter state '"@ + machine.actions[i].on_enter + "' not in states"@,
{
    let states = machine.states;
    let in_transitions = machine.transitions.map_values(
        |t: TransitionDefView| crate::machine::transition_fault(states, t),
    );
    let in_actions = machine.actions.map_values(
        |a: ActionDefView| crate::machine::action_fault(states, a),
    );
    assert(machine.transitions.map_values(
        |t: TransitionDefView| crate::machine::transition_fault(machine.states, t),
    ) =~= in_transitions);
    assert(machine.actions.map_values(
        |a: ActionDefView| crate::machine::action_fault(machine.states, a),
    ) =~= in_actions);
    assert(states.len() > 0);
    if 0 <= i < machine.transitions.len() && (forall|k: int|
        0 <= k < i ==> machine.states.contains((#[trigger] machine.transitions[k]).from)
            && machine.states.contains(machine.transitions[k].to)) {
        assert forall|k: int| 0 <= k < i implies (#[trigger] in_transitions[k]) is None by {
            assert(states.contains(machine.transitions[k].from));
        }
        assert(in_transitions[i] == crate::machine::transition_fault(
            states,
            machine.transitions[i],
        ));
        if in_transitions[i] is Some {
            crate::machine::lemma_fault_at(in_transitions, i);
        }
    }
    if 0 <= i < machine.actions.len() && (forall|k: int|
        0 <= k < machine.transitions.len() ==> machine.states.contains(
            (#[trigger] machine.transitions[k]).from,
        ) && machine.states.contains(machine.transitions[k].to)) && (forall|k: int|
        0 <= k < i ==> machine.states.contains((#[trigger] machine.actions[k]).on_enter))
        && !machine.states.contains(machine.actions[i].on_enter) {
        assert forall|k: int| 0 <= k < in_transitions.len() implies (#[trigger] in_transitions[k])
            is None by {
            assert(states.contains(machine.transitions[k].from));
        }
        crate::machine::lemma_first_fault(in_transitions);
        assert forall|k: int| 0 <= k < i implies (#[trigger] in_actions[k]) is None by {
            assert(states.contains(machine.actions[k].on_enter));
        }
        assert(in_actions[i] is Some);
        crate::machine::lemma_fault_at(in_actions, i);
    }
}

/// Whether a region has an ID and starts in one of its states.
pub open spec fn is_sound_region(region: RegionDefView) -> bool {
    region.id.len() > 0 && region.states.contains(region.initial_state)
}

/// The first region of a parallel machine that is not sound is the one that is told; a transition is
/// told only where all regions are sound, the first that is not, with the region and the state that
/// it names.
pub proof fn law_the_first_faulty_part_of_a_parallel_machine_is_told(
    machine: MachineDefinitionView,
    message: Seq<char>,
    i: int,
)
    requires
        machine.machine_id.len() > 0,
        machine.regions.len() > 0,
        crate::machine::tells_fault(machine, message),
    ensures
        0 <= i < machine.regions.len() && (forall|k: int|
            0 <= k < i ==> is_sound_region(#[trigger] machine.regions[k])) ==> {
            let region = machine.regions[i];
            &&& region.id.len() == 0 ==> message == "region id is required"@
            &&& region.id.len() > 0 && region.states.len() == 0 ==> message == "region '"@
                + region.id + "' must have at least one state"@
            &&& region.id.len() > 0 && region.states.len() > 0 && !region.states.contains(
                region.initial_state,
            ) ==> message == "region '"@ + region.id + "' initial_state '"@ + region.initial_state
                + "' not in its states"@
        },
        (forall|k: int|
            0 <= k < machine.regions.len() ==> is_sound_region(#[trigger] machine.regions[k])) && 0
            <= i < machine.transitions.len() && (forall|k: int|
            0 <= k < i ==> is_sound_transition(machine.regions, #[trigger] machine.transitions[k]))
            ==> {
            let t = machine.transitions[i];
            &&& t.region is None ==> message == "transition on '"@ + t.on
                + "' must specify a region in parallel machine"@
            &&& t.region matches Some(id) ==> {
                &&& !has_id(machine.regions, id) ==> message
                    == "transition references unknown region '"@ + id + "'"@
                &&& has_id(machine.regions, id) && !lists_state(machine.regions, id, t.from)
                    ==> message == "transition from '"@ + t.from + "' not in region '"@ + id + "'"@
                &&& lists_state(machine.regions, id, t.from) && !lists_state(
                    machine.regions,
                    id,
                    t.to,
                ) ==> message == "transition to '"@ + t.to + "' not in region '"@ + id + "'"@
            }
        },
{
    let regions = machine.regions;
    let in_regions = regions.map_values(|r: RegionDefView| crate::machine::region_fault(r));
    let in_transitions = machine.transitions.map_values(
        |t: TransitionDefView| crate::machine::regional_transition_fault(regions, t),
    );
    assert(machine.transitions.map_values(
        |t: TransitionDefView| crate::machine::regional_transition_fault(machine.regions, t),
    ) =~= in_transitions);
    assert forall|k: int| 0 <= k < regions.len() && is_sound_region(
        #[trigger] regions[k],
    ) implies in_regions[k] is None by {
        assert(regions[k].states.len() > 0);
    }
    if 0 <= i < regions.len() && (forall|k: int|
        0 <= k < i ==> is_sound_region(#[trigger] machine.regions[k])) {
        assert forall|k: int| 0 <= k < i implies (#[trigger] in_regions[k]) is None by {
            assert(is_sound_region(machine.regions[k]));
        }
        assert(in_regions[i] == crate::machine::region_fault(regions[i]));
        if in_regions[i] is Some {
            crate::machine::lemma_fault_at(in_regions, i);
        }
    }
    if (forall|k: int|
        0 <= k < machine.regions.len() ==> is_sound_region(#[trigger] machine.regions[k])) && 0 <= i
        < machine.transitions.len() && (forall|k: int|
        0 <= k < i ==> is_sound_transition(machine.regions, #[trigger] machine.transitions[k])) {
        assert forall|k: int| 0 <= k < in_regions.len() implies (#[trigger] in_regions[k])
            is None by {
            assert(is_sound_region(machine.regions[k]));
        }
        crate::machine::lemma_first_fault(in_regions);
        assert forall|k: int| 0 <= k < i implies (#[trigger] in_transitions[k]) is None by {
            let t = machine.transitions[k];
            assert(is_sound_transition(machine.regions, t));
            lemma_region_with_id(regions, t.region->0, t.from);
            lemma_region_with_id(regions, t.region->0, t.to);
        }
        let t = machine.transitions[i];
        if let Some(id) = t.region {
            lemma_region_with_id(regions, id, t.from);
            lemma_region_with_id(regions, id, t.to);
        }
        assert(in_transitions[i] == crate::machine::regional_transition_fault(regions, t));
        if in_transitions[i] is Some {
            crate::machine::lemma_fault_at(in_transitions, i);
        }
    }
}

/// Where regions and transitions are sound, the first join that is not sound is the one that is
/// told: a state that it waits for in vain, or else the region that it would move.
pub proof fn law_the_first_faulty_join_is_told(
    machine: MachineDefinitionView,
    message: Seq<char>,
    i: int,
)
    requires
        machine.machine_id.len() > 0,
        machine.regions.len() > 0,
        forall|k: int|
            0 <= k < machine.regions.len() ==> is_sound_region(#[trigger] machine.regions[k]),
        forall|k: int|
            0 <= k < machine.transitions.len() ==> is_sound_transition(
                machine.regions,
                #[trigger] machine.transitions[k],
            ),
        0 <= i < machine.joins.len(),
        forall|k: int|
            0 <= k < i ==> is_sound_join(machine.regions, #[trigger] machine.joins[k]),
        !is_sound_join(machine.regions, machine.joins[i]),
        crate::machine::tells_fault(machine, message),
    ensures
        ({
            let join = machine.joins[i];
            if forall|id: Seq<char>| #[trigger]
                join.when.contains_key(id) ==> lists_state(machine.regions, id, join.when[id]) {
                message == "join target region '"@ + join.target_region + "' not defined"@
            } else {
                exists|id: Seq<char>| #[trigger]
                    join.when.contains_key(id) && !lists_state(machine.regions, id, join.when[id])
                        && message == if has_id(machine.regions, id) {
                        "join references state '"@ + join.when[id] + "' not in region '"@ + id
                            + "'"@
                    } else {
                        "join references unknown region '"@ + id + "'"@
                    }
            }
        }),
{
    let regions = machine.regions;
    let in_regions = regions.map_values(|r: RegionDefView| crate::machine::region_fault(r));
    assert forall|k: int| 0 <= k < in_regions.len() implies (#[trigger] in_regions[k]) is None by {
        assert(is_sound_region(machine.regions[k]));
        assert(regions[k].states.len() > 0);
    }
    crate::machine::lemma_first_fault(in_regions);
    let in_transitions = machine.transitions.map_values(
        |t: TransitionDefView| crate::machine::regional_transition_fault(regions, t),
    );
    assert(machine.transitions.map_values(
        |t: TransitionDefView| crate::machine::regional_transition_fault(machine.regions, t),
    ) =~= in_transitions);
    assert forall|k: int| 0 <= k < in_transitions.len() implies (#[trigger] in_transitions[k])
        is None by {
        let t = machine.transitions[k];
        assert(is_sound_transition(machine.regions, t));
        lemma_region_with_id(regions, t.region->0, t.from);
        lemma_region_with_id(regions, t.region->0, t.to);
    }
    crate::machine::lemma_first_fault(in_transitions);
    assert(crate::machine::parallel_fault(machine) is None);
    assert forall|k: int| 0 <= k < machine.joins.len() implies (is_sound_join(
        regions,
        #[trigger] machine.joins[k],
    ) <==> crate::machine::join_fits(regions, machine.joins[k])) by {
        lemma_join(regions, machine.joins[k]);
    }
    let n = choose|n: int|
        0 <= n < machine.joins.len() && (forall|k: int|
            0 <= k < n ==> crate::machine::join_fits(machine.regions, #[trigger] machine.joins[k]))
            && !crate::machine::join_fits(machine.regions, machine.joins[n]) && #[trigger]
            crate::machine::tells_join_fault(machine.regions, machine.joins[n], message);
    assert(n == i) by {
        if n < i {
            assert(is_sound_join(machine.regions, machine.joins[n]));
        } else if i < n {
            assert(crate::machine::join_fits(machine.regions, machine.joins[i]));
        }
    }
    let join = machine.joins[i];
    lemma_join(regions, join);
    if !crate::machine::conditions_fit(regions, join) {
        let id = choose|id: Seq<char>| #[trigger]
            join.when.contains_key(id) && crate::machine::condition_fault(
                regions,
                id,
                join.when[id],
            ) == Some(message);
        lemma_region_with_id(regions, id, join.when[id]);
        assert(join.when.contains_key(id) && !lists_state(regions, id, join.when[id]));
    }
}

/// What the parts of a join make of its soundness.
proof fn lemma_join(regions: Seq<RegionDefView>, join: JoinDefView)
    ensures
        is_sound_join(regions, join) <==> crate::machine::join_fits(regions, join),
        crate::machine::conditions_fit(regions, join) <==> (forall|id: Seq<char>| #[trigger]
            join.when.contains_key(id) ==> lists_state(regions, id, join.when[id])),
{
    lemma_region_with_id(regions, join.target_region, join.target_state);
    assert forall|id: Seq<char>| #[trigger] join.when.contains_key(id) implies (lists_state(
        regions,
        id,
        join.when[id],
    ) <==> crate::machine::condition_fault(regions, id, join.when[id]) is None) by {
        lemma_region_with_id(regions, id, join.when[id]);
    }
}

/// Where the rest of a flat machine is sound, what is told is a compound state that is not: one that
/// there is not, the one that the machine starts in, or one that leads to a state that there is not.
pub proof fn law_a_faulty_compound_state_is_told(
    machine: MachineDefinitionView,
    message: Seq<char>,
)
    requires
        machine.machine_id.len() > 0,
        machine.regions.len() == 0,
        machine.states.contains(machine.initial_state),
        forall|k: int|
            0 <= k < machine.transitions.len() ==> machine.states.contains(
                (#[trigger] machine.transitions[k]).from,
            ) && machine.states.contains(machine.transitions[k].to),
        forall|k: int|
            0 <= k < machine.actions.len() ==> machine.states.contains(
                (#[trigger] machine.actions[k]).on_enter,
            ),
        crate::machine::tells_fault(machine, message),
    ensures
        exists|state: Seq<char>| #[trigger]
            machine.sub_machines.contains_key(state) && tells_compound_fault(
                machine,
                state,
                message,
            ),
{
    let states = machine.states;
    let in_transitions = machine.transitions.map_values(
        |t: TransitionDefView| crate::machine::transition_fault(machine.states, t),
    );
    let in_actions = machine.actions.map_values(
        |a: ActionDefView| crate::machine::action_fault(machine.states, a),
    );
    assert forall|k: int| 0 <= k < in_transitions.len() implies (#[trigger] in_transitions[k])
        is None by {
        assert(states.contains(machine.transitions[k].from));
    }
    assert forall|k: int| 0 <= k < in_actions.len() implies (#[trigger] in_actions[k]) is None by {
        assert(states.contains(machine.actions[k].on_enter));
    }
    crate::machine::lemma_first_fault(in_transitions);
    crate::machine::lemma_first_fault(in_actions);
    assert(states.len() > 0);
    assert(crate::machine::flat_fault(machine) is None);
    let state = choose|state: Seq<char>| #[trigger]
        machine.sub_machines.contains_key(state) && crate::machine::tells_sub_machine_fault(
            machine,
            state,
            machine.sub_machines[state],
            message,
        );
    assert(tells_compound_fault(machine, state, message));
}

/// Whether a message tells what is wrong with a compound state of a flat machine.
pub open spec fn tells_compound_fault(
    machine: MachineDefinitionView,
    state: Seq<char>,
    message: Seq<char>,
) -> bool {
    if !machine.states.contains(state) {
        message == "sub_machine state '"@ + state + "' not in states list"@
    } else if state == machine.initial_state {
        message == "initial_state '"@ + state + "' cannot be a compound state (sub-machine)"@
    } else {
        exists|last: Seq<char>|
            {
                &&& #[trigger] machine.sub_machines[state].on_final.contains_key(last)
                &&& !machine.states.contains(machine.sub_machines[state].on_final[last])
                &&& message == "sub_machine on_final target '"@
                    + machine.sub_machines[state].on_final[last] + "' not in states list"@
            }
    }
}

/// A new entity of a parallel machine is in the initial state of each region, of two with the same
/// ID that of the later one, and in no other region. One of a flat machine is in its initial state.
pub proof fn law_entities_begin_in_the_initial_states(
    machine: MachineDefinitionView,
    region: Seq<char>,
    i: int,
)
    ensures
        ({
            let states = crate::machine::initial_map(machine);
            &&& machine.regions.len() > 0 ==> (states.contains_key(region) <==> has_id(
                machine.regions,
                region,
            ))
            &&& 0 <= i < machine.regions.len() && machine.regions[i].id == region && (forall|j: int|
                i < j < machine.regions.len() ==> (#[trigger] machine.regions[j]).id != region)
                ==> states[region] == machine.regions[i].initial_state
            &&& machine.regions.len() == 0 ==> crate::laws::moves::is_bare(states) && states["_"@]
                == machine.initial_state
        }),
{
    if machine.regions.len() > 0 {
        lemma_initial_states(machine.regions, region, i);
    }
}

/// The initial states of regions.
proof fn lemma_initial_states(regions: Seq<RegionDefView>, region: Seq<char>, i: int)
    ensures
        crate::machine::initial_states(regions).contains_key(region) <==> has_id(regions, region),
        0 <= i < regions.len() && regions[i].id == region && (forall|j: int|
            i < j < regions.len() ==> (#[trigger] regions[j]).id != region)
            ==> crate::machine::initial_states(regions)[region] == regions[i].initial_state,
    decreases regions.len(),
{
    if regions.len() > 0 {
        let rest = regions.drop_last();
        let last = regions.len() - 1;
        lemma_initial_states(rest, region, i);
        if has_id(rest, region) {
            let k = choose|k: int| 0 <= k < rest.len() && (#[trigger] rest[k]).id == region;
            assert(regions[k].id == region);
        }
        if has_id(regions, region) {
            let k = choose|k: int| 0 <= k < regions.len() && (#[trigger] regions[k]).id == region;
            assert(k < last ==> rest[k].id == region);
        }
        if regions[last].id == region {
            assert(has_id(regions, region));
        }
        if 0 <= i < last && regions[i].id == region && (forall|j: int|
            i < j < regions.len() ==> (#[trigger] regions[j]).id != region) {
            assert(rest[i] == regions[i]);
            assert(regions[last].id != region);
            assert forall|j: int| i < j < rest.len() implies (#[trigger] rest[j]).id != region by {
                assert(regions[j] == rest[j]);
            }
        }
    }
}

/// A machine is created as the request has it, for the tenant that sends it. An update takes all of
/// the definition from the request, and keeps whose machine it is and what it is called.
pub proof fn law_definitions_are_taken_as_requested(
    tenant_id: Seq<char>,
    req: CreateMachineRequestView,
    machine: MachineDefinitionView,
    change: UpdateMachineRequestView,
)
    ensures
        ({
            let created = crate::routes::machines::requested_machine(tenant_id, req);
            &&& created.tenant_id == tenant_id
            &&& created.machine_id == req.machine_id
            &&& created.states == req.states
            &&& created.initial_state == req.initial_state
            &&& created.regions == req.regions
            &&& created.joins == req.joins
            &&& created.transitions == req.transitions
            &&& created.actions == req.actions
            &&& created.sub_machines == req.sub_machines
        }),
        ({
            let updated = crate::routes::machines::updated_machine(machine, change);
            &&& updated.tenant_id == machine.tenant_id
            &&& updated.machine_id == machine.machine_id
            &&& updated.states == change.states
            &&& updated.initial_state == change.initial_state
            &&& updated.regions == change.regions
            &&& updated.joins == change.joins
            &&& updated.transitions == change.transitions
            &&& updated.actions == change.actions
            &&& updated.sub_machines == change.sub_machines
        }),
{
}

/// A definition is accepted as it is if it is consistent, and refused as a bad request otherwise.
pub proof fn law_only_consistent_machines_are_accepted(
    machine: MachineDefinitionView,
    result: Result<crate::models::MachineDefinition, crate::errors::AppError>,
)
    requires
        crate::routes::machines::accepts(machine, result),
    ensures
        result is Ok <==> crate::machine::is_valid(machine),
        result matches Ok(accepted) ==> accepted.deep_view() == machine,
        result matches Err(error) ==> error.deep_view() is BadRequest,
{
}

} // verus!
