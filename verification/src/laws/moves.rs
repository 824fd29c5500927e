//! What a move of an entity comes to: what is stored, sent, recorded and answered.

use vstd::prelude::*;

use crate::actions::{DeliveryView, FiredActionView};
use crate::json::ValueView;
use crate::models::{
    ActionConfigView, ActionDefView, DispatchedActionView, EntityView, JoinDefView, JoinFiredView,
    MachineDefinitionView, RegionDefView, StateValueView, SubMachineDefView,
};
use crate::plan::{Cause, ChildView, EventView, HistoryEntryView};

verus! {

// ── States ──────────────────────────────────────────────────────────────────

/// Whether there is a state for the default region and for no other.
pub open spec fn is_bare(states: Map<Seq<char>, Seq<char>>) -> bool {
    &&& states.contains_key("_"@)
    &&& forall|region: Seq<char>| #[trigger] states.contains_key(region) ==> region == "_"@
}

/// Whether a text stores states: the state itself where there is only the default region, otherwise
/// the JSON object of all regions.
pub open spec fn stores(stored: Seq<char>, states: Map<Seq<char>, Seq<char>>) -> bool {
    stored == if is_bare(states) {
        states["_"@]
    } else {
        crate::json_text::string_object_text(states)
    }
}

/// Whether an answer shows states: as a string where there is only the default region, otherwise as
/// the JSON object of all regions.
pub open spec fn shows(shown: StateValueView, states: Map<Seq<char>, Seq<char>>) -> bool {
    shown == if is_bare(states) {
        StateValueView::Text(states["_"@])
    } else {
        StateValueView::Json(crate::json_text::string_object_text(states))
    }
}

/// States are stored and shown as they are.
pub proof fn law_states_are_stored_and_shown(states: Map<Seq<char>, Seq<char>>)
    ensures
        stores(crate::entity::encoded_state(states), states),
        shows(crate::entity::shown_map(states), states),
{
    let bare = Set::<Seq<char>>::empty().insert("_"@);
    if is_bare(states) {
        assert(states.dom() =~= bare);
    }
    if states.dom() == bare {
        assert(bare.contains("_"@));
        assert forall|region: Seq<char>| #[trigger] states.contains_key(region) implies region
            == "_"@ by {
            assert(bare.contains(region));
        }
    }
}

/// A stored text that opens with a brace and reads as an object of strings denotes that object; any
/// other denotes itself, as the state of the default region.
pub proof fn law_stored_states_are_read(stored: Seq<char>)
    ensures
        ({
            let states = crate::entity::stored_state(stored);
            let read = crate::json_text::string_object(stored);
            if stored.len() > 0 && stored[0] == '{' && read is Some {
                states == read->0
            } else {
                is_bare(states) && states["_"@] == stored
            }
        }),
{
}

/// States keep their meaning in storage unless they are one bare state that reads as an object
/// itself, and their look unless that state is JSON or a region is named like the mark of raw JSON
/// text.
pub proof fn law_states_keep_meaning_and_look(states: Map<Seq<char>, Seq<char>>)
    ensures
        ({
            let braced = is_bare(states) && states["_"@].len() > 0 && states["_"@][0] == '{';
            &&& crate::entity::keeps_its_meaning(states) <==> !(braced
                && crate::json_text::string_object(states["_"@]) is Some)
            &&& crate::entity::keeps_its_look(states) <==> !(braced && crate::json_text::is_json(
                states["_"@],
            )) && !states.contains_key("$serde_json::private::RawValue"@)
        }),
{
    let bare = Set::<Seq<char>>::empty().insert("_"@);
    if is_bare(states) {
        assert(states.dom() =~= bare);
    }
    if states.dom() == bare {
        assert(bare.contains("_"@));
        assert forall|region: Seq<char>| #[trigger] states.contains_key(region) implies region
            == "_"@ by {
            assert(bare.contains(region));
        }
    }
}

/// A stored text is shown as the JSON that it is where it opens with a brace and is JSON, and as a
/// string otherwise.
pub proof fn law_stored_states_are_shown(stored: Seq<char>)
    ensures
        crate::entity::shown_state(stored) == if stored.len() > 0 && stored[0] == '{'
            && crate::json_text::is_json(stored) {
            StateValueView::Json(stored)
        } else {
            StateValueView::Text(stored)
        },
{
}

/// Whether entries of the audit log are those of joins.
pub open spec fn logs_joins(
    entries: Seq<HistoryEntryView>,
    fired: Seq<JoinFiredView>,
    time: i64,
) -> bool {
    &&& entries.len() == fired.len()
    &&& forall|i: int|
        0 <= i < entries.len() ==> {
            let entry = #[trigger] entries[i];
            &&& entry.event_type == "$join"@
            &&& entry.event_params == "{}"@
            &&& entry.from_state == fired[i].from_state
            &&& entry.to_state == fired[i].target_state
            &&& entry.region == fired[i].target_region
            &&& entry.timestamp == time
            &&& entry.actions_dispatched.len() == 0
        }
}

/// A move puts its region in the target state, and then lets joins follow for up to ten rounds. The
/// states that come of it are stored and shown, the state before is told, and each join is listed
/// and recorded. Where fewer than ten joins have followed, none is due any more in what is stored.
pub proof fn law_moves_let_joins_follow(
    event: EventView,
    machine: MachineDefinitionView,
    entity: EntityView,
    cause: Cause,
)
    ensures
        ({
            let before = crate::entity::stored_state(entity.current_state);
            let (after, fired) = crate::engine::cascade(
                machine.joins,
                before.insert(cause.region, cause.to_state),
                10,
            );
            let planned = crate::plan::plan(event, machine, entity, cause);
            &&& stores(planned.update.current_state, after)
            &&& shows(planned.response.current_state, after)
            &&& planned.response.previous_state == crate::entity::shown_state(entity.current_state)
            &&& planned.response.joins_fired == fired
            &&& logs_joins(planned.record.joins, fired, event.timestamp)
            &&& fired.len() < 10 ==> crate::laws::joins::are_at_rest(machine.joins, after)
            &&& planned.response.joins_fired.len() < 10 && crate::entity::stored_state(
                planned.update.current_state,
            ) == after ==> crate::laws::joins::are_at_rest(
                machine.joins,
                crate::entity::stored_state(planned.update.current_state),
            )
        }),
{
    let before = crate::entity::stored_state(entity.current_state);
    let start = before.insert(cause.region, cause.to_state);
    let (after, fired) = crate::engine::cascade(machine.joins, start, 10);
    law_states_are_stored_and_shown(after);
    if fired.len() < 10 {
        crate::laws::joins::law_joins_come_to_rest(machine.joins, start, 10);
    }
}

// ── Actions ─────────────────────────────────────────────────────────────────

/// Whether an entry of a list shows an action: what to do, the state it is for, and its region.
pub open spec fn lists(listed: DispatchedActionView, action: FiredActionView) -> bool {
    match action.1 {
        ActionConfigView::Webhook { url } => {
            &&& listed matches DispatchedActionView::Webhook { url: to, state, region }
            &&& to == url
            &&& state == action.0
            &&& region == action.2
        },
        ActionConfigView::Event { event_type } => {
            &&& listed matches DispatchedActionView::Event { event_type: kind, state, region }
            &&& kind == event_type
            &&& state == action.0
            &&& region == action.2
        },
    }
}

/// Whether a list shows actions, one by one.
pub open spec fn lists_all(
    listed: Seq<DispatchedActionView>,
    actions: Seq<FiredActionView>,
) -> bool {
    &&& listed.len() == actions.len()
    &&& forall|i: int| 0 <= i < actions.len() ==> lists(#[trigger] listed[i], actions[i])
}

/// A move sets off the actions of the state that it enters, then those of each state that a join
/// leads to, then those that the joins list themselves. The audit log lists them all.
pub proof fn law_moves_list_their_actions(
    event: EventView,
    machine: MachineDefinitionView,
    entity: EntityView,
    cause: Cause,
)
    ensures
        ({
            let start = crate::entity::stored_state(entity.current_state).insert(
                cause.region,
                cause.to_state,
            );
            let fired = crate::engine::cascade(machine.joins, start, 10).1;
            let sources = crate::engine::cascade_joins(machine.joins, start, 10);
            let region = if machine.regions.len() > 0 {
                Some(cause.region)
            } else {
                None
            };
            lists_all(
                crate::plan::plan(
                    event,
                    machine,
                    entity,
                    cause,
                ).record.transition.actions_dispatched,
                crate::actions::fired_actions(machine.actions, cause.to_state, region)
                    + crate::plan::join_entry_actions(machine.actions, fired)
                    + crate::plan::join_own_actions(sources),
            )
        }),
{
}

/// Each join that fires adds the actions of the state that it leads to, in the region that it
/// moves, and those that it lists itself, in that region whatever else they say.
pub proof fn law_each_join_adds_its_actions(
    actions: Seq<ActionDefView>,
    fired: Seq<JoinFiredView>,
    last: JoinFiredView,
    sources: Seq<JoinDefView>,
    join: JoinDefView,
)
    ensures
        crate::plan::join_entry_actions(actions, Seq::empty()).len() == 0,
        crate::plan::join_entry_actions(actions, fired.push(last))
            == crate::plan::join_entry_actions(actions, fired) + crate::actions::fired_actions(
            actions,
            last.target_state,
            Some(last.target_region),
        ),
        crate::plan::join_own_actions(Seq::empty()).len() == 0,
        ({
            let before = crate::plan::join_own_actions(sources);
            let after = crate::plan::join_own_actions(sources.push(join));
            &&& after.len() == before.len() + join.actions.len()
            &&& after.take(before.len() as int) == before
            &&& forall|i: int|
                0 <= i < join.actions.len() ==> #[trigger] after[before.len() + i] == (
                    join.actions[i].on_enter,
                    join.actions[i].action,
                    Some(join.target_region),
                )
        }),
{
    assert(fired.push(last).drop_last() =~= fired);
    assert(sources.push(join).drop_last() =~= sources);
    let before = crate::plan::join_own_actions(sources);
    let after = crate::plan::join_own_actions(sources.push(join));
    assert(after.take(before.len() as int) =~= before);
}

// ── Requests ────────────────────────────────────────────────────────────────

/// Whether the fields of a request tell a move, and nothing else.
pub open spec fn tells_move(
    fields: Map<Seq<char>, ValueView>,
    tenant_key: Seq<char>,
    tenant_id: Seq<char>,
    machine_id: Seq<char>,
    entity_id: Seq<char>,
    from_state: Seq<char>,
    to_state: Seq<char>,
) -> bool {
    &&& fields.contains_key(tenant_key) && fields[tenant_key] == ValueView::String(tenant_id)
    &&& fields.contains_key("machine_id"@) && fields["machine_id"@] == ValueView::String(machine_id)
    &&& fields.contains_key("entity_id"@) && fields["entity_id"@] == ValueView::String(entity_id)
    &&& fields.contains_key("from_state"@) && fields["from_state"@] == ValueView::String(from_state)
    &&& fields.contains_key("to_state"@) && fields["to_state"@] == ValueView::String(to_state)
    &&& forall|key: Seq<char>| #[trigger]
        fields.contains_key(key) ==> key == tenant_key || key == "machine_id"@ || key
            == "entity_id"@ || key == "from_state"@ || key == "to_state"@
}

/// Whether a request is that of a listed action: a webhook gets the move at its URL, the event sink
/// gets an event that has the move as its parameters.
pub open spec fn delivers(
    sent: DeliveryView,
    listed: DispatchedActionView,
    event_sink: Seq<char>,
    tenant_id: Seq<char>,
    machine_id: Seq<char>,
    entity_id: Seq<char>,
    from_state: Seq<char>,
    to_state: Seq<char>,
) -> bool {
    match listed {
        DispatchedActionView::Webhook { url, .. } => {
            &&& sent.url == url
            &&& sent.payload matches ValueView::Object(fields)
            &&& tells_move(
                fields,
                "tenant_id"@,
                tenant_id,
                machine_id,
                entity_id,
                from_state,
                to_state,
            )
        },
        DispatchedActionView::Event { event_type, .. } => {
            &&& sent.url == event_sink
            &&& sent.payload matches ValueView::Object(fields)
            &&& fields.contains_key("event_type"@)
            &&& fields["event_type"@] == ValueView::String(event_type)
            &&& fields.contains_key("params"@)
            &&& fields["params"@] matches ValueView::Object(params)
            &&& tells_move(
                params,
                "key_prefix"@,
                tenant_id,
                machine_id,
                entity_id,
                from_state,
                to_state,
            )
            &&& forall|key: Seq<char>| #[trigger]
                fields.contains_key(key) ==> key == "event_type"@ || key == "params"@
        },
    }
}

/// The fields of a request are told apart by their names.
proof fn lemma_fields_differ()
    ensures
        "tenant_id"@ != "machine_id"@,
        "tenant_id"@ != "entity_id"@,
        "tenant_id"@ != "from_state"@,
        "tenant_id"@ != "to_state"@,
        "key_prefix"@ != "machine_id"@,
        "key_prefix"@ != "entity_id"@,
        "key_prefix"@ != "from_state"@,
        "key_prefix"@ != "to_state"@,
        "machine_id"@ != "entity_id"@,
        "machine_id"@ != "from_state"@,
        "machine_id"@ != "to_state"@,
        "entity_id"@ != "from_state"@,
        "entity_id"@ != "to_state"@,
        "from_state"@ != "to_state"@,
        "event_type"@ != "params"@,
{
    reveal_strlit("tenant_id");
    reveal_strlit("key_prefix");
    reveal_strlit("machine_id");
    reveal_strlit("entity_id");
    reveal_strlit("from_state");
    reveal_strlit("to_state");
    reveal_strlit("event_type");
    reveal_strlit("params");
    assert("tenant_id"@.len() == 9 && "tenant_id"@[0] == 't');
    assert("entity_id"@.len() == 9 && "entity_id"@[0] == 'e');
    assert("key_prefix"@.len() == 10 && "key_prefix"@[0] == 'k');
    assert("machine_id"@.len() == 10 && "machine_id"@[0] == 'm');
    assert("from_state"@.len() == 10 && "from_state"@[0] == 'f');
    assert("to_state"@.len() == 8);
    assert("event_type"@.len() == 10);
    assert("params"@.len() == 6);
}

/// Every request for an action tells the move that set the action off, to whom it belongs.
pub proof fn law_requests_tell_the_move(
    actions: Seq<FiredActionView>,
    event_sink: Seq<char>,
    movement: crate::actions::Movement,
)
    ensures
        ({
            let sent = crate::actions::deliveries(actions, event_sink, movement);
            let listed = crate::actions::listed_actions(actions);
            &&& sent.len() == actions.len()
            &&& lists_all(listed, actions)
            &&& forall|i: int|
                0 <= i < sent.len() ==> delivers(
                    #[trigger] sent[i],
                    listed[i],
                    event_sink,
                    movement.tenant_id,
                    movement.machine_id,
                    movement.entity_id,
                    movement.from_state,
                    movement.to_state,
                )
        }),
{
    lemma_fields_differ();
}

/// Every request that a move sends tells the move that the audit log has of it: the states, the
/// entity, the machine and the tenant. There is one for each action listed in the log if actions
/// are to be sent, and none otherwise.
pub proof fn law_moves_send_what_they_record(
    event: EventView,
    machine: MachineDefinitionView,
    entity: EntityView,
    cause: Cause,
)
    ensures
        ({
            let record = crate::plan::plan(event, machine, entity, cause).record;
            let listed = record.transition.actions_dispatched;
            &&& record.tenant_id == event.tenant_id
            &&& record.machine_id == machine.machine_id
            &&& record.entity_id == entity.entity_id
            &&& record.transition.from_state == cause.from_state
            &&& record.transition.to_state == cause.to_state
            &&& record.deliveries.len() == if event.dispatch {
                listed.len()
            } else {
                0
            }
            &&& forall|i: int|
                0 <= i < record.deliveries.len() ==> delivers(
                    #[trigger] record.deliveries[i],
                    listed[i],
                    event.event_core_url,
                    record.tenant_id,
                    record.machine_id,
                    record.entity_id,
                    record.transition.from_state,
                    record.transition.to_state,
                )
        }),
{
    lemma_fields_differ();
}

// ── Children ────────────────────────────────────────────────────────────────

/// Whether a state of a machine is compound, with the given machine inside. Of two regions with the
/// same ID the first one counts.
pub open spec fn is_compound(
    machine: MachineDefinitionView,
    region: Seq<char>,
    state: Seq<char>,
    sub: SubMachineDefView,
) -> bool {
    if machine.regions.len() > 0 {
        exists|i: int|
            {
                &&& 0 <= i < machine.regions.len()
                &&& (#[trigger] machine.regions[i]).id == region
                &&& forall|j: int| 0 <= j < i ==> (#[trigger] machine.regions[j]).id != region
                &&& machine.regions[i].sub_machines.contains_key(state)
                &&& machine.regions[i].sub_machines[state] == sub
            }
    } else {
        machine.sub_machines.contains_key(state) && machine.sub_machines[state] == sub
    }
}

/// The first region with an ID is one with that ID, and none before it is.
proof fn lemma_first_region(regions: Seq<RegionDefView>, id: Seq<char>)
    ensures
        match crate::machine::first_region_with_id(regions, id) {
            Some(region) => exists|i: int|
                {
                    &&& 0 <= i < regions.len()
                    &&& #[trigger] regions[i] == region
                    &&& region.id == id
                    &&& forall|j: int| 0 <= j < i ==> (#[trigger] regions[j]).id != id
                },
            None => forall|i: int| 0 <= i < regions.len() ==> (#[trigger] regions[i]).id != id,
        },
    decreases regions.len(),
{
    if regions.len() > 0 {
        if regions[0].id == id {
            assert(regions[0] == crate::machine::first_region_with_id(regions, id)->0);
        } else {
            let rest = regions.drop_first();
            lemma_first_region(rest, id);
            match crate::machine::first_region_with_id(rest, id) {
                Some(region) => {
                    let i = choose|i: int|
                        {
                            &&& 0 <= i < rest.len()
                            &&& #[trigger] rest[i] == region
                            &&& region.id == id
                            &&& forall|j: int| 0 <= j < i ==> (#[trigger] rest[j]).id != id
                        };
                    assert(regions[i + 1] == region);
                    assert forall|j: int| 0 <= j < i + 1 implies (#[trigger] regions[j]).id
                        != id by {
                        if j > 0 {
                            assert(regions[j] == rest[j - 1]);
                        }
                    }
                },
                None => {
                    assert forall|j: int| 0 <= j < regions.len() implies (#[trigger] regions[j]).id
                        != id by {
                        if j > 0 {
                            assert(regions[j] == rest[j - 1]);
                        }
                    }
                },
            }
        }
    }
}

/// A state has a machine inside exactly if the definition gives it one: for its region in a
/// parallel machine, at all in a flat one.
pub proof fn law_compound_states_are_as_defined(
    machine: MachineDefinitionView,
    region: Seq<char>,
    state: Seq<char>,
    sub: SubMachineDefView,
)
    ensures
        crate::machine::sub_machine_of(machine, state, region) == Some(sub) <==> is_compound(
            machine,
            region,
            state,
            sub,
        ),
{
    if machine.regions.len() > 0 {
        lemma_first_region(machine.regions, region);
        if is_compound(machine, region, state, sub) {
            let i = choose|i: int|
                {
                    &&& 0 <= i < machine.regions.len()
                    &&& (#[trigger] machine.regions[i]).id == region
                    &&& forall|j: int| 0 <= j < i ==> (#[trigger] machine.regions[j]).id != region
                    &&& machine.regions[i].sub_machines.contains_key(state)
                    &&& machine.regions[i].sub_machines[state] == sub
                };
            let found = crate::machine::first_region_with_id(machine.regions, region)->0;
            let k = choose|k: int|
                {
                    &&& 0 <= k < machine.regions.len()
                    &&& #[trigger] machine.regions[k] == found
                    &&& found.id == region
                    &&& forall|j: int| 0 <= j < k ==> (#[trigger] machine.regions[j]).id != region
                };
            assert(i == k) by {
                if i < k {
                    assert(machine.regions[i].id != region);
                } else if k < i {
                    assert(machine.regions[k].id != region);
                }
            }
        }
    }
}

/// Whether children are those of a state that is entered: its child where it is compound, else none.
pub open spec fn begins_child(
    machine: MachineDefinitionView,
    entity_id: Seq<char>,
    region: Seq<char>,
    state: Seq<char>,
    children: Seq<ChildView>,
) -> bool {
    match crate::machine::sub_machine_of(machine, state, region) {
        Some(sub) => {
            &&& children.len() == 1
            &&& children[0].machine_id == sub.machine_id
            &&& children[0].entity_id == entity_id + "::sub::"@ + state
        },
        None => children.len() == 0,
    }
}

/// A move begins the child of the state that it enters, then those of the states that joins lead
/// to, and no others.
pub proof fn law_moves_begin_their_children(
    event: EventView,
    machine: MachineDefinitionView,
    entity: EntityView,
    cause: Cause,
)
    ensures
        ({
            let start = crate::entity::stored_state(entity.current_state).insert(
                cause.region,
                cause.to_state,
            );
            let fired = crate::engine::cascade(machine.joins, start, 10).1;
            let own = crate::plan::child_of(
                machine,
                entity.entity_id,
                cause.region,
                cause.to_state,
            );
            &&& begins_child(machine, entity.entity_id, cause.region, cause.to_state, own)
            &&& crate::plan::plan(event, machine, entity, cause).record.children == own
                + crate::plan::join_children(machine, entity.entity_id, fired)
        }),
{
}

/// Each join that fires begins the child of the state that it leads to, where that is compound.
pub proof fn law_each_join_begins_its_child(
    machine: MachineDefinitionView,
    entity_id: Seq<char>,
    fired: Seq<JoinFiredView>,
    last: JoinFiredView,
)
    ensures
        crate::plan::join_children(machine, entity_id, Seq::empty()).len() == 0,
        ({
            let before = crate::plan::join_children(machine, entity_id, fired);
            let after = crate::plan::join_children(machine, entity_id, fired.push(last));
            &&& before.len() <= after.len()
            &&& after.take(before.len() as int) == before
            &&& begins_child(
                machine,
                entity_id,
                last.target_region,
                last.target_state,
                after.skip(before.len() as int),
            )
        }),
{
    assert(fired.push(last).drop_last() =~= fired);
    let before = crate::plan::join_children(machine, entity_id, fired);
    let after = crate::plan::join_children(machine, entity_id, fired.push(last));
    let own = crate::plan::child_of(machine, entity_id, last.target_region, last.target_state);
    assert(after =~= before + own);
    assert(after.take(before.len() as int) =~= before);
    assert(after.skip(before.len() as int) =~= own);
}

} // verus!
