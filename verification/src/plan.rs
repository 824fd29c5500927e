//! A transition and all that follows from it: the new states, the joins, the actions, the audit log,
//! the child entities, and the response.

use vstd::prelude::*;

use crate::actions::{
    build_action_list, collect_actions_for_state, dispatch_actions, Delivery, DeliveryView,
    FiredAction, FiredActionView,
};
use crate::engine::fire_joins;
use crate::entity::{show_stored_state, state_map_to_value};
use crate::json::{Value, ValueView};
use crate::models::{
    ActionDef, ActionDefView, DispatchedAction, DispatchedActionView, Entity, EntityView, JoinDef,
    JoinDefView, JoinFired, JoinFiredView, MachineDefinition, MachineDefinitionView,
    SubMachineTransition, SubMachineTransitionView, TransitionResponse, TransitionResponseView,
};
use crate::string_map::{Duplicate, StringMap};
use crate::text::{concat3, concat5};

verus! {

/// How many rounds of joins may follow from one transition.
pub const MAX_JOIN_DEPTH: usize = 10;

/// An event, and how it is to be handled.
#[derive(Debug)]
pub struct Event {
    pub tenant_id: String,
    pub event_type: String,
    pub params: StringMap<String>,
    pub timestamp: i64,
    /// Whether actions are sent, or only listed in the response.
    pub dispatch: bool,
    /// Where actions send events.
    pub event_core_url: String,
}

/// What an [`Event`] stands for.
#[verifier::ext_equal]
pub struct EventView {
    pub tenant_id: Seq<char>,
    pub event_type: Seq<char>,
    pub params: Map<Seq<char>, Seq<char>>,
    pub timestamp: i64,
    pub dispatch: bool,
    pub event_core_url: Seq<char>,
}

impl DeepView for Event {
    type V = EventView;

    open spec fn deep_view(&self) -> EventView {
        EventView {
            tenant_id: self.tenant_id@,
            event_type: self.event_type@,
            params: self.params.deep_view(),
            timestamp: self.timestamp,
            dispatch: self.dispatch,
            event_core_url: self.event_core_url@,
        }
    }
}

/// By what the audit log tells whether an entity has had an event.
#[derive(Debug)]
pub struct EventKey {
    pub tenant_id: String,
    pub machine_id: String,
    pub entity_id: String,
    pub event_type: String,
    pub timestamp: i64,
}

/// What an [`EventKey`] stands for.
#[verifier::ext_equal]
pub struct EventKeyView {
    pub tenant_id: Seq<char>,
    pub machine_id: Seq<char>,
    pub entity_id: Seq<char>,
    pub event_type: Seq<char>,
    pub timestamp: i64,
}

impl DeepView for EventKey {
    type V = EventKeyView;

    open spec fn deep_view(&self) -> EventKeyView {
        EventKeyView {
            tenant_id: self.tenant_id@,
            machine_id: self.machine_id@,
            entity_id: self.entity_id@,
            event_type: self.event_type@,
            timestamp: self.timestamp,
        }
    }
}

/// A change of an entity. It takes effect only if the entity still has the version given.
#[derive(Debug)]
pub struct Update {
    pub tenant_id: String,
    pub machine_id: String,
    pub entity_id: String,
    pub current_state: String,
    pub context: StringMap<Value>,
    pub state_version: i64,
}

/// What an [`Update`] stands for.
#[verifier::ext_equal]
pub struct UpdateView {
    pub tenant_id: Seq<char>,
    pub machine_id: Seq<char>,
    pub entity_id: Seq<char>,
    pub current_state: Seq<char>,
    pub context: Map<Seq<char>, ValueView>,
    pub state_version: i64,
}

impl DeepView for Update {
    type V = UpdateView;

    open spec fn deep_view(&self) -> UpdateView {
        UpdateView {
            tenant_id: self.tenant_id@,
            machine_id: self.machine_id@,
            entity_id: self.entity_id@,
            current_state: self.current_state@,
            context: self.context.deep_view(),
            state_version: self.state_version,
        }
    }
}

/// An entry of the audit log.
#[derive(Debug)]
pub struct HistoryEntry {
    pub from_state: String,
    pub to_state: String,
    pub event_type: String,
    /// JSON text.
    pub event_params: String,
    pub actions_dispatched: Vec<DispatchedAction>,
    /// Empty for flat machines.
    pub region: String,
    /// The time of the event.
    pub timestamp: i64,
}

/// What a [`HistoryEntry`] stands for.
#[verifier::ext_equal]
pub struct HistoryEntryView {
    pub from_state: Seq<char>,
    pub to_state: Seq<char>,
    pub event_type: Seq<char>,
    pub event_params: Seq<char>,
    pub actions_dispatched: Seq<DispatchedActionView>,
    pub region: Seq<char>,
    pub timestamp: i64,
}

impl DeepView for HistoryEntry {
    type V = HistoryEntryView;

    open spec fn deep_view(&self) -> HistoryEntryView {
        HistoryEntryView {
            from_state: self.from_state@,
            to_state: self.to_state@,
            event_type: self.event_type@,
            event_params: self.event_params@,
            actions_dispatched: self.actions_dispatched.deep_view(),
            region: self.region@,
            timestamp: self.timestamp,
        }
    }
}

/// The child entity of a compound state.
#[derive(Debug)]
pub struct Child {
    pub machine_id: String,
    pub entity_id: String,
}

/// What a [`Child`] stands for.
#[verifier::ext_equal]
pub struct ChildView {
    pub machine_id: Seq<char>,
    pub entity_id: Seq<char>,
}

impl DeepView for Child {
    type V = ChildView;

    open spec fn deep_view(&self) -> ChildView {
        ChildView {
            machine_id: self.machine_id@,
            entity_id: self.entity_id@,
        }
    }
}

/// What follows from a transition that has taken effect.
#[derive(Debug)]
pub struct Record {
    pub tenant_id: String,
    pub machine_id: String,
    pub entity_id: String,
    /// Requests to send.
    pub deliveries: Vec<Delivery>,
    pub transition: HistoryEntry,
    /// The joins that followed from it.
    pub joins: Vec<HistoryEntry>,
    /// Children of the compound states that were entered, to be created anew.
    pub children: Vec<Child>,
}

/// What a [`Record`] stands for.
#[verifier::ext_equal]
pub struct RecordView {
    pub tenant_id: Seq<char>,
    pub machine_id: Seq<char>,
    pub entity_id: Seq<char>,
    pub deliveries: Seq<DeliveryView>,
    pub transition: HistoryEntryView,
    pub joins: Seq<HistoryEntryView>,
    pub children: Seq<ChildView>,
}

impl DeepView for Record {
    type V = RecordView;

    open spec fn deep_view(&self) -> RecordView {
        RecordView {
            tenant_id: self.tenant_id@,
            machine_id: self.machine_id@,
            entity_id: self.entity_id@,
            deliveries: self.deliveries.deep_view(),
            transition: self.transition.deep_view(),
            joins: self.joins.deep_view(),
            children: self.children.deep_view(),
        }
    }
}

/// A transition in all its parts.
#[derive(Debug)]
pub struct Plan {
    pub update: Update,
    pub record: Record,
    /// What is answered once the change has taken effect.
    pub response: TransitionResponse,
}

/// What a [`Plan`] stands for.
#[verifier::ext_equal]
pub struct PlanView {
    pub update: UpdateView,
    pub record: RecordView,
    pub response: TransitionResponseView,
}

impl DeepView for Plan {
    type V = PlanView;

    open spec fn deep_view(&self) -> PlanView {
        PlanView {
            update: self.update.deep_view(),
            record: self.record.deep_view(),
            response: self.response.deep_view(),
        }
    }
}

// ── A transition and what follows from it ───────────────────────────────────

/// The actions that the states which joins lead to set off.
pub open spec fn join_entry_actions(
    actions: Seq<ActionDefView>,
    fired: Seq<JoinFiredView>,
) -> Seq<FiredActionView>
    decreases fired.len(),
{
    if fired.len() == 0 {
        Seq::empty()
    } else {
        join_entry_actions(actions, fired.drop_last()) + crate::actions::fired_actions(
            actions,
            fired.last().target_state,
            Some(fired.last().target_region),
        )
    }
}

/// The actions that a join lists itself, confined to the region that it moves.
pub open spec fn own_actions(actions: Seq<ActionDefView>, region: Seq<char>) -> Seq<FiredActionView> {
    actions.map_values(|a: ActionDefView| (a.on_enter, a.action, Some(region)))
}

/// The actions listed by the joins that fired, one join after the other.
pub open spec fn join_own_actions(fired_joins: Seq<JoinDefView>) -> Seq<FiredActionView>
    decreases fired_joins.len(),
{
    if fired_joins.len() == 0 {
        Seq::empty()
    } else {
        join_own_actions(fired_joins.drop_last()) + own_actions(
            fired_joins.last().actions,
            fired_joins.last().target_region,
        )
    }
}

/// All actions that a transition sets off: those of the state that it enters, then those of the
/// states that joins lead to, then those that the joins list themselves.
pub open spec fn all_actions(
    machine: MachineDefinitionView,
    to_state: Seq<char>,
    region: Option<Seq<char>>,
    fired_joins: Seq<JoinDefView>,
    fired: Seq<JoinFiredView>,
) -> Seq<FiredActionView> {
    crate::actions::fired_actions(machine.actions, to_state, region) + join_entry_actions(
        machine.actions,
        fired,
    ) + join_own_actions(fired_joins)
}

/// The ID of the child entity that an entity has in a compound state.
pub open spec fn child_id(entity_id: Seq<char>, state: Seq<char>) -> Seq<char> {
    entity_id + "::sub::"@ + state
}

/// The child of a state, where the state is compound.
pub open spec fn child_of(
    machine: MachineDefinitionView,
    entity_id: Seq<char>,
    region: Seq<char>,
    state: Seq<char>,
) -> Seq<ChildView> {
    match crate::machine::sub_machine_of(machine, state, region) {
        Some(sub) => seq![
            ChildView { machine_id: sub.machine_id, entity_id: child_id(entity_id, state) },
        ],
        None => Seq::empty(),
    }
}

/// The children of the compound states that joins lead to.
pub open spec fn join_children(
    machine: MachineDefinitionView,
    entity_id: Seq<char>,
    fired: Seq<JoinFiredView>,
) -> Seq<ChildView>
    decreases fired.len(),
{
    if fired.len() == 0 {
        Seq::empty()
    } else {
        join_children(machine, entity_id, fired.drop_last()) + child_of(
            machine,
            entity_id,
            fired.last().target_region,
            fired.last().target_state,
        )
    }
}

/// The region that a response names: none for flat machines.
pub open spec fn shown_region(machine: MachineDefinitionView, region: Seq<char>) -> Option<
    Seq<char>,
> {
    if crate::machine::is_parallel(machine) {
        Some(region)
    } else {
        None
    }
}

/// The label of a transition.
pub open spec fn label(
    machine: MachineDefinitionView,
    region: Seq<char>,
    from_state: Seq<char>,
    to_state: Seq<char>,
) -> Seq<char> {
    if crate::machine::is_parallel(machine) {
        region + ": "@ + from_state + " → "@ + to_state
    } else {
        from_state + " → "@ + to_state
    }
}

/// The audit log's entry of a join.
pub open spec fn join_entry(fired: JoinFiredView, timestamp: i64) -> HistoryEntryView {
    HistoryEntryView {
        from_state: fired.from_state,
        to_state: fired.target_state,
        event_type: "$join"@,
        event_params: "{}"@,
        actions_dispatched: Seq::empty(),
        region: fired.target_region,
        timestamp,
    }
}

/// The audit log's entries of joins.
pub open spec fn join_log(fired: Seq<JoinFiredView>, timestamp: i64) -> Seq<HistoryEntryView> {
    fired.map_values(|f: JoinFiredView| join_entry(f, timestamp))
}

/// The states of an entity after a region has moved, and the joins that followed from it.
pub open spec fn moved(
    machine: MachineDefinitionView,
    entity: EntityView,
    region: Seq<char>,
    to_state: Seq<char>,
) -> (Map<Seq<char>, Seq<char>>, Seq<JoinFiredView>) {
    crate::engine::cascade(
        machine.joins,
        crate::entity::stored_state(entity.current_state).insert(region, to_state),
        MAX_JOIN_DEPTH as nat,
    )
}

/// The joins that followed from a move, one for each firing.
pub open spec fn moved_joins(
    machine: MachineDefinitionView,
    entity: EntityView,
    region: Seq<char>,
    to_state: Seq<char>,
) -> Seq<JoinDefView> {
    crate::engine::cascade_joins(
        machine.joins,
        crate::entity::stored_state(entity.current_state).insert(region, to_state),
        MAX_JOIN_DEPTH as nat,
    )
}

/// By what the audit log tells whether an entity has had an event.
pub open spec fn event_key(
    event: EventView,
    machine: MachineDefinitionView,
    entity: EntityView,
) -> EventKeyView {
    EventKeyView {
        tenant_id: event.tenant_id,
        machine_id: machine.machine_id,
        entity_id: entity.entity_id,
        event_type: event.event_type,
        timestamp: event.timestamp,
    }
}

/// By what the entry of a transition is found in the audit log.
pub open spec fn recorded_key(record: RecordView) -> EventKeyView {
    EventKeyView {
        tenant_id: record.tenant_id,
        machine_id: record.machine_id,
        entity_id: record.entity_id,
        event_type: record.transition.event_type,
        timestamp: record.transition.timestamp,
    }
}

/// What moves, and why: a region from one state to another.
pub struct Cause {
    pub region: Seq<char>,
    pub from_state: Seq<char>,
    pub to_state: Seq<char>,
    pub event_type: Seq<char>,
    pub event_params: Seq<char>,
    pub context: Map<Seq<char>, ValueView>,
    pub child_actions: Seq<DispatchedActionView>,
    pub sub_machine: Option<SubMachineTransitionView>,
}

/// A transition in all its parts.
pub open spec fn plan(
    event: EventView,
    machine: MachineDefinitionView,
    entity: EntityView,
    cause: Cause,
) -> PlanView {
    let (states, fired) = moved(machine, entity, cause.region, cause.to_state);
    let region = shown_region(machine, cause.region);
    let fired_joins = moved_joins(machine, entity, cause.region, cause.to_state);
    let actions = all_actions(machine, cause.to_state, region, fired_joins, fired);
    PlanView {
        update: UpdateView {
            tenant_id: event.tenant_id,
            machine_id: machine.machine_id,
            entity_id: entity.entity_id,
            current_state: crate::entity::encoded_state(states),
            context: cause.context,
            state_version: entity.state_version,
        },
        record: RecordView {
            tenant_id: event.tenant_id,
            machine_id: machine.machine_id,
            entity_id: entity.entity_id,
            deliveries: if event.dispatch {
                crate::actions::deliveries(
                    actions,
                    event.event_core_url,
                    crate::actions::Movement {
                        tenant_id: event.tenant_id,
                        machine_id: machine.machine_id,
                        entity_id: entity.entity_id,
                        from_state: cause.from_state,
                        to_state: cause.to_state,
                    },
                )
            } else {
                Seq::empty()
            },
            transition: HistoryEntryView {
                from_state: cause.from_state,
                to_state: cause.to_state,
                event_type: cause.event_type,
                event_params: cause.event_params,
                actions_dispatched: crate::actions::listed_actions(actions),
                region: match region {
                    Some(r) => r,
                    None => Seq::empty(),
                },
                timestamp: event.timestamp,
            },
            joins: join_log(fired, event.timestamp),
            children: child_of(machine, entity.entity_id, cause.region, cause.to_state)
                + join_children(machine, entity.entity_id, fired),
        },
        response: TransitionResponseView {
            entity_id: entity.entity_id,
            previous_state: crate::entity::shown_state(entity.current_state),
            current_state: crate::entity::shown_map(states),
            transition: Some(label(machine, cause.region, cause.from_state, cause.to_state)),
            region,
            triggered_by: event.event_type,
            actions_dispatched: cause.child_actions + crate::actions::listed_actions(actions),
            joins_fired: fired,
            timestamp: event.timestamp,
            reason: None,
            sub_machine: cause.sub_machine,
        },
    }
}

/// The context of an entity after an event: its parameters are added as strings.
pub open spec fn merged_context(
    context: Map<Seq<char>, ValueView>,
    params: Map<Seq<char>, Seq<char>>,
) -> Map<Seq<char>, ValueView> {
    context.union_prefer_right(params.map_values(|text: Seq<char>| ValueView::String(text)))
}

/// What moves when an event sets off a transition.
pub open spec fn event_cause(
    event: EventView,
    entity: EntityView,
    result: crate::engine::TransitionResultView,
) -> Cause {
    Cause {
        region: result.region,
        from_state: result.from_state,
        to_state: result.to_state,
        event_type: event.event_type,
        event_params: crate::json_text::string_object_text(event.params),
        context: merged_context(entity.context, event.params),
        child_actions: Seq::empty(),
        sub_machine: None,
    }
}

/// Appends the actions that a join lists itself.
fn push_own_actions(all: &mut Vec<FiredAction>, actions: &Vec<ActionDef>, region: &String)
    ensures
        final(all).deep_view() == old(all).deep_view() + own_actions(actions.deep_view(), region@),
{
    let ghost before = all.deep_view();
    let ghost own = own_actions(actions.deep_view(), region@);
    let mut i: usize = 0;
    assert(before + own.take(0) =~= before);
    while i < actions.len()
        invariant
            i <= actions.len(),
            own == own_actions(actions.deep_view(), region@),
            all.deep_view() == before + own.take(i as int),
        decreases actions.len() - i,
    {
        let a = &actions[i];
        let action = (a.on_enter.clone(), a.action.duplicate(), Some(region.clone()));
        let ghost so_far = all.deep_view();
        all.push(action);
        assert(own[i as int] == action.deep_view());
        assert(all.deep_view() =~= so_far.push(action.deep_view()));
        assert(own.take(i + 1) =~= own.take(i as int).push(own[i as int]));
        assert(before + own.take(i + 1) =~= (before + own.take(i as int)).push(own[i as int]));
        i = i + 1;
    }
    assert(own.take(i as int) =~= own);
}

/// All actions that a transition sets off.
pub fn collect_all_actions(
    machine: &MachineDefinition,
    to_state: &str,
    region: Option<&str>,
    fired_joins: &Vec<&JoinDef>,
    fired: &Vec<JoinFired>,
) -> (all: Vec<FiredAction>)
    ensures
        all.deep_view() == all_actions(
            machine.deep_view(),
            to_state@,
            region.deep_view(),
            fired_joins.deep_view(),
            fired.deep_view(),
        ),
{
    let mut all: Vec<FiredAction> = collect_actions_for_state(
        machine.actions.as_slice(),
        to_state,
        region,
    );
    let ghost first = all.deep_view();
    let ghost list = fired.deep_view();
    let ghost actions = machine.actions.deep_view();
    assert(machine.actions@.len() == actions.len());
    let mut i: usize = 0;
    assert(first + join_entry_actions(actions, list.take(0)) =~= first);
    while i < fired.len()
        invariant
            i <= fired.len(),
            list == fired.deep_view(),
            actions == machine.actions.deep_view(),
            all.deep_view() == first + join_entry_actions(actions, list.take(i as int)),
        decreases fired.len() - i,
    {
        assert(list.take(i + 1).drop_last() =~= list.take(i as int));
        assert(list.take(i + 1).last() == fired[i as int].deep_view());
        let mut entered = collect_actions_for_state(
            machine.actions.as_slice(),
            fired[i].target_state.as_str(),
            Some(fired[i].target_region.as_str()),
        );
        let ghost so_far = all.deep_view();
        let ghost more = entered.deep_view();
        all.append(&mut entered);
        assert(all.deep_view() =~= so_far + more);
        assert(first + join_entry_actions(actions, list.take(i + 1)) =~= so_far + more);
        i = i + 1;
    }
    assert(list.take(i as int) =~= list);
    let ghost second = all.deep_view();
    let ghost sources = fired_joins.deep_view();
    let mut i: usize = 0;
    assert(second + join_own_actions(sources.take(0)) =~= second);
    while i < fired_joins.len()
        invariant
            i <= fired_joins.len(),
            sources == fired_joins.deep_view(),
            all.deep_view() == second + join_own_actions(sources.take(i as int)),
        decreases fired_joins.len() - i,
    {
        let join: &JoinDef = fired_joins[i];
        assert(sources.take(i + 1).drop_last() =~= sources.take(i as int));
        assert(sources.take(i + 1).last() == join.deep_view());
        let ghost so_far = all.deep_view();
        push_own_actions(&mut all, &join.actions, &join.target_region);
        assert(second + join_own_actions(sources.take(i + 1)) =~= so_far + own_actions(
            join.actions.deep_view(),
            join.target_region@,
        ));
        i = i + 1;
    }
    assert(sources.take(i as int) =~= sources);
    all
}

/// The context of an entity after an event.
pub fn merge_context(context: &StringMap<Value>, params: &StringMap<String>) -> (merged: StringMap<
    Value,
>)
    ensures
        merged.deep_view() == merged_context(context.deep_view(), params.deep_view()),
{
    let mut merged = context.duplicate();
    let n = params.len();
    let mut i: usize = 0;
    let ghost start = context.deep_view();
    while i < n
        invariant
            i <= n == params.entries().len(),
            start == context.deep_view(),
            forall|k: Seq<char>| #[trigger]
                merged.deep_view().contains_key(k) ==> start.contains_key(k) || (exists|j: int|
                    0 <= j < i && (#[trigger] params.entries()[j]).0@ == k),
            forall|k: Seq<char>| #[trigger]
                start.contains_key(k) ==> merged.deep_view().contains_key(k),
            forall|k: Seq<char>| #[trigger]
                merged.deep_view().contains_key(k) && (forall|j: int|
                    0 <= j < i ==> (#[trigger] params.entries()[j]).0@ != k)
                    ==> merged.deep_view()[k] == start[k],
            forall|j: int|
                0 <= j < i ==> {
                    &&& merged.deep_view().contains_key((#[trigger] params.entries()[j]).0@)
                    &&& merged.deep_view()[params.entries()[j].0@] == ValueView::String(
                        params.deep_view()[params.entries()[j].0@],
                    )
                },
        decreases n - i,
    {
        let (key, text) = params.entry(i);
        let ghost before = merged.deep_view();
        merged.insert(key.to_owned(), Value::String(text.clone()));
        assert forall|k: Seq<char>| #[trigger] merged.deep_view().contains_key(k) implies
            start.contains_key(k) || (exists|j: int|
            0 <= j < i + 1 && (#[trigger] params.entries()[j]).0@ == k) by {
            if k == key@ {
                assert(params.entries()[i as int].0@ == k);
            } else {
                assert(before.contains_key(k));
            }
        }
        assert forall|k: Seq<char>| #[trigger]
            merged.deep_view().contains_key(k) && (forall|j: int|
                0 <= j < i + 1 ==> (#[trigger] params.entries()[j]).0@ != k) implies
            merged.deep_view()[k] == start[k] by {
            assert(params.entries()[i as int].0@ != k);
            assert(before.contains_key(k));
        }
        i = i + 1;
    }
    proof {
        let right = merged_context(context.deep_view(), params.deep_view());
        assert forall|k: Seq<char>| merged.deep_view().contains_key(k) <==> right.contains_key(k) by {
            if params.deep_view().contains_key(k) {
                let j = choose|j: int|
                    0 <= j < params.entries().len() && (#[trigger] params.entries()[j]).0@ == k;
                assert(merged.deep_view().contains_key(params.entries()[j].0@));
            }
        }
        assert forall|k: Seq<char>| merged.deep_view().contains_key(k) implies
            merged.deep_view()[k] == right[k] by {
            if params.deep_view().contains_key(k) {
                let j = choose|j: int|
                    0 <= j < params.entries().len() && (#[trigger] params.entries()[j]).0@ == k;
                assert(merged.deep_view()[params.entries()[j].0@] == ValueView::String(
                    params.deep_view()[params.entries()[j].0@],
                ));
            }
        }
        assert(merged.deep_view() =~= right);
    }
    merged
}

/// The ID of the child entity that an entity has in a compound state.
pub fn child_entity_id(entity_id: &str, state: &str) -> (id: String)
    ensures
        id@ == child_id(entity_id@, state@),
{
    concat3(entity_id, "::sub::", state)
}

/// Appends the child of a state, where the state is compound.
fn push_child(
    children: &mut Vec<Child>,
    machine: &MachineDefinition,
    entity_id: &str,
    region: &str,
    state: &str,
)
    ensures
        final(children).deep_view() == old(children).deep_view() + child_of(
            machine.deep_view(),
            entity_id@,
            region@,
            state@,
        ),
{
    let ghost before = children.deep_view();
    if let Some(sub) = machine.sub_machine_for_state(state, region) {
        let child = Child {
            machine_id: sub.machine_id.clone(),
            entity_id: child_entity_id(entity_id, state),
        };
        children.push(child);
        assert(children.deep_view() =~= before + seq![child.deep_view()]);
    } else {
        assert(before + Seq::<ChildView>::empty() =~= before);
    }
}

/// The children of the compound states that a transition and the joins after it lead to.
pub fn entered_children(
    machine: &MachineDefinition,
    entity_id: &str,
    region: &str,
    to_state: &str,
    fired: &Vec<JoinFired>,
) -> (children: Vec<Child>)
    ensures
        children.deep_view() == child_of(machine.deep_view(), entity_id@, region@, to_state@)
            + join_children(machine.deep_view(), entity_id@, fired.deep_view()),
{
    let mut children: Vec<Child> = Vec::new();
    push_child(&mut children, machine, entity_id, region, to_state);
    let ghost first = children.deep_view();
    let ghost list = fired.deep_view();
    assert(first =~= child_of(machine.deep_view(), entity_id@, region@, to_state@));
    assert(first + join_children(machine.deep_view(), entity_id@, list.take(0)) =~= first);
    let mut i: usize = 0;
    while i < fired.len()
        invariant
            i <= fired.len(),
            list == fired.deep_view(),
            children.deep_view() == first + join_children(
                machine.deep_view(),
                entity_id@,
                list.take(i as int),
            ),
        decreases fired.len() - i,
    {
        let join = &fired[i];
        assert(list.take(i + 1).drop_last() =~= list.take(i as int));
        assert(list.take(i + 1).last() == join.deep_view());
        let ghost so_far = children.deep_view();
        push_child(
            &mut children,
            machine,
            entity_id,
            join.target_region.as_str(),
            join.target_state.as_str(),
        );
        assert(first + join_children(machine.deep_view(), entity_id@, list.take(i + 1)) =~= so_far
            + child_of(machine.deep_view(), entity_id@, join.target_region@, join.target_state@));
        i = i + 1;
    }
    assert(list.take(i as int) =~= list);
    children
}

/// The entries of the audit log for joins.
pub fn join_entries(fired: &Vec<JoinFired>, timestamp: i64) -> (entries: Vec<HistoryEntry>)
    ensures
        entries.deep_view() == join_log(fired.deep_view(), timestamp),
{
    let mut entries: Vec<HistoryEntry> = Vec::new();
    let ghost list = join_log(fired.deep_view(), timestamp);
    let mut i: usize = 0;
    while i < fired.len()
        invariant
            i <= fired.len(),
            entries.len() == i,
            list == join_log(fired.deep_view(), timestamp),
            forall|j: int| 0 <= j < i ==> (#[trigger] entries@[j]).deep_view() == list[j],
        decreases fired.len() - i,
    {
        let join = &fired[i];
        let entry = HistoryEntry {
            from_state: join.from_state.clone(),
            to_state: join.target_state.clone(),
            event_type: "$join".to_owned(),
            event_params: "{}".to_owned(),
            actions_dispatched: Vec::new(),
            region: join.target_region.clone(),
            timestamp,
        };
        assert(entry.deep_view() =~= join_entry(join.deep_view(), timestamp));
        entries.push(entry);
        i = i + 1;
    }
    assert(entries.deep_view() =~= list);
    entries
}

/// The label of a transition.
pub fn transition_label(
    machine: &MachineDefinition,
    region: &str,
    from_state: &str,
    to_state: &str,
) -> (text: String)
    ensures
        text@ == label(machine.deep_view(), region@, from_state@, to_state@),
{
    if machine.is_parallel() {
        concat5(region, ": ", from_state, " → ", to_state)
    } else {
        concat3(from_state, " → ", to_state)
    }
}

/// What moves, and why.
pub struct Move {
    pub region: String,
    pub from_state: String,
    pub to_state: String,
    pub event_type: String,
    /// JSON text.
    pub event_params: String,
    /// The context of the entity from now on.
    pub context: StringMap<Value>,
    /// What the event has set off in a child machine; the response lists it first.
    pub child_actions: Vec<DispatchedAction>,
    /// What became of the event in a child machine.
    pub sub_machine: Option<SubMachineTransition>,
}

impl DeepView for Move {
    type V = Cause;

    open spec fn deep_view(&self) -> Cause {
        Cause {
            region: self.region@,
            from_state: self.from_state@,
            to_state: self.to_state@,
            event_type: self.event_type@,
            event_params: self.event_params@,
            context: self.context.deep_view(),
            child_actions: self.child_actions.deep_view(),
            sub_machine: self.sub_machine.deep_view(),
        }
    }
}

/// Plans a transition in all its parts. The state to be stored denotes the states that the
/// transition and the joins lead to, and the response shows it as it will be shown later.
pub fn plan_move(
    event: &Event,
    machine: &MachineDefinition,
    entity: &Entity,
    cause: Move,
) -> (planned: Plan)
    ensures
        planned.deep_view() == plan(
            event.deep_view(),
            machine.deep_view(),
            entity.deep_view(),
            cause.deep_view(),
        ),
        ({
            let (states, _) = moved(
                machine.deep_view(),
                entity.deep_view(),
                cause.region@,
                cause.to_state@,
            );
            &&& crate::entity::keeps_its_meaning(states) ==> crate::entity::stored_state(
                planned.update.current_state@,
            ) == states
            &&& crate::entity::keeps_its_meaning(states) && planned.response.joins_fired.len() < 10
                ==> crate::laws::joins::are_at_rest(
                machine.deep_view().joins,
                crate::entity::stored_state(planned.update.current_state@),
            )
            &&& crate::entity::keeps_its_look(states) ==> crate::entity::shown_state(
                planned.update.current_state@,
            ) == planned.response.current_state.deep_view()
        }),
{
    let mut states = entity.state_map();
    states.insert(cause.region.clone(), cause.to_state.clone());
    let (fired_joins, fired) = fire_joins(machine, &mut states, MAX_JOIN_DEPTH);
    let region: Option<String> = if machine.is_parallel() {
        Some(cause.region.clone())
    } else {
        None
    };
    let shown: Option<&str> = match &region {
        Some(r) => Some(r.as_str()),
        None => None,
    };
    let actions = collect_all_actions(
        machine,
        cause.to_state.as_str(),
        shown,
        &fired_joins,
        &fired,
    );
    let (listed, deliveries) = if event.dispatch {
        dispatch_actions(
            event.event_core_url.as_str(),
            actions,
            event.tenant_id.as_str(),
            machine.machine_id.as_str(),
            entity.entity_id.as_str(),
            cause.from_state.as_str(),
            cause.to_state.as_str(),
        )
    } else {
        (build_action_list(actions), Vec::new())
    };
    let mut shown_actions = cause.child_actions;
    let ghost first = shown_actions.deep_view();
    let mut more = listed.duplicate();
    let ghost own = more.deep_view();
    shown_actions.append(&mut more);
    assert(shown_actions.deep_view() =~= first + own);
    let update = Update {
        tenant_id: event.tenant_id.clone(),
        machine_id: machine.machine_id.clone(),
        entity_id: entity.entity_id.clone(),
        current_state: Entity::encode_state(&states),
        context: cause.context,
        state_version: entity.state_version,
    };
    let record = Record {
        tenant_id: event.tenant_id.clone(),
        machine_id: machine.machine_id.clone(),
        entity_id: entity.entity_id.clone(),
        deliveries,
        transition: HistoryEntry {
            from_state: cause.from_state.clone(),
            to_state: cause.to_state.clone(),
            event_type: cause.event_type,
            event_params: cause.event_params,
            actions_dispatched: listed,
            region: match &region {
                Some(r) => r.clone(),
                None => String::new(),
            },
            timestamp: event.timestamp,
        },
        joins: join_entries(&fired, event.timestamp),
        children: entered_children(
            machine,
            entity.entity_id.as_str(),
            cause.region.as_str(),
            cause.to_state.as_str(),
            &fired,
        ),
    };
    let response = TransitionResponse {
        entity_id: entity.entity_id.clone(),
        previous_state: show_stored_state(entity.current_state.as_str()),
        current_state: state_map_to_value(&states),
        transition: Some(
            transition_label(
                machine,
                cause.region.as_str(),
                cause.from_state.as_str(),
                cause.to_state.as_str(),
            ),
        ),
        region,
        triggered_by: event.event_type.clone(),
        actions_dispatched: shown_actions,
        joins_fired: fired,
        timestamp: event.timestamp,
        reason: None,
        sub_machine: cause.sub_machine,
    };
    let planned = Plan { update, record, response };
    proof {
        crate::laws::moves::law_moves_let_joins_follow(
            event.deep_view(),
            machine.deep_view(),
            entity.deep_view(),
            cause.deep_view(),
        );
    }
    assert(planned.deep_view() =~= plan(
        event.deep_view(),
        machine.deep_view(),
        entity.deep_view(),
        cause.deep_view(),
    ));
    planned
}

// ── Laws ────────────────────────────────────────────────────────────────────

/// Actions that are not to be dispatched are listed all the same, and none is sent; those that are
/// dispatched are sent one by one, as they are listed. The response lists them behind those that
/// the event has set off in a child machine.
pub proof fn law_actions_are_listed_in_any_case(
    event: EventView,
    machine: MachineDefinitionView,
    entity: EntityView,
    cause: Cause,
)
    ensures
        ({
            let planned = plan(event, machine, entity, cause);
            let silent = plan(
                (EventView { dispatch: false, ..event }),
                machine,
                entity,
                cause,
            );
            let listed = planned.record.transition.actions_dispatched;
            &&& silent.record.deliveries.len() == 0
            &&& silent.response == planned.response
            &&& planned.response.actions_dispatched == cause.child_actions + listed
            &&& event.dispatch ==> planned.record.deliveries.len() == listed.len()
        }),
{
}

/// An action that a join lists is set off by a move exactly if a join that lists it has fired.
pub proof fn law_only_fired_joins_act(
    joins: Seq<JoinDefView>,
    states: Map<Seq<char>, Seq<char>>,
    rounds: nat,
    action: FiredActionView,
)
    ensures
        join_own_actions(crate::engine::cascade_joins(joins, states, rounds)).contains(action)
            <==> exists|k: int|
            0 <= k < joins.len() && crate::engine::fires_within(
                #[trigger] joins[k],
                joins,
                states,
                rounds,
            ) && own_actions(joins[k].actions, joins[k].target_region).contains(action),
{
    let sources = crate::engine::cascade_joins(joins, states, rounds);
    lemma_own_actions(sources, action);
    if join_own_actions(sources).contains(action) {
        let i = choose|i: int|
            0 <= i < sources.len() && own_actions(
                (#[trigger] sources[i]).actions,
                sources[i].target_region,
            ).contains(action);
        assert(sources.contains(sources[i]));
        crate::engine::law_listed_joins_have_fired(sources[i], joins, states, rounds);
        let k = choose|k: int| 0 <= k < joins.len() && joins[k] == sources[i];
        assert(crate::engine::fires_within(joins[k], joins, states, rounds));
    }
    if exists|k: int|
        0 <= k < joins.len() && crate::engine::fires_within(
            #[trigger] joins[k],
            joins,
            states,
            rounds,
        ) && own_actions(joins[k].actions, joins[k].target_region).contains(action) {
        let k = choose|k: int|
            0 <= k < joins.len() && crate::engine::fires_within(
                #[trigger] joins[k],
                joins,
                states,
                rounds,
            ) && own_actions(joins[k].actions, joins[k].target_region).contains(action);
        crate::engine::law_listed_joins_have_fired(joins[k], joins, states, rounds);
        let i = choose|i: int| 0 <= i < sources.len() && sources[i] == joins[k];
        assert(own_actions(sources[i].actions, sources[i].target_region).contains(action));
    }
}

/// An action is among those of a row of joins exactly if one of them lists it.
proof fn lemma_own_actions(fired_joins: Seq<JoinDefView>, action: FiredActionView)
    ensures
        join_own_actions(fired_joins).contains(action) <==> exists|i: int|
            0 <= i < fired_joins.len() && own_actions(
                (#[trigger] fired_joins[i]).actions,
                fired_joins[i].target_region,
            ).contains(action),
    decreases fired_joins.len(),
{
    if fired_joins.len() > 0 {
        let rest = fired_joins.drop_last();
        let last = fired_joins.last();
        lemma_own_actions(rest, action);
        let earlier = join_own_actions(rest);
        let own = own_actions(last.actions, last.target_region);
        let all = join_own_actions(fired_joins);
        assert(all =~= earlier + own);
        if all.contains(action) {
            let j = choose|j: int| 0 <= j < all.len() && all[j] == action;
            if j < earlier.len() {
                assert(earlier[j] == action);
                let i = choose|i: int|
                    0 <= i < rest.len() && own_actions(
                        (#[trigger] rest[i]).actions,
                        rest[i].target_region,
                    ).contains(action);
                assert(fired_joins[i] == rest[i]);
            } else {
                assert(own[j - earlier.len()] == action);
                assert(fired_joins[fired_joins.len() - 1] == last);
            }
        }
        if exists|i: int|
            0 <= i < fired_joins.len() && own_actions(
                (#[trigger] fired_joins[i]).actions,
                fired_joins[i].target_region,
            ).contains(action) {
            let i = choose|i: int|
                0 <= i < fired_joins.len() && own_actions(
                    (#[trigger] fired_joins[i]).actions,
                    fired_joins[i].target_region,
                ).contains(action);
            if i < rest.len() {
                assert(rest[i] == fired_joins[i]);
                let j = choose|j: int| 0 <= j < earlier.len() && earlier[j] == action;
                assert(all[j] == action);
            } else {
                let j = choose|j: int| 0 <= j < own.len() && own[j] == action;
                assert(all[earlier.len() + j] == action);
            }
        }
    }
}

/// The transition that an event sets off is recorded under the key by which the event is looked
/// for: when the event comes again, it is found.
pub proof fn law_recorded_events_are_found(
    event: EventView,
    machine: MachineDefinitionView,
    entity: EntityView,
    result: crate::engine::TransitionResultView,
)
    ensures
        recorded_key(plan(event, machine, entity, event_cause(event, entity, result)).record)
            == event_key(event, machine, entity),
{
}

/// Entering a compound state creates its child anew, under the ID made of those of the entity and
/// the state.
pub proof fn law_entered_compounds_get_a_child(
    event: EventView,
    machine: MachineDefinitionView,
    entity: EntityView,
    cause: Cause,
)
    ensures
        ({
            let children = plan(event, machine, entity, cause).record.children;
            crate::machine::sub_machine_of(machine, cause.to_state, cause.region) matches Some(sub)
                ==> children.len() > 0 && children[0] == (ChildView {
                machine_id: sub.machine_id,
                entity_id: entity.entity_id + "::sub::"@ + cause.to_state,
            })
        }),
{
}

/// The audit log has one entry for a transition, which names the event that set it off, and one
/// for each join that followed from it.
pub proof fn law_every_move_is_recorded(
    event: EventView,
    machine: MachineDefinitionView,
    entity: EntityView,
    result: crate::engine::TransitionResultView,
)
    ensures
        ({
            let planned = plan(event, machine, entity, event_cause(event, entity, result));
            &&& planned.record.transition.event_type == event.event_type
            &&& planned.record.transition.from_state == result.from_state
            &&& planned.record.transition.to_state == result.to_state
            &&& planned.record.transition.timestamp == event.timestamp
            &&& planned.record.transition.actions_dispatched
                == planned.response.actions_dispatched
            &&& planned.record.joins.len() == planned.response.joins_fired.len()
            &&& forall|i: int|
                0 <= i < planned.record.joins.len() ==> {
                    &&& (#[trigger] planned.record.joins[i]).region
                        == planned.response.joins_fired[i].target_region
                    &&& planned.record.joins[i].to_state
                        == planned.response.joins_fired[i].target_state
                    &&& planned.record.joins[i].timestamp == event.timestamp
                }
        }),
{
    let planned = plan(event, machine, entity, event_cause(event, entity, result));
    assert(planned.response.actions_dispatched
        =~= planned.record.transition.actions_dispatched);
}

} // verus!
