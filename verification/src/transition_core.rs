//! What becomes of an event: the transition that it sets off, and the child machines to which it is
//! forwarded.
//!
//! An [`Execution`] decides; whoever runs it carries out one [`Step`] after the other and hands
//! back what came of it as a [`Reply`].

use vstd::prelude::*;

use crate::engine::evaluate;
use crate::entity::show_stored_state;
use crate::errors::{AppError, AppErrorView};
use crate::json_text::{debug_string_map, write_string_object};
use crate::models::{
    DispatchedAction, DispatchedActionView, Entity, EntityView, JoinFired, MachineDefinition,
    MachineDefinitionView, RegionDefView, StateValue, StateValueView, SubMachineDef,
    SubMachineDefView, SubMachineTransition, SubMachineTransitionView, TransitionResponse,
    TransitionResponseView, DEFAULT_REGION,
};
use crate::plan::{
    child_entity_id, merge_context, plan_move, Cause, Event, EventKey, EventKeyView, EventView, Move,
    Plan, PlanView, Record, RecordView, Update, UpdateView,
};
use crate::string_map::{Duplicate, StringMap};
use crate::text::concat5;

verus! {

/// A compound state in which an entity is.
#[derive(Debug)]
pub struct Compound {
    pub state: String,
    pub region: String,
    pub sub_machine: SubMachineDef,
}

/// What a [`Compound`] stands for.
#[verifier::ext_equal]
pub struct CompoundView {
    pub state: Seq<char>,
    pub region: Seq<char>,
    pub sub_machine: SubMachineDefView,
}

impl DeepView for Compound {
    type V = CompoundView;

    open spec fn deep_view(&self) -> CompoundView {
        CompoundView {
            state: self.state@,
            region: self.region@,
            sub_machine: self.sub_machine.deep_view(),
        }
    }
}

/// The compound states to which an event is offered. Those before `at` have not handled it.
#[derive(Debug)]
pub struct Forwarding {
    pub compounds: Vec<Compound>,
    pub at: usize,
}

/// What a [`Forwarding`] stands for.
#[verifier::ext_equal]
pub struct ForwardingView {
    pub compounds: Seq<CompoundView>,
    pub at: usize,
}

impl DeepView for Forwarding {
    type V = ForwardingView;

    open spec fn deep_view(&self) -> ForwardingView {
        ForwardingView {
            compounds: self.compounds.deep_view(),
            at: self.at,
        }
    }
}

/// What the handling of an event by one machine is waiting for.
#[derive(Debug)]
pub enum Stage {
    /// Whether the event has been handled before.
    Checking,
    /// Whether a change took effect.
    Updating { record: Record, response: TransitionResponse },
    /// That a change is recorded.
    Recording { response: TransitionResponse },
    /// The machine of a compound state.
    FindingMachine(Forwarding),
    /// The child entity of a compound state.
    FindingChild { forwarding: Forwarding, child_machine: MachineDefinition },
    /// What became of the event in the child machine.
    AwaitingChild(Forwarding),
}

/// What a [`Stage`] stands for.
#[verifier::ext_equal]
pub enum StageView {
    Checking,
    Updating { record: RecordView, response: TransitionResponseView },
    Recording { response: TransitionResponseView },
    FindingMachine(ForwardingView),
    FindingChild { forwarding: ForwardingView, child_machine: MachineDefinitionView },
    AwaitingChild(ForwardingView),
}

impl DeepView for Stage {
    type V = StageView;

    open spec fn deep_view(&self) -> StageView {
        match self {
            Stage::Checking => StageView::Checking,
            Stage::Updating { record, response } => StageView::Updating { record: record.deep_view(), response: response.deep_view() },
            Stage::Recording { response } => StageView::Recording { response: response.deep_view() },
            Stage::FindingMachine(inner) => StageView::FindingMachine(inner.deep_view()),
            Stage::FindingChild { forwarding, child_machine } => StageView::FindingChild { forwarding: forwarding.deep_view(), child_machine: child_machine.deep_view() },
            Stage::AwaitingChild(inner) => StageView::AwaitingChild(inner.deep_view()),
        }
    }
}

/// The handling of an event by one machine.
#[derive(Debug)]
pub struct Frame {
    pub machine: MachineDefinition,
    pub entity: Entity,
    pub stage: Stage,
}

/// What a [`Frame`] stands for.
#[verifier::ext_equal]
pub struct FrameView {
    pub machine: MachineDefinitionView,
    pub entity: EntityView,
    pub stage: StageView,
}

impl DeepView for Frame {
    type V = FrameView;

    open spec fn deep_view(&self) -> FrameView {
        FrameView {
            machine: self.machine.deep_view(),
            entity: self.entity.deep_view(),
            stage: self.stage.deep_view(),
        }
    }
}

/// The handling of an event, by a machine and by the child machines to which it is forwarded.
#[derive(Debug)]
pub struct Execution {
    pub event: Event,
    /// The child is on top of its parent.
    pub frames: Vec<Frame>,
}

/// What an [`Execution`] stands for.
#[verifier::ext_equal]
pub struct ExecutionView {
    pub event: EventView,
    pub frames: Seq<FrameView>,
}

impl DeepView for Execution {
    type V = ExecutionView;

    open spec fn deep_view(&self) -> ExecutionView {
        ExecutionView {
            event: self.event.deep_view(),
            frames: self.frames.deep_view(),
        }
    }
}

/// What to do next.
#[derive(Debug)]
pub enum Step {
    /// Find out whether the audit log has this event for the entity.
    FindDuplicate(EventKey),
    /// Load a machine.
    LoadMachine { tenant_id: String, machine_id: String },
    /// Load an entity, which is created in the initial state of its machine if there is none.
    LoadOrCreateChild {
        tenant_id: String,
        machine_id: String,
        entity_id: String,
        machine: MachineDefinition,
    },
    /// Change an entity.
    Update(Update),
    /// Send the requests that follow from a change, and record it.
    Record(Record),
    /// Answer the event.
    Finish(TransitionResponse),
    /// Refuse the event.
    Fail(AppError),
}

/// What a [`Step`] stands for.
#[verifier::ext_equal]
pub enum StepView {
    FindDuplicate(EventKeyView),
    LoadMachine { tenant_id: Seq<char>, machine_id: Seq<char> },
    LoadOrCreateChild {
        tenant_id: Seq<char>,
        machine_id: Seq<char>,
        entity_id: Seq<char>,
        machine: MachineDefinitionView,
    },
    Update(UpdateView),
    Record(RecordView),
    Finish(TransitionResponseView),
    Fail(AppErrorView),
}

impl DeepView for Step {
    type V = StepView;

    open spec fn deep_view(&self) -> StepView {
        match self {
            Step::FindDuplicate(inner) => StepView::FindDuplicate(inner.deep_view()),
            Step::LoadMachine { tenant_id, machine_id } => StepView::LoadMachine {
                tenant_id: tenant_id@,
                machine_id: machine_id@,
            },
            Step::LoadOrCreateChild { tenant_id, machine_id, entity_id, machine } =>
                StepView::LoadOrCreateChild {
                    tenant_id: tenant_id@,
                    machine_id: machine_id@,
                    entity_id: entity_id@,
                    machine: machine.deep_view(),
                },
            Step::Update(inner) => StepView::Update(inner.deep_view()),
            Step::Record(inner) => StepView::Record(inner.deep_view()),
            Step::Finish(inner) => StepView::Finish(inner.deep_view()),
            Step::Fail(inner) => StepView::Fail(inner.deep_view()),
        }
    }
}

/// What came of a step.
#[derive(Debug)]
pub enum Reply {
    /// Whether the audit log has the event.
    Duplicate(bool),
    /// The machine that was asked for.
    Machine(MachineDefinition),
    /// The entity that was asked for.
    Child(Entity),
    /// How many entities were changed.
    Updated(u64),
    /// The change is recorded.
    Recorded,
    /// The step failed.
    Failed(AppError),
}

/// What a [`Reply`] stands for.
#[verifier::ext_equal]
pub enum ReplyView {
    Duplicate(bool),
    Machine(MachineDefinitionView),
    Child(EntityView),
    Updated(u64),
    Recorded,
    Failed(AppErrorView),
}

impl DeepView for Reply {
    type V = ReplyView;

    open spec fn deep_view(&self) -> ReplyView {
        match self {
            Reply::Duplicate(inner) => ReplyView::Duplicate(*inner),
            Reply::Machine(inner) => ReplyView::Machine(inner.deep_view()),
            Reply::Child(inner) => ReplyView::Child(inner.deep_view()),
            Reply::Updated(inner) => ReplyView::Updated(*inner),
            Reply::Recorded => ReplyView::Recorded,
            Reply::Failed(inner) => ReplyView::Failed(inner.deep_view()),
        }
    }
}

// ── Responses to events that move nothing ───────────────────────────────────

/// The response where the entity stays in its state.
pub open spec fn unmoved(
    event: EventView,
    entity: EntityView,
    region: Option<Seq<char>>,
    reason: Option<Seq<char>>,
    actions: Seq<DispatchedActionView>,
    sub_machine: Option<SubMachineTransitionView>,
) -> TransitionResponseView {
    TransitionResponseView {
        entity_id: entity.entity_id,
        previous_state: crate::entity::shown_state(entity.current_state),
        current_state: crate::entity::shown_state(entity.current_state),
        transition: None,
        region,
        triggered_by: event.event_type,
        actions_dispatched: actions,
        joins_fired: Seq::empty(),
        timestamp: event.timestamp,
        reason,
        sub_machine,
    }
}

/// The response to an event that was handled before.
pub open spec fn duplicate_response(event: EventView, entity: EntityView) -> TransitionResponseView {
    unmoved(
        event,
        entity,
        None,
        Some("duplicate event (already processed)"@),
        Seq::empty(),
        None,
    )
}

/// How the state of an entity is told: as it is stored, or by region.
pub open spec fn described_state(machine: MachineDefinitionView, entity: EntityView) -> Seq<char> {
    if crate::machine::is_parallel(machine) {
        crate::json_text::debug_text(crate::entity::stored_state(entity.current_state))
    } else {
        entity.current_state
    }
}

/// The response to an event that sets nothing off.
pub open spec fn no_transition_response(
    event: EventView,
    machine: MachineDefinitionView,
    entity: EntityView,
) -> TransitionResponseView {
    unmoved(
        event,
        entity,
        None,
        Some(
            "no transition from '"@ + described_state(machine, entity) + "' on '"@
                + event.event_type + "'"@,
        ),
        Seq::empty(),
        None,
    )
}

/// The response where the entity stays in its state.
fn stay(
    event: &Event,
    entity: &Entity,
    region: Option<String>,
    reason: Option<String>,
    actions: Vec<DispatchedAction>,
    sub_machine: Option<SubMachineTransition>,
) -> (response: TransitionResponse)
    ensures
        response.deep_view() == unmoved(
            event.deep_view(),
            entity.deep_view(),
            region.deep_view(),
            reason.deep_view(),
            actions.deep_view(),
            sub_machine.deep_view(),
        ),
{
    let joins_fired: Vec<JoinFired> = Vec::new();
    assert(joins_fired.deep_view() =~= Seq::empty());
    TransitionResponse {
        entity_id: entity.entity_id.clone(),
        previous_state: show_stored_state(entity.current_state.as_str()),
        current_state: show_stored_state(entity.current_state.as_str()),
        transition: None,
        region,
        triggered_by: event.event_type.clone(),
        actions_dispatched: actions,
        joins_fired,
        timestamp: event.timestamp,
        reason,
        sub_machine,
    }
}

/// The response to an event that was handled before.
pub fn answer_duplicate(event: &Event, entity: &Entity) -> (response: TransitionResponse)
    ensures
        response.deep_view() == duplicate_response(event.deep_view(), entity.deep_view()),
{
    stay(
        event,
        entity,
        None,
        Some("duplicate event (already processed)".to_owned()),
        no_actions(),
        None,
    )
}

/// The response to an event that sets nothing off.
pub fn answer_no_transition(
    event: &Event,
    machine: &MachineDefinition,
    entity: &Entity,
) -> (response: TransitionResponse)
    ensures
        response.deep_view() == no_transition_response(
            event.deep_view(),
            machine.deep_view(),
            entity.deep_view(),
        ),
{
    let described: String = if machine.is_parallel() {
        debug_string_map(&entity.state_map())
    } else {
        entity.current_state.clone()
    };
    let reason = concat5(
        "no transition from '",
        described.as_str(),
        "' on '",
        event.event_type.as_str(),
        "'",
    );
    stay(event, entity, None, Some(reason), no_actions(), None)
}

// ── Compound states ─────────────────────────────────────────────────────────

/// The compound states of a parallel machine in which an entity is, region by region.
pub open spec fn regional_compounds(
    regions: Seq<RegionDefView>,
    states: Map<Seq<char>, Seq<char>>,
) -> Seq<CompoundView>
    decreases regions.len(),
{
    if regions.len() == 0 {
        Seq::empty()
    } else {
        let region = regions.last();
        let earlier = regional_compounds(regions.drop_last(), states);
        if states.contains_key(region.id) && region.sub_machines.contains_key(states[region.id]) {
            earlier.push(
                CompoundView {
                    state: states[region.id],
                    region: region.id,
                    sub_machine: region.sub_machines[states[region.id]],
                },
            )
        } else {
            earlier
        }
    }
}

/// The compound states in which an entity is.
pub open spec fn active_compounds(
    machine: MachineDefinitionView,
    states: Map<Seq<char>, Seq<char>>,
) -> Seq<CompoundView> {
    if crate::machine::is_parallel(machine) {
        regional_compounds(machine.regions, states)
    } else {
        let state = crate::engine::state_or_empty(states, DEFAULT_REGION@);
        if machine.sub_machines.contains_key(state) {
            seq![
                CompoundView {
                    state,
                    region: DEFAULT_REGION@,
                    sub_machine: machine.sub_machines[state],
                },
            ]
        } else {
            Seq::empty()
        }
    }
}

/// The compound states in which an entity is.
pub fn find_compounds(machine: &MachineDefinition, states: &StringMap<String>) -> (found: Vec<
    Compound,
>)
    ensures
        found.deep_view() == active_compounds(machine.deep_view(), states.deep_view()),
{
    let mut found: Vec<Compound> = Vec::new();
    if machine.is_parallel() {
        let ghost regions = machine.regions.deep_view();
        let mut i: usize = 0;
        assert(found.deep_view() =~= regional_compounds(regions.take(0), states.deep_view()));
        while i < machine.regions.len()
            invariant
                i <= machine.regions.len(),
                regions == machine.regions.deep_view(),
                found.deep_view() == regional_compounds(regions.take(i as int), states.deep_view()),
            decreases machine.regions.len() - i,
        {
            let region = &machine.regions[i];
            assert(regions.take(i + 1).drop_last() =~= regions.take(i as int));
            assert(regions.take(i + 1).last() == region.deep_view());
            let ghost before = found.deep_view();
            if let Some(state) = states.get(region.id.as_str()) {
                if let Some(sub) = region.sub_machines.get(state.as_str()) {
                    let compound = Compound {
                        state: state.clone(),
                        region: region.id.clone(),
                        sub_machine: sub.duplicate(),
                    };
                    found.push(compound);
                    assert(found.deep_view() =~= before.push(compound.deep_view()));
                }
            }
            i = i + 1;
        }
        assert(regions.take(i as int) =~= regions);
    } else {
        let state: String = match states.get(DEFAULT_REGION) {
            Some(state) => state.clone(),
            None => String::new(),
        };
        if let Some(sub) = machine.sub_machines.get(state.as_str()) {
            let compound = Compound {
                state,
                region: DEFAULT_REGION.to_owned(),
                sub_machine: sub.duplicate(),
            };
            found.push(compound);
            assert(found.deep_view() =~= seq![compound.deep_view()]);
        } else {
            assert(found.deep_view() =~= Seq::empty());
        }
    }
    found
}

/// The state that is shown as a string; the empty text stands for any other.
pub open spec fn shown_text(state: StateValueView) -> Seq<char> {
    match state {
        StateValueView::Text(text) => text,
        StateValueView::Json(_) => Seq::empty(),
    }
}

/// Whether a child machine has handled an event, given its response.
pub open spec fn was_handled(response: TransitionResponseView) -> bool {
    response.transition is Some || response.sub_machine is Some
}

/// What the parent's response tells of the child.
pub open spec fn child_report(
    entity: EntityView,
    compound: CompoundView,
    response: TransitionResponseView,
) -> SubMachineTransitionView {
    SubMachineTransitionView {
        machine_id: compound.sub_machine.machine_id,
        entity_id: crate::plan::child_id(entity.entity_id, compound.state),
        previous_state: response.previous_state,
        current_state: response.current_state,
        transition: response.transition,
        auto_completed: compound.sub_machine.on_final.contains_key(
            shown_text(response.current_state),
        ),
    }
}

/// What the parent's response tells of a child that was found in a final state.
pub open spec fn finished_child_report(
    compound: CompoundView,
    child: EntityView,
) -> SubMachineTransitionView {
    SubMachineTransitionView {
        machine_id: compound.sub_machine.machine_id,
        entity_id: child.entity_id,
        previous_state: crate::entity::shown_state(child.current_state),
        current_state: crate::entity::shown_state(child.current_state),
        transition: None,
        auto_completed: true,
    }
}

/// What moves when the child of a compound state is done.
pub open spec fn completion_cause(
    entity: EntityView,
    compound: CompoundView,
    target: Seq<char>,
    child_actions: Seq<DispatchedActionView>,
    sub_machine: SubMachineTransitionView,
) -> Cause {
    Cause {
        region: compound.region,
        from_state: compound.state,
        to_state: target,
        event_type: "$sub_complete"@,
        event_params: "{}"@,
        context: entity.context,
        child_actions,
        sub_machine: Some(sub_machine),
    }
}

// ── Handling an event step by step ──────────────────────────────────────────

/// Where the handling of an event stands, and what to do next.
pub type Next = (Seq<FrameView>, StepView);

/// Refuses the event.
pub open spec fn refuse(error: AppErrorView) -> Next {
    (Seq::empty(), StepView::Fail(error))
}

/// Refuses the event because a reply does not answer the step before.
pub open spec fn refuse_reply() -> Next {
    refuse(AppErrorView::Internal("Unexpected reply"@))
}

/// Carries out a transition.
pub open spec fn carry_out(
    below: Seq<FrameView>,
    machine: MachineDefinitionView,
    entity: EntityView,
    planned: PlanView,
) -> Next {
    (
        below.push(
            FrameView {
                machine,
                entity,
                stage: StageView::Updating { record: planned.record, response: planned.response },
            },
        ),
        StepView::Update(planned.update),
    )
}

/// Hands a response to the parent that awaits it, or answers the event.
pub open spec fn settle(
    event: EventView,
    frames: Seq<FrameView>,
    response: TransitionResponseView,
) -> Next
    decreases frames.len(), 0nat,
{
    if frames.len() == 0 {
        (Seq::empty(), StepView::Finish(response))
    } else {
        let parent = frames.last();
        match parent.stage {
            StageView::AwaitingChild(forwarding) => after_child(
                event,
                frames.drop_last(),
                parent.machine,
                parent.entity,
                forwarding,
                response,
            ),
            _ => refuse_reply(),
        }
    }
}

/// Offers the event to the next compound state, or gives up.
pub open spec fn offer(
    event: EventView,
    below: Seq<FrameView>,
    machine: MachineDefinitionView,
    entity: EntityView,
    forwarding: ForwardingView,
) -> Next
    decreases below.len(), 1nat,
{
    if forwarding.at < forwarding.compounds.len() {
        (
            below.push(FrameView { machine, entity, stage: StageView::FindingMachine(forwarding) }),
            StepView::LoadMachine {
                tenant_id: event.tenant_id,
                machine_id: forwarding.compounds[forwarding.at as int].sub_machine.machine_id,
            },
        )
    } else {
        settle(event, below, no_transition_response(event, machine, entity))
    }
}

/// Goes on once a child machine has answered: the next compound state is tried if the child did
/// not handle the event; the parent advances if the child is now in a final state, and stays
/// otherwise. Either way the answer lists what the event has set off in the child.
pub open spec fn after_child(
    event: EventView,
    below: Seq<FrameView>,
    machine: MachineDefinitionView,
    entity: EntityView,
    forwarding: ForwardingView,
    response: TransitionResponseView,
) -> Next
    decreases below.len(), 2nat,
{
    if forwarding.at >= forwarding.compounds.len() {
        refuse_reply()
    } else if !was_handled(response) {
        offer(
            event,
            below,
            machine,
            entity,
            ForwardingView {
                compounds: forwarding.compounds,
                at: (forwarding.at + 1) as usize,
            },
        )
    } else {
        let compound = forwarding.compounds[forwarding.at as int];
        let report = child_report(entity, compound, response);
        if report.auto_completed {
            let target = compound.sub_machine.on_final[shown_text(response.current_state)];
            carry_out(
                below,
                machine,
                entity,
                crate::plan::plan(
                    event,
                    machine,
                    entity,
                    completion_cause(
                        entity,
                        compound,
                        target,
                        response.actions_dispatched,
                        report,
                    ),
                ),
            )
        } else {
            settle(
                event,
                below,
                unmoved(
                    event,
                    entity,
                    crate::plan::shown_region(machine, compound.region),
                    None,
                    response.actions_dispatched,
                    Some(report),
                ),
            )
        }
    }
}

/// Goes on once it is known whether the event was handled before.
pub open spec fn after_check(
    event: EventView,
    below: Seq<FrameView>,
    machine: MachineDefinitionView,
    entity: EntityView,
    duplicate: bool,
) -> Next {
    let states = crate::entity::stored_state(entity.current_state);
    if duplicate {
        settle(event, below, duplicate_response(event, entity))
    } else {
        match crate::engine::evaluation(
            machine.transitions,
            states,
            event.event_type,
            event.params,
            entity.context,
        ) {
            Some(result) => carry_out(
                below,
                machine,
                entity,
                crate::plan::plan(event, machine, entity, crate::plan::event_cause(event, entity, result)),
            ),
            None => offer(
                event,
                below,
                machine,
                entity,
                ForwardingView { compounds: active_compounds(machine, states), at: 0 },
            ),
        }
    }
}

/// Goes on once the machine of a compound state is known.
pub open spec fn after_machine(
    event: EventView,
    below: Seq<FrameView>,
    machine: MachineDefinitionView,
    entity: EntityView,
    forwarding: ForwardingView,
    child_machine: MachineDefinitionView,
) -> Next {
    if forwarding.at >= forwarding.compounds.len() {
        refuse_reply()
    } else {
        let compound = forwarding.compounds[forwarding.at as int];
        (
            below.push(
                FrameView {
                    machine,
                    entity,
                    stage: StageView::FindingChild { forwarding, child_machine },
                },
            ),
            StepView::LoadOrCreateChild {
                tenant_id: event.tenant_id,
                machine_id: compound.sub_machine.machine_id,
                entity_id: crate::plan::child_id(entity.entity_id, compound.state),
                machine: child_machine,
            },
        )
    }
}

/// Goes on once the child entity is known. If it is in a final state the parent advances;
/// otherwise the event goes to the child machine.
pub open spec fn after_find(
    event: EventView,
    below: Seq<FrameView>,
    machine: MachineDefinitionView,
    entity: EntityView,
    forwarding: ForwardingView,
    child_machine: MachineDefinitionView,
    child: EntityView,
) -> Next {
    if forwarding.at >= forwarding.compounds.len() {
        refuse_reply()
    } else {
        let compound = forwarding.compounds[forwarding.at as int];
        if compound.sub_machine.on_final.contains_key(child.current_state) {
            let target = compound.sub_machine.on_final[child.current_state];
            let report = finished_child_report(compound, child);
            carry_out(
                below,
                machine,
                entity,
                crate::plan::plan(
                    event,
                    machine,
                    entity,
                    completion_cause(entity, compound, target, Seq::empty(), report),
                ),
            )
        } else {
            (
                below.push(
                    FrameView { machine, entity, stage: StageView::AwaitingChild(forwarding) },
                ).push(
                    FrameView { machine: child_machine, entity: child, stage: StageView::Checking },
                ),
                StepView::FindDuplicate(crate::plan::event_key(event, child_machine, child)),
            )
        }
    }
}

/// Goes on once it is known how many entities were changed.
pub open spec fn after_update(
    below: Seq<FrameView>,
    machine: MachineDefinitionView,
    entity: EntityView,
    record: RecordView,
    response: TransitionResponseView,
    changed: u64,
) -> Next {
    if changed == 0 {
        refuse(
            AppErrorView::Conflict("Concurrent modification detected — retry the transition"@),
        )
    } else {
        (
            below.push(FrameView { machine, entity, stage: StageView::Recording { response } }),
            StepView::Record(record),
        )
    }
}

/// How the handling of an event goes on after a reply.
pub open spec fn next(execution: ExecutionView, reply: ReplyView) -> Next {
    if execution.frames.len() == 0 {
        refuse_reply()
    } else {
        let event = execution.event;
        let below = execution.frames.drop_last();
        let top = execution.frames.last();
        match (top.stage, reply) {
            (_, ReplyView::Failed(error)) => refuse(error),
            (StageView::Checking, ReplyView::Duplicate(duplicate)) => after_check(
                event,
                below,
                top.machine,
                top.entity,
                duplicate,
            ),
            (StageView::FindingMachine(forwarding), ReplyView::Machine(machine)) => after_machine(
                event,
                below,
                top.machine,
                top.entity,
                forwarding,
                machine,
            ),
            (
                StageView::FindingChild { forwarding, child_machine },
                ReplyView::Child(child),
            ) => after_find(
                event,
                below,
                top.machine,
                top.entity,
                forwarding,
                child_machine,
                child,
            ),
            (StageView::Updating { record, response }, ReplyView::Updated(changed)) => after_update(
                below,
                top.machine,
                top.entity,
                record,
                response,
                changed,
            ),
            (StageView::Recording { response }, ReplyView::Recorded) => settle(
                event,
                below,
                response,
            ),
            _ => refuse_reply(),
        }
    }
}

/// Puts a frame on top.
fn push_frame(
    frames: &mut Vec<Frame>,
    machine: MachineDefinition,
    entity: Entity,
    stage: Stage,
)
    ensures
        final(frames).deep_view() == old(frames).deep_view().push(
            FrameView {
                machine: machine.deep_view(),
                entity: entity.deep_view(),
                stage: stage.deep_view(),
            },
        ),
{
    let ghost before = frames.deep_view();
    let frame = Frame { machine, entity, stage };
    frames.push(frame);
    assert(frames.deep_view() =~= before.push(frame.deep_view()));
}

/// No actions.
fn no_actions() -> (actions: Vec<DispatchedAction>)
    ensures
        actions.deep_view() == Seq::<DispatchedActionView>::empty(),
{
    let actions: Vec<DispatchedAction> = Vec::new();
    assert(actions.deep_view() =~= Seq::empty());
    actions
}

/// By what the audit log tells whether an entity has had an event.
fn key_of(event: &Event, machine: &MachineDefinition, entity: &Entity) -> (key: EventKey)
    ensures
        key.deep_view() == crate::plan::event_key(
            event.deep_view(),
            machine.deep_view(),
            entity.deep_view(),
        ),
{
    EventKey {
        tenant_id: event.tenant_id.clone(),
        machine_id: machine.machine_id.clone(),
        entity_id: entity.entity_id.clone(),
        event_type: event.event_type.clone(),
        timestamp: event.timestamp,
    }
}

/// Refuses the event.
fn refuse_event(frames: &mut Vec<Frame>, error: AppError) -> (step: Step)
    ensures
        (final(frames).deep_view(), step.deep_view()) == refuse(error.deep_view()),
{
    frames.clear();
    assert(frames.deep_view() =~= Seq::empty());
    Step::Fail(error)
}

/// Refuses the event because a reply does not answer the step before.
fn refuse_unexpected(frames: &mut Vec<Frame>) -> (step: Step)
    ensures
        (final(frames).deep_view(), step.deep_view()) == refuse_reply(),
{
    refuse_event(frames, AppError::Internal("Unexpected reply".to_owned()))
}

/// Carries out a transition.
fn carry_out_plan(
    frames: &mut Vec<Frame>,
    machine: MachineDefinition,
    entity: Entity,
    planned: Plan,
) -> (step: Step)
    ensures
        (final(frames).deep_view(), step.deep_view()) == carry_out(
            old(frames).deep_view(),
            machine.deep_view(),
            entity.deep_view(),
            planned.deep_view(),
        ),
{
    let Plan { update, record, response } = planned;
    push_frame(frames, machine, entity, Stage::Updating { record, response });
    Step::Update(update)
}

/// Advances the parent out of a compound state whose child is done.
fn advance_parent_state(
    event: &Event,
    frames: &mut Vec<Frame>,
    machine: MachineDefinition,
    entity: Entity,
    compound: &Compound,
    target: String,
    child_actions: Vec<DispatchedAction>,
    report: SubMachineTransition,
) -> (step: Step)
    ensures
        (final(frames).deep_view(), step.deep_view()) == carry_out(
            old(frames).deep_view(),
            machine.deep_view(),
            entity.deep_view(),
            crate::plan::plan(
                event.deep_view(),
                machine.deep_view(),
                entity.deep_view(),
                completion_cause(
                    entity.deep_view(),
                    compound.deep_view(),
                    target@,
                    child_actions.deep_view(),
                    report.deep_view(),
                ),
            ),
        ),
{
    let cause = Move {
        region: compound.region.clone(),
        from_state: compound.state.clone(),
        to_state: target,
        event_type: "$sub_complete".to_owned(),
        event_params: "{}".to_owned(),
        context: entity.context.duplicate(),
        child_actions,
        sub_machine: Some(report),
    };
    let planned = plan_move(event, &machine, &entity, cause);
    carry_out_plan(frames, machine, entity, planned)
}

/// Hands a response to the parent that awaits it, or answers the event.
fn settle_response(event: &Event, frames: &mut Vec<Frame>, response: TransitionResponse) -> (step:
    Step)
    ensures
        (final(frames).deep_view(), step.deep_view()) == settle(
            event.deep_view(),
            old(frames).deep_view(),
            response.deep_view(),
        ),
    decreases old(frames).len(), 0nat,
{
    let ghost before = frames.deep_view();
    match frames.pop() {
        None => {
            assert(frames.deep_view() =~= Seq::empty());
            Step::Finish(response)
        },
        Some(parent) => {
            assert(before.last() == parent.deep_view());
            assert(frames.deep_view() =~= before.drop_last());
            match parent.stage {
                Stage::AwaitingChild(forwarding) => handle_sub_machine_event(
                    event,
                    frames,
                    parent.machine,
                    parent.entity,
                    forwarding,
                    response,
                ),
                _ => refuse_unexpected(frames),
            }
        },
    }
}

/// Offers the event to the next compound state, or gives up.
fn try_sub_machine_forward(
    event: &Event,
    frames: &mut Vec<Frame>,
    machine: MachineDefinition,
    entity: Entity,
    forwarding: Forwarding,
) -> (step: Step)
    ensures
        (final(frames).deep_view(), step.deep_view()) == offer(
            event.deep_view(),
            old(frames).deep_view(),
            machine.deep_view(),
            entity.deep_view(),
            forwarding.deep_view(),
        ),
    decreases old(frames).len(), 1nat,
{
    if forwarding.at < forwarding.compounds.len() {
        let machine_id = forwarding.compounds[forwarding.at].sub_machine.machine_id.clone();
        push_frame(frames, machine, entity, Stage::FindingMachine(forwarding));
        Step::LoadMachine { tenant_id: event.tenant_id.clone(), machine_id }
    } else {
        let response = answer_no_transition(event, &machine, &entity);
        settle_response(event, frames, response)
    }
}

/// Goes on once a child machine has answered.
fn handle_sub_machine_event(
    event: &Event,
    frames: &mut Vec<Frame>,
    machine: MachineDefinition,
    entity: Entity,
    forwarding: Forwarding,
    response: TransitionResponse,
) -> (step: Step)
    ensures
        (final(frames).deep_view(), step.deep_view()) == after_child(
            event.deep_view(),
            old(frames).deep_view(),
            machine.deep_view(),
            entity.deep_view(),
            forwarding.deep_view(),
            response.deep_view(),
        ),
    decreases old(frames).len(), 2nat,
{
    if forwarding.at >= forwarding.compounds.len() {
        return refuse_unexpected(frames);
    }
    if response.transition.is_none() && response.sub_machine.is_none() {
        let rest = Forwarding { compounds: forwarding.compounds, at: forwarding.at + 1 };
        return try_sub_machine_forward(event, frames, machine, entity, rest);
    }
    let compound = &forwarding.compounds[forwarding.at];
    let state: String = match &response.current_state {
        StateValue::Text(text) => text.clone(),
        StateValue::Json(_) => String::new(),
    };
    let target: Option<String> = match compound.sub_machine.on_final.get(state.as_str()) {
        Some(target) => Some(target.clone()),
        None => None,
    };
    let report = SubMachineTransition {
        machine_id: compound.sub_machine.machine_id.clone(),
        entity_id: child_entity_id(entity.entity_id.as_str(), compound.state.as_str()),
        previous_state: response.previous_state.duplicate(),
        current_state: response.current_state.duplicate(),
        transition: response.transition.duplicate(),
        auto_completed: target.is_some(),
    };
    match target {
        Some(target) => advance_parent_state(
            event,
            frames,
            machine,
            entity,
            compound,
            target,
            response.actions_dispatched,
            report,
        ),
        None => {
            let region: Option<String> = if machine.is_parallel() {
                Some(compound.region.clone())
            } else {
                None
            };
            let answer = stay(
                event,
                &entity,
                region,
                None,
                response.actions_dispatched,
                Some(report),
            );
            settle_response(event, frames, answer)
        },
    }
}

/// Whether an event sets off a transition of a machine.
pub open spec fn sets_off_in(
    event: EventView,
    machine: MachineDefinitionView,
    entity: EntityView,
) -> bool {
    crate::engine::evaluation(
        machine.transitions,
        crate::entity::stored_state(entity.current_state),
        event.event_type,
        event.params,
        entity.context,
    ) is Some
}

/// Whether the event sets off a transition of the machine that handles it now, before which it is
/// still to be known whether the event was handled before.
pub open spec fn sets_off(execution: ExecutionView) -> bool {
    &&& execution.frames.len() > 0
    &&& execution.frames.last().stage is Checking
    &&& sets_off_in(
        execution.event,
        execution.frames.last().machine,
        execution.frames.last().entity,
    )
}

/// Goes on once it is known whether the event was handled before.
fn resume_check(
    event: &Event,
    frames: &mut Vec<Frame>,
    machine: MachineDefinition,
    entity: Entity,
    duplicate: bool,
) -> (step: Step)
    ensures
        (final(frames).deep_view(), step.deep_view()) == after_check(
            event.deep_view(),
            old(frames).deep_view(),
            machine.deep_view(),
            entity.deep_view(),
            duplicate,
        ),
        !duplicate && sets_off_in(event.deep_view(), machine.deep_view(), entity.deep_view())
            ==> crate::json_text::string_object(
            crate::json_text::string_object_text(event.params.deep_view()),
        ) == Some(event.params.deep_view()),
{
    if duplicate {
        let response = answer_duplicate(event, &entity);
        return settle_response(event, frames, response);
    }
    match evaluate(&machine, &entity, event.event_type.as_str(), &event.params) {
        Some(result) => {
            let cause = Move {
                region: result.region,
                from_state: result.from_state,
                to_state: result.to_state,
                event_type: event.event_type.clone(),
                event_params: write_string_object(&event.params),
                context: merge_context(&entity.context, &event.params),
                child_actions: no_actions(),
                sub_machine: None,
            };
            let planned = plan_move(event, &machine, &entity, cause);
            carry_out_plan(frames, machine, entity, planned)
        },
        None => {
            let compounds = find_compounds(&machine, &entity.state_map());
            try_sub_machine_forward(event, frames, machine, entity, Forwarding { compounds, at: 0 })
        },
    }
}

/// Goes on once the machine of a compound state is known.
fn resume_machine(
    event: &Event,
    frames: &mut Vec<Frame>,
    machine: MachineDefinition,
    entity: Entity,
    forwarding: Forwarding,
    child_machine: MachineDefinition,
) -> (step: Step)
    ensures
        (final(frames).deep_view(), step.deep_view()) == after_machine(
            event.deep_view(),
            old(frames).deep_view(),
            machine.deep_view(),
            entity.deep_view(),
            forwarding.deep_view(),
            child_machine.deep_view(),
        ),
{
    if forwarding.at >= forwarding.compounds.len() {
        return refuse_unexpected(frames);
    }
    let compound = &forwarding.compounds[forwarding.at];
    let machine_id = compound.sub_machine.machine_id.clone();
    let entity_id = child_entity_id(entity.entity_id.as_str(), compound.state.as_str());
    let found_machine = child_machine.duplicate();
    push_frame(frames, machine, entity, Stage::FindingChild { forwarding, child_machine });
    let tenant_id = event.tenant_id.clone();
    Step::LoadOrCreateChild { tenant_id, machine_id, entity_id, machine: found_machine }
}

/// Goes on once the child entity is known.
fn resume_find(
    event: &Event,
    frames: &mut Vec<Frame>,
    machine: MachineDefinition,
    entity: Entity,
    forwarding: Forwarding,
    child_machine: MachineDefinition,
    child: Entity,
) -> (step: Step)
    ensures
        (final(frames).deep_view(), step.deep_view()) == after_find(
            event.deep_view(),
            old(frames).deep_view(),
            machine.deep_view(),
            entity.deep_view(),
            forwarding.deep_view(),
            child_machine.deep_view(),
            child.deep_view(),
        ),
{
    if forwarding.at >= forwarding.compounds.len() {
        return refuse_unexpected(frames);
    }
    let compound = &forwarding.compounds[forwarding.at];
    if let Some(target) = compound.sub_machine.on_final.get(child.current_state.as_str()) {
        let report = SubMachineTransition {
            machine_id: compound.sub_machine.machine_id.clone(),
            entity_id: child.entity_id.clone(),
            previous_state: show_stored_state(child.current_state.as_str()),
            current_state: show_stored_state(child.current_state.as_str()),
            transition: None,
            auto_completed: true,
        };
        return advance_parent_state(
            event,
            frames,
            machine,
            entity,
            compound,
            target.clone(),
            no_actions(),
            report,
        );
    }
    let key = key_of(event, &child_machine, &child);
    push_frame(frames, machine, entity, Stage::AwaitingChild(forwarding));
    push_frame(frames, child_machine, child, Stage::Checking);
    Step::FindDuplicate(key)
}

/// Goes on once it is known how many entities were changed.
fn resume_update(
    frames: &mut Vec<Frame>,
    machine: MachineDefinition,
    entity: Entity,
    record: Record,
    response: TransitionResponse,
    changed: u64,
) -> (step: Step)
    ensures
        (final(frames).deep_view(), step.deep_view()) == after_update(
            old(frames).deep_view(),
            machine.deep_view(),
            entity.deep_view(),
            record.deep_view(),
            response.deep_view(),
            changed,
        ),
{
    if changed == 0 {
        return refuse_event(
            frames,
            AppError::Conflict("Concurrent modification detected — retry the transition".to_owned()),
        );
    }
    push_frame(frames, machine, entity, Stage::Recording { response });
    Step::Record(record)
}

/// The start of the handling of an event.
pub open spec fn first_frame(machine: MachineDefinitionView, entity: EntityView) -> Seq<FrameView> {
    seq![FrameView { machine, entity, stage: StageView::Checking }]
}

/// Begins to handle an event for an entity, with the region-aware transitions, joins and child
/// machines of its machine. With `dispatch`, actions are sent; otherwise they are only listed in
/// the response.
pub fn execute_transition(
    event_core_url: &str,
    tenant_id: &str,
    machine: &MachineDefinition,
    entity: &Entity,
    event_type: &str,
    params: &StringMap<String>,
    timestamp: i64,
    dispatch: bool,
) -> (started: (Execution, Step))
    ensures
        started.0.deep_view() == (ExecutionView {
            event: EventView {
                tenant_id: tenant_id@,
                event_type: event_type@,
                params: params.deep_view(),
                timestamp,
                dispatch,
                event_core_url: event_core_url@,
            },
            frames: first_frame(machine.deep_view(), entity.deep_view()),
        }),
        started.1.deep_view() == StepView::FindDuplicate(
            crate::plan::event_key(
                started.0.event.deep_view(),
                machine.deep_view(),
                entity.deep_view(),
            ),
        ),
{
    let event = Event {
        tenant_id: tenant_id.to_owned(),
        event_type: event_type.to_owned(),
        params: params.duplicate(),
        timestamp,
        dispatch,
        event_core_url: event_core_url.to_owned(),
    };
    let step = Step::FindDuplicate(key_of(&event, machine, entity));
    let mut frames: Vec<Frame> = Vec::new();
    push_frame(&mut frames, machine.duplicate(), entity.duplicate(), Stage::Checking);
    let execution = Execution { event, frames };
    assert(execution.frames.deep_view() =~= first_frame(machine.deep_view(), entity.deep_view()));
    (execution, step)
}

impl Execution {
    /// Goes on after a reply to the step before. Where a transition is to be recorded, what is
    /// recorded of the parameters reads back as the parameters of the event.
    pub fn resume(&mut self, reply: Reply) -> (step: Step)
        ensures
            final(self).event == old(self).event,
            (final(self).frames.deep_view(), step.deep_view()) == next(
                old(self).deep_view(),
                reply.deep_view(),
            ),
            sets_off(old(self).deep_view()) && reply.deep_view() == ReplyView::Duplicate(false)
                ==> crate::json_text::string_object(
                crate::json_text::string_object_text(old(self).event.params.deep_view()),
            ) == Some(old(self).event.params.deep_view()),
    {
        let ghost before = self.frames.deep_view();
        let top = match self.frames.pop() {
            Some(top) => top,
            None => {
                return refuse_unexpected(&mut self.frames);
            },
        };
        assert(before.last() == top.deep_view());
        assert(self.frames.deep_view() =~= before.drop_last());
        let Frame { machine, entity, stage } = top;
        let frames = &mut self.frames;
        match (stage, reply) {
            (_, Reply::Failed(error)) => refuse_event(frames, error),
            (Stage::Checking, Reply::Duplicate(duplicate)) => resume_check(
                &self.event,
                frames,
                machine,
                entity,
                duplicate,
            ),
            (Stage::FindingMachine(forwarding), Reply::Machine(child_machine)) => resume_machine(
                &self.event,
                frames,
                machine,
                entity,
                forwarding,
                child_machine,
            ),
            (
                Stage::FindingChild { forwarding, child_machine },
                Reply::Child(child),
            ) => resume_find(
                &self.event,
                frames,
                machine,
                entity,
                forwarding,
                child_machine,
                child,
            ),
            (Stage::Updating { record, response }, Reply::Updated(changed)) => resume_update(
                frames,
                machine,
                entity,
                record,
                response,
                changed,
            ),
            (Stage::Recording { response }, Reply::Recorded) => settle_response(
                &self.event,
                frames,
                response,
            ),
            _ => refuse_unexpected(frames),
        }
    }
}

// ── Laws ────────────────────────────────────────────────────────────────────

/// Whether a forwarding names a compound state.
pub open spec fn is_under_way(forwarding: ForwardingView) -> bool {
    forwarding.at < forwarding.compounds.len()
}

/// Whether a frame awaits its child.
pub open spec fn is_waiting(frame: FrameView) -> bool {
    frame.stage matches StageView::AwaitingChild(forwarding) && is_under_way(forwarding)
}

/// Whether a frame can be on top.
pub open spec fn is_working(frame: FrameView) -> bool {
    match frame.stage {
        StageView::FindingMachine(forwarding) => is_under_way(forwarding),
        StageView::FindingChild { forwarding, child_machine } => is_under_way(forwarding),
        StageView::AwaitingChild(_) => false,
        _ => true,
    }
}

/// Whether every frame awaits its child.
pub open spec fn all_waiting(frames: Seq<FrameView>) -> bool {
    forall|i: int| 0 <= i < frames.len() ==> is_waiting(#[trigger] frames[i])
}

/// Whether the top frame works and each one below awaits its child.
pub open spec fn is_consistent(frames: Seq<FrameView>) -> bool {
    frames.len() > 0 && is_working(frames.last()) && all_waiting(frames.drop_last())
}

/// Whether a step is the one that a stage waits for.
pub open spec fn step_fits(step: StepView, stage: StageView) -> bool {
    match stage {
        StageView::Checking => step is FindDuplicate,
        StageView::Updating { .. } => step is Update,
        StageView::Recording { .. } => step is Record,
        StageView::FindingMachine(_) => step is LoadMachine,
        StageView::FindingChild { .. } => step is LoadOrCreateChild,
        StageView::AwaitingChild(_) => false,
    }
}

/// Whether a reply answers a step.
pub open spec fn reply_fits(reply: ReplyView, step: StepView) -> bool {
    match step {
        StepView::FindDuplicate(_) => reply is Duplicate || reply is Failed,
        StepView::LoadMachine { .. } => reply is Machine || reply is Failed,
        StepView::LoadOrCreateChild { .. } => reply is Child || reply is Failed,
        StepView::Update(_) => reply is Updated || reply is Failed,
        StepView::Record(_) => reply is Recorded || reply is Failed,
        StepView::Finish(_) => false,
        StepView::Fail(_) => false,
    }
}

/// Whether the handling of an event is in order: it goes on with the step that its top frame waits
/// for, or it is over.
pub open spec fn is_in_order(next: Next) -> bool {
    match next.1 {
        StepView::Finish(_) => next.0.len() == 0,
        StepView::Fail(error) => next.0.len() == 0,
        step => is_consistent(next.0) && step_fits(step, next.0.last().stage),
    }
}

/// Handing a response down keeps the handling in order, and never refuses.
proof fn lemma_settle(event: EventView, frames: Seq<FrameView>, response: TransitionResponseView)
    requires
        all_waiting(frames),
    ensures
        is_in_order(settle(event, frames, response)),
        settle(event, frames, response).1 !is Fail,
    decreases frames.len(),
{
    if frames.len() > 0 {
        let parent = frames.last();
        let below = frames.drop_last();
        assert(is_waiting(frames[frames.len() - 1]));
        assert(all_waiting(below)) by {
            assert forall|i: int| 0 <= i < below.len() implies is_waiting(#[trigger] below[i]) by {
                assert(is_waiting(frames[i]));
            }
        }
        let forwarding = parent.stage->AwaitingChild_0;
        assert forall|r: TransitionResponseView|
            is_in_order(#[trigger] settle(event, below, r)) && settle(event, below, r).1 !is Fail by {
            lemma_settle(event, below, r);
        }
        let rest = ForwardingView {
            compounds: forwarding.compounds,
            at: (forwarding.at + 1) as usize,
        };
        lemma_offer(event, below, parent.machine, parent.entity, rest);
        lemma_drop_push(below);
        reveal_with_fuel(settle, 3);
        reveal_with_fuel(after_child, 3);
        let compound = forwarding.compounds[forwarding.at as int];
        let report = child_report(parent.entity, compound, response);
        let stays = unmoved(
            event,
            parent.entity,
            crate::plan::shown_region(parent.machine, compound.region),
            None,
            response.actions_dispatched,
            Some(report),
        );
        assert(is_in_order(settle(event, below, stays)));
    }
}

/// A frame put on top is the last one.
proof fn lemma_drop_push(below: Seq<FrameView>)
    ensures
        forall|frame: FrameView| (#[trigger] below.push(frame)).drop_last() == below,
{
    assert forall|frame: FrameView| (#[trigger] below.push(frame)).drop_last() == below by {
        assert(below.push(frame).drop_last() =~= below);
    }
}

/// Offering an event keeps its handling in order, and never refuses.
proof fn lemma_offer(
    event: EventView,
    below: Seq<FrameView>,
    machine: MachineDefinitionView,
    entity: EntityView,
    forwarding: ForwardingView,
)
    requires
        all_waiting(below),
        forall|r: TransitionResponseView|
            is_in_order(#[trigger] settle(event, below, r)) && settle(event, below, r).1 !is Fail,
    ensures
        is_in_order(offer(event, below, machine, entity, forwarding)),
        offer(event, below, machine, entity, forwarding).1 !is Fail,
{
    lemma_drop_push(below);
    if forwarding.at >= forwarding.compounds.len() {
        reveal_with_fuel(offer, 3);
        assert(is_in_order(settle(event, below, no_transition_response(event, machine, entity))));
    }
}

/// A reply that answers the step before keeps the handling of an event in order. The event is
/// refused only if a step failed, for the reason it failed, or if the entity was changed by
/// someone else.
pub proof fn law_handling_stays_in_order(execution: ExecutionView, step: StepView, reply: ReplyView)
    requires
        is_in_order((execution.frames, step)),
        reply_fits(reply, step),
    ensures
        is_in_order(next(execution, reply)),
        next(execution, reply).1 matches StepView::Fail(error) ==> {
            ||| reply == ReplyView::Failed(error)
            ||| reply == ReplyView::Updated(0) && error is Conflict
        },
        reply matches ReplyView::Failed(error) ==> next(execution, reply).1 == StepView::Fail(error),
{
    let below = execution.frames.drop_last();
    let top = execution.frames.last();
    lemma_drop_push(below);
    assert forall|r: TransitionResponseView|
        is_in_order(#[trigger] settle(execution.event, below, r)) && settle(
            execution.event,
            below,
            r,
        ).1 !is Fail by {
        lemma_settle(execution.event, below, r);
    }
    match (top.stage, reply) {
        (StageView::Checking, ReplyView::Duplicate(_)) => {
            let states = crate::entity::stored_state(top.entity.current_state);
            let forwarding = ForwardingView {
                compounds: active_compounds(top.machine, states),
                at: 0,
            };
            lemma_offer(execution.event, below, top.machine, top.entity, forwarding);
        },
        (StageView::FindingChild { forwarding, child_machine }, ReplyView::Child(child)) => {
            let waiting = below.push(
                FrameView {
                    machine: top.machine,
                    entity: top.entity,
                    stage: StageView::AwaitingChild(forwarding),
                },
            );
            lemma_drop_push(waiting);
            assert(all_waiting(waiting));
        },
        _ => {},
    }
}

/// An event is handled from its beginning to its end in order: it begins so.
pub proof fn law_handling_begins_in_order(
    event: EventView,
    machine: MachineDefinitionView,
    entity: EntityView,
)
    ensures
        is_in_order(
            (
                first_frame(machine, entity),
                StepView::FindDuplicate(crate::plan::event_key(event, machine, entity)),
            ),
        ),
{
    assert(first_frame(machine, entity).drop_last() =~= Seq::empty());
}

/// An event that was handled before changes nothing and sends nothing: the entity is answered for
/// in the state that it is in.
pub proof fn law_duplicates_change_nothing(
    event: EventView,
    machine: MachineDefinitionView,
    entity: EntityView,
)
    ensures
        next(
            (ExecutionView { event, frames: first_frame(machine, entity) }),
            ReplyView::Duplicate(true),
        ).1 == StepView::Finish(duplicate_response(event, entity)),
        duplicate_response(event, entity).previous_state == duplicate_response(
            event,
            entity,
        ).current_state,
        duplicate_response(event, entity).transition is None,
        duplicate_response(event, entity).actions_dispatched.len() == 0,
{
    assert(first_frame(machine, entity).drop_last() =~= Seq::empty());
}

/// An event that sets off a transition is carried out and answered in three steps: the entity is
/// changed, the change is recorded, and the answer tells what was changed and recorded.
pub proof fn law_transitions_run_to_their_answer(
    event: EventView,
    machine: MachineDefinitionView,
    entity: EntityView,
    changed: u64,
)
    requires
        changed > 0,
        crate::engine::evaluation(
            machine.transitions,
            crate::entity::stored_state(entity.current_state),
            event.event_type,
            event.params,
            entity.context,
        ) is Some,
    ensures
        ({
            let result = crate::engine::evaluation(
                machine.transitions,
                crate::entity::stored_state(entity.current_state),
                event.event_type,
                event.params,
                entity.context,
            )->0;
            let planned = crate::plan::plan(
                event,
                machine,
                entity,
                crate::plan::event_cause(event, entity, result),
            );
            let first = next(
                (ExecutionView { event, frames: first_frame(machine, entity) }),
                ReplyView::Duplicate(false),
            );
            let second = next(
                (ExecutionView { event, frames: first.0 }),
                ReplyView::Updated(changed),
            );
            let third = next((ExecutionView { event, frames: second.0 }), ReplyView::Recorded);
            &&& first.1 == StepView::Update(planned.update)
            &&& planned.update.tenant_id == event.tenant_id
            &&& second.1 == StepView::Record(planned.record)
            &&& third == (Seq::<FrameView>::empty(), StepView::Finish(planned.response))
        }),
{
    let below = Seq::<FrameView>::empty();
    assert(first_frame(machine, entity).drop_last() =~= below);
    lemma_drop_push(below);
}

/// A transition of the machine itself takes priority over its child machines: an event that sets
/// one off is never forwarded, whatever compound state the entity is in.
pub proof fn law_own_transitions_come_first(
    event: EventView,
    below: Seq<FrameView>,
    machine: MachineDefinitionView,
    entity: EntityView,
)
    requires
        crate::engine::evaluation(
            machine.transitions,
            crate::entity::stored_state(entity.current_state),
            event.event_type,
            event.params,
            entity.context,
        ) is Some,
    ensures
        ({
            let result = crate::engine::evaluation(
                machine.transitions,
                crate::entity::stored_state(entity.current_state),
                event.event_type,
                event.params,
                entity.context,
            )->0;
            after_check(event, below, machine, entity, false).1 == StepView::Update(
                crate::plan::plan(event, machine, entity, crate::plan::event_cause(event, entity, result)).update,
            )
        }),
{
}

/// An event that sets off no transition of a machine is forwarded to the child machine of the
/// compound state that the entity is in; if it is in none, the event is answered at once and the
/// entity stays as it is.
pub proof fn law_other_events_are_forwarded(
    event: EventView,
    machine: MachineDefinitionView,
    entity: EntityView,
)
    requires
        crate::engine::evaluation(
            machine.transitions,
            crate::entity::stored_state(entity.current_state),
            event.event_type,
            event.params,
            entity.context,
        ) is None,
    ensures
        ({
            let compounds = active_compounds(
                machine,
                crate::entity::stored_state(entity.current_state),
            );
            let step = next(
                (ExecutionView { event, frames: first_frame(machine, entity) }),
                ReplyView::Duplicate(false),
            ).1;
            if compounds.len() > 0 {
                step == (StepView::LoadMachine {
                    tenant_id: event.tenant_id,
                    machine_id: compounds[0].sub_machine.machine_id,
                })
            } else {
                step == StepView::Finish(no_transition_response(event, machine, entity))
            }
        }),
{
    assert(first_frame(machine, entity).drop_last() =~= Seq::empty());
}

/// A change that did not take effect, because someone else had changed the entity before, is
/// answered with a conflict that the caller should try again.
pub proof fn law_lost_races_are_conflicts(execution: ExecutionView)
    requires
        execution.frames.len() > 0,
        execution.frames.last().stage is Updating,
    ensures
        next(execution, ReplyView::Updated(0)).1 matches StepView::Fail(error) && {
            &&& crate::errors::error_status(error) == 409
            &&& crate::errors::error_retry(error)
        },
{
}

/// Handing a response down records nothing.
proof fn lemma_settle_records_nothing(
    event: EventView,
    frames: Seq<FrameView>,
    response: TransitionResponseView,
)
    ensures
        settle(event, frames, response).1 !is Record,
    decreases frames.len(),
{
    if frames.len() > 0 {
        let parent = frames.last();
        let below = frames.drop_last();
        assert forall|r: TransitionResponseView| (#[trigger] settle(event, below, r)).1 !is Record by {
            lemma_settle_records_nothing(event, below, r);
        }
        if let StageView::AwaitingChild(forwarding) = parent.stage {
            let rest = ForwardingView {
                compounds: forwarding.compounds,
                at: (forwarding.at + 1) as usize,
            };
            lemma_offer_records_nothing(event, below, parent.machine, parent.entity, rest);
            reveal_with_fuel(settle, 3);
            reveal_with_fuel(after_child, 3);
            let compound = forwarding.compounds[forwarding.at as int];
            let stays = unmoved(
                event,
                parent.entity,
                crate::plan::shown_region(parent.machine, compound.region),
                None,
                response.actions_dispatched,
                Some(child_report(parent.entity, compound, response)),
            );
            assert(settle(event, below, stays).1 !is Record);
        }
    }
}

/// Offering an event records nothing.
proof fn lemma_offer_records_nothing(
    event: EventView,
    below: Seq<FrameView>,
    machine: MachineDefinitionView,
    entity: EntityView,
    forwarding: ForwardingView,
)
    requires
        forall|r: TransitionResponseView| (#[trigger] settle(event, below, r)).1 !is Record,
    ensures
        offer(event, below, machine, entity, forwarding).1 !is Record,
{
    if forwarding.at >= forwarding.compounds.len() {
        reveal_with_fuel(offer, 3);
        assert(settle(event, below, no_transition_response(event, machine, entity)).1 !is Record);
    }
}

/// Nothing is sent and nothing recorded of a state that was not entered: what follows from a change
/// is handed out only once the change has taken effect.
pub proof fn law_actions_wait_for_the_change(execution: ExecutionView, reply: ReplyView)
    ensures
        next(execution, reply).1 matches StepView::Record(record) ==> {
            &&& execution.frames.len() > 0
            &&& execution.frames.last().stage matches StageView::Updating { record: planned, .. }
            &&& record == planned
            &&& reply matches ReplyView::Updated(changed)
            &&& changed > 0
        },
{
    if execution.frames.len() > 0 {
        let event = execution.event;
        let below = execution.frames.drop_last();
        let top = execution.frames.last();
        assert forall|r: TransitionResponseView| (#[trigger] settle(event, below, r)).1 !is Record by {
            lemma_settle_records_nothing(event, below, r);
        }
        let forwarding = ForwardingView {
            compounds: active_compounds(
                top.machine,
                crate::entity::stored_state(top.entity.current_state),
            ),
            at: 0,
        };
        lemma_offer_records_nothing(event, below, top.machine, top.entity, forwarding);
    }
}

/// When a child machine has handled an event and is now in a final state, the parent advances to
/// the state that its definition names for it, out of the compound state. The answer lists what the
/// event has set off in the child, then what the parent's transition sets off.
pub proof fn law_finished_children_advance_their_parent(
    event: EventView,
    below: Seq<FrameView>,
    machine: MachineDefinitionView,
    entity: EntityView,
    forwarding: ForwardingView,
    response: TransitionResponseView,
)
    requires
        is_under_way(forwarding),
        was_handled(response),
        response.current_state matches StateValueView::Text(state)
            && forwarding.compounds[forwarding.at as int].sub_machine.on_final.contains_key(state),
    ensures
        ({
            let parent = FrameView { machine, entity, stage: StageView::AwaitingChild(forwarding) };
            let compound = forwarding.compounds[forwarding.at as int];
            let target = compound.sub_machine.on_final[response.current_state->Text_0];
            let next = settle(event, below.push(parent), response);
            let answer = next.0.last().stage->Updating_response;
            &&& next.1 is Update
            &&& next.1->Update_0.current_state == crate::entity::encoded_state(
                crate::plan::moved(machine, entity, compound.region, target).0,
            )
            &&& next.1->Update_0.context == entity.context
            &&& answer.actions_dispatched == response.actions_dispatched
                + next.0.last().stage->Updating_record.transition.actions_dispatched
            &&& answer.transition == Some(crate::plan::label(machine, compound.region, compound.state, target))
            &&& answer.sub_machine matches Some(report) && report.auto_completed
        }),
{
    let parent = FrameView { machine, entity, stage: StageView::AwaitingChild(forwarding) };
    assert(below.push(parent).drop_last() =~= below);
}

/// A child that is found in a final state, because its parent could not advance before, lets the
/// parent advance now, whatever the event is.
pub proof fn law_children_found_done_advance_their_parent(
    event: EventView,
    below: Seq<FrameView>,
    machine: MachineDefinitionView,
    entity: EntityView,
    forwarding: ForwardingView,
    child_machine: MachineDefinitionView,
    child: EntityView,
)
    requires
        is_under_way(forwarding),
        forwarding.compounds[forwarding.at as int].sub_machine.on_final.contains_key(
            child.current_state,
        ),
    ensures
        ({
            let compound = forwarding.compounds[forwarding.at as int];
            let target = compound.sub_machine.on_final[child.current_state];
            let next = after_find(
                event,
                below,
                machine,
                entity,
                forwarding,
                child_machine,
                child,
            );
            &&& next.1 is Update
            &&& next.1->Update_0.entity_id == entity.entity_id
            &&& next.0.last().stage->Updating_response.actions_dispatched
                == next.0.last().stage->Updating_record.transition.actions_dispatched
            &&& next.1->Update_0.current_state == crate::entity::encoded_state(
                crate::plan::moved(machine, entity, compound.region, target).0,
            )
        }),
{
    let next = after_find(event, below, machine, entity, forwarding, child_machine, child);
    assert(next.0.last().stage->Updating_response.actions_dispatched
        =~= next.0.last().stage->Updating_record.transition.actions_dispatched);
}

/// When a child machine has handled an event but is not in a final state, the parent stays in its
/// compound state, and its response tells what the child did.
pub proof fn law_unfinished_children_keep_their_parent(
    event: EventView,
    machine: MachineDefinitionView,
    entity: EntityView,
    forwarding: ForwardingView,
    response: TransitionResponseView,
)
    requires
        is_under_way(forwarding),
        was_handled(response),
        !forwarding.compounds[forwarding.at as int].sub_machine.on_final.contains_key(
            shown_text(response.current_state),
        ),
    ensures
        ({
            let parent = FrameView { machine, entity, stage: StageView::AwaitingChild(forwarding) };
            let compound = forwarding.compounds[forwarding.at as int];
            settle(event, seq![parent], response).1 matches StepView::Finish(answer) && {
                &&& answer.previous_state == crate::entity::shown_state(entity.current_state)
                &&& answer.current_state == answer.previous_state
                &&& answer.transition is None
                &&& answer.actions_dispatched == response.actions_dispatched
                &&& answer.sub_machine == Some(child_report(entity, compound, response))
                &&& !answer.sub_machine->0.auto_completed
            }
        }),
{
    let parent = FrameView { machine, entity, stage: StageView::AwaitingChild(forwarding) };
    assert(seq![parent].drop_last() =~= Seq::empty());
    reveal_with_fuel(settle, 3);
    reveal_with_fuel(after_child, 3);
}

} // verus!
