//! What becomes of an event, whatever machines it goes through.

use vstd::prelude::*;

use crate::models::{
    EntityView, MachineDefinitionView, StateValueView, SubMachineTransitionView,
    TransitionResponseView,
};
use crate::plan::{Cause, EventView};
use crate::transition_core::{
    ExecutionView, ForwardingView, FrameView, Next, ReplyView, StageView, StepView,
};

verus! {

/// Whether an answer tells of a change: of a transition, or of what a child did.
pub open spec fn tells_of_a_change(answer: TransitionResponseView) -> bool {
    (answer.transition is Some || answer.sub_machine is Some) && answer.reason is None
}

/// Whether a frame has nothing to tell yet, or will tell of a change.
pub open spec fn frame_tells(frame: FrameView) -> bool {
    match frame.stage {
        StageView::Updating { record, response } => tells_of_a_change(response),
        StageView::Recording { response } => tells_of_a_change(response),
        _ => true,
    }
}

/// Whether each frame has nothing to tell yet, or will tell of a change.
pub open spec fn all_tell(frames: Seq<FrameView>) -> bool {
    forall|k: int| 0 <= k < frames.len() ==> frame_tells(#[trigger] frames[k])
}

/// Whether the handling of an event has changed something and goes on to tell so, or has failed.
pub open spec fn is_committed(next: Next) -> bool {
    match next.1 {
        StepView::Record(_) => next.0.len() > 0 && next.0.last().stage is Recording && frame_tells(
            next.0.last(),
        ),
        StepView::Update(_) => next.0.len() > 0 && next.0.last().stage is Updating && frame_tells(
            next.0.last(),
        ),
        StepView::Finish(answer) => next.0.len() == 0 && tells_of_a_change(answer),
        StepView::Fail(_) => next.0.len() == 0,
        _ => false,
    }
}

/// Where the handling of an event stands after a number of replies.
pub open spec fn after_replies(event: EventView, start: Next, replies: Seq<ReplyView>) -> Next
    decreases replies.len(),
{
    if replies.len() == 0 {
        start
    } else {
        let before = after_replies(event, start, replies.drop_last());
        crate::transition_core::next(
            ExecutionView { event, frames: before.0 },
            replies.last(),
        )
    }
}

/// A frame put on top keeps what holds of those below.
proof fn lemma_push_tells(below: Seq<FrameView>, frame: FrameView)
    requires
        all_tell(below),
        frame_tells(frame),
    ensures
        all_tell(below.push(frame)),
{
    let frames = below.push(frame);
    assert forall|k: int| 0 <= k < frames.len() implies frame_tells(#[trigger] frames[k]) by {
        if k < below.len() {
            assert(frames[k] == below[k]);
        }
    }
}

/// Handing a response down keeps that frames tell of changes; one that tells of a change is never
/// lost on its way.
proof fn lemma_settle_tells(
    event: EventView,
    frames: Seq<FrameView>,
    response: TransitionResponseView,
)
    requires
        all_tell(frames),
    ensures
        all_tell(crate::transition_core::settle(event, frames, response).0),
        tells_of_a_change(response) ==> is_committed(
            crate::transition_core::settle(event, frames, response),
        ),
    decreases frames.len(),
{
    if frames.len() > 0 {
        let parent = frames.last();
        let below = frames.drop_last();
        assert(all_tell(below)) by {
            assert forall|k: int| 0 <= k < below.len() implies frame_tells(#[trigger] below[k]) by {
                assert(frame_tells(frames[k]));
            }
        }
        assert forall|r: TransitionResponseView|
            all_tell((#[trigger] crate::transition_core::settle(event, below, r)).0) && (
            tells_of_a_change(r) ==> is_committed(
                crate::transition_core::settle(event, below, r),
            )) by {
            lemma_settle_tells(event, below, r);
        }
        if let StageView::AwaitingChild(forwarding) = parent.stage {
            let rest = ForwardingView {
                compounds: forwarding.compounds,
                at: (forwarding.at + 1) as usize,
            };
            lemma_offer_tells(event, below, parent.machine, parent.entity, rest);
            reveal_with_fuel(crate::transition_core::settle, 3);
            reveal_with_fuel(crate::transition_core::after_child, 3);
            let compound = forwarding.compounds[forwarding.at as int];
            let report = crate::transition_core::child_report(parent.entity, compound, response);
            let target = compound.sub_machine.on_final[crate::transition_core::shown_text(
                response.current_state,
            )];
            let planned = crate::plan::plan(
                event,
                parent.machine,
                parent.entity,
                crate::transition_core::completion_cause(
                    parent.entity,
                    compound,
                    target,
                    response.actions_dispatched,
                    report,
                ),
            );
            lemma_push_tells(
                below,
                FrameView {
                    machine: parent.machine,
                    entity: parent.entity,
                    stage: StageView::Updating {
                        record: planned.record,
                        response: planned.response,
                    },
                },
            );
            let stays = crate::transition_core::unmoved(
                event,
                parent.entity,
                crate::plan::shown_region(parent.machine, compound.region),
                None,
                response.actions_dispatched,
                Some(report),
            );
            assert(all_tell(crate::transition_core::settle(event, below, stays).0));
        }
    }
}

/// Offering an event keeps that frames tell of changes.
proof fn lemma_offer_tells(
    event: EventView,
    below: Seq<FrameView>,
    machine: MachineDefinitionView,
    entity: EntityView,
    forwarding: ForwardingView,
)
    requires
        all_tell(below),
        forall|r: TransitionResponseView|
            all_tell((#[trigger] crate::transition_core::settle(event, below, r)).0),
    ensures
        all_tell(
            crate::transition_core::offer(event, below, machine, entity, forwarding).0,
        ),
{
    if forwarding.at >= forwarding.compounds.len() {
        reveal_with_fuel(crate::transition_core::offer, 3);
        let answer = crate::transition_core::no_transition_response(event, machine, entity);
        assert(all_tell(crate::transition_core::settle(event, below, answer).0));
    } else {
        lemma_push_tells(
            below,
            FrameView { machine, entity, stage: StageView::FindingMachine(forwarding) },
        );
    }
}

/// Each reply keeps that frames tell of changes, and that a change that was made is told.
proof fn lemma_next_tells(execution: ExecutionView, step: StepView, reply: ReplyView)
    requires
        all_tell(execution.frames),
    ensures
        all_tell(crate::transition_core::next(execution, reply).0),
        is_committed((execution.frames, step)) ==> is_committed(
            crate::transition_core::next(execution, reply),
        ),
        crate::transition_core::next(execution, reply).1 is Record ==> is_committed(
            crate::transition_core::next(execution, reply),
        ),
{
    crate::transition_core::law_actions_wait_for_the_change(execution, reply);
    if execution.frames.len() > 0 {
        let event = execution.event;
        let below = execution.frames.drop_last();
        let top = execution.frames.last();
        assert(frame_tells(execution.frames[execution.frames.len() - 1]));
        assert forall|k: int| 0 <= k < below.len() implies frame_tells(#[trigger] below[k]) by {
            assert(frame_tells(execution.frames[k]));
        }
        assert forall|r: TransitionResponseView|
            all_tell((#[trigger] crate::transition_core::settle(event, below, r)).0) && (
            tells_of_a_change(r) ==> is_committed(
                crate::transition_core::settle(event, below, r),
            )) by {
            lemma_settle_tells(event, below, r);
        }
        assert forall|frame: FrameView| frame_tells(frame) implies all_tell(
            #[trigger] below.push(frame),
        ) by {
            lemma_push_tells(below, frame);
        }
        match (top.stage, reply) {
            (StageView::Checking, ReplyView::Duplicate(duplicate)) => {
                let states = crate::entity::stored_state(top.entity.current_state);
                let forwarding = ForwardingView {
                    compounds: crate::transition_core::active_compounds(top.machine, states),
                    at: 0,
                };
                lemma_offer_tells(event, below, top.machine, top.entity, forwarding);
            },
            (StageView::FindingChild { forwarding, child_machine }, ReplyView::Child(child)) => {
                let waiting = FrameView {
                    machine: top.machine,
                    entity: top.entity,
                    stage: StageView::AwaitingChild(forwarding),
                };
                lemma_push_tells(below, waiting);
                lemma_push_tells(
                    below.push(waiting),
                    FrameView { machine: child_machine, entity: child, stage: StageView::Checking },
                );
            },
            _ => {},
        }
    }
}

/// Every stretch of replies keeps that frames tell of changes.
proof fn lemma_replies_tell(event: EventView, start: Next, replies: Seq<ReplyView>)
    requires
        all_tell(start.0),
    ensures
        all_tell(after_replies(event, start, replies).0),
    decreases replies.len(),
{
    if replies.len() > 0 {
        lemma_replies_tell(event, start, replies.drop_last());
        let before = after_replies(event, start, replies.drop_last());
        lemma_next_tells(
            ExecutionView { event, frames: before.0 },
            before.1,
            replies.last(),
        );
    }
}

/// What was changed and recorded for an event, by its machine or by any child machine down the
/// chain, is told in the answer: from the record on, however long the handling still takes, the
/// answer never says that nothing has happened.
pub proof fn law_changes_are_told(
    event: EventView,
    machine: MachineDefinitionView,
    entity: EntityView,
    start: StepView,
    replies: Seq<ReplyView>,
    recorded: int,
    answered: int,
)
    requires
        0 < recorded < answered <= replies.len(),
        after_replies(
            event,
            (crate::transition_core::first_frame(machine, entity), start),
            replies.take(recorded),
        ).1 is Record,
    ensures
        after_replies(
            event,
            (crate::transition_core::first_frame(machine, entity), start),
            replies.take(answered),
        ).1 matches StepView::Finish(answer) ==> {
            &&& answer.transition is Some || answer.sub_machine is Some
            &&& answer.reason is None
        },
{
    let begun = (crate::transition_core::first_frame(machine, entity), start);
    assert(all_tell(begun.0));
    lemma_committed(event, begun, replies, recorded, answered);
}

/// Once a change is recorded, the handling stays committed to tell of it.
proof fn lemma_committed(
    event: EventView,
    start: Next,
    replies: Seq<ReplyView>,
    recorded: int,
    answered: int,
)
    requires
        0 < recorded <= answered <= replies.len(),
        all_tell(start.0),
        after_replies(event, start, replies.take(recorded)).1 is Record,
    ensures
        is_committed(after_replies(event, start, replies.take(answered))),
    decreases answered,
{
    let now = replies.take(answered);
    assert(now.drop_last() =~= replies.take(answered - 1));
    let before = after_replies(event, start, now.drop_last());
    lemma_replies_tell(event, start, now.drop_last());
    lemma_next_tells(
        ExecutionView { event, frames: before.0 },
        before.1,
        now.last(),
    );
    if recorded < answered {
        lemma_committed(event, start, replies, recorded, answered - 1);
    }
}

// ── Single steps ────────────────────────────────────────────────────────────

/// Whether an entity is about to move as planned: the update and the record are those of the plan,
/// its answer is the plan's, and the states that are stored and shown are those that the move and
/// up to ten rounds of joins lead to.
pub open spec fn carries_out(
    event: EventView,
    machine: MachineDefinitionView,
    entity: EntityView,
    cause: Cause,
    next: Next,
) -> bool {
    let planned = crate::plan::plan(event, machine, entity, cause);
    let (after, fired) = crate::engine::cascade(
        machine.joins,
        crate::entity::stored_state(entity.current_state).insert(cause.region, cause.to_state),
        10,
    );
    &&& next.1 == StepView::Update(planned.update)
    &&& next.0.len() > 0
    &&& next.0.last() == (FrameView {
        machine,
        entity,
        stage: StageView::Updating { record: planned.record, response: planned.response },
    })
    &&& crate::laws::moves::stores(planned.update.current_state, after)
    &&& crate::laws::moves::shows(planned.response.current_state, after)
    &&& planned.response.joins_fired == fired
}

/// An event is looked for in the audit log by its tenant, the machine and the entity that it goes
/// to, its type and its time: what is recorded of a transition that it sets off.
pub proof fn law_events_are_looked_for_as_recorded(
    event: EventView,
    machine: MachineDefinitionView,
    entity: EntityView,
)
    ensures
        ({
            let key = crate::plan::event_key(event, machine, entity);
            &&& key.tenant_id == event.tenant_id
            &&& key.machine_id == machine.machine_id
            &&& key.entity_id == entity.entity_id
            &&& key.event_type == event.event_type
            &&& key.timestamp == event.timestamp
        }),
        crate::transition_core::first_frame(machine, entity) == seq![
            FrameView { machine, entity, stage: StageView::Checking },
        ],
{
}

/// An event that sets off a transition changes the entity of the machine at hand, at the version at
/// which it was read. Its context gains each parameter of the event as a string, and keeps
/// everything else. The audit log gets the event with its parameters and its time, and the answer
/// tells the state before and the move.
pub proof fn law_transitions_store_and_tell_the_event(
    event: EventView,
    below: Seq<FrameView>,
    machine: MachineDefinitionView,
    entity: EntityView,
    key: Seq<char>,
)
    requires
        crate::engine::evaluation(
            machine.transitions,
            crate::entity::stored_state(entity.current_state),
            event.event_type,
            event.params,
            entity.context,
        ) is Some,
    ensures
        ({
            let result = crate::engine::evaluation(
                machine.transitions,
                crate::entity::stored_state(entity.current_state),
                event.event_type,
                event.params,
                entity.context,
            )->0;
            let checking = FrameView { machine, entity, stage: StageView::Checking };
            let next = crate::transition_core::next(
                (ExecutionView { event, frames: below.push(checking) }),
                ReplyView::Duplicate(false),
            );
            let update = next.1->Update_0;
            let record = next.0.last().stage->Updating_record;
            let answer = next.0.last().stage->Updating_response;
            &&& carries_out(
                event,
                machine,
                entity,
                (Cause {
                    region: result.region,
                    from_state: result.from_state,
                    to_state: result.to_state,
                    event_type: event.event_type,
                    event_params: crate::json_text::string_object_text(event.params),
                    context: update.context,
                    child_actions: Seq::empty(),
                    sub_machine: None,
                }),
                next,
            )
            &&& next.1 is Update
            &&& next.0.len() == below.len() + 1
            &&& next.0.drop_last() == below
            &&& next.0.last().stage is Updating
            &&& update.tenant_id == event.tenant_id
            &&& update.machine_id == machine.machine_id
            &&& update.entity_id == entity.entity_id
            &&& update.state_version == entity.state_version
            &&& update.context.contains_key(key) <==> event.params.contains_key(key)
                || entity.context.contains_key(key)
            &&& event.params.contains_key(key) ==> update.context[key]
                == crate::json::ValueView::String(event.params[key])
            &&& !event.params.contains_key(key) && entity.context.contains_key(key)
                ==> update.context[key] == entity.context[key]
            &&& record.tenant_id == event.tenant_id
            &&& record.machine_id == machine.machine_id
            &&& record.entity_id == entity.entity_id
            &&& record.transition.event_type == event.event_type
            &&& record.transition.event_params == crate::json_text::string_object_text(event.params)
            &&& record.transition.timestamp == event.timestamp
            &&& record.transition.from_state == result.from_state
            &&& record.transition.to_state == result.to_state
            &&& record.transition.region == if machine.regions.len() > 0 {
                result.region
            } else {
                Seq::<char>::empty()
            }
            &&& answer.entity_id == entity.entity_id
            &&& answer.previous_state == crate::entity::shown_state(entity.current_state)
            &&& answer.triggered_by == event.event_type
            &&& answer.timestamp == event.timestamp
            &&& answer.reason is None
            &&& answer.sub_machine is None
            &&& answer.actions_dispatched == record.transition.actions_dispatched
            &&& answer.region == if machine.regions.len() > 0 {
                Some(result.region)
            } else {
                None
            }
            &&& answer.transition == Some(
                if machine.regions.len() > 0 {
                    result.region + ": "@ + result.from_state + " → "@ + result.to_state
                } else {
                    result.from_state + " → "@ + result.to_state
                },
            )
        }),
{
    let checking = FrameView { machine, entity, stage: StageView::Checking };
    assert(below.push(checking).drop_last() =~= below);
    let next = crate::transition_core::next(
        ExecutionView { event, frames: below.push(checking) },
        ReplyView::Duplicate(false),
    );
    assert(next.0.drop_last() =~= below);
    assert(next.0.last().stage->Updating_response.actions_dispatched
        =~= next.0.last().stage->Updating_record.transition.actions_dispatched);
    let result = crate::engine::evaluation(
        machine.transitions,
        crate::entity::stored_state(entity.current_state),
        event.event_type,
        event.params,
        entity.context,
    )->0;
    crate::laws::moves::law_moves_let_joins_follow(
        event,
        machine,
        entity,
        crate::plan::event_cause(event, entity, result),
    );
}

/// The answer where an entity stays in its state.
pub open spec fn stays(
    event: EventView,
    entity: EntityView,
    reason: Option<Seq<char>>,
) -> TransitionResponseView {
    TransitionResponseView {
        entity_id: entity.entity_id,
        previous_state: crate::entity::shown_state(entity.current_state),
        current_state: crate::entity::shown_state(entity.current_state),
        transition: None,
        region: None,
        triggered_by: event.event_type,
        actions_dispatched: Seq::empty(),
        joins_fired: Seq::empty(),
        timestamp: event.timestamp,
        reason,
        sub_machine: None,
    }
}

/// An event that a machine has handled before is answered as such: nothing is changed, nothing is
/// listed, and the state is told as it is. The answer goes to the caller, or to the parent that
/// waits for it.
pub proof fn law_duplicates_are_answered_as_such(
    event: EventView,
    below: Seq<FrameView>,
    machine: MachineDefinitionView,
    entity: EntityView,
)
    ensures
        ({
            let checking = FrameView { machine, entity, stage: StageView::Checking };
            let answer = stays(event, entity, Some("duplicate event (already processed)"@));
            let next = crate::transition_core::next(
                (ExecutionView { event, frames: below.push(checking) }),
                ReplyView::Duplicate(true),
            );
            &&& next == crate::transition_core::settle(event, below, answer)
            &&& below.len() == 0 ==> next == (Seq::<FrameView>::empty(), StepView::Finish(answer))
        }),
{
    let checking = FrameView { machine, entity, stage: StageView::Checking };
    assert(below.push(checking).drop_last() =~= below);
}

/// The state for which a child is looked up among those that end it: a bare state, or none.
pub open spec fn final_state(response: TransitionResponseView) -> Seq<char> {
    match response.current_state {
        StateValueView::Text(state) => state,
        StateValueView::Json(_) => Seq::empty(),
    }
}

/// A child that has acted, itself or through a child of its own, without being done: the parent
/// stays as it is, and its answer names the child and tells what it did. The answer goes to the
/// caller, or to the parent that waits for it.
pub proof fn law_acting_children_are_told(
    event: EventView,
    below: Seq<FrameView>,
    machine: MachineDefinitionView,
    entity: EntityView,
    forwarding: ForwardingView,
    response: TransitionResponseView,
)
    requires
        forwarding.at < forwarding.compounds.len(),
        response.transition is Some || response.sub_machine is Some,
        !forwarding.compounds[forwarding.at as int].sub_machine.on_final.contains_key(
            final_state(response),
        ),
    ensures
        ({
            let compound = forwarding.compounds[forwarding.at as int];
            let parent = FrameView { machine, entity, stage: StageView::AwaitingChild(forwarding) };
            let answer = TransitionResponseView {
                region: if machine.regions.len() > 0 {
                    Some(compound.region)
                } else {
                    None
                },
                actions_dispatched: response.actions_dispatched,
                sub_machine: Some(
                    SubMachineTransitionView {
                        machine_id: compound.sub_machine.machine_id,
                        entity_id: entity.entity_id + "::sub::"@ + compound.state,
                        previous_state: response.previous_state,
                        current_state: response.current_state,
                        transition: response.transition,
                        auto_completed: false,
                    },
                ),
                ..stays(event, entity, None)
            };
            let next = crate::transition_core::settle(event, below.push(parent), response);
            &&& next == crate::transition_core::settle(event, below, answer)
            &&& below.len() == 0 ==> next == (Seq::<FrameView>::empty(), StepView::Finish(answer))
        }),
{
    let parent = FrameView { machine, entity, stage: StageView::AwaitingChild(forwarding) };
    assert(below.push(parent).drop_last() =~= below);
    reveal_with_fuel(crate::transition_core::settle, 3);
    reveal_with_fuel(crate::transition_core::after_child, 3);
}

/// A child that has acted and is done: its parent leaves the compound state for the one that its
/// definition names. The context of the parent stays; the audit log tells the move of the parent,
/// and the answer tells the move and what the child did.
pub proof fn law_done_children_advance_their_parent(
    event: EventView,
    below: Seq<FrameView>,
    machine: MachineDefinitionView,
    entity: EntityView,
    forwarding: ForwardingView,
    response: TransitionResponseView,
)
    requires
        forwarding.at < forwarding.compounds.len(),
        response.transition is Some || response.sub_machine is Some,
        forwarding.compounds[forwarding.at as int].sub_machine.on_final.contains_key(
            final_state(response),
        ),
    ensures
        ({
            let compound = forwarding.compounds[forwarding.at as int];
            let target = compound.sub_machine.on_final[final_state(response)];
            let parent = FrameView { machine, entity, stage: StageView::AwaitingChild(forwarding) };
            let next = crate::transition_core::settle(event, below.push(parent), response);
            let answer = next.0.last().stage->Updating_response;
            let record = next.0.last().stage->Updating_record;
            &&& next.0.drop_last() == below
            &&& next.0.last().stage is Updating
            &&& answer.actions_dispatched == response.actions_dispatched
                + record.transition.actions_dispatched
            &&& answer.sub_machine matches Some(report)
            &&& report.machine_id == compound.sub_machine.machine_id
            &&& report.entity_id == entity.entity_id + "::sub::"@ + compound.state
            &&& report.previous_state == response.previous_state
            &&& report.current_state == response.current_state
            &&& report.transition == response.transition
            &&& report.auto_completed
            &&& is_completion(event, machine, entity, compound.state, compound.region, target, next)
            &&& carries_out(
                event,
                machine,
                entity,
                (Cause {
                    region: compound.region,
                    from_state: compound.state,
                    to_state: target,
                    event_type: "$sub_complete"@,
                    event_params: "{}"@,
                    context: entity.context,
                    child_actions: response.actions_dispatched,
                    sub_machine: answer.sub_machine,
                }),
                next,
            )
        }),
{
    let parent = FrameView { machine, entity, stage: StageView::AwaitingChild(forwarding) };
    assert(below.push(parent).drop_last() =~= below);
    reveal_with_fuel(crate::transition_core::settle, 3);
    reveal_with_fuel(crate::transition_core::after_child, 3);
    let next = crate::transition_core::settle(event, below.push(parent), response);
    assert(next.0.drop_last() =~= below);
    let compound = forwarding.compounds[forwarding.at as int];
    crate::laws::moves::law_moves_let_joins_follow(
        event,
        machine,
        entity,
        crate::transition_core::completion_cause(
            entity,
            compound,
            compound.sub_machine.on_final[final_state(response)],
            response.actions_dispatched,
            crate::transition_core::child_report(entity, compound, response),
        ),
    );
}

/// Whether an entity is about to leave a compound state for another state because its child is
/// done.
pub open spec fn is_completion(
    event: EventView,
    machine: MachineDefinitionView,
    entity: EntityView,
    from_state: Seq<char>,
    region: Seq<char>,
    target: Seq<char>,
    next: Next,
) -> bool {
    let update = next.1->Update_0;
    let answer = next.0.last().stage->Updating_response;
    let record = next.0.last().stage->Updating_record;
    &&& next.1 is Update
    &&& update.tenant_id == event.tenant_id
    &&& update.machine_id == machine.machine_id
    &&& update.entity_id == entity.entity_id
    &&& update.state_version == entity.state_version
    &&& update.context == entity.context
    &&& record.tenant_id == event.tenant_id
    &&& record.machine_id == machine.machine_id
    &&& record.entity_id == entity.entity_id
    &&& record.transition.event_type == "$sub_complete"@
    &&& record.transition.event_params == "{}"@
    &&& record.transition.timestamp == event.timestamp
    &&& record.transition.from_state == from_state
    &&& record.transition.to_state == target
    &&& record.transition.region == if machine.regions.len() > 0 {
        region
    } else {
        Seq::<char>::empty()
    }
    &&& answer.entity_id == entity.entity_id
    &&& answer.previous_state == crate::entity::shown_state(entity.current_state)
    &&& answer.triggered_by == event.event_type
    &&& answer.timestamp == event.timestamp
    &&& answer.reason is None
    &&& answer.region == if machine.regions.len() > 0 {
        Some(region)
    } else {
        None
    }
    &&& answer.transition == Some(
        if machine.regions.len() > 0 {
            region + ": "@ + from_state + " → "@ + target
        } else {
            from_state + " → "@ + target
        },
    )
}

/// A child that has not acted: the event goes to the next compound state, and where there is none
/// it is answered that it sets nothing off.
pub proof fn law_idle_children_pass_the_event_on(
    event: EventView,
    below: Seq<FrameView>,
    machine: MachineDefinitionView,
    entity: EntityView,
    forwarding: ForwardingView,
    response: TransitionResponseView,
)
    requires
        forwarding.at < forwarding.compounds.len() <= usize::MAX,
        response.transition is None,
        response.sub_machine is None,
    ensures
        ({
            let parent = FrameView { machine, entity, stage: StageView::AwaitingChild(forwarding) };
            let next = crate::transition_core::settle(event, below.push(parent), response);
            if forwarding.at + 1 < forwarding.compounds.len() {
                let rest = ForwardingView {
                    compounds: forwarding.compounds,
                    at: (forwarding.at + 1) as usize,
                };
                &&& next.0 == below.push(
                    FrameView { machine, entity, stage: StageView::FindingMachine(rest) },
                )
                &&& next.1 == (StepView::LoadMachine {
                    tenant_id: event.tenant_id,
                    machine_id: forwarding.compounds[forwarding.at + 1].sub_machine.machine_id,
                })
            } else {
                let answer = sets_nothing_off(event, machine, entity);
                &&& next == crate::transition_core::settle(event, below, answer)
                &&& below.len() == 0 ==> next == (
                    Seq::<FrameView>::empty(),
                    StepView::Finish(answer),
                )
            }
        }),
{
    let parent = FrameView { machine, entity, stage: StageView::AwaitingChild(forwarding) };
    assert(below.push(parent).drop_last() =~= below);
    reveal_with_fuel(crate::transition_core::settle, 3);
    reveal_with_fuel(crate::transition_core::after_child, 3);
    reveal_with_fuel(crate::transition_core::offer, 3);
}

/// The answer to an event that sets nothing off: it tells where the entity is.
pub open spec fn sets_nothing_off(
    event: EventView,
    machine: MachineDefinitionView,
    entity: EntityView,
) -> TransitionResponseView {
    stays(
        event,
        entity,
        Some(
            "no transition from '"@ + (if machine.regions.len() > 0 {
                crate::json_text::debug_text(crate::entity::stored_state(entity.current_state))
            } else {
                entity.current_state
            }) + "' on '"@ + event.event_type + "'"@,
        ),
    )
}

/// An event that sets off no transition of the machine at hand goes to the first compound state that
/// its entity is in; where it is in none, it is answered that the event sets nothing off.
pub proof fn law_unmatched_events_go_to_the_child(
    event: EventView,
    below: Seq<FrameView>,
    machine: MachineDefinitionView,
    entity: EntityView,
)
    requires
        crate::engine::evaluation(
            machine.transitions,
            crate::entity::stored_state(entity.current_state),
            event.event_type,
            event.params,
            entity.context,
        ) is None,
    ensures
        ({
            let compounds = crate::transition_core::active_compounds(
                machine,
                crate::entity::stored_state(entity.current_state),
            );
            let checking = FrameView { machine, entity, stage: StageView::Checking };
            let next = crate::transition_core::next(
                (ExecutionView { event, frames: below.push(checking) }),
                ReplyView::Duplicate(false),
            );
            if compounds.len() > 0 {
                &&& next.0 == below.push(
                    FrameView {
                        machine,
                        entity,
                        stage: StageView::FindingMachine(ForwardingView { compounds, at: 0 }),
                    },
                )
                &&& next.1 == (StepView::LoadMachine {
                    tenant_id: event.tenant_id,
                    machine_id: compounds[0].sub_machine.machine_id,
                })
            } else {
                let answer = sets_nothing_off(event, machine, entity);
                &&& next == crate::transition_core::settle(event, below, answer)
                &&& below.len() == 0 ==> next == (
                    Seq::<FrameView>::empty(),
                    StepView::Finish(answer),
                )
            }
        }),
{
    let checking = FrameView { machine, entity, stage: StageView::Checking };
    assert(below.push(checking).drop_last() =~= below);
    reveal_with_fuel(crate::transition_core::settle, 3);
    reveal_with_fuel(crate::transition_core::offer, 3);
}

/// The child of a compound state is the entity of the state's machine whose ID is made of those of
/// the parent and the state; it is created by that machine where there is none.
pub proof fn law_children_are_looked_for_by_name(
    event: EventView,
    below: Seq<FrameView>,
    machine: MachineDefinitionView,
    entity: EntityView,
    forwarding: ForwardingView,
    child_machine: MachineDefinitionView,
)
    requires
        forwarding.at < forwarding.compounds.len(),
    ensures
        ({
            let compound = forwarding.compounds[forwarding.at as int];
            let finding = FrameView {
                machine,
                entity,
                stage: StageView::FindingMachine(forwarding),
            };
            let next = crate::transition_core::next(
                (ExecutionView { event, frames: below.push(finding) }),
                ReplyView::Machine(child_machine),
            );
            &&& next.0 == below.push(
                FrameView {
                    machine,
                    entity,
                    stage: StageView::FindingChild { forwarding, child_machine },
                },
            )
            &&& next.1 == (StepView::LoadOrCreateChild {
                tenant_id: event.tenant_id,
                machine_id: compound.sub_machine.machine_id,
                entity_id: entity.entity_id + "::sub::"@ + compound.state,
                machine: child_machine,
            })
        }),
{
    let finding = FrameView { machine, entity, stage: StageView::FindingMachine(forwarding) };
    assert(below.push(finding).drop_last() =~= below);
}

/// A child that is found in a state that ends it lets its parent advance at once. Any other child
/// gets the event as if it had been sent to it: it is looked up in the audit log first.
pub proof fn law_found_children_get_the_event(
    event: EventView,
    below: Seq<FrameView>,
    machine: MachineDefinitionView,
    entity: EntityView,
    forwarding: ForwardingView,
    child_machine: MachineDefinitionView,
    child: EntityView,
)
    requires
        forwarding.at < forwarding.compounds.len(),
    ensures
        ({
            let compound = forwarding.compounds[forwarding.at as int];
            let finding = FrameView {
                machine,
                entity,
                stage: StageView::FindingChild { forwarding, child_machine },
            };
            let next = crate::transition_core::next(
                (ExecutionView { event, frames: below.push(finding) }),
                ReplyView::Child(child),
            );
            if compound.sub_machine.on_final.contains_key(child.current_state) {
                let target = compound.sub_machine.on_final[child.current_state];
                let answer = next.0.last().stage->Updating_response;
                let record = next.0.last().stage->Updating_record;
                &&& next.0.drop_last() == below
                &&& next.0.last().stage is Updating
                &&& is_completion(
                    event,
                    machine,
                    entity,
                    compound.state,
                    compound.region,
                    target,
                    next,
                )
                &&& carries_out(
                    event,
                    machine,
                    entity,
                    (Cause {
                        region: compound.region,
                        from_state: compound.state,
                        to_state: target,
                        event_type: "$sub_complete"@,
                        event_params: "{}"@,
                        context: entity.context,
                        child_actions: Seq::empty(),
                        sub_machine: answer.sub_machine,
                    }),
                    next,
                )
                &&& answer.actions_dispatched == record.transition.actions_dispatched
                &&& answer.sub_machine matches Some(report)
                &&& report.machine_id == compound.sub_machine.machine_id
                &&& report.entity_id == child.entity_id
                &&& report.previous_state == crate::entity::shown_state(child.current_state)
                &&& report.current_state == report.previous_state
                &&& report.transition is None
                &&& report.auto_completed
            } else {
                &&& next.0 == below.push(
                    FrameView { machine, entity, stage: StageView::AwaitingChild(forwarding) },
                ).push(
                    FrameView { machine: child_machine, entity: child, stage: StageView::Checking },
                )
                &&& next.1 matches StepView::FindDuplicate(key)
                &&& key.tenant_id == event.tenant_id
                &&& key.machine_id == child_machine.machine_id
                &&& key.entity_id == child.entity_id
                &&& key.event_type == event.event_type
                &&& key.timestamp == event.timestamp
            }
        }),
{
    let finding = FrameView {
        machine,
        entity,
        stage: StageView::FindingChild { forwarding, child_machine },
    };
    assert(below.push(finding).drop_last() =~= below);
    let next = crate::transition_core::next(
        ExecutionView { event, frames: below.push(finding) },
        ReplyView::Child(child),
    );
    if forwarding.compounds[forwarding.at as int].sub_machine.on_final.contains_key(
        child.current_state,
    ) {
        assert(next.0.drop_last() =~= below);
        assert(next.0.last().stage->Updating_response.actions_dispatched
            =~= next.0.last().stage->Updating_record.transition.actions_dispatched);
        let compound = forwarding.compounds[forwarding.at as int];
        crate::laws::moves::law_moves_let_joins_follow(
            event,
            machine,
            entity,
            crate::transition_core::completion_cause(
                entity,
                compound,
                compound.sub_machine.on_final[child.current_state],
                Seq::empty(),
                crate::transition_core::finished_child_report(compound, child),
            ),
        );
    }
}

/// A change that took effect is recorded, and once it is recorded the event is answered with what
/// was planned, to the caller or to the parent that waits for it; a change that did not take effect
/// is a conflict, which ends the handling of the event.
pub proof fn law_changes_are_recorded_then_answered(
    event: EventView,
    below: Seq<FrameView>,
    machine: MachineDefinitionView,
    entity: EntityView,
    record: crate::plan::RecordView,
    response: TransitionResponseView,
    changed: u64,
)
    ensures
        ({
            let updating = FrameView {
                machine,
                entity,
                stage: StageView::Updating { record, response },
            };
            let recording = FrameView { machine, entity, stage: StageView::Recording { response } };
            let next = crate::transition_core::next(
                (ExecutionView { event, frames: below.push(updating) }),
                ReplyView::Updated(changed),
            );
            let last = crate::transition_core::next(
                (ExecutionView { event, frames: below.push(recording) }),
                ReplyView::Recorded,
            );
            &&& changed > 0 ==> next == (below.push(recording), StepView::Record(record))
            &&& changed == 0 ==> next == (
                Seq::<FrameView>::empty(),
                StepView::Fail(
                    crate::errors::AppErrorView::Conflict(
                        "Concurrent modification detected — retry the transition"@,
                    ),
                ),
            )
            &&& last == crate::transition_core::settle(event, below, response)
            &&& below.len() == 0 ==> last == (Seq::<FrameView>::empty(), StepView::Finish(response))
        }),
{
    let updating = FrameView { machine, entity, stage: StageView::Updating { record, response } };
    let recording = FrameView { machine, entity, stage: StageView::Recording { response } };
    assert(below.push(updating).drop_last() =~= below);
    assert(below.push(recording).drop_last() =~= below);
}

/// A step that failed refuses the event for the reason it failed, wherever its handling stands. A
/// reply that answers no step refuses it too, and once the event is answered or refused nothing
/// more is done for it.
pub proof fn law_failures_refuse_the_event(
    event: EventView,
    frames: Seq<FrameView>,
    error: crate::errors::AppErrorView,
    reply: ReplyView,
)
    ensures
        frames.len() > 0 ==> crate::transition_core::next(
            (ExecutionView { event, frames }),
            ReplyView::Failed(error),
        ) == (Seq::<FrameView>::empty(), StepView::Fail(error)),
        frames.len() > 0 && frames.last().stage is AwaitingChild ==> crate::transition_core::next(
            (ExecutionView { event, frames }),
            reply,
        ).1 is Fail,
        ({
            let over = crate::transition_core::next(
                (ExecutionView { event, frames: Seq::empty() }),
                reply,
            );
            over.0.len() == 0 && over.1 is Fail
        }),
{
}

} // verus!
