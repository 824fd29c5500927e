//! What a transition that fires on its own comes to.

use vstd::prelude::*;

use crate::models::{MachineDefinitionView, TransitionDefView};
use crate::query::SqlParamView;
use crate::scheduler::{TimedOutEntityView, TimeoutView};

verus! {

/// The region in which a transition operates: the one that it names, or else the default one.
pub open spec fn named_region(t: TransitionDefView) -> Seq<char> {
    match t.region {
        Some(region) => region,
        None => "_"@,
    }
}

/// The entities whose time is up are those of the machine and its tenant that are in the state which
/// the transition leaves, in its region, and that have not changed for all the seconds it waits.
pub proof fn law_entities_are_due_after_their_time(
    machine: MachineDefinitionView,
    timeout: TimeoutView,
    now: i64,
)
    requires
        i64::MIN <= timeout.seconds * 1000 <= i64::MAX,
        i64::MIN <= now - timeout.seconds * 1000 <= i64::MAX,
    ensures
        ({
            let query = crate::scheduler::timeout_query(machine, timeout, now);
            &&& query.params.len() == 4
            &&& query.params[0] == SqlParamView::Text(machine.tenant_id)
            &&& query.params[1] == SqlParamView::Text(machine.machine_id)
            &&& query.params[2] == SqlParamView::Text(timeout.transition.from)
            &&& query.params[3] matches SqlParamView::Integer(cutoff)
            &&& cutoff == now - timeout.seconds * 1000
            &&& query.sql == if machine.regions.len() > 0 {
                "SELECT entity_id, current_state, context, state_version, updated_at FROM entities WHERE tenant_id = ?1 AND machine_id = ?2 AND json_extract(current_state, '$."@
                    + named_region(timeout.transition) + "') = ?3 AND updated_at <= ?4"@
            } else {
                "SELECT entity_id, current_state, context, state_version, updated_at FROM entities WHERE tenant_id = ?1 AND machine_id = ?2 AND current_state = ?3 AND updated_at <= ?4"@
            }
            &&& crate::scheduler::cutoff_fits(timeout.seconds, now)
        }),
{
}

/// The time before which an entity must have changed can be told exactly if neither the timeout in
/// milliseconds nor that time leaves the range of a timestamp.
pub proof fn law_cutoffs_are_refused_by_range_only(seconds: i64, now: i64)
    ensures
        crate::scheduler::cutoff_fits(seconds, now) <==> {
            &&& i64::MIN <= seconds * 1000 <= i64::MAX
            &&& i64::MIN <= now - seconds * 1000 <= i64::MAX
        },
{
}

/// A timeout of a flat machine puts its entity in the target state, at the version at which it was
/// found, and records the move from the state that it was in.
pub proof fn law_flat_timeouts_move_the_entity(
    url: Seq<char>,
    machine: MachineDefinitionView,
    t: TransitionDefView,
    entity: TimedOutEntityView,
    read: Option<Map<Seq<char>, Seq<char>>>,
    now: i64,
)
    requires
        machine.regions.len() == 0,
    ensures
        ({
            let planned = crate::scheduler::timeout_move(url, machine, t, entity, read, now);
            &&& planned.entity_id == entity.entity_id
            &&& planned.state_version == entity.state_version
            &&& planned.current_state == t.to
            &&& planned.record.entry.from_state == entity.current_state
            &&& planned.record.entry.region.len() == 0
            &&& planned.record.joins.len() == 0
            &&& crate::laws::moves::lists_all(
                planned.record.entry.actions_dispatched,
                crate::actions::fired_actions(machine.actions, t.to, None),
            )
            &&& crate::laws::moves::begins_child(
                machine,
                entity.entity_id,
                named_region(t),
                t.to,
                planned.record.children,
            )
        }),
{
    let planned = crate::scheduler::timeout_move(url, machine, t, entity, read, now);
    let own = crate::plan::child_of(machine, entity.entity_id, named_region(t), t.to);
    assert(planned.record.children =~= own);
    let actions = crate::actions::fired_actions(machine.actions, t.to, None);
    assert(crate::plan::all_actions(machine, t.to, None, Seq::empty(), Seq::empty()) =~= actions);
}

/// A timeout of a parallel machine puts its region in the target state and lets joins follow for up
/// to ten rounds; the other regions stay as they are read. Each join is recorded, and where fewer
/// than ten have followed none is due any more.
pub proof fn law_parallel_timeouts_move_their_region(
    url: Seq<char>,
    machine: MachineDefinitionView,
    t: TransitionDefView,
    entity: TimedOutEntityView,
    read: Option<Map<Seq<char>, Seq<char>>>,
    now: i64,
)
    requires
        machine.regions.len() > 0,
    ensures
        ({
            let planned = crate::scheduler::timeout_move(url, machine, t, entity, read, now);
            let before = match read {
                Some(states) => states,
                None => Map::empty(),
            };
            let start = before.insert(named_region(t), t.to);
            let (after, fired) = crate::engine::cascade(machine.joins, start, 10);
            let sources = crate::engine::cascade_joins(machine.joins, start, 10);
            let own = crate::plan::child_of(machine, entity.entity_id, named_region(t), t.to);
            &&& planned.entity_id == entity.entity_id
            &&& planned.state_version == entity.state_version
            &&& crate::laws::moves::stores(planned.current_state, after)
            &&& planned.record.entry.from_state == crate::laws::lists::state_in(
                before,
                named_region(t),
            )
            &&& planned.record.entry.region == named_region(t)
            &&& crate::laws::moves::logs_joins(planned.record.joins, fired, now)
            &&& fired.len() < 10 ==> crate::laws::joins::are_at_rest(machine.joins, after)
            &&& crate::laws::moves::lists_all(
                planned.record.entry.actions_dispatched,
                crate::actions::fired_actions(machine.actions, t.to, Some(named_region(t)))
                    + crate::plan::join_entry_actions(machine.actions, fired)
                    + crate::plan::join_own_actions(sources),
            )
            &&& crate::laws::moves::begins_child(
                machine,
                entity.entity_id,
                named_region(t),
                t.to,
                own,
            )
            &&& planned.record.children == own + crate::plan::join_children(
                machine,
                entity.entity_id,
                fired,
            )
        }),
{
    let before = match read {
        Some(states) => states,
        None => Map::empty(),
    };
    let start = before.insert(named_region(t), t.to);
    let (after, fired) = crate::engine::cascade(machine.joins, start, 10);
    crate::laws::moves::law_states_are_stored_and_shown(after);
    if fired.len() < 10 {
        crate::laws::joins::law_joins_come_to_rest(machine.joins, start, 10);
    }
}

/// The audit log has a timeout under the time at which it fired, with the context of the entity,
/// and each request that it sends tells the move that the log has of it, one for each action
/// listed.
pub proof fn law_timeouts_send_what_they_record(
    url: Seq<char>,
    machine: MachineDefinitionView,
    t: TransitionDefView,
    entity: TimedOutEntityView,
    read: Option<Map<Seq<char>, Seq<char>>>,
    now: i64,
)
    ensures
        ({
            let record = crate::scheduler::timeout_move(url, machine, t, entity, read, now).record;
            let listed = record.entry.actions_dispatched;
            &&& record.entry.event_type == "$timeout"@
            &&& record.entry.event_params == match entity.context {
                Some(text) => text,
                None => "{}"@,
            }
            &&& record.entry.timestamp == now
            &&& record.entry.to_state == t.to
            &&& record.deliveries.len() == listed.len()
            &&& forall|i: int|
                0 <= i < record.deliveries.len() ==> crate::laws::moves::delivers(
                    #[trigger] record.deliveries[i],
                    listed[i],
                    url,
                    machine.tenant_id,
                    machine.machine_id,
                    entity.entity_id,
                    record.entry.from_state,
                    record.entry.to_state,
                )
        }),
{
    let outcome = crate::scheduler::timed_out(machine, t, entity.current_state, read);
    let actions = crate::plan::all_actions(
        machine,
        t.to,
        crate::plan::shown_region(machine, crate::engine::transition_region(t)),
        outcome.fired_joins,
        outcome.fired,
    );
    crate::laws::moves::law_requests_tell_the_move(
        actions,
        url,
        crate::actions::Movement {
            tenant_id: machine.tenant_id,
            machine_id: machine.machine_id,
            entity_id: entity.entity_id,
            from_state: outcome.from_state,
            to_state: t.to,
        },
    );
}

} // verus!
