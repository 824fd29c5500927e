//! Transitions that fire on their own once an entity has been in a state for long enough.

use vstd::prelude::*;

use crate::actions::{dispatch_actions, Delivery, DeliveryView};
use crate::engine::{fire_joins, region_of};
use crate::json::{field_index, Number, NumberView, Value, ValueView};
use crate::json_text::parse_string_object;
use crate::models::{
    Entity, JoinDef, JoinDefView, JoinFired, JoinFiredView, MachineDefinition,
    MachineDefinitionView, TransitionDef, TransitionDefView,
};
use crate::plan::{
    collect_all_actions, entered_children, join_entries, Child, ChildView, HistoryEntry,
    HistoryEntryView, MAX_JOIN_DEPTH,
};
use crate::query::{push_integer, push_text, Query, QueryView, SqlParam, SqlParamView};
use crate::string_map::{Duplicate, StringMap};
use crate::text::{concat3, same_text};

verus! {

/// The event of a transition that fires on its own.
pub const TIMEOUT_EVENT: &'static str = "$timeout";

/// How the entities of a flat machine whose time is up are found.
pub const FLAT_TIMEOUT_SQL: &'static str =
    "SELECT entity_id, current_state, context, state_version, updated_at FROM entities WHERE tenant_id = ?1 AND machine_id = ?2 AND current_state = ?3 AND updated_at <= ?4";

/// How the entities of a parallel machine whose time is up are found: what precedes the region.
pub const PARALLEL_TIMEOUT_SQL_HEAD: &'static str =
    "SELECT entity_id, current_state, context, state_version, updated_at FROM entities WHERE tenant_id = ?1 AND machine_id = ?2 AND json_extract(current_state, '$.";

/// How the entities of a parallel machine whose time is up are found: what follows the region.
pub const PARALLEL_TIMEOUT_SQL_TAIL: &'static str = "') = ?3 AND updated_at <= ?4";

/// A transition that fires on its own.
#[derive(Debug)]
pub struct Timeout {
    pub transition: TransitionDef,
    /// How long the entity has to be in the state.
    pub seconds: i64,
}

/// What a [`Timeout`] stands for.
#[verifier::ext_equal]
pub struct TimeoutView {
    pub transition: TransitionDefView,
    pub seconds: i64,
}

impl DeepView for Timeout {
    type V = TimeoutView;

    open spec fn deep_view(&self) -> TimeoutView {
        TimeoutView {
            transition: self.transition.deep_view(),
            seconds: self.seconds,
        }
    }
}

/// An entity whose time is up, as the database has it.
#[derive(Debug)]
pub struct TimedOutEntity {
    pub entity_id: String,
    pub current_state: String,
    /// JSON text.
    pub context: Option<String>,
    pub state_version: i64,
}

/// What a [`TimedOutEntity`] stands for.
#[verifier::ext_equal]
pub struct TimedOutEntityView {
    pub entity_id: Seq<char>,
    pub current_state: Seq<char>,
    pub context: Option<Seq<char>>,
    pub state_version: i64,
}

impl DeepView for TimedOutEntity {
    type V = TimedOutEntityView;

    open spec fn deep_view(&self) -> TimedOutEntityView {
        TimedOutEntityView {
            entity_id: self.entity_id@,
            current_state: self.current_state@,
            context: self.context.deep_view(),
            state_version: self.state_version,
        }
    }
}

/// What follows from a timeout that has taken effect.
#[derive(Debug)]
pub struct TimeoutRecord {
    pub deliveries: Vec<Delivery>,
    pub entry: HistoryEntry,
    /// The joins that followed from it.
    pub joins: Vec<HistoryEntry>,
    pub children: Vec<Child>,
}

/// What a [`TimeoutRecord`] stands for.
#[verifier::ext_equal]
pub struct TimeoutRecordView {
    pub deliveries: Seq<DeliveryView>,
    pub entry: HistoryEntryView,
    pub joins: Seq<HistoryEntryView>,
    pub children: Seq<ChildView>,
}

impl DeepView for TimeoutRecord {
    type V = TimeoutRecordView;

    open spec fn deep_view(&self) -> TimeoutRecordView {
        TimeoutRecordView {
            deliveries: self.deliveries.deep_view(),
            entry: self.entry.deep_view(),
            joins: self.joins.deep_view(),
            children: self.children.deep_view(),
        }
    }
}

/// A timeout to carry out. It takes effect only if the entity still has the version given.
#[derive(Debug)]
pub struct TimeoutMove {
    pub entity_id: String,
    pub current_state: String,
    pub state_version: i64,
    pub record: TimeoutRecord,
}

/// What a [`TimeoutMove`] stands for.
#[verifier::ext_equal]
pub struct TimeoutMoveView {
    pub entity_id: Seq<char>,
    pub current_state: Seq<char>,
    pub state_version: i64,
    pub record: TimeoutRecordView,
}

impl DeepView for TimeoutMove {
    type V = TimeoutMoveView;

    open spec fn deep_view(&self) -> TimeoutMoveView {
        TimeoutMoveView {
            entity_id: self.entity_id@,
            current_state: self.current_state@,
            state_version: self.state_version,
            record: self.record.deep_view(),
        }
    }
}

/// The timeout that a guard sets, in seconds: its `timeout_seconds`, where that is an integer.
pub open spec fn timeout_seconds(guard: Option<ValueView>) -> Option<i64> {
    match guard {
        Some(ValueView::Object(fields)) if fields.contains_key("timeout_seconds"@) => match fields[
            "timeout_seconds"@
        ] {
            ValueView::Number(NumberView::PosInt(n)) if n <= i64::MAX => Some(n as i64),
            ValueView::Number(NumberView::NegInt(n)) => Some(n),
            _ => None,
        },
        _ => None,
    }
}

/// Whether a timeout can be counted in milliseconds.
pub open spec fn in_millis_fits(seconds: i64) -> bool {
    i64::MIN <= seconds * 1000 <= i64::MAX
}

/// Whether the time before which an entity must have entered its state can be told.
pub open spec fn cutoff_fits(seconds: i64, now: i64) -> bool {
    in_millis_fits(seconds) && i64::MIN <= now - seconds * 1000 <= i64::MAX
}

/// The timeouts of a machine, in the order of its transitions.
pub open spec fn timeouts(transitions: Seq<TransitionDefView>) -> Seq<TimeoutView>
    decreases transitions.len(),
{
    if transitions.len() == 0 {
        Seq::empty()
    } else {
        let t = transitions.last();
        let earlier = timeouts(transitions.drop_last());
        match timeout_seconds(t.guard) {
            Some(seconds) if t.on == TIMEOUT_EVENT@ => earlier.push(
                TimeoutView { transition: t, seconds },
            ),
            _ => earlier,
        }
    }
}

/// How the entities whose time is up are found: those in the state that the transition leaves, not
/// changed since the timeout began.
pub open spec fn timeout_query(
    machine: MachineDefinitionView,
    timeout: TimeoutView,
    now: i64,
) -> QueryView {
    QueryView {
        sql: if crate::machine::is_parallel(machine) {
            PARALLEL_TIMEOUT_SQL_HEAD@ + crate::engine::transition_region(timeout.transition)
                + PARALLEL_TIMEOUT_SQL_TAIL@
        } else {
            FLAT_TIMEOUT_SQL@
        },
        params: seq![
            SqlParamView::Text(machine.tenant_id),
            SqlParamView::Text(machine.machine_id),
            SqlParamView::Text(timeout.transition.from),
            SqlParamView::Integer((now - timeout.seconds * 1000) as i64),
        ],
    }
}

/// The timeout that a guard sets, in seconds.
pub fn extract_timeout_seconds(guard: &Option<Value>) -> (seconds: Option<i64>)
    ensures
        seconds == timeout_seconds(guard.deep_view()),
{
    if let Some(Value::Object(fields)) = guard {
        if let Some(i) = field_index(fields, "timeout_seconds") {
            return match &fields[i].1 {
                Value::Number(Number::PosInt(n)) => if *n <= i64::MAX as u64 {
                    Some(*n as i64)
                } else {
                    None
                },
                Value::Number(Number::NegInt(n)) => Some(*n),
                _ => None,
            };
        }
    }
    None
}

/// The timeout that a guard sets, in milliseconds.
pub fn extract_timeout_ms(guard: &Option<Value>) -> (millis: Option<i64>)
    requires
        timeout_seconds(guard.deep_view()) matches Some(seconds) ==> in_millis_fits(seconds),
    ensures
        millis == match timeout_seconds(guard.deep_view()) {
            Some(seconds) => Some((seconds * 1000) as i64),
            None => None,
        },
{
    match extract_timeout_seconds(guard) {
        Some(seconds) => Some(seconds * 1000),
        None => None,
    }
}

/// The timeouts of a machine, in the order of its transitions.
pub fn find_timeouts(machine: &MachineDefinition) -> (found: Vec<Timeout>)
    ensures
        found.deep_view() == timeouts(machine.transitions.deep_view()),
{
    let mut found: Vec<Timeout> = Vec::new();
    let ghost all = machine.transitions.deep_view();
    let mut i: usize = 0;
    assert(found.deep_view() =~= timeouts(all.take(0)));
    while i < machine.transitions.len()
        invariant
            i <= machine.transitions.len(),
            all == machine.transitions.deep_view(),
            found.deep_view() == timeouts(all.take(i as int)),
        decreases machine.transitions.len() - i,
    {
        let t = &machine.transitions[i];
        assert(all.take(i + 1).drop_last() =~= all.take(i as int));
        assert(all.take(i + 1).last() == t.deep_view());
        if same_text(t.on.as_str(), TIMEOUT_EVENT) {
            if let Some(seconds) = extract_timeout_seconds(&t.guard) {
                let ghost before = found.deep_view();
                let timeout = Timeout { transition: t.duplicate(), seconds };
                found.push(timeout);
                assert(found.deep_view() =~= before.push(timeout.deep_view()));
            }
        }
        i = i + 1;
    }
    assert(all.take(i as int) =~= all);
    found
}

impl Timeout {
    /// Whether the time before which an entity must have entered its state can be told.
    pub fn has_cutoff(&self, now: i64) -> (fits: bool)
        ensures
            fits == cutoff_fits(self.seconds, now),
    {
        match self.seconds.checked_mul(1000) {
            Some(millis) => now.checked_sub(millis).is_some(),
            None => false,
        }
    }

    /// How the entities whose time is up are found.
    pub fn query(&self, machine: &MachineDefinition, now: i64) -> (query: Query)
        requires
            cutoff_fits(self.seconds, now),
        ensures
            query.deep_view() == timeout_query(machine.deep_view(), self.deep_view(), now),
    {
        let cutoff: i64 = now - self.seconds * 1000;
        let sql: String = if machine.is_parallel() {
            concat3(
                PARALLEL_TIMEOUT_SQL_HEAD,
                region_of(&self.transition),
                PARALLEL_TIMEOUT_SQL_TAIL,
            )
        } else {
            FLAT_TIMEOUT_SQL.to_owned()
        };
        let mut params: Vec<SqlParam> = Vec::new();
        push_text(&mut params, machine.tenant_id.as_str());
        push_text(&mut params, machine.machine_id.as_str());
        push_text(&mut params, self.transition.from.as_str());
        push_integer(&mut params, cutoff);
        let query = Query { sql, params };
        assert(query.deep_view() =~= timeout_query(machine.deep_view(), self.deep_view(), now));
        query
    }
}

// ── Carrying out a timeout ──────────────────────────────────────────────────

/// The states by region of an entity of a parallel machine whose time is up, given what its stored
/// state reads as; none where it cannot be read.
pub open spec fn states_or_none(read: Option<Map<Seq<char>, Seq<char>>>) -> Map<
    Seq<char>,
    Seq<char>,
> {
    match read {
        Some(states) => states,
        None => Map::empty(),
    }
}

/// What becomes of an entity whose time is up.
pub struct TimedOut {
    /// The state to store.
    pub stored: Seq<char>,
    /// The state that the entity leaves.
    pub from_state: Seq<char>,
    /// The joins that follow, one for each firing.
    pub fired_joins: Seq<JoinDefView>,
    /// The firings.
    pub fired: Seq<JoinFiredView>,
}

/// What becomes of an entity whose time is up, given what its stored state reads as.
pub open spec fn timed_out(
    machine: MachineDefinitionView,
    t: TransitionDefView,
    stored: Seq<char>,
    read: Option<Map<Seq<char>, Seq<char>>>,
) -> TimedOut {
    if crate::machine::is_parallel(machine) {
        let region = crate::engine::transition_region(t);
        let states = states_or_none(read);
        let moved = states.insert(region, t.to);
        let (last, fired) = crate::engine::cascade(machine.joins, moved, MAX_JOIN_DEPTH as nat);
        TimedOut {
            stored: crate::entity::encoded_state(last),
            from_state: crate::engine::state_or_empty(states, region),
            fired_joins: crate::engine::cascade_joins(machine.joins, moved, MAX_JOIN_DEPTH as nat),
            fired,
        }
    } else {
        TimedOut {
            stored: t.to,
            from_state: stored,
            fired_joins: Seq::empty(),
            fired: Seq::empty(),
        }
    }
}

/// A timeout in all its parts, given what the stored state of the entity reads as.
pub open spec fn timeout_move(
    event_core_url: Seq<char>,
    machine: MachineDefinitionView,
    t: TransitionDefView,
    entity: TimedOutEntityView,
    read: Option<Map<Seq<char>, Seq<char>>>,
    now: i64,
) -> TimeoutMoveView {
    let outcome = timed_out(machine, t, entity.current_state, read);
    let region = crate::engine::transition_region(t);
    let shown = crate::plan::shown_region(machine, region);
    let actions = crate::plan::all_actions(
        machine,
        t.to,
        shown,
        outcome.fired_joins,
        outcome.fired,
    );
    TimeoutMoveView {
        entity_id: entity.entity_id,
        current_state: outcome.stored,
        state_version: entity.state_version,
        record: TimeoutRecordView {
            deliveries: crate::actions::deliveries(
                actions,
                event_core_url,
                crate::actions::Movement {
                    tenant_id: machine.tenant_id,
                    machine_id: machine.machine_id,
                    entity_id: entity.entity_id,
                    from_state: outcome.from_state,
                    to_state: t.to,
                },
            ),
            entry: HistoryEntryView {
                from_state: outcome.from_state,
                to_state: t.to,
                event_type: TIMEOUT_EVENT@,
                event_params: match entity.context {
                    Some(text) => text,
                    None => "{}"@,
                },
                actions_dispatched: crate::actions::listed_actions(actions),
                region: match shown {
                    Some(r) => r,
                    None => Seq::empty(),
                },
                timestamp: now,
            },
            joins: crate::plan::join_log(outcome.fired, now),
            children: crate::plan::child_of(machine, entity.entity_id, region, t.to)
                + crate::plan::join_children(machine, entity.entity_id, outcome.fired),
        },
    }
}

/// Plans a timeout in all its parts, given what the stored state of the entity reads as. Of a
/// parallel machine, the state to be stored denotes the states that the timeout and the joins lead
/// to.
pub fn plan_timeout_in(
    event_core_url: &str,
    machine: &MachineDefinition,
    t: &TransitionDef,
    entity: TimedOutEntity,
    read: Option<StringMap<String>>,
    now: i64,
) -> (planned: TimeoutMove)
    ensures
        planned.deep_view() == timeout_move(
            event_core_url@,
            machine.deep_view(),
            t.deep_view(),
            entity.deep_view(),
            read.deep_view(),
            now,
        ),
{
    let region = region_of(t);
    let parallel = machine.is_parallel();
    let mut fired_joins: Vec<&JoinDef> = Vec::new();
    let mut fired: Vec<JoinFired> = Vec::new();
    let (stored, from_state): (String, String) = if parallel {
        let mut states: StringMap<String> = match read {
            Some(states) => states,
            None => StringMap::new(),
        };
        let from_state: String = match states.get(region) {
            Some(state) => state.clone(),
            None => String::new(),
        };
        states.insert(region.to_owned(), t.to.clone());
        let (all_joins, all_fired) = fire_joins(machine, &mut states, MAX_JOIN_DEPTH);
        fired_joins = all_joins;
        fired = all_fired;
        (Entity::encode_state(&states), from_state)
    } else {
        assert(fired_joins.deep_view() =~= Seq::empty());
        assert(fired.deep_view() =~= Seq::empty());
        (t.to.clone(), entity.current_state.clone())
    };
    assert((TimedOut {
        stored: stored@,
        from_state: from_state@,
        fired_joins: fired_joins.deep_view(),
        fired: fired.deep_view(),
    }) == timed_out(machine.deep_view(), t.deep_view(), entity.current_state@, read.deep_view()));
    let shown: Option<&str> = if parallel {
        Some(region)
    } else {
        None
    };
    let actions = collect_all_actions(machine, t.to.as_str(), shown, &fired_joins, &fired);
    let (listed, deliveries) = dispatch_actions(
        event_core_url,
        actions,
        machine.tenant_id.as_str(),
        machine.machine_id.as_str(),
        entity.entity_id.as_str(),
        from_state.as_str(),
        t.to.as_str(),
    );
    let children = entered_children(
        machine,
        entity.entity_id.as_str(),
        region,
        t.to.as_str(),
        &fired,
    );
    let planned = TimeoutMove {
        entity_id: entity.entity_id.clone(),
        current_state: stored,
        state_version: entity.state_version,
        record: TimeoutRecord {
            deliveries,
            entry: HistoryEntry {
                from_state,
                to_state: t.to.clone(),
                event_type: TIMEOUT_EVENT.to_owned(),
                event_params: match &entity.context {
                    Some(text) => text.clone(),
                    None => "{}".to_owned(),
                },
                actions_dispatched: listed,
                region: match shown {
                    Some(r) => r.to_owned(),
                    None => String::new(),
                },
                timestamp: now,
            },
            joins: join_entries(&fired, now),
            children,
        },
    };
    assert(planned.deep_view() =~= timeout_move(
        event_core_url@,
        machine.deep_view(),
        t.deep_view(),
        entity.deep_view(),
        read.deep_view(),
        now,
    ));
    planned
}

/// Plans a timeout in all its parts.
pub fn plan_timeout(
    event_core_url: &str,
    machine: &MachineDefinition,
    t: &TransitionDef,
    entity: TimedOutEntity,
    now: i64,
) -> (planned: TimeoutMove)
    ensures
        planned.deep_view() == timeout_move(
            event_core_url@,
            machine.deep_view(),
            t.deep_view(),
            entity.deep_view(),
            crate::json_text::string_object(entity.current_state@),
            now,
        ),
{
    let read = parse_string_object(entity.current_state.as_str());
    plan_timeout_in(event_core_url, machine, t, entity, read, now)
}

impl TimeoutMove {
    /// What is to be done once it is known how many entities were changed: nothing where another
    /// transition was faster.
    pub fn settle(self, changed: u64) -> (record: Option<TimeoutRecord>)
        ensures
            match record {
                Some(r) => changed > 0 && r == self.record,
                None => changed == 0,
            },
    {
        if changed == 0 {
            None
        } else {
            Some(self.record)
        }
    }
}

// ── Laws ────────────────────────────────────────────────────────────────────

/// Exactly the transitions on the timeout event whose guard sets a timeout fire on their own.
pub proof fn law_every_timeout_is_found(transitions: Seq<TransitionDefView>, t: TimeoutView)
    ensures
        timeouts(transitions).contains(t) <==> transitions.contains(t.transition)
            && t.transition.on == TIMEOUT_EVENT@ && timeout_seconds(t.transition.guard) == Some(
            t.seconds,
        ),
    decreases transitions.len(),
{
    if transitions.len() > 0 {
        let rest = transitions.drop_last();
        law_every_timeout_is_found(rest, t);
        assert(transitions =~= rest.push(transitions.last()));
        assert(transitions.contains(t.transition) <==> rest.contains(t.transition)
            || transitions.last() == t.transition) by {
            if transitions.contains(t.transition) {
                let i = choose|i: int| 0 <= i < transitions.len() && transitions[i] == t.transition;
                assert(i < rest.len() ==> rest[i] == t.transition);
            }
            if rest.contains(t.transition) {
                let i = choose|i: int| 0 <= i < rest.len() && rest[i] == t.transition;
                assert(transitions[i] == t.transition);
            }
            assert(transitions[transitions.len() - 1] == transitions.last());
        }
        let earlier = timeouts(rest);
        let last = transitions.last();
        assert forall|x: TimeoutView|
            #![trigger earlier.push(x)]
            earlier.push(x).contains(t) <==> earlier.contains(t) || x == t by {
            if earlier.contains(t) {
                let i = choose|i: int| 0 <= i < earlier.len() && earlier[i] == t;
                assert(earlier.push(x)[i] == t);
            }
            assert(earlier.push(x)[earlier.len() as int] == x);
            if earlier.push(x).contains(t) {
                let i = choose|i: int|
                    0 <= i < earlier.push(x).len() && earlier.push(x)[i] == t;
                assert(i < earlier.len() ==> earlier[i] == t);
            }
        }
        match timeout_seconds(last.guard) {
            Some(seconds) if last.on == TIMEOUT_EVENT@ => {
                let found = TimeoutView { transition: last, seconds };
                assert(timeouts(transitions) == earlier.push(found));
            },
            _ => {},
        }
    } else {
        assert(!timeouts(transitions).contains(t));
    }
}

/// An entity is looked for exactly if it has not changed for the whole timeout.
pub proof fn law_timeouts_wait_their_time(
    machine: MachineDefinitionView,
    timeout: TimeoutView,
    now: i64,
    updated_at: i64,
)
    requires
        cutoff_fits(timeout.seconds, now),
    ensures
        timeout_query(machine, timeout, now).params[3] matches SqlParamView::Integer(cutoff) && (
        updated_at <= cutoff <==> now - updated_at >= timeout.seconds * 1000),
{
}

/// The audit log has one entry for each join that follows from a timeout, and what the joins set
/// off is sent with what the timeout itself sets off, one request for each action listed.
pub proof fn law_timeouts_record_their_joins(
    event_core_url: Seq<char>,
    machine: MachineDefinitionView,
    t: TransitionDefView,
    entity: TimedOutEntityView,
    read: Option<Map<Seq<char>, Seq<char>>>,
    now: i64,
)
    ensures
        ({
            let outcome = timed_out(machine, t, entity.current_state, read);
            let record = timeout_move(event_core_url, machine, t, entity, read, now).record;
            &&& record.joins.len() == outcome.fired.len()
            &&& forall|i: int|
                0 <= i < record.joins.len() ==> {
                    &&& (#[trigger] record.joins[i]).region == outcome.fired[i].target_region
                    &&& record.joins[i].from_state == outcome.fired[i].from_state
                    &&& record.joins[i].to_state == outcome.fired[i].target_state
                }
            &&& record.entry.actions_dispatched.len() == crate::plan::all_actions(
                machine,
                t.to,
                crate::plan::shown_region(machine, crate::engine::transition_region(t)),
                outcome.fired_joins,
                outcome.fired,
            ).len()
            &&& record.deliveries.len() == record.entry.actions_dispatched.len()
        }),
{
}

} // verus!
