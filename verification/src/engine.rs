//! Which transition an event sets off, and which joins follow from it.

use vstd::prelude::*;

use crate::guard::check_guard;
use crate::json::{Value, ValueView};
use crate::models::{
    Entity, EntityView, JoinDef, JoinDefView, JoinFired, JoinFiredView, MachineDefinition,
    TransitionDef, TransitionDefView, DEFAULT_REGION,
};
use crate::string_map::{Duplicate, StringMap};
use crate::text::same_text;

verus! {

/// The transition that an event sets off.
#[derive(Debug)]
pub struct TransitionResult {
    pub region: String,
    pub from_state: String,
    pub to_state: String,
    pub _matched_transition: TransitionDef,
}

/// What a [`TransitionResult`] stands for.
#[verifier::ext_equal]
pub struct TransitionResultView {
    pub region: Seq<char>,
    pub from_state: Seq<char>,
    pub to_state: Seq<char>,
    pub _matched_transition: TransitionDefView,
}

impl DeepView for TransitionResult {
    type V = TransitionResultView;

    open spec fn deep_view(&self) -> TransitionResultView {
        TransitionResultView {
            region: self.region@,
            from_state: self.from_state@,
            to_state: self.to_state@,
            _matched_transition: self._matched_transition.deep_view(),
        }
    }
}

/// The region in which a transition operates.
pub open spec fn transition_region(t: TransitionDefView) -> Seq<char> {
    match t.region {
        Some(region) => region,
        None => DEFAULT_REGION@,
    }
}

/// Whether an event sets off a transition: its region is in its `from` state, it waits for the
/// event, and its guard holds.
pub open spec fn is_enabled(
    t: TransitionDefView,
    states: Map<Seq<char>, Seq<char>>,
    event_type: Seq<char>,
    params: Map<Seq<char>, Seq<char>>,
    context: Map<Seq<char>, ValueView>,
) -> bool {
    &&& states.contains_key(transition_region(t))
    &&& states[transition_region(t)] == t.from
    &&& t.on == event_type
    &&& t.guard matches Some(guard) ==> crate::guard::guard_holds(guard, params, context)
}

/// The first of the transitions that an event sets off.
pub open spec fn first_enabled(
    transitions: Seq<TransitionDefView>,
    states: Map<Seq<char>, Seq<char>>,
    event_type: Seq<char>,
    params: Map<Seq<char>, Seq<char>>,
    context: Map<Seq<char>, ValueView>,
) -> Option<TransitionDefView>
    decreases transitions.len(),
{
    if transitions.len() == 0 {
        None
    } else if is_enabled(transitions[0], states, event_type, params, context) {
        Some(transitions[0])
    } else {
        first_enabled(transitions.drop_first(), states, event_type, params, context)
    }
}

/// What comes of an event that sets off a transition.
pub open spec fn transition_result(t: TransitionDefView) -> TransitionResultView {
    TransitionResultView {
        region: transition_region(t),
        from_state: t.from,
        to_state: t.to,
        _matched_transition: t,
    }
}

/// What comes of an event for an entity in the given states.
pub open spec fn evaluation(
    transitions: Seq<TransitionDefView>,
    states: Map<Seq<char>, Seq<char>>,
    event_type: Seq<char>,
    params: Map<Seq<char>, Seq<char>>,
    context: Map<Seq<char>, ValueView>,
) -> Option<TransitionResultView> {
    match first_enabled(transitions, states, event_type, params, context) {
        Some(t) => Some(transition_result(t)),
        None => None,
    }
}

/// The region in which a transition operates.
pub fn region_of(t: &TransitionDef) -> (region: &str)
    ensures
        region@ == transition_region(t.deep_view()),
{
    match &t.region {
        Some(region) => region.as_str(),
        None => DEFAULT_REGION,
    }
}

/// What comes of an event for an entity in the given states: the first transition that it sets
/// off, if there is one.
pub fn evaluate_in(
    transitions: &Vec<TransitionDef>,
    states: &StringMap<String>,
    event_type: &str,
    params: &StringMap<String>,
    context: &StringMap<Value>,
) -> (result: Option<TransitionResult>)
    ensures
        result.deep_view() == evaluation(
            transitions.deep_view(),
            states.deep_view(),
            event_type@,
            params.deep_view(),
            context.deep_view(),
        ),
{
    let ghost all = transitions.deep_view();
    let mut i: usize = 0;
    assert(all.skip(0) =~= all);
    while i < transitions.len()
        invariant
            i <= transitions.len(),
            all == transitions.deep_view(),
            first_enabled(
                all,
                states.deep_view(),
                event_type@,
                params.deep_view(),
                context.deep_view(),
            ) == first_enabled(
                all.skip(i as int),
                states.deep_view(),
                event_type@,
                params.deep_view(),
                context.deep_view(),
            ),
        decreases transitions.len() - i,
    {
        let t = &transitions[i];
        let region = region_of(t);
        assert(all.skip(i as int)[0] == t.deep_view());
        assert(all.skip(i as int).drop_first() =~= all.skip(i + 1));
        if let Some(current) = states.get(region) {
            if *current == t.from && same_text(t.on.as_str(), event_type) && check_guard(
                &t.guard,
                params,
                context,
            ) {
                return Some(
                    TransitionResult {
                        region: region.to_owned(),
                        from_state: current.clone(),
                        to_state: t.to.clone(),
                        _matched_transition: t.duplicate(),
                    },
                );
            }
        }
        i = i + 1;
    }
    None
}

/// What comes of an event for an entity: the first transition that it sets off, if there is one.
pub fn evaluate(
    machine: &MachineDefinition,
    entity: &Entity,
    event_type: &str,
    params: &StringMap<String>,
) -> (result: Option<TransitionResult>)
    ensures
        result.deep_view() == evaluation(
            machine.transitions.deep_view(),
            crate::entity::stored_state(entity.current_state@),
            event_type@,
            params.deep_view(),
            entity.context.deep_view(),
        ),
{
    evaluate_in(
        &machine.transitions,
        &entity.state_map(),
        event_type,
        params,
        &entity.context,
    )
}

// ── Joins ───────────────────────────────────────────────────────────────────

/// The state of a region, or the empty text where it has none.
pub open spec fn state_or_empty(states: Map<Seq<char>, Seq<char>>, region: Seq<char>) -> Seq<char> {
    if states.contains_key(region) {
        states[region]
    } else {
        Seq::empty()
    }
}

/// Whether every condition of a join is met.
pub open spec fn conditions_met(
    when: Map<Seq<char>, Seq<char>>,
    states: Map<Seq<char>, Seq<char>>,
) -> bool {
    forall|region: Seq<char>| #[trigger]
        when.contains_key(region) ==> states.contains_key(region) && states[region] == when[region]
}

/// Whether a join fires: its conditions are met and its target is not yet reached.
pub open spec fn join_fires(join: JoinDefView, states: Map<Seq<char>, Seq<char>>) -> bool {
    conditions_met(join.when, states) && state_or_empty(states, join.target_region)
        != join.target_state
}

/// What a join that fires does.
pub open spec fn firing(join: JoinDefView, states: Map<Seq<char>, Seq<char>>) -> JoinFiredView {
    JoinFiredView {
        target_region: join.target_region,
        from_state: state_or_empty(states, join.target_region),
        target_state: join.target_state,
    }
}

/// The joins that fire, in their order.
pub open spec fn firing_joins(joins: Seq<JoinDefView>, states: Map<Seq<char>, Seq<char>>) -> Seq<
    (JoinDefView, JoinFiredView),
>
    decreases joins.len(),
{
    if joins.len() == 0 {
        Seq::empty()
    } else if join_fires(joins.last(), states) {
        firing_joins(joins.drop_last(), states).push((joins.last(), firing(joins.last(), states)))
    } else {
        firing_joins(joins.drop_last(), states)
    }
}

/// The states after a number of joins have fired, one after the other.
pub open spec fn after_firings(
    states: Map<Seq<char>, Seq<char>>,
    fired: Seq<JoinFiredView>,
) -> Map<Seq<char>, Seq<char>>
    decreases fired.len(),
{
    if fired.len() == 0 {
        states
    } else {
        after_firings(states, fired.drop_last()).insert(
            fired.last().target_region,
            fired.last().target_state,
        )
    }
}

/// The firings of one round of joins.
pub open spec fn round_firings(joins: Seq<JoinDefView>, states: Map<Seq<char>, Seq<char>>) -> Seq<
    JoinFiredView,
> {
    firing_joins(joins, states).map_values(|pair: (JoinDefView, JoinFiredView)| pair.1)
}

/// The states and all firings after up to `rounds` rounds of joins; a round in which none fires is
/// the last.
pub open spec fn cascade(
    joins: Seq<JoinDefView>,
    states: Map<Seq<char>, Seq<char>>,
    rounds: nat,
) -> (Map<Seq<char>, Seq<char>>, Seq<JoinFiredView>)
    decreases rounds,
{
    let fired = round_firings(joins, states);
    if rounds == 0 || fired.len() == 0 {
        (states, Seq::empty())
    } else {
        let (last, later) = cascade(joins, after_firings(states, fired), (rounds - 1) as nat);
        (last, fired + later)
    }
}

/// The joins that fire in a round, one for each of its firings.
pub open spec fn round_joins(joins: Seq<JoinDefView>, states: Map<Seq<char>, Seq<char>>) -> Seq<
    JoinDefView,
> {
    firing_joins(joins, states).map_values(|pair: (JoinDefView, JoinFiredView)| pair.0)
}

/// The joins behind the firings of [`cascade`], one for each.
pub open spec fn cascade_joins(
    joins: Seq<JoinDefView>,
    states: Map<Seq<char>, Seq<char>>,
    rounds: nat,
) -> Seq<JoinDefView>
    decreases rounds,
{
    let fired = round_firings(joins, states);
    if rounds == 0 || fired.len() == 0 {
        Seq::empty()
    } else {
        round_joins(joins, states) + cascade_joins(
            joins,
            after_firings(states, fired),
            (rounds - 1) as nat,
        )
    }
}

/// Whether every condition of a join is met.
fn check_conditions(when: &StringMap<String>, states: &StringMap<String>) -> (met: bool)
    ensures
        met == conditions_met(when.deep_view(), states.deep_view()),
{
    let n = when.len();
    let mut i: usize = 0;
    while i < n
        invariant
            i <= n == when.entries().len(),
            forall|j: int|
                0 <= j < i ==> states.deep_view().contains_key((#[trigger] when.entries()[j]).0@)
                    && states.deep_view()[when.entries()[j].0@] == when.entries()[j].1@,
        decreases n - i,
    {
        let (region, required) = when.entry(i);
        match states.get(region) {
            Some(state) => if *state != *required {
                return false;
            },
            None => {
                return false;
            },
        }
        i = i + 1;
    }
    true
}

/// The joins that fire.
pub fn check_joins<'a>(
    machine: &'a MachineDefinition,
    states: &StringMap<String>,
) -> (firing: Vec<(&'a JoinDef, JoinFired)>)
    ensures
        firing.deep_view() == firing_joins(machine.joins.deep_view(), states.deep_view()),
{
    let mut firing: Vec<(&'a JoinDef, JoinFired)> = Vec::new();
    let ghost joins = machine.joins.deep_view();
    let mut i: usize = 0;
    while i < machine.joins.len()
        invariant
            i <= machine.joins.len(),
            joins == machine.joins.deep_view(),
            firing.deep_view() == firing_joins(joins.take(i as int), states.deep_view()),
        decreases machine.joins.len() - i,
    {
        let join = &machine.joins[i];
        assert(joins.take(i + 1).drop_last() =~= joins.take(i as int));
        assert(joins.take(i + 1).last() == join.deep_view());
        if check_conditions(&join.when, states) {
            let from_state = match states.get(join.target_region.as_str()) {
                Some(state) => state.clone(),
                None => String::new(),
            };
            if from_state != join.target_state {
                let fired = JoinFired {
                    target_region: join.target_region.clone(),
                    from_state,
                    target_state: join.target_state.clone(),
                };
                let ghost before = firing.deep_view();
                firing.push((join, fired));
                assert(firing.deep_view() =~= before.push((join.deep_view(), fired.deep_view())));
            }
        }
        i = i + 1;
    }
    assert(joins.take(i as int) =~= joins);
    firing
}

/// Lets joins fire, round after round, until none does or `max_depth` rounds are over. The states
/// are changed accordingly; the result lists the joins that fired, one for each firing, and the
/// firings.
pub fn fire_joins<'a>(
    machine: &'a MachineDefinition,
    states: &mut StringMap<String>,
    max_depth: usize,
) -> (all: (Vec<&'a JoinDef>, Vec<JoinFired>))
    ensures
        all.0.deep_view() == cascade_joins(
            machine.joins.deep_view(),
            old(states).deep_view(),
            max_depth as nat,
        ),
        (final(states).deep_view(), all.1.deep_view()) == cascade(
            machine.joins.deep_view(),
            old(states).deep_view(),
            max_depth as nat,
        ),
{
    let mut all_joins: Vec<&'a JoinDef> = Vec::new();
    let mut all_fired: Vec<JoinFired> = Vec::new();
    let ghost joins = machine.joins.deep_view();
    let ghost start = states.deep_view();
    let mut round: usize = 0;
    assert(all_joins.deep_view() + cascade_joins(joins, start, max_depth as nat) =~= cascade_joins(
        joins,
        start,
        max_depth as nat,
    ));
    while round < max_depth
        invariant
            round <= max_depth,
            joins == machine.joins.deep_view(),
            cascade_joins(joins, start, max_depth as nat) == all_joins.deep_view() + cascade_joins(
                joins,
                states.deep_view(),
                (max_depth - round) as nat,
            ),
            cascade(joins, start, max_depth as nat) == ({
                let (last, later) = cascade(
                    joins,
                    states.deep_view(),
                    (max_depth - round) as nat,
                );
                (last, all_fired.deep_view() + later)
            }),
        ensures
            cascade_joins(joins, states.deep_view(), (max_depth - round) as nat).len() == 0,
            cascade(joins, states.deep_view(), (max_depth - round) as nat) == (
                states.deep_view(),
                Seq::<JoinFiredView>::empty(),
            ),
        decreases max_depth - round,
    {
        let firing = check_joins(machine, states);
        let ghost fired = round_firings(joins, states.deep_view());
        let ghost sources = round_joins(joins, states.deep_view());
        if firing.is_empty() {
            assert(firing.deep_view().len() == 0);
            break;
        }
        let ghost before = states.deep_view();
        let ghost earlier = all_fired.deep_view();
        let ghost earlier_joins = all_joins.deep_view();
        let mut i: usize = 0;
        assert(earlier_joins + sources.take(0) =~= earlier_joins);
        assert forall|j: int| 0 <= j < fired.len() implies (#[trigger] firing@[j]).1.deep_view()
            == fired[j] && firing@[j].0.deep_view() == sources[j] by {
            assert(firing.deep_view()[j] == firing@[j].deep_view());
        }
        while i < firing.len()
            invariant
                i <= firing.len(),
                fired.len() == firing.len(),
                sources.len() == firing.len(),
                forall|j: int|
                    0 <= j < fired.len() ==> (#[trigger] firing@[j]).1.deep_view() == fired[j]
                        && firing@[j].0.deep_view() == sources[j],
                states.deep_view() == after_firings(before, fired.take(i as int)),
                all_fired.deep_view() == earlier + fired.take(i as int),
                all_joins.deep_view() == earlier_joins + sources.take(i as int),
            decreases firing.len() - i,
        {
            let join_fired = &firing[i].1;
            states.insert(join_fired.target_region.clone(), join_fired.target_state.clone());
            let copy = join_fired.duplicate();
            let ghost listed = all_fired.deep_view();
            all_fired.push(copy);
            assert(all_fired.deep_view() =~= listed.push(copy.deep_view()));
            assert(fired.take(i + 1).drop_last() =~= fired.take(i as int));
            assert(earlier + fired.take(i + 1) =~= (earlier + fired.take(i as int)).push(
                fired[i as int],
            ));
            let join = firing[i].0;
            let ghost listed = all_joins.deep_view();
            all_joins.push(join);
            assert(all_joins.deep_view() =~= listed.push(join.deep_view()));
            assert(earlier_joins + sources.take(i + 1) =~= (earlier_joins + sources.take(
                i as int,
            )).push(sources[i as int]));
            i = i + 1;
        }
        assert(fired.take(i as int) =~= fired);
        assert(sources.take(i as int) =~= sources);
        round = round + 1;
        proof {
            let (last, later) = cascade(joins, states.deep_view(), (max_depth - round) as nat);
            assert(earlier + (fired + later) =~= (earlier + fired) + later);
            let later = cascade_joins(joins, states.deep_view(), (max_depth - round) as nat);
            assert(earlier_joins + (sources + later) =~= (earlier_joins + sources) + later);
        }
    }
    assert(all_fired.deep_view() + Seq::<JoinFiredView>::empty() =~= all_fired.deep_view());
    assert(cascade_joins(joins, start, max_depth as nat) =~= all_joins.deep_view());
    (all_joins, all_fired)
}

/// Lets joins fire, round after round, until none does or `max_depth` rounds are over. The states
/// are changed accordingly; the result lists all firings.
pub fn apply_joins(
    machine: &MachineDefinition,
    states: &mut StringMap<String>,
    max_depth: usize,
) -> (all_fired: Vec<JoinFired>)
    ensures
        (final(states).deep_view(), all_fired.deep_view()) == cascade(
            machine.joins.deep_view(),
            old(states).deep_view(),
            max_depth as nat,
        ),
{
    fire_joins(machine, states, max_depth).1
}

// ── Laws ────────────────────────────────────────────────────────────────────

/// Whether a transition is the first in its list that an event sets off.
pub open spec fn is_first_enabled(
    transitions: Seq<TransitionDefView>,
    k: int,
    states: Map<Seq<char>, Seq<char>>,
    event_type: Seq<char>,
    params: Map<Seq<char>, Seq<char>>,
    context: Map<Seq<char>, ValueView>,
) -> bool {
    &&& 0 <= k < transitions.len()
    &&& is_enabled(transitions[k], states, event_type, params, context)
    &&& forall|j: int|
        0 <= j < k ==> !is_enabled(#[trigger] transitions[j], states, event_type, params, context)
}

/// An event sets off the first transition whose region is in its `from` state, that waits for the
/// event, and whose guard holds. It sets off none exactly if there is no such transition.
pub proof fn law_first_match_wins(
    transitions: Seq<TransitionDefView>,
    states: Map<Seq<char>, Seq<char>>,
    event_type: Seq<char>,
    params: Map<Seq<char>, Seq<char>>,
    context: Map<Seq<char>, ValueView>,
)
    ensures
        match evaluation(transitions, states, event_type, params, context) {
            Some(result) => exists|k: int| #[trigger]
                is_first_enabled(transitions, k, states, event_type, params, context) && result
                    == transition_result(transitions[k]),
            None => forall|j: int|
                0 <= j < transitions.len() ==> !is_enabled(
                    #[trigger] transitions[j],
                    states,
                    event_type,
                    params,
                    context,
                ),
        },
    decreases transitions.len(),
{
    if transitions.len() > 0 {
        if is_enabled(transitions[0], states, event_type, params, context) {
            assert(is_first_enabled(transitions, 0, states, event_type, params, context));
        } else {
            let rest = transitions.drop_first();
            law_first_match_wins(rest, states, event_type, params, context);
            match evaluation(rest, states, event_type, params, context) {
                Some(result) => {
                    let k = choose|k: int| #[trigger]
                        is_first_enabled(rest, k, states, event_type, params, context) && result
                            == transition_result(rest[k]);
                    assert forall|j: int| 0 <= j < k + 1 implies !is_enabled(
                        #[trigger] transitions[j],
                        states,
                        event_type,
                        params,
                        context,
                    ) by {
                        if j > 0 {
                            assert(transitions[j] == rest[j - 1]);
                        }
                    }
                    assert(transitions[k + 1] == rest[k]);
                    assert(is_first_enabled(
                        transitions,
                        k + 1,
                        states,
                        event_type,
                        params,
                        context,
                    ));
                },
                None => {
                    assert forall|j: int| 0 <= j < transitions.len() implies !is_enabled(
                        #[trigger] transitions[j],
                        states,
                        event_type,
                        params,
                        context,
                    ) by {
                        if j > 0 {
                            assert(transitions[j] == rest[j - 1]);
                        }
                    }
                },
            }
        }
    }
}

/// Whether a firing is that of one of the joins.
pub open spec fn is_firing_of(fired: JoinFiredView, joins: Seq<JoinDefView>) -> bool {
    exists|k: int|
        0 <= k < joins.len() && (#[trigger] joins[k]).target_region == fired.target_region
            && joins[k].target_state == fired.target_state
}

/// The joins that fire in a round are those that fire, one firing each.
proof fn lemma_round(joins: Seq<JoinDefView>, states: Map<Seq<char>, Seq<char>>)
    ensures
        round_firings(joins, states).len() <= joins.len(),
        forall|i: int|
            0 <= i < round_firings(joins, states).len() ==> is_firing_of(
                #[trigger] round_firings(joins, states)[i],
                joins,
            ),
        round_firings(joins, states).len() == 0 <==> (forall|k: int|
            0 <= k < joins.len() ==> !join_fires(#[trigger] joins[k], states)),
    decreases joins.len(),
{
    if joins.len() > 0 {
        let rest = joins.drop_last();
        let fired = round_firings(joins, states);
        let fewer = round_firings(rest, states);
        lemma_round(rest, states);
        assert forall|i: int| 0 <= i < fired.len() implies is_firing_of(
            #[trigger] fired[i],
            joins,
        ) by {
            if i < fewer.len() {
                assert(fired[i] == fewer[i]);
                let k = choose|k: int|
                    0 <= k < rest.len() && (#[trigger] rest[k]).target_region
                        == fewer[i].target_region && rest[k].target_state == fewer[i].target_state;
                assert(joins[k].target_region == fired[i].target_region);
            } else {
                assert(joins[joins.len() - 1].target_region == fired[i].target_region);
            }
        }
        if fired.len() == 0 {
            assert forall|k: int| 0 <= k < joins.len() implies !join_fires(
                #[trigger] joins[k],
                states,
            ) by {
                if k < rest.len() {
                    assert(joins[k] == rest[k]);
                }
            }
        }
        if forall|k: int| 0 <= k < joins.len() ==> !join_fires(#[trigger] joins[k], states) {
            assert forall|k: int| 0 <= k < rest.len() implies !join_fires(
                #[trigger] rest[k],
                states,
            ) by {
                assert(joins[k] == rest[k]);
            }
            assert(!join_fires(joins[joins.len() - 1], states));
        }
    }
}

/// A join fires only if it is defined; each round fires each join at most once.
pub proof fn law_only_defined_joins_fire(
    joins: Seq<JoinDefView>,
    states: Map<Seq<char>, Seq<char>>,
    rounds: nat,
)
    ensures
        cascade(joins, states, rounds).1.len() <= rounds * joins.len(),
        forall|i: int|
            0 <= i < cascade(joins, states, rounds).1.len() ==> is_firing_of(
                #[trigger] cascade(joins, states, rounds).1[i],
                joins,
            ),
    decreases rounds,
{
    lemma_round(joins, states);
    let fired = round_firings(joins, states);
    if rounds > 0 && fired.len() > 0 {
        law_only_defined_joins_fire(joins, after_firings(states, fired), (rounds - 1) as nat);
        assert(rounds * joins.len() == (rounds - 1) * joins.len() + joins.len())
            by (nonlinear_arith);
        let later = cascade(joins, after_firings(states, fired), (rounds - 1) as nat).1;
        assert forall|i: int| 0 <= i < (fired + later).len() implies is_firing_of(
            #[trigger] (fired + later)[i],
            joins,
        ) by {
            if i < fired.len() {
                assert((fired + later)[i] == fired[i]);
            } else {
                assert((fired + later)[i] == later[i - fired.len()]);
            }
        }
    } else {
        assert(0 <= rounds * joins.len()) by (nonlinear_arith)
            requires
                rounds >= 0,
        ;
    }
}

/// Where no join fires, nothing changes, however many rounds are allowed.
pub proof fn law_settled_states_stay(
    joins: Seq<JoinDefView>,
    states: Map<Seq<char>, Seq<char>>,
    rounds: nat,
)
    requires
        forall|k: int| 0 <= k < joins.len() ==> !join_fires(#[trigger] joins[k], states),
    ensures
        cascade(joins, states, rounds) == (states, Seq::<JoinFiredView>::empty()),
{
    lemma_round(joins, states);
}

/// A join whose target is reached does not fire again.
pub proof fn law_joins_do_not_refire(join: JoinDefView, states: Map<Seq<char>, Seq<char>>)
    ensures
        !join_fires(join, states.insert(join.target_region, join.target_state)),
{
}

/// Whether joins have come to rest: none fires any more.
pub open spec fn is_settled(joins: Seq<JoinDefView>, states: Map<Seq<char>, Seq<char>>) -> bool {
    round_firings(joins, states).len() == 0
}

/// Once joins have come to rest, more rounds change nothing.
pub proof fn law_more_rounds_change_nothing(
    joins: Seq<JoinDefView>,
    states: Map<Seq<char>, Seq<char>>,
    rounds: nat,
    more: nat,
)
    requires
        is_settled(joins, cascade(joins, states, rounds).0),
    ensures
        cascade(joins, states, rounds + more) == cascade(joins, states, rounds),
    decreases rounds,
{
    let fired = round_firings(joins, states);
    if rounds > 0 && fired.len() > 0 {
        law_more_rounds_change_nothing(
            joins,
            after_firings(states, fired),
            (rounds - 1) as nat,
            more,
        );
        assert((rounds + more - 1) as nat == (rounds - 1) as nat + more);
    }
}

/// Whether no firing moves a region.
pub open spec fn spares(fired: Seq<JoinFiredView>, region: Seq<char>) -> bool {
    forall|i: int| 0 <= i < fired.len() ==> (#[trigger] fired[i]).target_region != region
}

/// What firings in a row make of a region: nothing where none moves it.
proof fn lemma_spared(
    states: Map<Seq<char>, Seq<char>>,
    fired: Seq<JoinFiredView>,
    region: Seq<char>,
)
    requires
        spares(fired, region),
    ensures
        after_firings(states, fired).contains_key(region) == states.contains_key(region),
        states.contains_key(region) ==> after_firings(states, fired)[region] == states[region],
    decreases fired.len(),
{
    if fired.len() > 0 {
        let rest = fired.drop_last();
        assert forall|i: int| 0 <= i < rest.len() implies (#[trigger] rest[i]).target_region
            != region by {
            assert(rest[i] == fired[i]);
        }
        lemma_spared(states, rest, region);
        assert(fired[fired.len() - 1].target_region != region);
    }
}

/// Joins change no regions but those that they are listed to have moved.
pub proof fn law_joins_move_their_targets_only(
    joins: Seq<JoinDefView>,
    states: Map<Seq<char>, Seq<char>>,
    rounds: nat,
    region: Seq<char>,
)
    requires
        spares(cascade(joins, states, rounds).1, region),
    ensures
        cascade(joins, states, rounds).0.contains_key(region) == states.contains_key(region),
        states.contains_key(region) ==> cascade(joins, states, rounds).0[region] == states[region],
    decreases rounds,
{
    let fired = round_firings(joins, states);
    if rounds > 0 && fired.len() > 0 {
        let later = cascade(joins, after_firings(states, fired), (rounds - 1) as nat).1;
        assert forall|i: int| 0 <= i < fired.len() implies (#[trigger] fired[i]).target_region
            != region by {
            assert((fired + later)[i] == fired[i]);
        }
        assert forall|i: int| 0 <= i < later.len() implies (#[trigger] later[i]).target_region
            != region by {
            assert((fired + later)[i + fired.len()] == later[i]);
        }
        lemma_spared(states, fired, region);
        law_joins_move_their_targets_only(
            joins,
            after_firings(states, fired),
            (rounds - 1) as nat,
            region,
        );
    }
}

/// When the conditions of a join are all met, its target region is in its target state after the
/// round, unless a later join that fires too moves the same region.
pub proof fn law_met_joins_reach_their_target(
    joins: Seq<JoinDefView>,
    states: Map<Seq<char>, Seq<char>>,
    k: int,
)
    requires
        0 <= k < joins.len(),
        conditions_met(joins[k].when, states),
        forall|j: int|
            0 <= j < joins.len() && (j > k || !join_fires(joins[k], states)) && join_fires(
                #[trigger] joins[j],
                states,
            ) ==> joins[j].target_region != joins[k].target_region,
    ensures
        state_or_empty(after_firings(states, round_firings(joins, states)), joins[k].target_region)
            == joins[k].target_state,
    decreases joins.len(),
{
    let rest = joins.drop_last();
    let last = joins.last();
    let region = joins[k].target_region;
    let fewer = round_firings(rest, states);
    let fired = round_firings(joins, states);
    if join_fires(last, states) {
        assert(fired =~= fewer.push(firing(last, states)));
        assert(fired.drop_last() =~= fewer);
    } else {
        assert(fired =~= fewer);
    }
    if k < rest.len() {
        assert forall|j: int|
            0 <= j < rest.len() && (j > k || !join_fires(rest[k], states)) && join_fires(
                #[trigger] rest[j],
                states,
            ) implies rest[j].target_region != rest[k].target_region by {
            assert(joins[j] == rest[j]);
        }
        law_met_joins_reach_their_target(rest, states, k);
        assert(joins[joins.len() - 1] == last);
    } else if !join_fires(last, states) {
        assert forall|i: int| 0 <= i < fewer.len() implies (#[trigger] fewer[i]).target_region
            != region by {
            lemma_firing_source(rest, states, i);
            let j = choose|j: int|
                0 <= j < rest.len() && join_fires(#[trigger] rest[j], states)
                    && rest[j].target_region == fewer[i].target_region;
            assert(joins[j] == rest[j]);
        }
        lemma_spared(states, fewer, region);
    }
}

/// Each firing of a round comes from a join that fires.
proof fn lemma_firing_source(joins: Seq<JoinDefView>, states: Map<Seq<char>, Seq<char>>, i: int)
    requires
        0 <= i < round_firings(joins, states).len(),
    ensures
        exists|j: int|
            0 <= j < joins.len() && join_fires(#[trigger] joins[j], states)
                && joins[j].target_region == round_firings(joins, states)[i].target_region,
    decreases joins.len(),
{
    if joins.len() > 0 {
        let rest = joins.drop_last();
        let fewer = round_firings(rest, states);
        if i < fewer.len() {
            lemma_firing_source(rest, states, i);
            let j = choose|j: int|
                0 <= j < rest.len() && join_fires(#[trigger] rest[j], states)
                    && rest[j].target_region == fewer[i].target_region;
            assert(joins[j] == rest[j]);
            assert(round_firings(joins, states)[i] == fewer[i]);
        } else {
            assert(join_fires(joins[joins.len() - 1], states));
        }
    }
}

/// Whether a join fires in one of up to `rounds` rounds.
pub open spec fn fires_within(
    join: JoinDefView,
    joins: Seq<JoinDefView>,
    states: Map<Seq<char>, Seq<char>>,
    rounds: nat,
) -> bool
    decreases rounds,
{
    let fired = round_firings(joins, states);
    rounds > 0 && fired.len() > 0 && (join_fires(join, states) || fires_within(
        join,
        joins,
        after_firings(states, fired),
        (rounds - 1) as nat,
    ))
}

/// The joins behind a round's firings are those that fire in it.
proof fn lemma_round_joins(joins: Seq<JoinDefView>, states: Map<Seq<char>, Seq<char>>)
    ensures
        round_joins(joins, states).len() == round_firings(joins, states).len(),
        forall|i: int|
            0 <= i < round_joins(joins, states).len() ==> {
                &&& joins.contains(#[trigger] round_joins(joins, states)[i])
                &&& join_fires(round_joins(joins, states)[i], states)
                &&& round_firings(joins, states)[i] == firing(round_joins(joins, states)[i], states)
            },
        forall|k: int|
            0 <= k < joins.len() && join_fires(#[trigger] joins[k], states) ==> round_joins(
                joins,
                states,
            ).contains(joins[k]),
    decreases joins.len(),
{
    if joins.len() > 0 {
        let rest = joins.drop_last();
        let last = joins.last();
        lemma_round_joins(rest, states);
        let sources = round_joins(joins, states);
        let fewer = round_joins(rest, states);
        if join_fires(last, states) {
            assert(sources =~= fewer.push(last));
            assert(sources[fewer.len() as int] == last);
        } else {
            assert(sources =~= fewer);
        }
        assert forall|i: int| 0 <= i < sources.len() implies {
            &&& joins.contains(#[trigger] sources[i])
            &&& join_fires(sources[i], states)
            &&& round_firings(joins, states)[i] == firing(sources[i], states)
        } by {
            if i < fewer.len() {
                assert(sources[i] == fewer[i]);
                let k = choose|k: int| 0 <= k < rest.len() && rest[k] == fewer[i];
                assert(joins[k] == sources[i]);
                assert(round_firings(joins, states)[i] == round_firings(rest, states)[i]);
            } else {
                assert(joins[joins.len() - 1] == sources[i]);
            }
        }
        assert forall|k: int| 0 <= k < joins.len() && join_fires(
            #[trigger] joins[k],
            states,
        ) implies sources.contains(joins[k]) by {
            if k < rest.len() {
                assert(rest[k] == joins[k]);
                let i = choose|i: int| 0 <= i < fewer.len() && fewer[i] == joins[k];
                assert(sources[i] == joins[k]);
            }
        }
    }
}

/// There is one join for each firing, with the target of the firing.
pub proof fn law_firings_belong_to_joins(
    joins: Seq<JoinDefView>,
    states: Map<Seq<char>, Seq<char>>,
    rounds: nat,
)
    ensures
        cascade_joins(joins, states, rounds).len() == cascade(joins, states, rounds).1.len(),
        forall|i: int|
            0 <= i < cascade_joins(joins, states, rounds).len() ==> {
                let join = #[trigger] cascade_joins(joins, states, rounds)[i];
                &&& join.target_region == cascade(joins, states, rounds).1[i].target_region
                &&& join.target_state == cascade(joins, states, rounds).1[i].target_state
            },
    decreases rounds,
{
    lemma_round_joins(joins, states);
    let fired = round_firings(joins, states);
    if rounds > 0 && fired.len() > 0 {
        let next = after_firings(states, fired);
        let fewer = (rounds - 1) as nat;
        law_firings_belong_to_joins(joins, next, fewer);
        let now = round_joins(joins, states);
        let later = cascade_joins(joins, next, fewer);
        let all = cascade_joins(joins, states, rounds);
        assert(all =~= now + later);
        assert forall|i: int| 0 <= i < all.len() implies {
            &&& (#[trigger] all[i]).target_region == cascade(
                joins,
                states,
                rounds,
            ).1[i].target_region
            &&& all[i].target_state == cascade(joins, states, rounds).1[i].target_state
        } by {
            if i < now.len() {
                assert(all[i] == now[i]);
            } else {
                assert(all[i] == later[i - now.len()]);
            }
        }
    }
}

/// The joins listed as having fired are those, and only those, that fire in one of the rounds.
pub proof fn law_listed_joins_have_fired(
    join: JoinDefView,
    joins: Seq<JoinDefView>,
    states: Map<Seq<char>, Seq<char>>,
    rounds: nat,
)
    ensures
        cascade_joins(joins, states, rounds).contains(join) <==> joins.contains(join)
            && fires_within(join, joins, states, rounds),
    decreases rounds,
{
    lemma_round_joins(joins, states);
    let fired = round_firings(joins, states);
    if rounds > 0 && fired.len() > 0 {
        let next = after_firings(states, fired);
        let fewer = (rounds - 1) as nat;
        law_listed_joins_have_fired(join, joins, next, fewer);
        let now = round_joins(joins, states);
        let later = cascade_joins(joins, next, fewer);
        let all = cascade_joins(joins, states, rounds);
        assert(all =~= now + later);
        if all.contains(join) {
            let i = choose|i: int| 0 <= i < all.len() && all[i] == join;
            if i < now.len() {
                assert(now[i] == join);
            } else {
                assert(later[i - now.len()] == join);
            }
        }
        if joins.contains(join) && join_fires(join, states) {
            let k = choose|k: int| 0 <= k < joins.len() && joins[k] == join;
            assert(now.contains(joins[k]));
            let i = choose|i: int| 0 <= i < now.len() && now[i] == join;
            assert(all[i] == join);
        }
        if later.contains(join) {
            let i = choose|i: int| 0 <= i < later.len() && later[i] == join;
            assert(all[i + now.len()] == join);
        }
    }
}

/// Where fewer joins have fired than rounds were allowed, none fires any more.
pub proof fn law_joins_settle(
    joins: Seq<JoinDefView>,
    states: Map<Seq<char>, Seq<char>>,
    rounds: nat,
)
    requires
        cascade(joins, states, rounds).1.len() < rounds,
    ensures
        is_settled(joins, cascade(joins, states, rounds).0),
    decreases rounds,
{
    let fired = round_firings(joins, states);
    if fired.len() > 0 {
        law_joins_settle(joins, after_firings(states, fired), (rounds - 1) as nat);
    }
}

/// What the last firing of a row on a region makes of it.
proof fn lemma_last_firing(
    states: Map<Seq<char>, Seq<char>>,
    fired: Seq<JoinFiredView>,
    i: int,
)
    requires
        0 <= i < fired.len(),
        spares(fired.skip(i + 1), fired[i].target_region),
    ensures
        after_firings(states, fired).contains_key(fired[i].target_region),
        after_firings(states, fired)[fired[i].target_region] == fired[i].target_state,
    decreases fired.len(),
{
    let rest = fired.drop_last();
    if i < rest.len() {
        assert(fired.skip(i + 1)[rest.len() - i - 1] == fired.last());
        assert forall|j: int| 0 <= j < rest.skip(i + 1).len() implies (#[trigger] rest.skip(
            i + 1,
        )[j]).target_region != rest[i].target_region by {
            assert(rest.skip(i + 1)[j] == fired.skip(i + 1)[j]);
        }
        lemma_last_firing(states, rest, i);
    }
}

/// The last firing on a region decides its state.
pub proof fn law_last_firing_decides(
    joins: Seq<JoinDefView>,
    states: Map<Seq<char>, Seq<char>>,
    rounds: nat,
    i: int,
)
    requires
        0 <= i < cascade(joins, states, rounds).1.len(),
        spares(
            cascade(joins, states, rounds).1.skip(i + 1),
            cascade(joins, states, rounds).1[i].target_region,
        ),
    ensures
        ({
            let (last, fired) = cascade(joins, states, rounds);
            &&& last.contains_key(fired[i].target_region)
            &&& last[fired[i].target_region] == fired[i].target_state
        }),
    decreases rounds,
{
    let now = round_firings(joins, states);
    let next = after_firings(states, now);
    let fewer = (rounds - 1) as nat;
    let later = cascade(joins, next, fewer).1;
    let all = cascade(joins, states, rounds).1;
    let region = all[i].target_region;
    assert(all =~= now + later);
    if i < now.len() {
        assert forall|j: int| 0 <= j < now.skip(i + 1).len() implies (#[trigger] now.skip(
            i + 1,
        )[j]).target_region != region by {
            assert(now.skip(i + 1)[j] == all.skip(i + 1)[j]);
        }
        lemma_last_firing(states, now, i);
        assert forall|j: int| 0 <= j < later.len() implies (#[trigger] later[j]).target_region
            != region by {
            assert(later[j] == all.skip(i + 1)[j + now.len() - i - 1]);
        }
        law_joins_move_their_targets_only(joins, next, fewer, region);
    } else {
        let k = i - now.len();
        assert(later.skip(k + 1) =~= all.skip(i + 1));
        law_last_firing_decides(joins, next, fewer, k);
    }
}

} // verus!
