//! Machine definitions: their consistency, their initial states, their compound states.

use vstd::prelude::*;

use crate::models::{
    ActionDef, ActionDefView, Entity, JoinDef, JoinDefView, MachineDefinition, MachineDefinitionView,
    RegionDef, RegionDefView, SubMachineDef, SubMachineDefView, TransitionDef, TransitionDefView,
    DEFAULT_REGION,
};
use crate::string_map::StringMap;
use crate::text::{concat3, concat5, list_has, same_text};

verus! {

/// Whether a machine has regions.
pub open spec fn is_parallel(machine: MachineDefinitionView) -> bool {
    machine.regions.len() > 0
}

/// The initial state of each region; of two regions with the same ID the later one counts.
pub open spec fn initial_states(regions: Seq<RegionDefView>) -> Map<Seq<char>, Seq<char>>
    decreases regions.len(),
{
    if regions.len() == 0 {
        Map::empty()
    } else {
        initial_states(regions.drop_last()).insert(
            regions.last().id,
            regions.last().initial_state,
        )
    }
}

/// The states by region of a new entity.
pub open spec fn initial_map(machine: MachineDefinitionView) -> Map<Seq<char>, Seq<char>> {
    if is_parallel(machine) {
        initial_states(machine.regions)
    } else {
        crate::entity::flat_state_map(machine.initial_state)
    }
}

/// The region with an ID; of two regions with the same ID the later one counts.
pub open spec fn region_with_id(regions: Seq<RegionDefView>, id: Seq<char>) -> Option<RegionDefView>
    decreases regions.len(),
{
    if regions.len() == 0 {
        None
    } else if regions.last().id == id {
        Some(regions.last())
    } else {
        region_with_id(regions.drop_last(), id)
    }
}

/// The first fault that a list of findings holds.
pub open spec fn first_fault(findings: Seq<Option<Seq<char>>>) -> Option<Seq<char>>
    decreases findings.len(),
{
    if findings.len() == 0 {
        None
    } else if findings[0] is Some {
        findings[0]
    } else {
        first_fault(findings.drop_first())
    }
}

// ── Flat machines ───────────────────────────────────────────────────────────

/// The fault of a transition of a flat machine.
pub open spec fn transition_fault(states: Seq<Seq<char>>, t: TransitionDefView) -> Option<
    Seq<char>,
> {
    if !states.contains(t.from) {
        Some("transition 'from' state '"@ + t.from + "' not in states"@)
    } else if !states.contains(t.to) {
        Some("transition 'to' state '"@ + t.to + "' not in states"@)
    } else {
        None
    }
}

/// The fault of an action of a flat machine.
pub open spec fn action_fault(states: Seq<Seq<char>>, a: ActionDefView) -> Option<Seq<char>> {
    if !states.contains(a.on_enter) {
        Some("action on_enter state '"@ + a.on_enter + "' not in states"@)
    } else {
        None
    }
}

/// Whether the compound state of a flat machine is consistent with the rest.
pub open spec fn sub_machine_fits(
    machine: MachineDefinitionView,
    state: Seq<char>,
    sub: SubMachineDefView,
) -> bool {
    &&& machine.states.contains(state)
    &&& state != machine.initial_state
    &&& forall|f: Seq<char>| #[trigger]
        sub.on_final.contains_key(f) ==> machine.states.contains(sub.on_final[f])
}

/// Whether a message tells what is wrong with a compound state of a flat machine.
pub open spec fn tells_sub_machine_fault(
    machine: MachineDefinitionView,
    state: Seq<char>,
    sub: SubMachineDefView,
    message: Seq<char>,
) -> bool {
    if !machine.states.contains(state) {
        message == "sub_machine state '"@ + state + "' not in states list"@
    } else if state == machine.initial_state {
        message == "initial_state '"@ + state + "' cannot be a compound state (sub-machine)"@
    } else {
        exists|f: Seq<char>| #[trigger]
            sub.on_final.contains_key(f) && !machine.states.contains(sub.on_final[f]) && message
                == "sub_machine on_final target '"@ + sub.on_final[f] + "' not in states list"@
    }
}

/// The first fault of a flat machine apart from its compound states.
pub open spec fn flat_fault(machine: MachineDefinitionView) -> Option<Seq<char>> {
    if machine.states.len() == 0 {
        Some("at least one state is required"@)
    } else if !machine.states.contains(machine.initial_state) {
        Some("initial_state '"@ + machine.initial_state + "' is not in states list"@)
    } else {
        let in_transitions = first_fault(
            machine.transitions.map_values(
                |t: TransitionDefView| transition_fault(machine.states, t),
            ),
        );
        if in_transitions is Some {
            in_transitions
        } else {
            first_fault(
                machine.actions.map_values(|a: ActionDefView| action_fault(machine.states, a)),
            )
        }
    }
}

/// Whether a flat machine is consistent: its initial state, and all states that its transitions,
/// actions and compound states name, are among its states, and it does not start in a compound
/// state.
pub open spec fn flat_is_valid(machine: MachineDefinitionView) -> bool {
    &&& machine.states.contains(machine.initial_state)
    &&& forall|i: int|
        0 <= i < machine.transitions.len() ==> machine.states.contains(
            (#[trigger] machine.transitions[i]).from,
        ) && machine.states.contains(machine.transitions[i].to)
    &&& forall|i: int|
        0 <= i < machine.actions.len() ==> machine.states.contains(
            (#[trigger] machine.actions[i]).on_enter,
        )
    &&& forall|state: Seq<char>| #[trigger]
        machine.sub_machines.contains_key(state) ==> sub_machine_fits(
            machine,
            state,
            machine.sub_machines[state],
        )
}

/// Whether a message tells what is wrong with a flat machine: the first fault of the rest, or else
/// a fault of any compound state.
pub open spec fn tells_flat_fault(machine: MachineDefinitionView, message: Seq<char>) -> bool {
    match flat_fault(machine) {
        Some(fault) => message == fault,
        None => exists|state: Seq<char>| #[trigger]
            machine.sub_machines.contains_key(state) && tells_sub_machine_fault(
                machine,
                state,
                machine.sub_machines[state],
                message,
            ),
    }
}

// ── Parallel machines ───────────────────────────────────────────────────────

/// The fault of a region.
pub open spec fn region_fault(r: RegionDefView) -> Option<Seq<char>> {
    if r.id.len() == 0 {
        Some("region id is required"@)
    } else if r.states.len() == 0 {
        Some("region '"@ + r.id + "' must have at least one state"@)
    } else if !r.states.contains(r.initial_state) {
        Some(
            "region '"@ + r.id + "' initial_state '"@ + r.initial_state + "' not in its states"@,
        )
    } else {
        None
    }
}

/// The fault of a transition of a parallel machine.
pub open spec fn regional_transition_fault(
    regions: Seq<RegionDefView>,
    t: TransitionDefView,
) -> Option<Seq<char>> {
    match t.region {
        None => Some(
            "transition on '"@ + t.on + "' must specify a region in parallel machine"@,
        ),
        Some(id) => match region_with_id(regions, id) {
            None => Some("transition references unknown region '"@ + id + "'"@),
            Some(region) => if !region.states.contains(t.from) {
                Some("transition from '"@ + t.from + "' not in region '"@ + id + "'"@)
            } else if !region.states.contains(t.to) {
                Some("transition to '"@ + t.to + "' not in region '"@ + id + "'"@)
            } else {
                None
            },
        },
    }
}

/// The fault of one condition of a join.
pub open spec fn condition_fault(
    regions: Seq<RegionDefView>,
    id: Seq<char>,
    state: Seq<char>,
) -> Option<Seq<char>> {
    match region_with_id(regions, id) {
        None => Some("join references unknown region '"@ + id + "'"@),
        Some(region) => if !region.states.contains(state) {
            Some("join references state '"@ + state + "' not in region '"@ + id + "'"@)
        } else {
            None
        },
    }
}

/// The fault of the target of a join. The state may be one that only joins lead to, which the
/// region does not list.
pub open spec fn target_fault(regions: Seq<RegionDefView>, j: JoinDefView) -> Option<Seq<char>> {
    match region_with_id(regions, j.target_region) {
        None => Some("join target region '"@ + j.target_region + "' not defined"@),
        Some(_) => None,
    }
}

/// Whether all conditions of a join name a region and one of its states.
pub open spec fn conditions_fit(regions: Seq<RegionDefView>, j: JoinDefView) -> bool {
    forall|id: Seq<char>| #[trigger]
        j.when.contains_key(id) ==> condition_fault(regions, id, j.when[id]) is None
}

/// Whether a join waits for states of the machine only, and moves one of its regions.
pub open spec fn join_fits(regions: Seq<RegionDefView>, j: JoinDefView) -> bool {
    conditions_fit(regions, j) && target_fault(regions, j) is None
}

/// Whether a message tells what is wrong with a join: a fault of any condition, or else that of its
/// target.
pub open spec fn tells_join_fault(
    regions: Seq<RegionDefView>,
    j: JoinDefView,
    message: Seq<char>,
) -> bool {
    if conditions_fit(regions, j) {
        target_fault(regions, j) == Some(message)
    } else {
        exists|id: Seq<char>| #[trigger]
            j.when.contains_key(id) && condition_fault(regions, id, j.when[id]) == Some(message)
    }
}

/// The first fault of a parallel machine apart from its joins.
pub open spec fn parallel_fault(machine: MachineDefinitionView) -> Option<Seq<char>> {
    let in_regions = first_fault(machine.regions.map_values(|r: RegionDefView| region_fault(r)));
    if in_regions is Some {
        in_regions
    } else {
        first_fault(
            machine.transitions.map_values(
                |t: TransitionDefView| regional_transition_fault(machine.regions, t),
            ),
        )
    }
}

/// Whether a parallel machine is consistent: regions have an ID and start in one of their states,
/// transitions name regions and their states only, joins wait for such states, and each join moves
/// a region of the machine.
pub open spec fn parallel_is_valid(machine: MachineDefinitionView) -> bool {
    &&& forall|i: int|
        0 <= i < machine.regions.len() ==> (#[trigger] machine.regions[i]).id.len() > 0
            && machine.regions[i].states.contains(machine.regions[i].initial_state)
    &&& forall|i: int|
        0 <= i < machine.transitions.len() ==> {
            &&& (#[trigger] machine.transitions[i]).region matches Some(id)
            &&& region_with_id(machine.regions, id) matches Some(region)
            &&& region.states.contains(machine.transitions[i].from)
            &&& region.states.contains(machine.transitions[i].to)
        }
    &&& forall|i: int|
        0 <= i < machine.joins.len() ==> join_fits(machine.regions, #[trigger] machine.joins[i])
}

/// Whether a message tells what is wrong with a parallel machine: the first fault of the rest, or
/// else one of the first faulty join.
pub open spec fn tells_parallel_fault(machine: MachineDefinitionView, message: Seq<char>) -> bool {
    match parallel_fault(machine) {
        Some(fault) => message == fault,
        None => exists|i: int|
            0 <= i < machine.joins.len() && (forall|k: int|
                0 <= k < i ==> join_fits(machine.regions, #[trigger] machine.joins[k]))
                && !join_fits(machine.regions, machine.joins[i]) && #[trigger] tells_join_fault(
                machine.regions,
                machine.joins[i],
                message,
            ),
    }
}

/// Whether a machine is consistent.
pub open spec fn is_valid(machine: MachineDefinitionView) -> bool {
    &&& machine.machine_id.len() > 0
    &&& if is_parallel(machine) {
        parallel_is_valid(machine)
    } else {
        flat_is_valid(machine)
    }
}

/// Whether a message tells what is wrong with a machine.
pub open spec fn tells_fault(machine: MachineDefinitionView, message: Seq<char>) -> bool {
    if machine.machine_id.len() == 0 {
        message == "machine_id is required"@
    } else if is_parallel(machine) {
        tells_parallel_fault(machine, message)
    } else {
        tells_flat_fault(machine, message)
    }
}

/// A list of findings without a fault has no first one, and the other way round.
pub(crate) proof fn lemma_first_fault(findings: Seq<Option<Seq<char>>>)
    ensures
        first_fault(findings) is None <==> forall|i: int|
            0 <= i < findings.len() ==> (#[trigger] findings[i]) is None,
    decreases findings.len(),
{
    if findings.len() > 0 {
        let rest = findings.drop_first();
        lemma_first_fault(rest);
        assert forall|i: int|
            0 <= i < findings.len() && findings[0] is None && first_fault(rest)
                is None implies (#[trigger] findings[i]) is None by {
            if i > 0 {
                assert(rest[i - 1] is None);
            }
        }
        if findings[0] is None && first_fault(rest) is Some {
            let i = choose|i: int| 0 <= i < rest.len() && (#[trigger] rest[i]) is Some;
            assert(findings[i + 1] is Some);
        }
    }
}

/// The first fault comes before all findings that follow it.
pub(crate) proof fn lemma_fault_at(findings: Seq<Option<Seq<char>>>, n: int)
    requires
        0 <= n < findings.len(),
        findings[n] is Some,
        forall|i: int| 0 <= i < n ==> (#[trigger] findings[i]) is None,
    ensures
        first_fault(findings) == findings[n],
    decreases findings.len(),
{
    if n > 0 {
        assert(findings[0] is None);
        let rest = findings.drop_first();
        assert forall|i: int| 0 <= i < n - 1 implies (#[trigger] rest[i]) is None by {
            assert(findings[i + 1] is None);
        }
        lemma_fault_at(rest, n - 1);
    }
}

/// The fault of a transition of a flat machine.
fn check_transition(states: &Vec<String>, t: &TransitionDef) -> (fault: Option<String>)
    ensures
        fault.deep_view() == transition_fault(states.deep_view(), t.deep_view()),
{
    if !list_has(states, t.from.as_str()) {
        Some(concat3("transition 'from' state '", t.from.as_str(), "' not in states"))
    } else if !list_has(states, t.to.as_str()) {
        Some(concat3("transition 'to' state '", t.to.as_str(), "' not in states"))
    } else {
        None
    }
}

/// The fault of an action of a flat machine.
fn check_action(states: &Vec<String>, a: &ActionDef) -> (fault: Option<String>)
    ensures
        fault.deep_view() == action_fault(states.deep_view(), a.deep_view()),
{
    if !list_has(states, a.on_enter.as_str()) {
        Some(concat3("action on_enter state '", a.on_enter.as_str(), "' not in states"))
    } else {
        None
    }
}

/// The fault of a region.
fn check_region(r: &RegionDef) -> (fault: Option<String>)
    ensures
        fault.deep_view() == region_fault(r.deep_view()),
{
    if r.id.as_str().is_empty() {
        Some("region id is required".to_owned())
    } else if r.states.is_empty() {
        Some(concat3("region '", r.id.as_str(), "' must have at least one state"))
    } else if !list_has(&r.states, r.initial_state.as_str()) {
        Some(
            concat5(
                "region '",
                r.id.as_str(),
                "' initial_state '",
                r.initial_state.as_str(),
                "' not in its states",
            ),
        )
    } else {
        None
    }
}

/// The region with an ID.
fn find_region<'a>(regions: &'a Vec<RegionDef>, id: &str) -> (region: Option<&'a RegionDef>)
    ensures
        region.deep_view() == region_with_id(regions.deep_view(), id@),
{
    let ghost all = regions.deep_view();
    let mut i: usize = regions.len();
    assert(all.take(i as int) =~= all);
    while i > 0
        invariant
            i <= regions.len(),
            all == regions.deep_view(),
            region_with_id(all, id@) == region_with_id(all.take(i as int), id@),
        decreases i,
    {
        assert(all.take(i as int).drop_last() =~= all.take(i - 1));
        i = i - 1;
        if same_text(regions[i].id.as_str(), id) {
            return Some(&regions[i]);
        }
    }
    None
}

/// The fault of a transition of a parallel machine.
fn check_regional_transition(regions: &Vec<RegionDef>, t: &TransitionDef) -> (fault: Option<String>)
    ensures
        fault.deep_view() == regional_transition_fault(regions.deep_view(), t.deep_view()),
{
    let id = match &t.region {
        Some(id) => id.as_str(),
        None => {
            return Some(
                concat3(
                    "transition on '",
                    t.on.as_str(),
                    "' must specify a region in parallel machine",
                ),
            );
        },
    };
    match find_region(regions, id) {
        None => Some(concat3("transition references unknown region '", id, "'")),
        Some(region) => if !list_has(&region.states, t.from.as_str()) {
            Some(concat5("transition from '", t.from.as_str(), "' not in region '", id, "'"))
        } else if !list_has(&region.states, t.to.as_str()) {
            Some(concat5("transition to '", t.to.as_str(), "' not in region '", id, "'"))
        } else {
            None
        },
    }
}

/// The fault of one condition of a join.
fn check_condition(regions: &Vec<RegionDef>, id: &str, state: &str) -> (fault: Option<String>)
    ensures
        fault.deep_view() == condition_fault(regions.deep_view(), id@, state@),
{
    match find_region(regions, id) {
        None => Some(concat3("join references unknown region '", id, "'")),
        Some(region) => if !list_has(&region.states, state) {
            Some(concat5("join references state '", state, "' not in region '", id, "'"))
        } else {
            None
        },
    }
}

/// What is wrong with a join.
fn check_join(regions: &Vec<RegionDef>, j: &JoinDef) -> (fault: Option<String>)
    ensures
        match fault {
            Some(message) => !join_fits(regions.deep_view(), j.deep_view()) && tells_join_fault(
                regions.deep_view(),
                j.deep_view(),
                message@,
            ),
            None => join_fits(regions.deep_view(), j.deep_view()),
        },
{
    let n = j.when.len();
    let ghost conditions = j.when.deep_view();
    let mut i: usize = 0;
    while i < n
        invariant
            i <= n == j.when.entries().len(),
            conditions == j.when.deep_view(),
            forall|k: int|
                0 <= k < i ==> condition_fault(
                    regions.deep_view(),
                    (#[trigger] j.when.entries()[k]).0@,
                    j.when.entries()[k].1@,
                ) is None,
        decreases n - i,
    {
        let (id, state) = j.when.entry(i);
        let fault = check_condition(regions, id, state.as_str());
        if fault.is_some() {
            assert(conditions.contains_key(id@));
            return fault;
        }
        i = i + 1;
    }
    assert(conditions_fit(regions.deep_view(), j.deep_view()));
    match find_region(regions, j.target_region.as_str()) {
        None => Some(concat3("join target region '", j.target_region.as_str(), "' not defined")),
        Some(_) => None,
    }
}

impl MachineDefinition {
    /// Whether the machine has parallel regions.
    pub fn is_parallel(&self) -> (parallel: bool)
        ensures
            parallel == is_parallel(self.deep_view()),
    {
        !self.regions.is_empty()
    }

    /// The states by region of a new entity.
    pub fn initial_state_map(&self) -> (map: StringMap<String>)
        ensures
            map.deep_view() == initial_map(self.deep_view()),
    {
        let mut map: StringMap<String> = StringMap::new();
        if self.is_parallel() {
            let ghost regions = self.regions.deep_view();
            let mut i: usize = 0;
            while i < self.regions.len()
                invariant
                    i <= self.regions.len(),
                    regions == self.regions.deep_view(),
                    map.deep_view() == initial_states(regions.take(i as int)),
                decreases self.regions.len() - i,
            {
                map.insert(self.regions[i].id.clone(), self.regions[i].initial_state.clone());
                assert(regions.take(i + 1).drop_last() =~= regions.take(i as int));
                i = i + 1;
            }
            assert(regions.take(i as int) =~= regions);
        } else {
            map.insert(DEFAULT_REGION.to_owned(), self.initial_state.clone());
        }
        map
    }

    /// The stored state of a new entity.
    pub fn initial_state_encoded(&self) -> (stored: String)
        ensures
            stored@ == crate::entity::encoded_state(initial_map(self.deep_view())),
            crate::entity::keeps_its_meaning(initial_map(self.deep_view()))
                ==> crate::entity::stored_state(stored@) == initial_map(self.deep_view()),
    {
        Entity::encode_state(&self.initial_state_map())
    }

    /// Checks the consistency of the machine, and tells what is wrong with it.
    pub fn validate(&self) -> (result: Result<(), String>)
        ensures
            result is Ok <==> is_valid(self.deep_view()),
            result matches Err(message) ==> tells_fault(self.deep_view(), message@),
    {
        if self.machine_id.as_str().is_empty() {
            return Err("machine_id is required".to_owned());
        }
        if self.is_parallel() {
            self.validate_parallel()
        } else {
            self.validate_flat()
        }
    }

    /// Checks the consistency of a flat machine.
    fn validate_flat(&self) -> (result: Result<(), String>)
        ensures
            result is Ok <==> flat_is_valid(self.deep_view()),
            result matches Err(message) ==> tells_flat_fault(self.deep_view(), message@),
    {
        let ghost machine = self.deep_view();
        if self.states.is_empty() {
            return Err("at least one state is required".to_owned());
        }
        if !list_has(&self.states, self.initial_state.as_str()) {
            return Err(
                concat3("initial_state '", self.initial_state.as_str(), "' is not in states list"),
            );
        }
        let ghost in_transitions = machine.transitions.map_values(
            |t: TransitionDefView| transition_fault(machine.states, t),
        );
        let mut i: usize = 0;
        while i < self.transitions.len()
            invariant
                i <= self.transitions.len(),
                machine == self.deep_view(),
                machine.states.len() > 0,
                machine.states.contains(machine.initial_state),
                in_transitions == machine.transitions.map_values(
                    |t: TransitionDefView| transition_fault(machine.states, t),
                ),
                forall|k: int| 0 <= k < i ==> (#[trigger] in_transitions[k]) is None,
            decreases self.transitions.len() - i,
        {
            assert(machine.transitions[i as int] == self.transitions[i as int].deep_view());
            if let Some(fault) = check_transition(&self.states, &self.transitions[i]) {
                proof {
                    lemma_fault_at(in_transitions, i as int);
                }
                return Err(fault);
            }
            i = i + 1;
        }
        proof {
            lemma_first_fault(in_transitions);
        }
        assert forall|k: int| 0 <= k < machine.transitions.len() implies machine.states.contains(
            (#[trigger] machine.transitions[k]).from,
        ) && machine.states.contains(machine.transitions[k].to) by {
            assert(in_transitions[k] is None);
        }
        let ghost in_actions = machine.actions.map_values(
            |a: ActionDefView| action_fault(machine.states, a),
        );
        let mut i: usize = 0;
        while i < self.actions.len()
            invariant
                i <= self.actions.len(),
                machine == self.deep_view(),
                machine.states.len() > 0,
                machine.states.contains(machine.initial_state),
                first_fault(
                    machine.transitions.map_values(
                        |t: TransitionDefView| transition_fault(machine.states, t),
                    ),
                ) is None,
                in_actions == machine.actions.map_values(
                    |a: ActionDefView| action_fault(machine.states, a),
                ),
                forall|k: int| 0 <= k < i ==> (#[trigger] in_actions[k]) is None,
            decreases self.actions.len() - i,
        {
            assert(machine.actions[i as int] == self.actions[i as int].deep_view());
            if let Some(fault) = check_action(&self.states, &self.actions[i]) {
                proof {
                    lemma_fault_at(in_actions, i as int);
                }
                return Err(fault);
            }
            i = i + 1;
        }
        proof {
            lemma_first_fault(in_actions);
        }
        assert forall|k: int| 0 <= k < machine.actions.len() implies machine.states.contains(
            (#[trigger] machine.actions[k]).on_enter,
        ) by {
            assert(in_actions[k] is None);
        }
        assert(flat_fault(machine) is None);
        let n = self.sub_machines.len();
        let mut i: usize = 0;
        while i < n
            invariant
                i <= n == self.sub_machines.entries().len(),
                machine == self.deep_view(),
                flat_fault(machine) is None,
                forall|k: int|
                    0 <= k < i ==> sub_machine_fits(
                        machine,
                        (#[trigger] self.sub_machines.entries()[k]).0@,
                        self.sub_machines.entries()[k].1.deep_view(),
                    ),
            decreases n - i,
        {
            let (state, sub) = self.sub_machines.entry(i);
            if let Some(fault) = self.check_sub_machine(state, sub) {
                assert(machine.sub_machines.contains_key(state@));
                return Err(fault);
            }
            i = i + 1;
        }
        Ok(())
    }

    /// What is wrong with a compound state of a flat machine.
    fn check_sub_machine(&self, state: &str, sub: &SubMachineDef) -> (fault: Option<String>)
        ensures
            match fault {
                Some(message) => !sub_machine_fits(self.deep_view(), state@, sub.deep_view())
                    && tells_sub_machine_fault(
                    self.deep_view(),
                    state@,
                    sub.deep_view(),
                    message@,
                ),
                None => sub_machine_fits(self.deep_view(), state@, sub.deep_view()),
            },
    {
        if !list_has(&self.states, state) {
            return Some(concat3("sub_machine state '", state, "' not in states list"));
        }
        if same_text(state, self.initial_state.as_str()) {
            return Some(
                concat3(
                    "initial_state '",
                    state,
                    "' cannot be a compound state (sub-machine)",
                ),
            );
        }
        let ghost on_final = sub.deep_view().on_final;
        let n = sub.on_final.len();
        let mut i: usize = 0;
        while i < n
            invariant
                i <= n == sub.on_final.entries().len(),
                on_final == sub.deep_view().on_final,
                self.deep_view().states.contains(state@),
                state@ != self.deep_view().initial_state,
                forall|k: int|
                    0 <= k < i ==> self.deep_view().states.contains(
                        (#[trigger] sub.on_final.entries()[k]).1@,
                    ),
            decreases n - i,
        {
            let (final_state, target) = sub.on_final.entry(i);
            if !list_has(&self.states, target.as_str()) {
                assert(on_final.contains_key(final_state@));
                return Some(
                    concat3(
                        "sub_machine on_final target '",
                        target.as_str(),
                        "' not in states list",
                    ),
                );
            }
            i = i + 1;
        }
        None
    }

    /// Checks the consistency of a parallel machine.
    fn validate_parallel(&self) -> (result: Result<(), String>)
        ensures
            result is Ok <==> parallel_is_valid(self.deep_view()),
            result matches Err(message) ==> tells_parallel_fault(self.deep_view(), message@),
    {
        let ghost machine = self.deep_view();
        let ghost in_regions = machine.regions.map_values(|r: RegionDefView| region_fault(r));
        let mut i: usize = 0;
        while i < self.regions.len()
            invariant
                i <= self.regions.len(),
                machine == self.deep_view(),
                in_regions == machine.regions.map_values(|r: RegionDefView| region_fault(r)),
                forall|k: int| 0 <= k < i ==> (#[trigger] in_regions[k]) is None,
            decreases self.regions.len() - i,
        {
            assert(machine.regions[i as int] == self.regions[i as int].deep_view());
            if let Some(fault) = check_region(&self.regions[i]) {
                proof {
                    lemma_fault_at(in_regions, i as int);
                }
                return Err(fault);
            }
            i = i + 1;
        }
        proof {
            lemma_first_fault(in_regions);
        }
        assert forall|k: int| 0 <= k < machine.regions.len() implies (
        #[trigger] machine.regions[k]).id.len() > 0 && machine.regions[k].states.contains(
            machine.regions[k].initial_state,
        ) by {
            assert(in_regions[k] is None);
        }
        let ghost in_transitions = machine.transitions.map_values(
            |t: TransitionDefView| regional_transition_fault(machine.regions, t),
        );
        let mut i: usize = 0;
        while i < self.transitions.len()
            invariant
                i <= self.transitions.len(),
                machine == self.deep_view(),
                first_fault(machine.regions.map_values(|r: RegionDefView| region_fault(r))) is None,
                in_transitions == machine.transitions.map_values(
                    |t: TransitionDefView| regional_transition_fault(machine.regions, t),
                ),
                forall|k: int| 0 <= k < i ==> (#[trigger] in_transitions[k]) is None,
            decreases self.transitions.len() - i,
        {
            assert(machine.transitions[i as int] == self.transitions[i as int].deep_view());
            if let Some(fault) = check_regional_transition(&self.regions, &self.transitions[i]) {
                proof {
                    lemma_fault_at(in_transitions, i as int);
                }
                return Err(fault);
            }
            i = i + 1;
        }
        proof {
            lemma_first_fault(in_transitions);
        }
        assert forall|k: int| 0 <= k < machine.transitions.len() implies {
            &&& (#[trigger] machine.transitions[k]).region matches Some(id)
            &&& region_with_id(machine.regions, id) matches Some(region)
            &&& region.states.contains(machine.transitions[k].from)
            &&& region.states.contains(machine.transitions[k].to)
        } by {
            assert(in_transitions[k] is None);
        }
        assert(parallel_fault(machine) is None);
        let mut i: usize = 0;
        while i < self.joins.len()
            invariant
                i <= self.joins.len(),
                machine == self.deep_view(),
                parallel_fault(machine) is None,
                forall|k: int|
                    0 <= k < i ==> join_fits(machine.regions, #[trigger] machine.joins[k]),
            decreases self.joins.len() - i,
        {
            assert(machine.joins[i as int] == self.joins[i as int].deep_view());
            if let Some(fault) = check_join(&self.regions, &self.joins[i]) {
                assert(tells_join_fault(machine.regions, machine.joins[i as int], fault@));
                return Err(fault);
            }
            i = i + 1;
        }
        Ok(())
    }

    /// The sub-machine of a state in a region, where the state is compound. A flat machine has one
    /// region only; of two regions with the same ID the first one counts here.
    pub fn sub_machine_for_state(&self, state: &str, region: &str) -> (sub: Option<&SubMachineDef>)
        ensures
            sub.deep_view() == sub_machine_of(self.deep_view(), state@, region@),
    {
        if self.is_parallel() {
            let ghost regions = self.regions.deep_view();
            let mut i: usize = 0;
            assert(regions.skip(0) =~= regions);
            while i < self.regions.len()
                invariant
                    i <= self.regions.len(),
                    regions == self.regions.deep_view(),
                    first_region_with_id(regions, region@) == first_region_with_id(
                        regions.skip(i as int),
                        region@,
                    ),
                    is_parallel(self.deep_view()),
                decreases self.regions.len() - i,
            {
                assert(regions.skip(i as int)[0] == self.regions[i as int].deep_view());
                assert(regions.skip(i as int).drop_first() =~= regions.skip(i + 1));
                if same_text(self.regions[i].id.as_str(), region) {
                    return self.regions[i].sub_machines.get(state);
                }
                i = i + 1;
            }
            None
        } else {
            self.sub_machines.get(state)
        }
    }
}

/// The value under a key, if there is one.
pub open spec fn lookup<V>(map: Map<Seq<char>, V>, key: Seq<char>) -> Option<V> {
    if map.contains_key(key) {
        Some(map[key])
    } else {
        None
    }
}

/// The first region with an ID.
pub open spec fn first_region_with_id(regions: Seq<RegionDefView>, id: Seq<char>) -> Option<
    RegionDefView,
>
    decreases regions.len(),
{
    if regions.len() == 0 {
        None
    } else if regions[0].id == id {
        Some(regions[0])
    } else {
        first_region_with_id(regions.drop_first(), id)
    }
}

/// The sub-machine of a state in a region, where the state is compound.
pub open spec fn sub_machine_of(
    machine: MachineDefinitionView,
    state: Seq<char>,
    region: Seq<char>,
) -> Option<SubMachineDefView> {
    if is_parallel(machine) {
        match first_region_with_id(machine.regions, region) {
            Some(r) => lookup(r.sub_machines, state),
            None => None,
        }
    } else {
        lookup(machine.sub_machines, state)
    }
}

} // verus!
