//! The data of the service: machine definitions, entities, and what requests and responses carry.

use vstd::prelude::*;

use crate::json::Value;
use crate::string_map::{Duplicate, StringMap};

verus! {

/// The region of a machine that has no regions of its own.
pub const DEFAULT_REGION: &'static str = "_";

// ── Machine definition ──────────────────────────────────────────────────────

/// A state machine: either flat, with one list of states, or parallel, with regions that advance
/// independently of each other.
#[derive(Debug, Clone)]
pub struct MachineDefinition {
    pub machine_id: String,
    pub tenant_id: String,
    /// States of a flat machine (used when `regions` is empty).
    pub states: Vec<String>,
    /// Initial state of a flat machine (used when `regions` is empty).
    pub initial_state: String,
    /// Parallel regions; if there are any, this is a statechart machine.
    pub regions: Vec<RegionDef>,
    /// Join conditions across regions (barrier-style transitions).
    pub joins: Vec<JoinDef>,
    pub transitions: Vec<TransitionDef>,
    pub actions: Vec<ActionDef>,
    /// Sub-machines of the compound states of a flat machine, by state. Parallel machines use
    /// [`RegionDef::sub_machines`].
    pub sub_machines: StringMap<SubMachineDef>,
}

/// What a [`MachineDefinition`] stands for.
#[verifier::ext_equal]
pub struct MachineDefinitionView {
    pub machine_id: Seq<char>,
    pub tenant_id: Seq<char>,
    pub states: Seq<Seq<char>>,
    pub initial_state: Seq<char>,
    pub regions: Seq<RegionDefView>,
    pub joins: Seq<JoinDefView>,
    pub transitions: Seq<TransitionDefView>,
    pub actions: Seq<ActionDefView>,
    pub sub_machines: Map<Seq<char>, SubMachineDefView>,
}

impl DeepView for MachineDefinition {
    type V = MachineDefinitionView;

    open spec fn deep_view(&self) -> MachineDefinitionView {
        MachineDefinitionView {
            machine_id: self.machine_id@,
            tenant_id: self.tenant_id@,
            states: self.states.deep_view(),
            initial_state: self.initial_state@,
            regions: self.regions.deep_view(),
            joins: self.joins.deep_view(),
            transitions: self.transitions.deep_view(),
            actions: self.actions.deep_view(),
            sub_machines: self.sub_machines.deep_view(),
        }
    }
}

impl Duplicate for MachineDefinition {
    fn duplicate(&self) -> (copy: Self) {
        MachineDefinition {
            machine_id: self.machine_id.clone(),
            tenant_id: self.tenant_id.clone(),
            states: self.states.duplicate(),
            initial_state: self.initial_state.clone(),
            regions: self.regions.duplicate(),
            joins: self.joins.duplicate(),
            transitions: self.transitions.duplicate(),
            actions: self.actions.duplicate(),
            sub_machines: self.sub_machines.duplicate(),
        }
    }
}

/// A region of a parallel machine.
#[derive(Debug, Clone)]
pub struct RegionDef {
    pub id: String,
    pub states: Vec<String>,
    pub initial_state: String,
    /// Sub-machines of the compound states of this region, by state.
    pub sub_machines: StringMap<SubMachineDef>,
}

/// What a [`RegionDef`] stands for.
#[verifier::ext_equal]
pub struct RegionDefView {
    pub id: Seq<char>,
    pub states: Seq<Seq<char>>,
    pub initial_state: Seq<char>,
    pub sub_machines: Map<Seq<char>, SubMachineDefView>,
}

impl DeepView for RegionDef {
    type V = RegionDefView;

    open spec fn deep_view(&self) -> RegionDefView {
        RegionDefView {
            id: self.id@,
            states: self.states.deep_view(),
            initial_state: self.initial_state@,
            sub_machines: self.sub_machines.deep_view(),
        }
    }
}

impl Duplicate for RegionDef {
    fn duplicate(&self) -> (copy: Self) {
        RegionDef {
            id: self.id.clone(),
            states: self.states.duplicate(),
            initial_state: self.initial_state.clone(),
            sub_machines: self.sub_machines.duplicate(),
        }
    }
}

/// The machine that runs inside a compound state.
#[derive(Debug, Clone)]
pub struct SubMachineDef {
    /// Machine ID of the sub-machine (of the same tenant).
    pub machine_id: String,
    /// Maps a final state of the sub-machine to the state that the parent then enters.
    pub on_final: StringMap<String>,
}

/// What a [`SubMachineDef`] stands for.
#[verifier::ext_equal]
pub struct SubMachineDefView {
    pub machine_id: Seq<char>,
    pub on_final: Map<Seq<char>, Seq<char>>,
}

impl DeepView for SubMachineDef {
    type V = SubMachineDefView;

    open spec fn deep_view(&self) -> SubMachineDefView {
        SubMachineDefView {
            machine_id: self.machine_id@,
            on_final: self.on_final.deep_view(),
        }
    }
}

impl Duplicate for SubMachineDef {
    fn duplicate(&self) -> (copy: Self) {
        SubMachineDef {
            machine_id: self.machine_id.clone(),
            on_final: self.on_final.duplicate(),
        }
    }
}

/// A barrier: when every condition of `when` is met, `target_region` enters `target_state`.
#[derive(Debug, Clone)]
pub struct JoinDef {
    /// The required state by region; all must be met.
    pub when: StringMap<String>,
    /// Region that moves when the join fires.
    pub target_region: String,
    /// State that it enters.
    pub target_state: String,
    /// Actions to dispatch when the join fires.
    pub actions: Vec<ActionDef>,
}

/// What a [`JoinDef`] stands for.
#[verifier::ext_equal]
pub struct JoinDefView {
    pub when: Map<Seq<char>, Seq<char>>,
    pub target_region: Seq<char>,
    pub target_state: Seq<char>,
    pub actions: Seq<ActionDefView>,
}

impl DeepView for JoinDef {
    type V = JoinDefView;

    open spec fn deep_view(&self) -> JoinDefView {
        JoinDefView {
            when: self.when.deep_view(),
            target_region: self.target_region@,
            target_state: self.target_state@,
            actions: self.actions.deep_view(),
        }
    }
}

impl Duplicate for JoinDef {
    fn duplicate(&self) -> (copy: Self) {
        JoinDef {
            when: self.when.duplicate(),
            target_region: self.target_region.clone(),
            target_state: self.target_state.clone(),
            actions: self.actions.duplicate(),
        }
    }
}

/// A transition from one state to another on an event.
#[derive(Debug, Clone)]
pub struct TransitionDef {
    pub from: String,
    pub to: String,
    pub on: String,
    /// Region in which it operates; none stands for [`DEFAULT_REGION`].
    pub region: Option<String>,
    /// Condition that must hold for it to fire.
    pub guard: Option<Value>,
}

/// What a [`TransitionDef`] stands for.
#[verifier::ext_equal]
pub struct TransitionDefView {
    pub from: Seq<char>,
    pub to: Seq<char>,
    pub on: Seq<char>,
    pub region: Option<Seq<char>>,
    pub guard: Option<crate::json::ValueView>,
}

impl DeepView for TransitionDef {
    type V = TransitionDefView;

    open spec fn deep_view(&self) -> TransitionDefView {
        TransitionDefView {
            from: self.from@,
            to: self.to@,
            on: self.on@,
            region: self.region.deep_view(),
            guard: self.guard.deep_view(),
        }
    }
}

impl Duplicate for TransitionDef {
    fn duplicate(&self) -> (copy: Self) {
        TransitionDef {
            from: self.from.clone(),
            to: self.to.clone(),
            on: self.on.clone(),
            region: self.region.duplicate(),
            guard: self.guard.duplicate(),
        }
    }
}

/// An action to dispatch when a state is entered.
#[derive(Debug, Clone)]
pub struct ActionDef {
    pub on_enter: String,
    /// Region to which the action is confined; none matches every region.
    pub region: Option<String>,
    pub action: ActionConfig,
}

/// What an [`ActionDef`] stands for.
#[verifier::ext_equal]
pub struct ActionDefView {
    pub on_enter: Seq<char>,
    pub region: Option<Seq<char>>,
    pub action: ActionConfigView,
}

impl DeepView for ActionDef {
    type V = ActionDefView;

    open spec fn deep_view(&self) -> ActionDefView {
        ActionDefView {
            on_enter: self.on_enter@,
            region: self.region.deep_view(),
            action: self.action.deep_view(),
        }
    }
}

impl Duplicate for ActionDef {
    fn duplicate(&self) -> (copy: Self) {
        ActionDef {
            on_enter: self.on_enter.clone(),
            region: self.region.duplicate(),
            action: self.action.duplicate(),
        }
    }
}

/// What an action does.
#[derive(Debug, Clone)]
pub enum ActionConfig {
    Webhook { url: String },
    Event { event_type: String },
}

/// What an [`ActionConfig`] stands for.
#[verifier::ext_equal]
pub enum ActionConfigView {
    Webhook { url: Seq<char> },
    Event { event_type: Seq<char> },
}

impl DeepView for ActionConfig {
    type V = ActionConfigView;

    open spec fn deep_view(&self) -> ActionConfigView {
        match self {
            ActionConfig::Webhook { url } => ActionConfigView::Webhook { url: url@ },
            ActionConfig::Event { event_type } => ActionConfigView::Event { event_type: event_type@ },
        }
    }
}

impl Duplicate for ActionConfig {
    fn duplicate(&self) -> (copy: Self) {
        match self {
            ActionConfig::Webhook { url } => ActionConfig::Webhook { url: url.clone() },
            ActionConfig::Event { event_type } => ActionConfig::Event { event_type: event_type.clone() },
        }
    }
}

// ── Entity ──────────────────────────────────────────────────────────────────

/// An entity that moves through the states of a machine.
#[derive(Debug, Clone)]
pub struct Entity {
    pub machine_id: String,
    pub tenant_id: String,
    pub entity_id: String,
    /// Of a flat machine: the state. Of a parallel machine: a JSON object with the state by region.
    pub current_state: String,
    pub context: StringMap<Value>,
    pub state_version: i64,
    pub created_at: i64,
    pub updated_at: i64,
}

/// What an [`Entity`] stands for.
#[verifier::ext_equal]
pub struct EntityView {
    pub machine_id: Seq<char>,
    pub tenant_id: Seq<char>,
    pub entity_id: Seq<char>,
    pub current_state: Seq<char>,
    pub context: Map<Seq<char>, crate::json::ValueView>,
    pub state_version: i64,
    pub created_at: i64,
    pub updated_at: i64,
}

impl DeepView for Entity {
    type V = EntityView;

    open spec fn deep_view(&self) -> EntityView {
        EntityView {
            machine_id: self.machine_id@,
            tenant_id: self.tenant_id@,
            entity_id: self.entity_id@,
            current_state: self.current_state@,
            context: self.context.deep_view(),
            state_version: self.state_version,
            created_at: self.created_at,
            updated_at: self.updated_at,
        }
    }
}

impl Duplicate for Entity {
    fn duplicate(&self) -> (copy: Self) {
        Entity {
            machine_id: self.machine_id.clone(),
            tenant_id: self.tenant_id.clone(),
            entity_id: self.entity_id.clone(),
            current_state: self.current_state.clone(),
            context: self.context.duplicate(),
            state_version: self.state_version,
            created_at: self.created_at,
            updated_at: self.updated_at,
        }
    }
}

/// A state as a response shows it.
#[derive(Debug, Clone)]
pub enum StateValue {
    /// A JSON string with this text.
    Text(String),
    /// The JSON value that this text denotes.
    Json(String),
}

/// What a [`StateValue`] stands for.
#[verifier::ext_equal]
pub enum StateValueView {
    Text(Seq<char>),
    Json(Seq<char>),
}

impl DeepView for StateValue {
    type V = StateValueView;

    open spec fn deep_view(&self) -> StateValueView {
        match self {
            StateValue::Text(inner) => StateValueView::Text(inner@),
            StateValue::Json(inner) => StateValueView::Json(inner@),
        }
    }
}

impl Duplicate for StateValue {
    fn duplicate(&self) -> (copy: Self) {
        match self {
            StateValue::Text(inner) => StateValue::Text(inner.clone()),
            StateValue::Json(inner) => StateValue::Json(inner.clone()),
        }
    }
}

/// An entity as a response shows it.
#[derive(Debug, Clone)]
pub struct EntityResponse {
    pub machine_id: String,
    pub tenant_id: String,
    pub entity_id: String,
    /// A string for a flat machine, an object for a parallel one.
    pub current_state: StateValue,
    pub context: StringMap<Value>,
    pub state_version: i64,
    pub created_at: i64,
    pub updated_at: i64,
}

/// What an [`EntityResponse`] stands for.
#[verifier::ext_equal]
pub struct EntityResponseView {
    pub machine_id: Seq<char>,
    pub tenant_id: Seq<char>,
    pub entity_id: Seq<char>,
    pub current_state: StateValueView,
    pub context: Map<Seq<char>, crate::json::ValueView>,
    pub state_version: i64,
    pub created_at: i64,
    pub updated_at: i64,
}

impl DeepView for EntityResponse {
    type V = EntityResponseView;

    open spec fn deep_view(&self) -> EntityResponseView {
        EntityResponseView {
            machine_id: self.machine_id@,
            tenant_id: self.tenant_id@,
            entity_id: self.entity_id@,
            current_state: self.current_state.deep_view(),
            context: self.context.deep_view(),
            state_version: self.state_version,
            created_at: self.created_at,
            updated_at: self.updated_at,
        }
    }
}

// ── Audit log ───────────────────────────────────────────────────────────────

/// A transition that took place.
#[derive(Debug, Clone)]
pub struct TransitionRecord {
    pub id: i64,
    pub tenant_id: String,
    pub machine_id: String,
    pub entity_id: String,
    pub from_state: String,
    pub to_state: String,
    pub event_type: String,
    pub event_params: Option<StringMap<String>>,
    pub actions_dispatched: Vec<String>,
    pub region: Option<String>,
    pub timestamp: i64,
    pub created_at: i64,
}

/// What a [`TransitionRecord`] stands for.
#[verifier::ext_equal]
pub struct TransitionRecordView {
    pub id: i64,
    pub tenant_id: Seq<char>,
    pub machine_id: Seq<char>,
    pub entity_id: Seq<char>,
    pub from_state: Seq<char>,
    pub to_state: Seq<char>,
    pub event_type: Seq<char>,
    pub event_params: Option<Map<Seq<char>, Seq<char>>>,
    pub actions_dispatched: Seq<Seq<char>>,
    pub region: Option<Seq<char>>,
    pub timestamp: i64,
    pub created_at: i64,
}

impl DeepView for TransitionRecord {
    type V = TransitionRecordView;

    open spec fn deep_view(&self) -> TransitionRecordView {
        TransitionRecordView {
            id: self.id,
            tenant_id: self.tenant_id@,
            machine_id: self.machine_id@,
            entity_id: self.entity_id@,
            from_state: self.from_state@,
            to_state: self.to_state@,
            event_type: self.event_type@,
            event_params: self.event_params.deep_view(),
            actions_dispatched: self.actions_dispatched.deep_view(),
            region: self.region.deep_view(),
            timestamp: self.timestamp,
            created_at: self.created_at,
        }
    }
}

// ── Requests and responses ──────────────────────────────────────────────────

/// A request to create an entity.
#[derive(Debug, Clone)]
pub struct CreateEntityRequest {
    pub entity_id: String,
    pub context: Option<StringMap<Value>>,
}

/// What a [`CreateEntityRequest`] stands for.
#[verifier::ext_equal]
pub struct CreateEntityRequestView {
    pub entity_id: Seq<char>,
    pub context: Option<Map<Seq<char>, crate::json::ValueView>>,
}

impl DeepView for CreateEntityRequest {
    type V = CreateEntityRequestView;

    open spec fn deep_view(&self) -> CreateEntityRequestView {
        CreateEntityRequestView {
            entity_id: self.entity_id@,
            context: self.context.deep_view(),
        }
    }
}

/// A request to move one entity.
#[derive(Debug, Clone)]
pub struct TransitionRequest {
    pub event_type: String,
    pub params: StringMap<String>,
    pub timestamp: Option<i64>,
}

/// What a [`TransitionRequest`] stands for.
#[verifier::ext_equal]
pub struct TransitionRequestView {
    pub event_type: Seq<char>,
    pub params: Map<Seq<char>, Seq<char>>,
    pub timestamp: Option<i64>,
}

impl DeepView for TransitionRequest {
    type V = TransitionRequestView;

    open spec fn deep_view(&self) -> TransitionRequestView {
        TransitionRequestView {
            event_type: self.event_type@,
            params: self.params.deep_view(),
            timestamp: self.timestamp,
        }
    }
}

/// What became of an event.
#[derive(Debug, Clone)]
pub struct TransitionResponse {
    pub entity_id: String,
    pub previous_state: StateValue,
    pub current_state: StateValue,
    pub transition: Option<String>,
    pub region: Option<String>,
    pub triggered_by: String,
    pub actions_dispatched: Vec<DispatchedAction>,
    pub joins_fired: Vec<JoinFired>,
    pub timestamp: i64,
    pub reason: Option<String>,
    pub sub_machine: Option<SubMachineTransition>,
}

/// What a [`TransitionResponse`] stands for.
#[verifier::ext_equal]
pub struct TransitionResponseView {
    pub entity_id: Seq<char>,
    pub previous_state: StateValueView,
    pub current_state: StateValueView,
    pub transition: Option<Seq<char>>,
    pub region: Option<Seq<char>>,
    pub triggered_by: Seq<char>,
    pub actions_dispatched: Seq<DispatchedActionView>,
    pub joins_fired: Seq<JoinFiredView>,
    pub timestamp: i64,
    pub reason: Option<Seq<char>>,
    pub sub_machine: Option<SubMachineTransitionView>,
}

impl DeepView for TransitionResponse {
    type V = TransitionResponseView;

    open spec fn deep_view(&self) -> TransitionResponseView {
        TransitionResponseView {
            entity_id: self.entity_id@,
            previous_state: self.previous_state.deep_view(),
            current_state: self.current_state.deep_view(),
            transition: self.transition.deep_view(),
            region: self.region.deep_view(),
            triggered_by: self.triggered_by@,
            actions_dispatched: self.actions_dispatched.deep_view(),
            joins_fired: self.joins_fired.deep_view(),
            timestamp: self.timestamp,
            reason: self.reason.deep_view(),
            sub_machine: self.sub_machine.deep_view(),
        }
    }
}

impl Duplicate for TransitionResponse {
    fn duplicate(&self) -> (copy: Self) {
        TransitionResponse {
            entity_id: self.entity_id.clone(),
            previous_state: self.previous_state.duplicate(),
            current_state: self.current_state.duplicate(),
            transition: self.transition.duplicate(),
            region: self.region.duplicate(),
            triggered_by: self.triggered_by.clone(),
            actions_dispatched: self.actions_dispatched.duplicate(),
            joins_fired: self.joins_fired.duplicate(),
            timestamp: self.timestamp,
            reason: self.reason.duplicate(),
            sub_machine: self.sub_machine.duplicate(),
        }
    }
}

/// What became of an event that was forwarded to a child machine.
#[derive(Debug, Clone)]
pub struct SubMachineTransition {
    pub machine_id: String,
    pub entity_id: String,
    pub previous_state: StateValue,
    pub current_state: StateValue,
    pub transition: Option<String>,
    /// Whether the child reached a final state and the parent advanced.
    pub auto_completed: bool,
}

/// What a [`SubMachineTransition`] stands for.
#[verifier::ext_equal]
pub struct SubMachineTransitionView {
    pub machine_id: Seq<char>,
    pub entity_id: Seq<char>,
    pub previous_state: StateValueView,
    pub current_state: StateValueView,
    pub transition: Option<Seq<char>>,
    pub auto_completed: bool,
}

impl DeepView for SubMachineTransition {
    type V = SubMachineTransitionView;

    open spec fn deep_view(&self) -> SubMachineTransitionView {
        SubMachineTransitionView {
            machine_id: self.machine_id@,
            entity_id: self.entity_id@,
            previous_state: self.previous_state.deep_view(),
            current_state: self.current_state.deep_view(),
            transition: self.transition.deep_view(),
            auto_completed: self.auto_completed,
        }
    }
}

impl Duplicate for SubMachineTransition {
    fn duplicate(&self) -> (copy: Self) {
        SubMachineTransition {
            machine_id: self.machine_id.clone(),
            entity_id: self.entity_id.clone(),
            previous_state: self.previous_state.duplicate(),
            current_state: self.current_state.duplicate(),
            transition: self.transition.duplicate(),
            auto_completed: self.auto_completed,
        }
    }
}

/// An action as a response shows it.
#[derive(Debug, Clone)]
pub enum DispatchedAction {
    Webhook { url: String, state: String, region: Option<String> },
    Event { event_type: String, state: String, region: Option<String> },
}

/// What a [`DispatchedAction`] stands for.
#[verifier::ext_equal]
pub enum DispatchedActionView {
    Webhook { url: Seq<char>, state: Seq<char>, region: Option<Seq<char>> },
    Event { event_type: Seq<char>, state: Seq<char>, region: Option<Seq<char>> },
}

impl DeepView for DispatchedAction {
    type V = DispatchedActionView;

    open spec fn deep_view(&self) -> DispatchedActionView {
        match self {
            DispatchedAction::Webhook { url, state, region } => DispatchedActionView::Webhook { url: url@, state: state@, region: region.deep_view() },
            DispatchedAction::Event { event_type, state, region } => DispatchedActionView::Event { event_type: event_type@, state: state@, region: region.deep_view() },
        }
    }
}

impl Duplicate for DispatchedAction {
    fn duplicate(&self) -> (copy: Self) {
        match self {
            DispatchedAction::Webhook { url, state, region } => DispatchedAction::Webhook { url: url.clone(), state: state.clone(), region: region.duplicate() },
            DispatchedAction::Event { event_type, state, region } => DispatchedAction::Event { event_type: event_type.clone(), state: state.clone(), region: region.duplicate() },
        }
    }
}

/// A join that fired.
#[derive(Debug, Clone)]
pub struct JoinFired {
    pub target_region: String,
    pub from_state: String,
    pub target_state: String,
}

/// What a [`JoinFired`] stands for.
#[verifier::ext_equal]
pub struct JoinFiredView {
    pub target_region: Seq<char>,
    pub from_state: Seq<char>,
    pub target_state: Seq<char>,
}

impl DeepView for JoinFired {
    type V = JoinFiredView;

    open spec fn deep_view(&self) -> JoinFiredView {
        JoinFiredView {
            target_region: self.target_region@,
            from_state: self.from_state@,
            target_state: self.target_state@,
        }
    }
}

impl Duplicate for JoinFired {
    fn duplicate(&self) -> (copy: Self) {
        JoinFired {
            target_region: self.target_region.clone(),
            from_state: self.from_state.clone(),
            target_state: self.target_state.clone(),
        }
    }
}

/// A request to evaluate an event; `entity_key` names the parameter that holds the entity ID.
#[derive(Debug, Clone)]
pub struct EvaluateRequest {
    pub event_type: String,
    pub entity_key: String,
    pub params: StringMap<String>,
    pub timestamp: Option<i64>,
    /// When false, actions are returned in the response but not dispatched. Default: true.
    pub dispatch: bool,
}

/// What an [`EvaluateRequest`] stands for.
#[verifier::ext_equal]
pub struct EvaluateRequestView {
    pub event_type: Seq<char>,
    pub entity_key: Seq<char>,
    pub params: Map<Seq<char>, Seq<char>>,
    pub timestamp: Option<i64>,
    pub dispatch: bool,
}

impl DeepView for EvaluateRequest {
    type V = EvaluateRequestView;

    open spec fn deep_view(&self) -> EvaluateRequestView {
        EvaluateRequestView {
            event_type: self.event_type@,
            entity_key: self.entity_key@,
            params: self.params.deep_view(),
            timestamp: self.timestamp,
            dispatch: self.dispatch,
        }
    }
}

/// Filters for a list of entities.
#[derive(Debug, Clone)]
pub struct ListEntitiesQuery {
    pub state: Option<String>,
    /// Region whose state is compared (for parallel machines).
    pub region: Option<String>,
    pub updated_since: Option<i64>,
}

/// What a [`ListEntitiesQuery`] stands for.
#[verifier::ext_equal]
pub struct ListEntitiesQueryView {
    pub state: Option<Seq<char>>,
    pub region: Option<Seq<char>>,
    pub updated_since: Option<i64>,
}

impl DeepView for ListEntitiesQuery {
    type V = ListEntitiesQueryView;

    open spec fn deep_view(&self) -> ListEntitiesQueryView {
        ListEntitiesQueryView {
            state: self.state.deep_view(),
            region: self.region.deep_view(),
            updated_since: self.updated_since,
        }
    }
}

/// A request to create a machine; the tenant comes from elsewhere.
#[derive(Debug, Clone)]
pub struct CreateMachineRequest {
    pub machine_id: String,
    pub states: Vec<String>,
    pub initial_state: String,
    pub regions: Vec<RegionDef>,
    pub joins: Vec<JoinDef>,
    pub transitions: Vec<TransitionDef>,
    pub actions: Vec<ActionDef>,
    pub sub_machines: StringMap<SubMachineDef>,
}

/// What a [`CreateMachineRequest`] stands for.
#[verifier::ext_equal]
pub struct CreateMachineRequestView {
    pub machine_id: Seq<char>,
    pub states: Seq<Seq<char>>,
    pub initial_state: Seq<char>,
    pub regions: Seq<RegionDefView>,
    pub joins: Seq<JoinDefView>,
    pub transitions: Seq<TransitionDefView>,
    pub actions: Seq<ActionDefView>,
    pub sub_machines: Map<Seq<char>, SubMachineDefView>,
}

impl DeepView for CreateMachineRequest {
    type V = CreateMachineRequestView;

    open spec fn deep_view(&self) -> CreateMachineRequestView {
        CreateMachineRequestView {
            machine_id: self.machine_id@,
            states: self.states.deep_view(),
            initial_state: self.initial_state@,
            regions: self.regions.deep_view(),
            joins: self.joins.deep_view(),
            transitions: self.transitions.deep_view(),
            actions: self.actions.deep_view(),
            sub_machines: self.sub_machines.deep_view(),
        }
    }
}

/// A request to replace the definition of a machine.
#[derive(Debug, Clone)]
pub struct UpdateMachineRequest {
    pub states: Vec<String>,
    pub initial_state: String,
    pub regions: Vec<RegionDef>,
    pub joins: Vec<JoinDef>,
    pub transitions: Vec<TransitionDef>,
    pub actions: Vec<ActionDef>,
    pub sub_machines: StringMap<SubMachineDef>,
}

/// What an [`UpdateMachineRequest`] stands for.
#[verifier::ext_equal]
pub struct UpdateMachineRequestView {
    pub states: Seq<Seq<char>>,
    pub initial_state: Seq<char>,
    pub regions: Seq<RegionDefView>,
    pub joins: Seq<JoinDefView>,
    pub transitions: Seq<TransitionDefView>,
    pub actions: Seq<ActionDefView>,
    pub sub_machines: Map<Seq<char>, SubMachineDefView>,
}

impl DeepView for UpdateMachineRequest {
    type V = UpdateMachineRequestView;

    open spec fn deep_view(&self) -> UpdateMachineRequestView {
        UpdateMachineRequestView {
            states: self.states.deep_view(),
            initial_state: self.initial_state@,
            regions: self.regions.deep_view(),
            joins: self.joins.deep_view(),
            transitions: self.transitions.deep_view(),
            actions: self.actions.deep_view(),
            sub_machines: self.sub_machines.deep_view(),
        }
    }
}

/// Whether actions are dispatched where a request does not say.
pub fn default_true() -> (dispatch: bool)
    ensures
        dispatch,
{
    true
}

} // verus!
