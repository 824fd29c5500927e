//! Actions that follow from entering a state.

use vstd::arithmetic::power2::*;
use vstd::prelude::*;

use crate::json::{push_field, push_text_field, Value, ValueView};
use crate::models::{
    ActionConfig, ActionConfigView, ActionDef, ActionDefView, DispatchedAction,
    DispatchedActionView,
};
use crate::string_map::Duplicate;
use crate::text::same_text;

verus! {

/// A request to send on behalf of an action.
#[derive(Debug, Clone)]
pub struct Delivery {
    /// Where to post it.
    pub url: String,
    /// What to post.
    pub payload: Value,
}

/// What a [`Delivery`] stands for.
#[verifier::ext_equal]
pub struct DeliveryView {
    pub url: Seq<char>,
    pub payload: crate::json::ValueView,
}

impl DeepView for Delivery {
    type V = DeliveryView;

    open spec fn deep_view(&self) -> DeliveryView {
        DeliveryView {
            url: self.url@,
            payload: self.payload.deep_view(),
        }
    }
}

/// An action that fires: the state that was entered, what to do, and the region of the action.
pub type FiredAction = (String, ActionConfig, Option<String>);

/// What a [`FiredAction`] stands for.
pub type FiredActionView = (Seq<char>, ActionConfigView, Option<Seq<char>>);

/// Whether an action fires when a state is entered. An action without a region fires in every
/// region; one with a region fires in that region only, and never in a flat machine.
pub open spec fn action_fires(
    action: ActionDefView,
    to_state: Seq<char>,
    region: Option<Seq<char>>,
) -> bool {
    action.on_enter == to_state && (action.region is None || action.region == region)
}

/// What fires.
pub open spec fn fired(action: ActionDefView) -> FiredActionView {
    (action.on_enter, action.action, action.region)
}

/// The actions that fire when a state is entered, in their order.
pub open spec fn fired_actions(
    actions: Seq<ActionDefView>,
    to_state: Seq<char>,
    region: Option<Seq<char>>,
) -> Seq<FiredActionView>
    decreases actions.len(),
{
    if actions.len() == 0 {
        Seq::empty()
    } else if action_fires(actions.last(), to_state, region) {
        fired_actions(actions.drop_last(), to_state, region).push(fired(actions.last()))
    } else {
        fired_actions(actions.drop_last(), to_state, region)
    }
}

/// An action that fires as a response shows it.
pub open spec fn listed_action(action: FiredActionView) -> DispatchedActionView {
    match action.1 {
        ActionConfigView::Webhook { url } => DispatchedActionView::Webhook {
            url,
            state: action.0,
            region: action.2,
        },
        ActionConfigView::Event { event_type } => DispatchedActionView::Event {
            event_type,
            state: action.0,
            region: action.2,
        },
    }
}

/// The actions that fire as a response shows them.
pub open spec fn listed_actions(actions: Seq<FiredActionView>) -> Seq<DispatchedActionView> {
    actions.map_values(|action: FiredActionView| listed_action(action))
}

/// A movement of an entity from one state to another.
pub struct Movement {
    pub tenant_id: Seq<char>,
    pub machine_id: Seq<char>,
    pub entity_id: Seq<char>,
    pub from_state: Seq<char>,
    pub to_state: Seq<char>,
}

/// What is posted to a webhook.
pub open spec fn webhook_payload(movement: Movement) -> Map<Seq<char>, ValueView> {
    Map::<Seq<char>, ValueView>::empty().insert(
        "tenant_id"@,
        ValueView::String(movement.tenant_id),
    ).insert("machine_id"@, ValueView::String(movement.machine_id)).insert(
        "entity_id"@,
        ValueView::String(movement.entity_id),
    ).insert("from_state"@, ValueView::String(movement.from_state)).insert(
        "to_state"@,
        ValueView::String(movement.to_state),
    )
}

/// What is posted as an event.
pub open spec fn event_payload(event_type: Seq<char>, movement: Movement) -> Map<
    Seq<char>,
    ValueView,
> {
    Map::<Seq<char>, ValueView>::empty().insert("event_type"@, ValueView::String(event_type)).insert(
        "params"@,
        ValueView::Object(
            Map::<Seq<char>, ValueView>::empty().insert(
                "key_prefix"@,
                ValueView::String(movement.tenant_id),
            ).insert("machine_id"@, ValueView::String(movement.machine_id)).insert(
                "entity_id"@,
                ValueView::String(movement.entity_id),
            ).insert("from_state"@, ValueView::String(movement.from_state)).insert(
                "to_state"@,
                ValueView::String(movement.to_state),
            ),
        ),
    )
}

/// The request that an action sends: to its URL, or to the event sink.
pub open spec fn delivery(
    action: FiredActionView,
    event_sink: Seq<char>,
    movement: Movement,
) -> DeliveryView {
    match action.1 {
        ActionConfigView::Webhook { url } => DeliveryView {
            url,
            payload: ValueView::Object(webhook_payload(movement)),
        },
        ActionConfigView::Event { event_type } => DeliveryView {
            url: event_sink,
            payload: ValueView::Object(event_payload(event_type, movement)),
        },
    }
}

/// The requests that actions send, one for each.
pub open spec fn deliveries(
    actions: Seq<FiredActionView>,
    event_sink: Seq<char>,
    movement: Movement,
) -> Seq<DeliveryView> {
    actions.map_values(|action: FiredActionView| delivery(action, event_sink, movement))
}

/// The actions that fire on entering `to_state` in an optional region. For flat machines the region
/// is `None`, for parallel ones it is the region's name.
pub fn collect_actions_for_state(
    actions: &[ActionDef],
    to_state: &str,
    region: Option<&str>,
) -> (firing: Vec<FiredAction>)
    ensures
        firing.deep_view() == fired_actions(actions.deep_view(), to_state@, region.deep_view()),
{
    let ghost all = actions.deep_view();
    let mut firing: Vec<FiredAction> = Vec::new();
    let mut i: usize = 0;
    while i < actions.len()
        invariant
            i <= actions.len(),
            all == actions.deep_view(),
            firing.deep_view() == fired_actions(
                all.take(i as int),
                to_state@,
                region.deep_view(),
            ),
        decreases actions.len() - i,
    {
        let action = &actions[i];
        assert(all.take(i + 1).drop_last() =~= all.take(i as int));
        assert(all.take(i + 1).last() == action.deep_view());
        let in_region: bool = match (&action.region, region) {
            (None, _) => true,
            (Some(scope), Some(region)) => same_text(scope.as_str(), region),
            (Some(_), None) => false,
        };
        if same_text(action.on_enter.as_str(), to_state) && in_region {
            let fires = (
                action.on_enter.clone(),
                action.action.duplicate(),
                action.region.duplicate(),
            );
            let ghost before = firing.deep_view();
            firing.push(fires);
            assert(firing.deep_view() =~= before.push(fires.deep_view()));
        }
        i = i + 1;
    }
    assert(all.take(i as int) =~= all);
    firing
}

/// An action that fires as a response shows it.
fn list_action(action: &FiredAction) -> (listed: DispatchedAction)
    ensures
        listed.deep_view() == listed_action(action.deep_view()),
{
    match &action.1 {
        ActionConfig::Webhook { url } => DispatchedAction::Webhook {
            url: url.clone(),
            state: action.0.clone(),
            region: action.2.duplicate(),
        },
        ActionConfig::Event { event_type } => DispatchedAction::Event {
            event_type: event_type.clone(),
            state: action.0.clone(),
            region: action.2.duplicate(),
        },
    }
}

/// The actions that fire as a response shows them, without any being sent. This is for callers that
/// carry them out themselves.
pub fn build_action_list(actions: Vec<FiredAction>) -> (listed: Vec<DispatchedAction>)
    ensures
        listed.deep_view() == listed_actions(actions.deep_view()),
{
    let mut listed: Vec<DispatchedAction> = Vec::new();
    let mut i: usize = 0;
    while i < actions.len()
        invariant
            i <= actions.len(),
            listed.len() == i,
            forall|j: int|
                0 <= j < i ==> (#[trigger] listed@[j]).deep_view() == listed_action(
                    actions@[j].deep_view(),
                ),
        decreases actions.len() - i,
    {
        listed.push(list_action(&actions[i]));
        i = i + 1;
    }
    assert(listed.deep_view() =~= listed_actions(actions.deep_view()));
    listed
}

/// The request that an action sends.
fn build_delivery(
    event_core_url: &str,
    action: &FiredAction,
    tenant_id: &str,
    machine_id: &str,
    entity_id: &str,
    from_state: &str,
    to_state: &str,
) -> (sent: Delivery)
    ensures
        sent.deep_view() == delivery(
            action.deep_view(),
            event_core_url@,
            (Movement {
                tenant_id: tenant_id@,
                machine_id: machine_id@,
                entity_id: entity_id@,
                from_state: from_state@,
                to_state: to_state@,
            }),
        ),
{
    let mut fields: Vec<(String, Value)> = Vec::new();
    match &action.1 {
        ActionConfig::Webhook { url } => {
            push_text_field(&mut fields, "tenant_id", tenant_id);
            push_text_field(&mut fields, "machine_id", machine_id);
            push_text_field(&mut fields, "entity_id", entity_id);
            push_text_field(&mut fields, "from_state", from_state);
            push_text_field(&mut fields, "to_state", to_state);
            Delivery { url: url.clone(), payload: Value::Object(fields) }
        },
        ActionConfig::Event { event_type } => {
            let mut params: Vec<(String, Value)> = Vec::new();
            push_text_field(&mut params, "key_prefix", tenant_id);
            push_text_field(&mut params, "machine_id", machine_id);
            push_text_field(&mut params, "entity_id", entity_id);
            push_text_field(&mut params, "from_state", from_state);
            push_text_field(&mut params, "to_state", to_state);
            push_text_field(&mut fields, "event_type", event_type.as_str());
            push_field(&mut fields, "params", Value::Object(params));
            Delivery { url: event_core_url.to_owned(), payload: Value::Object(fields) }
        },
    }
}

/// The actions that fire as a response shows them, and the requests to send for them.
pub fn dispatch_actions(
    event_core_url: &str,
    actions: Vec<FiredAction>,
    tenant_id: &str,
    machine_id: &str,
    entity_id: &str,
    from_state: &str,
    to_state: &str,
) -> (result: (Vec<DispatchedAction>, Vec<Delivery>))
    ensures
        result.0.deep_view() == listed_actions(actions.deep_view()),
        result.1.deep_view() == deliveries(
            actions.deep_view(),
            event_core_url@,
            (Movement {
                tenant_id: tenant_id@,
                machine_id: machine_id@,
                entity_id: entity_id@,
                from_state: from_state@,
                to_state: to_state@,
            }),
        ),
{
    let ghost movement = Movement {
        tenant_id: tenant_id@,
        machine_id: machine_id@,
        entity_id: entity_id@,
        from_state: from_state@,
        to_state: to_state@,
    };
    let mut sent: Vec<Delivery> = Vec::new();
    let mut i: usize = 0;
    while i < actions.len()
        invariant
            i <= actions.len(),
            sent.len() == i,
            movement.tenant_id == tenant_id@,
            movement.machine_id == machine_id@,
            movement.entity_id == entity_id@,
            movement.from_state == from_state@,
            movement.to_state == to_state@,
            forall|j: int|
                0 <= j < i ==> (#[trigger] sent@[j]).deep_view() == delivery(
                    actions@[j].deep_view(),
                    event_core_url@,
                    movement,
                ),
        decreases actions.len() - i,
    {
        sent.push(
            build_delivery(
                event_core_url,
                &actions[i],
                tenant_id,
                machine_id,
                entity_id,
                from_state,
                to_state,
            ),
        );
        i = i + 1;
    }
    assert(sent.deep_view() =~= deliveries(actions.deep_view(), event_core_url@, movement));
    (build_action_list(actions), sent)
}

// ── Retries ─────────────────────────────────────────────────────────────────

/// How often a request is sent again after it failed.
pub const MAX_RETRIES: u32 = 3;

/// The pause before the first retry, in milliseconds. Each further pause is twice as long.
pub const FIRST_PAUSE_MILLIS: u64 = 500;

/// What to do after an attempt to send a request.
#[derive(Debug, Clone)]
pub enum AfterAttempt {
    /// The request has arrived.
    Delivered,
    /// Send it again after this many milliseconds.
    RetryAfter(u64),
    /// All attempts have failed.
    GiveUp,
}

/// The pause after a failed attempt, counted from 0.
pub open spec fn pause_after(attempt: nat) -> nat {
    FIRST_PAUSE_MILLIS as nat * vstd::arithmetic::power2::pow2(attempt)
}

/// What to do after an attempt, counted from 0, to send a request that is sent again up to
/// `max_retries` times.
pub open spec fn decision(attempt: u32, max_retries: u32, delivered: bool) -> AfterAttempt {
    if delivered {
        AfterAttempt::Delivered
    } else if attempt < max_retries {
        AfterAttempt::RetryAfter(pause_after(attempt as nat) as u64)
    } else {
        AfterAttempt::GiveUp
    }
}

/// The last attempt after which the pause can be counted in 64 bits.
pub const LAST_PAUSE: u32 = 55;

/// What to do after an attempt, counted from 0, to send a request that is sent again up to
/// `max_retries` times.
pub fn after_attempt(attempt: u32, max_retries: u32, delivered: bool) -> (next: AfterAttempt)
    requires
        !delivered && attempt < max_retries ==> attempt <= LAST_PAUSE,
    ensures
        next == decision(attempt, max_retries, delivered),
{
    if delivered {
        AfterAttempt::Delivered
    } else if attempt < max_retries {
        let mut pause: u64 = FIRST_PAUSE_MILLIS;
        let mut i: u32 = 0;
        proof {
            lemma2_to64();
            lemma2_to64_rest();
        }
        while i < attempt
            invariant
                i <= attempt <= LAST_PAUSE,
                pause == pause_after(i as nat),
                pause_after(LAST_PAUSE as nat) <= u64::MAX,
            decreases attempt - i,
        {
            proof {
                lemma_pow2_unfold((i + 1) as nat);
                if i + 1 < LAST_PAUSE {
                    lemma_pow2_strictly_increases((i + 1) as nat, LAST_PAUSE as nat);
                }
            }
            pause = pause * 2;
            i = i + 1;
        }
        AfterAttempt::RetryAfter(pause)
    } else {
        AfterAttempt::GiveUp
    }
}

/// How many attempts are made from the given one on, where `outcomes` tells which ones succeed.
pub open spec fn attempts_made(outcomes: spec_fn(u32) -> bool, attempt: u32, max_retries: u32) -> nat
    decreases max_retries - attempt,
{
    match decision(attempt, max_retries, outcomes(attempt)) {
        AfterAttempt::RetryAfter(_) => 1 + attempts_made(
            outcomes,
            (attempt + 1) as u32,
            max_retries,
        ),
        _ => 1,
    }
}

/// A request is sent until it arrives, once and then up to `max_retries` times more.
pub proof fn law_attempts_are_bounded(
    outcomes: spec_fn(u32) -> bool,
    attempt: u32,
    max_retries: u32,
)
    requires
        attempt <= max_retries,
    ensures
        1 <= attempts_made(outcomes, attempt, max_retries) <= max_retries - attempt + 1,
        attempts_made(outcomes, attempt, max_retries) < max_retries - attempt + 1
            ==> outcomes((attempt + attempts_made(outcomes, attempt, max_retries) - 1) as u32),
        forall|k: u32|
            attempt <= k < attempt + attempts_made(outcomes, attempt, max_retries) - 1
                ==> !#[trigger] outcomes(k),
    decreases max_retries - attempt,
{
    if !outcomes(attempt) && attempt < max_retries {
        law_attempts_are_bounded(outcomes, (attempt + 1) as u32, max_retries);
    }
}

/// Each pause is twice as long as the one before, and those of an action are short: half a second,
/// one second, two seconds.
pub proof fn law_pauses_double(attempt: nat)
    ensures
        pause_after(attempt + 1) == 2 * pause_after(attempt),
        attempt <= MAX_RETRIES ==> pause_after(attempt) <= 4000,
{
    lemma2_to64();
    lemma_pow2_unfold(attempt + 1);
    assert(FIRST_PAUSE_MILLIS * (2 * vstd::arithmetic::power2::pow2(attempt)) == 2 * (
    FIRST_PAUSE_MILLIS * vstd::arithmetic::power2::pow2(attempt))) by (nonlinear_arith);
}

/// Whether actions are sent or only listed makes no difference to how they are listed: what is
/// listed follows from the actions alone, one entry for each, in their order.
pub proof fn law_listing_is_one_to_one(actions: Seq<FiredActionView>)
    ensures
        listed_actions(actions).len() == actions.len(),
        forall|i: int|
            0 <= i < actions.len() ==> #[trigger] listed_actions(actions)[i] == listed_action(
                actions[i],
            ),
{
}

/// Whether one of the actions is defined for a state and fires as given.
pub open spec fn is_defined(
    actions: Seq<ActionDefView>,
    to_state: Seq<char>,
    region: Option<Seq<char>>,
    firing: FiredActionView,
) -> bool {
    exists|k: int|
        0 <= k < actions.len() && #[trigger] action_fires(actions[k], to_state, region) && fired(
            actions[k],
        ) == firing
}

/// What fires on entering a state is exactly what is defined for it, without a region or for that
/// region.
pub proof fn law_exactly_the_defined_actions_fire(
    actions: Seq<ActionDefView>,
    to_state: Seq<char>,
    region: Option<Seq<char>>,
    firing: FiredActionView,
)
    ensures
        fired_actions(actions, to_state, region).contains(firing) <==> is_defined(
            actions,
            to_state,
            region,
            firing,
        ),
    decreases actions.len(),
{
    if actions.len() > 0 {
        let rest = actions.drop_last();
        let fewer = fired_actions(rest, to_state, region);
        let all = fired_actions(actions, to_state, region);
        law_exactly_the_defined_actions_fire(rest, to_state, region, firing);
        if all.contains(firing) {
            if fewer.contains(firing) {
                let k = choose|k: int|
                    0 <= k < rest.len() && #[trigger] action_fires(rest[k], to_state, region)
                        && fired(rest[k]) == firing;
                assert(action_fires(actions[k], to_state, region));
            } else {
                let i = choose|i: int| 0 <= i < all.len() && all[i] == firing;
                assert(i == fewer.len()) by {
                    if i < fewer.len() {
                        assert(fewer[i] == firing);
                    }
                }
                assert(action_fires(actions[actions.len() - 1], to_state, region));
            }
        }
        if is_defined(actions, to_state, region, firing) {
            let k = choose|k: int|
                0 <= k < actions.len() && #[trigger] action_fires(actions[k], to_state, region)
                    && fired(actions[k]) == firing;
            if k < rest.len() {
                assert(action_fires(rest[k], to_state, region));
                let i = choose|i: int| 0 <= i < fewer.len() && fewer[i] == firing;
                assert(all[i] == firing);
            } else {
                assert(all[all.len() - 1] == firing);
            }
        }
    }
}

} // verus!
