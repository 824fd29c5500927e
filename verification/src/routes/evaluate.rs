//! Events for entities that the events themselves name, one by one or in batches.

use vstd::prelude::*;
use vstd::string::*;

use crate::errors::{AppError, AppErrorView};
use crate::models::{
    EvaluateRequest, EvaluateRequestView, TransitionResponse, TransitionResponseView,
};
use crate::string_map::StringMap;
use crate::text::concat3;

verus! {

/// How many events a batch may have.
pub const MAX_BATCH: usize = 1000;

/// The message for an event of which no tenant is known.
pub const MISSING_TENANT: &'static str =
    "Missing tenant: provide X-Tenant-Id header or key_prefix in params";

/// A batch of events.
#[derive(Debug)]
pub struct BatchEvaluateRequest {
    pub events: Vec<EvaluateRequest>,
}

/// What a [`BatchEvaluateRequest`] stands for.
#[verifier::ext_equal]
pub struct BatchEvaluateRequestView {
    pub events: Seq<EvaluateRequestView>,
}

impl DeepView for BatchEvaluateRequest {
    type V = BatchEvaluateRequestView;

    open spec fn deep_view(&self) -> BatchEvaluateRequestView {
        BatchEvaluateRequestView {
            events: self.events.deep_view(),
        }
    }
}

/// What became of an event of a batch.
#[derive(Debug)]
pub struct BatchEventResult {
    pub entity_id: Option<String>,
    pub result: Option<TransitionResponse>,
    pub error: Option<String>,
}

/// What a [`BatchEventResult`] stands for.
#[verifier::ext_equal]
pub struct BatchEventResultView {
    pub entity_id: Option<Seq<char>>,
    pub result: Option<TransitionResponseView>,
    pub error: Option<Seq<char>>,
}

impl DeepView for BatchEventResult {
    type V = BatchEventResultView;

    open spec fn deep_view(&self) -> BatchEventResultView {
        BatchEventResultView {
            entity_id: self.entity_id.deep_view(),
            result: self.result.deep_view(),
            error: self.error.deep_view(),
        }
    }
}

/// What became of a batch.
#[derive(Debug)]
pub struct BatchEvaluateResponse {
    pub total: usize,
    pub succeeded: usize,
    pub failed: usize,
    pub results: Vec<BatchEventResult>,
}

/// What a [`BatchEvaluateResponse`] stands for.
#[verifier::ext_equal]
pub struct BatchEvaluateResponseView {
    pub total: usize,
    pub succeeded: usize,
    pub failed: usize,
    pub results: Seq<BatchEventResultView>,
}

impl DeepView for BatchEvaluateResponse {
    type V = BatchEvaluateResponseView;

    open spec fn deep_view(&self) -> BatchEvaluateResponseView {
        BatchEvaluateResponseView {
            total: self.total,
            succeeded: self.succeeded,
            failed: self.failed,
            results: self.results.deep_view(),
        }
    }
}

/// The entity to which an event goes.
#[derive(Debug)]
pub struct Target {
    pub tenant_id: String,
    pub entity_id: String,
}

/// What a [`Target`] stands for.
#[verifier::ext_equal]
pub struct TargetView {
    pub tenant_id: Seq<char>,
    pub entity_id: Seq<char>,
}

impl DeepView for Target {
    type V = TargetView;

    open spec fn deep_view(&self) -> TargetView {
        TargetView {
            tenant_id: self.tenant_id@,
            entity_id: self.entity_id@,
        }
    }
}

/// The tenant of an event: the one that the header names, or else the one that its parameters
/// name.
pub open spec fn tenant_of(header: Option<Seq<char>>, params: Map<Seq<char>, Seq<char>>) -> Option<
    Seq<char>,
> {
    match header {
        Some(tenant_id) => Some(tenant_id),
        None => crate::machine::lookup(params, "key_prefix"@),
    }
}

/// The message for an event whose parameters do not name its entity.
pub open spec fn missing_entity(entity_key: Seq<char>) -> Seq<char> {
    "entity_key '"@ + entity_key + "' not found in params"@
}

/// The tenant of an event, where it is known.
fn find_tenant(header: Option<&str>, params: &StringMap<String>) -> (tenant_id: Option<String>)
    ensures
        tenant_id.deep_view() == tenant_of(header.deep_view(), params.deep_view()),
{
    match header {
        Some(text) => Some(text.to_owned()),
        None => match params.get("key_prefix") {
            Some(text) => Some(text.clone()),
            None => None,
        },
    }
}

/// The tenant of an event: the one that the header names, or else the one that its parameters
/// name.
pub fn resolve_tenant(header: Option<&str>, params: &StringMap<String>) -> (tenant_id: Result<
    String,
    AppError,
>)
    ensures
        match (tenant_of(header.deep_view(), params.deep_view()), tenant_id) {
            (Some(tenant), Ok(id)) => id@ == tenant,
            (None, Err(error)) => error.deep_view() == AppErrorView::BadRequest(MISSING_TENANT@),
            _ => false,
        },
{
    match find_tenant(header, params) {
        Some(tenant_id) => Ok(tenant_id),
        None => Err(AppError::BadRequest(MISSING_TENANT.to_owned())),
    }
}

/// The entity of an event: the one that the parameter with the given key names.
pub fn resolve_entity_id(entity_key: &str, params: &StringMap<String>) -> (entity_id: Result<
    String,
    AppError,
>)
    ensures
        match (crate::machine::lookup(params.deep_view(), entity_key@), entity_id) {
            (Some(entity), Ok(id)) => id@ == entity,
            (None, Err(error)) => error.deep_view() == AppErrorView::BadRequest(
                missing_entity(entity_key@),
            ),
            _ => false,
        },
{
    match params.get(entity_key) {
        Some(entity_id) => Ok(entity_id.clone()),
        None => Err(
            AppError::BadRequest(concat3("entity_key '", entity_key, "' not found in params")),
        ),
    }
}

/// The time of an event: the one that it names, or else the current time.
pub fn event_time(timestamp: Option<i64>, now: i64) -> (time: i64)
    ensures
        time == match timestamp {
            Some(t) => t,
            None => now,
        },
{
    match timestamp {
        Some(time) => time,
        None => now,
    }
}

/// The entity to which an event goes, or else the error.
pub open spec fn target_of(header: Option<Seq<char>>, event: EvaluateRequestView) -> Result<
    TargetView,
    AppErrorView,
> {
    match tenant_of(header, event.params) {
        None => Err(AppErrorView::BadRequest(MISSING_TENANT@)),
        Some(tenant_id) => match crate::machine::lookup(event.params, event.entity_key) {
            None => Err(AppErrorView::BadRequest(missing_entity(event.entity_key))),
            Some(entity_id) => Ok(TargetView { tenant_id, entity_id }),
        },
    }
}

/// The entity to which an event goes.
pub fn evaluate(header: Option<&str>, event: &EvaluateRequest) -> (target: Result<Target, AppError>)
    ensures
        match (target_of(header.deep_view(), event.deep_view()), target) {
            (Ok(expected), Ok(found)) => found.deep_view() == expected,
            (Err(expected), Err(error)) => error.deep_view() == expected,
            _ => false,
        },
{
    match resolve_tenant(header, &event.params) {
        Ok(tenant_id) => match resolve_entity_id(event.entity_key.as_str(), &event.params) {
            Ok(entity_id) => Ok(Target { tenant_id, entity_id }),
            Err(error) => Err(error),
        },
        Err(error) => Err(error),
    }
}

// ── Batches ─────────────────────────────────────────────────────────────────

/// Why a batch of so many events is refused as a whole, where it is.
pub open spec fn batch_refusal(events: nat) -> Option<AppErrorView> {
    if events == 0 {
        Some(AppErrorView::BadRequest("events array is empty"@))
    } else if events > MAX_BATCH {
        Some(AppErrorView::BadRequest("batch size exceeds maximum of 1000"@))
    } else {
        None
    }
}

/// What became of an event that could not be handled.
pub open spec fn failure(entity_id: Option<Seq<char>>, error: Seq<char>) -> BatchEventResultView {
    BatchEventResultView { entity_id, result: None, error: Some(error) }
}

/// Whether an event of a batch is resolved: to the entity to which it goes, or else to what became
/// of it.
pub open spec fn is_resolved(
    header: Option<Seq<char>>,
    event: EvaluateRequestView,
    target: Result<Target, BatchEventResult>,
) -> bool {
    match (target_of(header, event), target) {
        (Ok(expected), Ok(found)) => found.deep_view() == expected,
        (Err(expected), Err(result)) => result.deep_view() == failure(
            None,
            crate::errors::error_message(expected),
        ),
        _ => false,
    }
}

/// The entity to which an event of a batch goes, or else what became of the event.
pub fn resolve_event(header: Option<&str>, event: &EvaluateRequest) -> (target: Result<
    Target,
    BatchEventResult,
>)
    ensures
        is_resolved(header.deep_view(), event.deep_view(), target),
{
    match evaluate(header, event) {
        Ok(target) => Ok(target),
        Err(error) => Err(
            BatchEventResult {
                entity_id: None,
                result: None,
                error: Some(error.message().to_owned()),
            },
        ),
    }
}

/// Resolves each event of a batch on its own. Only a batch that is empty or too large is refused
/// as a whole.
pub fn evaluate_batch(header: Option<&str>, req: &BatchEvaluateRequest) -> (targets: Result<
    Vec<Result<Target, BatchEventResult>>,
    AppError,
>)
    ensures
        match (batch_refusal(req.events@.len()), targets) {
            (None, Ok(all)) => {
                &&& all@.len() == req.events@.len()
                &&& forall|i: int|
                    0 <= i < all@.len() ==> is_resolved(
                        header.deep_view(),
                        req.deep_view().events[i],
                        #[trigger] all@[i],
                    )
            },
            (Some(expected), Err(error)) => error.deep_view() == expected,
            _ => false,
        },
{
    if req.events.is_empty() {
        return Err(AppError::BadRequest("events array is empty".to_owned()));
    }
    if req.events.len() > MAX_BATCH {
        return Err(AppError::BadRequest("batch size exceeds maximum of 1000".to_owned()));
    }
    let mut all: Vec<Result<Target, BatchEventResult>> = Vec::new();
    let mut i: usize = 0;
    while i < req.events.len()
        invariant
            i <= req.events.len(),
            all@.len() == i,
            forall|j: int|
                0 <= j < i ==> is_resolved(
                    header.deep_view(),
                    req.deep_view().events[j],
                    #[trigger] all@[j],
                ),
        decreases req.events.len() - i,
    {
        all.push(resolve_event(header, &req.events[i]));
        i = i + 1;
    }
    Ok(all)
}

/// What became of an event of a batch, given the answer to it.
pub open spec fn answered(
    entity_id: Seq<char>,
    answer: Result<TransitionResponseView, AppErrorView>,
) -> BatchEventResultView {
    match answer {
        Ok(response) => BatchEventResultView {
            entity_id: Some(response.entity_id),
            result: Some(response),
            error: None,
        },
        Err(error) => failure(Some(entity_id), crate::errors::error_text(error)),
    }
}

/// What became of an event of a batch, given the answer to it.
pub fn event_result(entity_id: String, answer: Result<TransitionResponse, AppError>) -> (result:
    BatchEventResult)
    ensures
        result.deep_view() == answered(
            entity_id@,
            match answer {
                Ok(response) => Ok(response.deep_view()),
                Err(error) => Err(error.deep_view()),
            },
        ),
{
    match answer {
        Ok(response) => BatchEventResult {
            entity_id: Some(response.entity_id.clone()),
            result: Some(response),
            error: None,
        },
        Err(error) => BatchEventResult {
            entity_id: Some(entity_id),
            result: None,
            error: Some(error.to_text()),
        },
    }
}

/// What became of an event whose handling broke off, of which `detail` tells more.
pub fn lost_event(detail: &str) -> (result: BatchEventResult)
    ensures
        result.deep_view() == failure(None, "Task panicked: "@ + detail@),
{
    BatchEventResult {
        entity_id: None,
        result: None,
        error: Some("Task panicked: ".to_owned().concat(detail)),
    }
}

/// Whether an event of a batch was handled.
pub open spec fn has_succeeded(result: BatchEventResultView) -> bool {
    result.result is Some
}

/// How many events of a batch were handled.
pub open spec fn count_succeeded(results: Seq<BatchEventResultView>) -> nat
    decreases results.len(),
{
    if results.len() == 0 {
        0
    } else {
        count_succeeded(results.drop_last()) + (if has_succeeded(results.last()) {
            1nat
        } else {
            0nat
        })
    }
}

/// What became of a batch, given what became of each event.
pub fn summarize(results: Vec<BatchEventResult>) -> (response: BatchEvaluateResponse)
    ensures
        response.results == results,
        response.total == results.len(),
        response.succeeded == count_succeeded(results.deep_view()),
        response.succeeded + response.failed == response.total,
{
    let ghost all = results.deep_view();
    let total = results.len();
    let mut succeeded: usize = 0;
    let mut i: usize = 0;
    while i < total
        invariant
            i <= total == results.len(),
            all == results.deep_view(),
            succeeded == count_succeeded(all.take(i as int)),
            succeeded <= i,
        decreases total - i,
    {
        assert(all.take(i + 1).drop_last() =~= all.take(i as int));
        assert(all.take(i + 1).last() == results[i as int].deep_view());
        if results[i].result.is_some() {
            succeeded = succeeded + 1;
        }
        i = i + 1;
    }
    assert(all.take(i as int) =~= all);
    BatchEvaluateResponse { total, succeeded, failed: total - succeeded, results }
}

/// The count of handled events is that of the positions where one was handled.
pub proof fn law_every_event_counts(results: Seq<BatchEventResultView>)
    ensures
        count_succeeded(results) <= results.len(),
        count_succeeded(results) == results.len() <==> (forall|i: int|
            0 <= i < results.len() ==> has_succeeded(#[trigger] results[i])),
        count_succeeded(results) == 0 <==> (forall|i: int|
            0 <= i < results.len() ==> !has_succeeded(#[trigger] results[i])),
    decreases results.len(),
{
    if results.len() > 0 {
        let rest = results.drop_last();
        law_every_event_counts(rest);
        assert forall|i: int| 0 <= i < rest.len() implies #[trigger] results[i] == rest[i] by {}
        assert(results[results.len() - 1] == results.last());
        if forall|i: int| 0 <= i < results.len() ==> has_succeeded(#[trigger] results[i]) {
            assert forall|i: int| 0 <= i < rest.len() implies has_succeeded(#[trigger] rest[i]) by {
                assert(has_succeeded(results[i]));
            }
        }
        if forall|i: int| 0 <= i < results.len() ==> !has_succeeded(#[trigger] results[i]) {
            assert forall|i: int| 0 <= i < rest.len() implies !has_succeeded(#[trigger] rest[i]) by {
                assert(!has_succeeded(results[i]));
            }
        }
        if count_succeeded(results) == results.len() {
            assert forall|i: int| 0 <= i < results.len() implies has_succeeded(#[trigger] results[i]) by {
                if i < rest.len() {
                    assert(has_succeeded(rest[i]));
                }
            }
        }
        if count_succeeded(results) == 0 {
            assert forall|i: int| 0 <= i < results.len() implies !has_succeeded(#[trigger] results[i]) by {
                if i < rest.len() {
                    assert(!has_succeeded(rest[i]));
                }
            }
        }
    }
}

} // verus!
