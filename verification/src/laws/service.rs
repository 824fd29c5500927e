//! What callers of the service are told, and what it asks of others.

use vstd::prelude::*;

use crate::actions::AfterAttempt;
use crate::auth::AccessView;
use crate::errors::{AppErrorView, ErrorReplyView};
use crate::ingest_tokens::{
    TokenSearchView, TokenSourceView, TokenStageView, TokenStepView,
};
use crate::json::ValueView;
use crate::models::{
    CreateEntityRequestView, EntityView, EvaluateRequestView, ListEntitiesQueryView,
    MachineDefinitionView, TransitionResponseView,
};
use crate::query::SqlParamView;
use crate::routes::entities::AfterLoadView;
use crate::routes::evaluate::BatchEventResultView;
use crate::routes::transitions::HistoryRowView;

verus! {

// ── Errors and access ───────────────────────────────────────────────────────

/// Each error has its status and its code, its message is told as it is, and a caller should try
/// again after a conflict or an internal failure only.
pub proof fn law_errors_are_answered(message: Seq<char>)
    ensures
        crate::errors::error_reply(AppErrorView::NotFound(message)) == (ErrorReplyView {
            status: 404,
            code: "NOT_FOUND"@,
            message,
            retry: false,
        }),
        crate::errors::error_reply(AppErrorView::BadRequest(message)) == (ErrorReplyView {
            status: 400,
            code: "BAD_REQUEST"@,
            message,
            retry: false,
        }),
        crate::errors::error_reply(AppErrorView::Conflict(message)) == (ErrorReplyView {
            status: 409,
            code: "CONFLICT"@,
            message,
            retry: true,
        }),
        crate::errors::error_reply(AppErrorView::Unauthorized(message)) == (ErrorReplyView {
            status: 401,
            code: "UNAUTHORIZED"@,
            message,
            retry: false,
        }),
        crate::errors::error_reply(AppErrorView::Internal(message)) == (ErrorReplyView {
            status: 500,
            code: "INTERNAL_ERROR"@,
            message,
            retry: true,
        }),
{
}

/// The body of an answer has the code, the message and the advice to try again, under `error`.
pub proof fn law_error_bodies_tell_the_error(reply: ErrorReplyView)
    ensures
        ({
            &&& crate::errors::reply_body(reply) matches ValueView::Object(outer)
            &&& outer.contains_key("error"@)
            &&& outer["error"@] matches ValueView::Object(inner)
            &&& inner.contains_key("code"@) && inner["code"@] == ValueView::String(reply.code)
            &&& inner.contains_key("message"@) && inner["message"@] == ValueView::String(
                reply.message,
            )
            &&& inner.contains_key("retry"@) && inner["retry"@] == ValueView::Bool(reply.retry)
        }),
{
    reveal_strlit("code");
    reveal_strlit("message");
    reveal_strlit("retry");
    assert("code"@.len() == 4);
    assert("message"@.len() == 7);
    assert("retry"@.len() == 5);
}

/// An error as a line of text is its code, a colon and its message.
pub proof fn law_error_lines_tell_the_error(error: AppErrorView)
    ensures
        ({
            let reply = crate::errors::error_reply(error);
            crate::errors::error_text(error) == reply.code + ": "@ + reply.message
        }),
{
}

/// A row that could not be inserted is a conflict exactly if the database says that a unique
/// constraint or a primary key is violated, wherever it says so.
pub proof fn law_taken_keys_are_told_by_the_database(detail: Seq<char>)
    ensures
        crate::errors::is_duplicate_key(detail) <==> crate::laws::conditions::has_part(
            detail,
            "UNIQUE constraint"@,
        ) || crate::laws::conditions::has_part(detail, "PRIMARY KEY"@),
{
    crate::laws::conditions::lemma_part(detail, "UNIQUE constraint"@);
    crate::laws::conditions::lemma_part(detail, "PRIMARY KEY"@);
}

/// What is not there is told by its name, as not found.
pub proof fn law_what_is_missing_is_named(machine_id: Seq<char>, entity_id: Seq<char>)
    ensures
        crate::routes::machines::machine_missing(machine_id) == AppErrorView::NotFound(
            "Machine '"@ + machine_id + "' not found"@,
        ),
        crate::routes::entities::entity_missing(machine_id, entity_id) == AppErrorView::NotFound(
            "Entity '"@ + entity_id + "' not found in machine '"@ + machine_id + "'"@,
        ),
{
}

/// A machine is deleted exactly if it has no entities; otherwise the caller is told how many there
/// are, as a conflict.
pub proof fn law_machines_with_entities_are_kept(machine_id: Seq<char>, entities: i64)
    ensures
        crate::routes::machines::deletion_refusal(machine_id, entities) is None <==> entities <= 0,
        entities > 0 ==> crate::routes::machines::deletion_refusal(machine_id, entities) == Some(
            AppErrorView::Conflict(
                "Cannot delete machine '"@ + machine_id + "': "@ + crate::text::decimal_text(
                    entities as nat,
                ) + " entities exist. Delete entities first."@,
            ),
        ),
{
}

/// An entity is created exactly if it is given an ID; one without is a bad request.
pub proof fn law_entities_need_an_id(req: CreateEntityRequestView)
    ensures
        crate::routes::entities::creation_refusal(req) is None <==> req.entity_id.len() > 0,
        req.entity_id.len() == 0 ==> crate::routes::entities::creation_refusal(req) == Some(
            AppErrorView::BadRequest("entity_id is required"@),
        ),
{
}

/// A machine that was deleted is no longer in the cache; one that was not there to delete is told
/// so. A machine that was read is in the cache from then on; one that was not there is told so.
/// Other machines stay as they are.
pub proof fn law_the_cache_follows_the_database(
    cache: Map<(Seq<char>, Seq<char>), MachineDefinitionView>,
    tenant_id: Seq<char>,
    machine_id: Seq<char>,
    deleted: u64,
    machine: MachineDefinitionView,
    other: (Seq<char>, Seq<char>),
)
    requires
        other != (tenant_id, machine_id),
    ensures
        ({
            let after = crate::routes::machines::cache_after_deletion(
                cache,
                tenant_id,
                machine_id,
                deleted,
            );
            &&& deleted > 0 ==> !after.contains_key((tenant_id, machine_id))
            &&& deleted == 0 ==> after == cache
            &&& after.contains_key(other) == cache.contains_key(other)
            &&& cache.contains_key(other) ==> after[other] == cache[other]
        }),
        ({
            let after = crate::routes::machines::cache_after_read(
                cache,
                tenant_id,
                machine_id,
                Some(machine),
            );
            &&& after.contains_key((tenant_id, machine_id))
            &&& after[(tenant_id, machine_id)] == machine
            &&& after.contains_key(other) == cache.contains_key(other)
            &&& cache.contains_key(other) ==> after[other] == cache[other]
            &&& crate::routes::machines::cache_after_read(cache, tenant_id, machine_id, None)
                == cache
        }),
        crate::routes::machines::machine_lookup(cache, tenant_id, machine_id)
            == if cache.contains_key((tenant_id, machine_id)) {
            crate::routes::machines::MachineLookupView::Cached(cache[(tenant_id, machine_id)])
        } else {
            crate::routes::machines::MachineLookupView::Read
        },
{
}

/// The service is open to everyone where the key is empty, and to no one where none is configured.
/// Where there is a key, a header without it is told apart from no proper header at all.
pub proof fn law_callers_are_told_why_they_are_denied(
    key: Seq<char>,
    token: Seq<char>,
    header: Option<Seq<char>>,
)
    ensures
        crate::auth::access(None, header) matches AccessView::Denied(reply) && reply.status == 500,
        crate::auth::access(Some(Seq::empty()), header) == AccessView::Granted,
        key.len() > 0 && token == key ==> crate::auth::access(Some(key), Some("Bearer "@ + token))
            == AccessView::Granted,
        key.len() > 0 && token != key ==> crate::auth::access(Some(key), Some("Bearer "@ + token))
            == AccessView::Denied(
            ErrorReplyView {
                status: 401,
                code: "UNAUTHORIZED"@,
                message: "Invalid API key"@,
                retry: false,
            },
        ),
        key.len() > 0 && (header matches Some(text) ==> !"Bearer "@.is_prefix_of(text))
            ==> crate::auth::access(Some(key), header) == AccessView::Denied(
            ErrorReplyView {
                status: 401,
                code: "UNAUTHORIZED"@,
                message: "Missing Authorization: Bearer <token> header"@,
                retry: false,
            },
        ),
{
    let head = "Bearer "@;
    let text = head + token;
    assert(head =~= text.subrange(0, head.len() as int));
    if text == head + key {
        assert(token =~= text.skip(head.len() as int));
        assert(key =~= (head + key).skip(head.len() as int));
    }
}

// ── Retries ─────────────────────────────────────────────────────────────────

/// A request that has arrived is not sent again. One that has failed is sent again after half a
/// second, then after twice as long each time, until all attempts are used up.
pub proof fn law_failed_requests_are_sent_again(attempt: u32, max_retries: u32)
    ensures
        crate::actions::decision(attempt, max_retries, true) == AfterAttempt::Delivered,
        attempt >= max_retries ==> crate::actions::decision(attempt, max_retries, false)
            == AfterAttempt::GiveUp,
        0 < max_retries ==> crate::actions::decision(0, max_retries, false)
            == AfterAttempt::RetryAfter(500),
        attempt + 1 < max_retries && attempt < 50 ==> {
            &&& crate::actions::decision(attempt, max_retries, false) matches
                AfterAttempt::RetryAfter(pause)
            &&& crate::actions::decision((attempt + 1) as u32, max_retries, false) matches
                AfterAttempt::RetryAfter(next)
            &&& next == 2 * pause
        },
{
    vstd::arithmetic::power2::lemma2_to64();
    vstd::arithmetic::power2::lemma2_to64_rest();
    crate::actions::law_pauses_double(attempt as nat);
    if attempt < 50 {
        vstd::arithmetic::power2::lemma_pow2_strictly_increases(attempt as nat, 51);
        vstd::arithmetic::power2::lemma_pow2_strictly_increases(attempt as nat, 52);
        assert(crate::actions::pause_after((attempt + 1) as nat) <= u64::MAX) by {
            if attempt + 1 < 51 {
                vstd::arithmetic::power2::lemma_pow2_strictly_increases(
                    (attempt + 1) as nat,
                    51,
                );
            }
        }
    }
}

// ── Ingest tokens ───────────────────────────────────────────────────────────

/// A token in memory is used as it is. One in the database is kept in memory only. Where there is
/// none, one is asked for, if both the address and the key of the provider are known; what is
/// provisioned is kept in memory and in the database. What was kept is the answer.
pub proof fn law_tokens_are_found_or_provisioned(
    tenant_id: Seq<char>,
    source: TokenSourceView,
    token: Seq<char>,
    reply: Option<Seq<char>>,
)
    ensures
        ({
            let known = source.platform_api_url.len() > 0 && source.platform_api_key.len() > 0;
            let cached = TokenSearchView { tenant_id, source, stage: TokenStageView::Cached };
            let stored = TokenSearchView { tenant_id, source, stage: TokenStageView::Stored };
            let provisioned = TokenSearchView {
                tenant_id,
                source,
                stage: TokenStageView::Provisioned,
            };
            let kept = TokenSearchView { tenant_id, source, stage: TokenStageView::Kept(token) };
            &&& crate::ingest_tokens::next(cached, Some(token)).1 == TokenStepView::Done(
                Some(token),
            )
            &&& crate::ingest_tokens::next(cached, None) == (
                TokenStageView::Stored,
                TokenStepView::LookInDatabase,
            )
            &&& crate::ingest_tokens::next(stored, Some(token)) == (
                TokenStageView::Kept(token),
                TokenStepView::Keep { token, in_database: false },
            )
            &&& !known ==> crate::ingest_tokens::next(stored, None).1 == TokenStepView::Done(None)
            &&& known ==> {
                &&& crate::ingest_tokens::next(stored, None).0 == TokenStageView::Provisioned
                &&& crate::ingest_tokens::next(stored, None).1 matches TokenStepView::Provision(
                    request,
                )
                &&& request.url == source.platform_api_url + "/internal/ingest-tokens"@
                &&& request.authorization == "Bearer "@ + source.platform_api_key
                &&& request.body matches ValueView::Object(body)
                &&& body.contains_key("key_prefix"@)
                &&& body["key_prefix"@] == ValueView::String(tenant_id)
                &&& forall|key: Seq<char>| #[trigger]
                    body.contains_key(key) ==> key == "key_prefix"@
            }
            &&& crate::ingest_tokens::next(provisioned, Some(token)) == (
                TokenStageView::Kept(token),
                TokenStepView::Keep { token, in_database: true },
            )
            &&& crate::ingest_tokens::next(provisioned, None).1 == TokenStepView::Done(None)
            &&& crate::ingest_tokens::next(kept, reply).1 == TokenStepView::Done(Some(token))
        }),
{
}

// ── Entities ────────────────────────────────────────────────────────────────

/// A new entity belongs to the tenant and the machine that it is created for, has the context that
/// it is given or none, version 1, and the time of its creation.
pub proof fn law_entities_begin_as_requested(
    machine: MachineDefinitionView,
    tenant_id: Seq<char>,
    machine_id: Seq<char>,
    req: CreateEntityRequestView,
    now: i64,
)
    ensures
        ({
            let entity = crate::routes::entities::new_entity(
                machine,
                tenant_id,
                machine_id,
                req,
                now,
            );
            &&& entity.tenant_id == tenant_id
            &&& entity.machine_id == machine_id
            &&& entity.entity_id == req.entity_id
            &&& crate::laws::moves::stores(
                entity.current_state,
                crate::machine::initial_map(machine),
            )
            &&& entity.context == match req.context {
                Some(context) => context,
                None => Map::empty(),
            }
            &&& entity.state_version == 1
            &&& entity.created_at == now
            &&& entity.updated_at == now
        }),
{
    crate::laws::moves::law_states_are_stored_and_shown(crate::machine::initial_map(machine));
}

/// An entity that is there is used as it is; one that is not found is created; any other failure is
/// handed on.
pub proof fn law_entities_are_created_only_if_missing(
    machine: MachineDefinitionView,
    tenant_id: Seq<char>,
    machine_id: Seq<char>,
    entity_id: Seq<char>,
    entity: EntityView,
    error: AppErrorView,
    now: i64,
)
    ensures
        crate::routes::entities::after_load(
            machine,
            tenant_id,
            machine_id,
            entity_id,
            Ok(entity),
            now,
        ) == AfterLoadView::Found(entity),
        error !is NotFound ==> crate::routes::entities::after_load(
            machine,
            tenant_id,
            machine_id,
            entity_id,
            Err(error),
            now,
        ) == AfterLoadView::Failed(error),
        error is NotFound ==> {
            &&& crate::routes::entities::after_load(
                machine,
                tenant_id,
                machine_id,
                entity_id,
                Err(error),
                now,
            ) matches AfterLoadView::Create(created)
            &&& created.tenant_id == tenant_id
            &&& created.machine_id == machine_id
            &&& created.entity_id == entity_id
            &&& created.state_version == 1
            &&& created.context == Map::<Seq<char>, ValueView>::empty()
            &&& created.created_at == now
            &&& created.updated_at == now
            &&& crate::laws::moves::stores(
                created.current_state,
                crate::machine::initial_map(machine),
            )
        },
{
    crate::laws::moves::law_states_are_stored_and_shown(crate::machine::initial_map(machine));
}

/// A list is confined to the machine and the tenant. It is narrowed by the state, looked for in a
/// region if one is given, and by the time of the last change; a region alone narrows nothing. The
/// oldest come first.
pub proof fn law_lists_are_narrowed_as_asked(
    tenant_id: Seq<char>,
    machine_id: Seq<char>,
    query: ListEntitiesQueryView,
)
    ensures
        ({
            let list = crate::routes::entities::list_query(tenant_id, machine_id, query);
            let all =
                "SELECT machine_id, tenant_id, entity_id, current_state, context, state_version, created_at, updated_at FROM entities WHERE tenant_id = ?1 AND machine_id = ?2"@;
            let by_state = match (query.state, query.region) {
                (Some(_), Some(region)) => " AND json_extract(current_state, '$."@ + region
                    + "') = ?3"@,
                (Some(_), None) => " AND current_state = ?3"@,
                (None, _) => Seq::empty(),
            };
            let by_time = match (query.updated_since, query.state) {
                (Some(_), Some(_)) => " AND updated_at >= ?4"@,
                (Some(_), None) => " AND updated_at >= ?3"@,
                (None, _) => Seq::empty(),
            };
            &&& list.sql == all + by_state + by_time + " ORDER BY created_at"@
            &&& list.params[0] == SqlParamView::Text(tenant_id)
            &&& list.params[1] == SqlParamView::Text(machine_id)
            &&& query.state matches Some(state) ==> list.params[2] == SqlParamView::Text(state)
            &&& query.updated_since matches Some(time) ==> list.params.last()
                == SqlParamView::Integer(time)
            &&& list.params.len() == 2 + (if query.state is Some {
                1int
            } else {
                0int
            }) + (if query.updated_since is Some {
                1int
            } else {
                0int
            })
        }),
{
}

// ── Events of callers ───────────────────────────────────────────────────────

/// An event belongs to the tenant that the header names, whatever its parameters say; without a
/// header, to the one that its parameter `key_prefix` names. Its entity is the one that the
/// parameter with the given key names. What is missing is a bad request, a tenant first.
pub proof fn law_events_name_tenant_and_entity(
    header: Option<Seq<char>>,
    event: EvaluateRequestView,
)
    ensures
        ({
            let target = crate::routes::evaluate::target_of(header, event);
            let tenant = match header {
                Some(tenant_id) => Some(tenant_id),
                None => if event.params.contains_key("key_prefix"@) {
                    Some(event.params["key_prefix"@])
                } else {
                    None
                },
            };
            if tenant is None {
                target == Err::<crate::routes::evaluate::TargetView, AppErrorView>(
                    AppErrorView::BadRequest(
                        "Missing tenant: provide X-Tenant-Id header or key_prefix in params"@,
                    ),
                )
            } else if event.params.contains_key(event.entity_key) {
                &&& target matches Ok(found)
                &&& found.tenant_id == tenant->0
                &&& found.entity_id == event.params[event.entity_key]
            } else {
                target == Err::<crate::routes::evaluate::TargetView, AppErrorView>(
                    AppErrorView::BadRequest(
                        "entity_key '"@ + event.entity_key + "' not found in params"@,
                    ),
                )
            }
        }),
{
}

/// Each event of a batch is resolved as if it came alone: to the entity that it would go to, or to
/// the message that it would be refused with.
pub proof fn law_events_of_a_batch_are_resolved_alone(
    header: Option<Seq<char>>,
    event: EvaluateRequestView,
    target: Result<
        crate::routes::evaluate::Target,
        crate::routes::evaluate::BatchEventResult,
    >,
)
    requires
        crate::routes::evaluate::is_resolved(header, event, target),
    ensures
        match crate::routes::evaluate::target_of(header, event) {
            Ok(alone) => {
                &&& target matches Ok(found)
                &&& found.tenant_id@ == alone.tenant_id
                &&& found.entity_id@ == alone.entity_id
            },
            Err(error) => {
                &&& target matches Err(lost)
                &&& lost.entity_id is None
                &&& lost.result is None
                &&& lost.error.deep_view() == Some(crate::errors::error_reply(error).message)
            },
        },
{
    if let Err(lost) = target {
        let view = lost.deep_view();
        assert(lost.entity_id.deep_view() == view.entity_id);
        assert(lost.result.deep_view() == view.result);
        assert(lost.error.deep_view() == view.error);
    }
}

/// A batch is refused as a whole exactly if it is empty or has more than a thousand events.
pub proof fn law_batches_are_refused_by_size(events: nat)
    ensures
        crate::routes::evaluate::batch_refusal(events) is None <==> 1 <= events <= 1000,
        crate::routes::evaluate::batch_refusal(events) matches Some(error) ==> error is BadRequest,
{
}

/// An event of a batch that was answered counts as handled, with its answer and its entity; one that
/// failed has its error as a line of text, and the entity that it was for.
pub proof fn law_batches_tell_each_outcome(
    entity_id: Seq<char>,
    response: TransitionResponseView,
    error: AppErrorView,
)
    ensures
        crate::routes::evaluate::answered(entity_id, Ok(response)) == (BatchEventResultView {
            entity_id: Some(response.entity_id),
            result: Some(response),
            error: None,
        }),
        ({
            let failed = crate::routes::evaluate::answered(entity_id, Err(error));
            let reply = crate::errors::error_reply(error);
            &&& failed.entity_id == Some(entity_id)
            &&& failed.result is None
            &&& failed.error == Some(reply.code + ": "@ + reply.message)
        }),
        ({
            let lost = crate::routes::evaluate::failure(None, crate::errors::error_message(error));
            &&& lost.entity_id is None
            &&& lost.result is None
            &&& lost.error == Some(crate::errors::error_reply(error).message)
        }),
        crate::routes::evaluate::has_succeeded(
            crate::routes::evaluate::answered(entity_id, Ok(response)),
        ),
{
}

/// Each further event of a batch adds one to those handled if it has an answer, and nothing
/// otherwise.
pub proof fn law_each_event_is_counted_once(
    results: Seq<BatchEventResultView>,
    last: BatchEventResultView,
)
    ensures
        crate::routes::evaluate::count_succeeded(Seq::empty()) == 0,
        crate::routes::evaluate::count_succeeded(results.push(last))
            == crate::routes::evaluate::count_succeeded(results) + (if last.result is Some {
            1int
        } else {
            0int
        }),
{
    assert(results.push(last).drop_last() =~= results);
}

// ── History and health ──────────────────────────────────────────────────────

/// An entry of the history tells what its row has. Parameters and actions are what their texts read
/// as, and an empty region stands for none.
pub proof fn law_history_tells_its_rows(
    row: HistoryRowView,
    params: Option<Map<Seq<char>, Seq<char>>>,
    actions: Option<Seq<Seq<char>>>,
)
    ensures
        ({
            let record = crate::routes::transitions::record_of(row, params, actions);
            &&& record.id == row.id
            &&& record.tenant_id == row.tenant_id
            &&& record.machine_id == row.machine_id
            &&& record.entity_id == row.entity_id
            &&& record.from_state == row.from_state
            &&& record.to_state == row.to_state
            &&& record.event_type == row.event_type
            &&& record.timestamp == row.timestamp
            &&& record.created_at == row.created_at
            &&& record.event_params == params
            &&& record.actions_dispatched == match actions {
                Some(list) => list,
                None => Seq::empty(),
            }
            &&& record.region == if row.region is Some && row.region->0.len() > 0 {
                row.region
            } else {
                None
            }
            &&& crate::routes::transitions::params_of(row) == match row.event_params {
                Some(text) => crate::json_text::string_object(text),
                None => None,
            }
            &&& crate::routes::transitions::actions_of(row) == match row.actions_dispatched {
                Some(text) => crate::json_text::string_array(text),
                None => None,
            }
        }),
{
}

/// The health check tells that the service is up, which one it is, and its version.
pub proof fn law_health_tells_the_service(version: Seq<char>)
    ensures
        ({
            &&& crate::routes::health(version) matches ValueView::Object(fields)
            &&& fields.contains_key("status"@) && fields["status"@] == ValueView::String("ok"@)
            &&& fields.contains_key("version"@) && fields["version"@] == ValueView::String(version)
            &&& fields.contains_key("service"@) && fields["service"@] == ValueView::String(
                "state-machine"@,
            )
        }),
{
    reveal_strlit("status");
    reveal_strlit("version");
    reveal_strlit("service");
    assert("status"@.len() == 6);
    assert("version"@.len() == 7 && "version"@[0] == 'v');
    assert("service"@.len() == 7 && "service"@[0] == 's');
}

/// A database is local exactly if its address begins as a file or as a path does, or is the one in
/// memory.
pub proof fn law_files_and_memory_are_local(url: Seq<char>)
    ensures
        crate::db::is_local(url) <==> {
            ||| exists|rest: Seq<char>| url == #[trigger] ("file:"@ + rest)
            ||| exists|rest: Seq<char>| url == #[trigger] ("/"@ + rest)
            ||| url == ":memory:"@
        },
{
    lemma_prefix("file:"@, url);
    lemma_prefix("/"@, url);
}

/// A text begins with a prefix exactly if it is the prefix and something more.
proof fn lemma_prefix(prefix: Seq<char>, text: Seq<char>)
    ensures
        prefix.is_prefix_of(text) <==> exists|rest: Seq<char>| text == #[trigger] (prefix + rest),
{
    let n = prefix.len() as int;
    if prefix.is_prefix_of(text) {
        assert(text =~= prefix + text.skip(n));
    }
    if exists|rest: Seq<char>| text == #[trigger] (prefix + rest) {
        let rest = choose|rest: Seq<char>| text == #[trigger] (prefix + rest);
        assert(prefix =~= text.subrange(0, n));
    }
}

} // verus!
