//! Entities: created, listed, loaded and deleted.

use vstd::prelude::*;
use vstd::string::*;

use crate::errors::{AppError, AppErrorView};
use crate::json::{Value, ValueView};
use crate::models::{
    CreateEntityRequest, CreateEntityRequestView, Entity, EntityView, ListEntitiesQuery,
    ListEntitiesQueryView, MachineDefinition, MachineDefinitionView,
};
use crate::plan::{Child, ChildView};
use crate::query::{push_integer, push_text, Query, QueryView, SqlParam, SqlParamView};
use crate::string_map::StringMap;
use crate::text::{concat3, concat5};

verus! {

/// The version of a new entity.
pub const FIRST_VERSION: i64 = 1;

/// How the entities of a machine are listed.
pub const LIST_SQL: &'static str =
    "SELECT machine_id, tenant_id, entity_id, current_state, context, state_version, created_at, updated_at FROM entities WHERE tenant_id = ?1 AND machine_id = ?2";

/// The order in which they are listed.
pub const LIST_ORDER_SQL: &'static str = " ORDER BY created_at";

/// The context of an entity; it is empty where there is none.
pub open spec fn context_or_empty(context: Option<Map<Seq<char>, ValueView>>) -> Map<
    Seq<char>,
    ValueView,
> {
    match context {
        Some(map) => map,
        None => Map::empty(),
    }
}

/// A new entity of a machine, in its initial state.
pub open spec fn new_entity(
    machine: MachineDefinitionView,
    tenant_id: Seq<char>,
    machine_id: Seq<char>,
    req: CreateEntityRequestView,
    now: i64,
) -> EntityView {
    EntityView {
        machine_id,
        tenant_id,
        entity_id: req.entity_id,
        current_state: crate::entity::encoded_state(crate::machine::initial_map(machine)),
        context: context_or_empty(req.context),
        state_version: FIRST_VERSION,
        created_at: now,
        updated_at: now,
    }
}

/// A new entity of a machine, in its initial state.
fn begin_entity(
    machine: &MachineDefinition,
    tenant_id: &str,
    machine_id: &str,
    req: CreateEntityRequest,
    now: i64,
) -> (entity: Entity)
    ensures
        entity.deep_view() == new_entity(
            machine.deep_view(),
            tenant_id@,
            machine_id@,
            req.deep_view(),
            now,
        ),
{
    Entity {
        machine_id: machine_id.to_owned(),
        tenant_id: tenant_id.to_owned(),
        entity_id: req.entity_id,
        current_state: machine.initial_state_encoded(),
        context: match req.context {
            Some(context) => context,
            None => StringMap::new(),
        },
        state_version: FIRST_VERSION,
        created_at: now,
        updated_at: now,
    }
}

/// Why a request creates no entity.
pub open spec fn creation_refusal(req: CreateEntityRequestView) -> Option<AppErrorView> {
    if req.entity_id.len() == 0 {
        Some(AppErrorView::BadRequest("entity_id is required"@))
    } else {
        None
    }
}

/// The entity that a request creates, in the initial state of its machine.
pub fn create_entity(
    machine: &MachineDefinition,
    tenant_id: &str,
    machine_id: &str,
    req: CreateEntityRequest,
    now: i64,
) -> (result: Result<Entity, AppError>)
    ensures
        match result {
            Ok(entity) => req.entity_id@.len() > 0 && entity.deep_view() == new_entity(
                machine.deep_view(),
                tenant_id@,
                machine_id@,
                req.deep_view(),
                now,
            ),
            Err(error) => req.entity_id@.len() == 0 && error.deep_view()
                == AppErrorView::BadRequest("entity_id is required"@),
        },
        match result {
            Ok(_) => creation_refusal(req.deep_view()) is None,
            Err(error) => creation_refusal(req.deep_view()) == Some(error.deep_view()),
        },
{
    if req.entity_id.as_str().is_empty() {
        return Err(AppError::BadRequest("entity_id is required".to_owned()));
    }
    Ok(begin_entity(machine, tenant_id, machine_id, req, now))
}

/// The child entity of a compound state that was entered, to be put in place of any earlier one:
/// it begins in the initial state of its machine, with an empty context.
pub fn child_entity(
    child: &Child,
    machine: &MachineDefinition,
    tenant_id: &str,
    now: i64,
) -> (entity: Entity)
    ensures
        entity.deep_view() == new_entity(
            machine.deep_view(),
            tenant_id@,
            child.machine_id@,
            (CreateEntityRequestView { entity_id: child.entity_id@, context: None }),
            now,
        ),
{
    let req = CreateEntityRequest { entity_id: child.entity_id.clone(), context: None };
    begin_entity(machine, tenant_id, child.machine_id.as_str(), req, now)
}

/// The error for an entity that could not be inserted, of which `detail` tells more.
pub fn entity_insertion_error(detail: &str, entity_id: &str, machine_id: &str) -> (error: AppError)
    ensures
        error.deep_view() == if crate::errors::is_duplicate_key(detail@) {
            AppErrorView::Conflict(
                "Entity '"@ + entity_id@ + "' already exists in machine '"@ + machine_id@ + "'"@,
            )
        } else {
            AppErrorView::Internal("Database error: "@ + detail@)
        },
{
    AppError::insertion(
        detail,
        concat5("Entity '", entity_id, "' already exists in machine '", machine_id, "'"),
    )
}

/// The condition of a list on the state.
pub open spec fn state_condition(query: ListEntitiesQueryView) -> Seq<char> {
    match (query.region, query.state) {
        (Some(region), Some(_)) => " AND json_extract(current_state, '$."@ + region + "') = ?3"@,
        (None, Some(_)) => " AND current_state = ?3"@,
        _ => Seq::empty(),
    }
}

/// The condition of a list on the time of the last change. Its parameter comes after that of the
/// condition on the state.
pub open spec fn time_condition(query: ListEntitiesQueryView) -> Seq<char> {
    if query.updated_since is None {
        Seq::empty()
    } else if query.state is Some {
        " AND updated_at >= ?4"@
    } else {
        " AND updated_at >= ?3"@
    }
}

/// How the entities that a query asks for are listed.
pub open spec fn list_query(
    tenant_id: Seq<char>,
    machine_id: Seq<char>,
    query: ListEntitiesQueryView,
) -> QueryView {
    QueryView {
        sql: LIST_SQL@ + state_condition(query) + time_condition(query) + LIST_ORDER_SQL@,
        params: seq![SqlParamView::Text(tenant_id), SqlParamView::Text(machine_id)] + (
        match query.state {
            Some(state) => seq![SqlParamView::Text(state)],
            None => Seq::empty(),
        }) + (match query.updated_since {
            Some(time) => seq![SqlParamView::Integer(time)],
            None => Seq::empty(),
        }),
    }
}

/// How the entities that a query asks for are listed: those in a state, those changed since a
/// time, or all, the oldest first.
pub fn list_entities(tenant_id: &str, machine_id: &str, query: &ListEntitiesQuery) -> (list: Query)
    ensures
        list.deep_view() == list_query(tenant_id@, machine_id@, query.deep_view()),
{
    let mut sql: String = LIST_SQL.to_owned();
    let mut params: Vec<SqlParam> = Vec::new();
    push_text(&mut params, tenant_id);
    push_text(&mut params, machine_id);
    if let Some(state) = &query.state {
        match &query.region {
            Some(region) => {
                let condition = concat3(
                    " AND json_extract(current_state, '$.",
                    region.as_str(),
                    "') = ?3",
                );
                sql.append(condition.as_str());
            },
            None => {
                sql.append(" AND current_state = ?3");
            },
        }
        push_text(&mut params, state.as_str());
    }
    if let Some(time) = query.updated_since {
        sql.append(
            if query.state.is_some() {
                " AND updated_at >= ?4"
            } else {
                " AND updated_at >= ?3"
            },
        );
        push_integer(&mut params, time);
    }
    sql.append(LIST_ORDER_SQL);
    let list = Query { sql, params };
    assert(list.deep_view() =~= list_query(tenant_id@, machine_id@, query.deep_view()));
    list
}

/// An entity as its row in the database has it, where `context` is what the text of its context
/// reads as.
pub fn row_to_entity(
    machine_id: String,
    tenant_id: String,
    entity_id: String,
    current_state: String,
    context: Option<StringMap<Value>>,
    state_version: i64,
    created_at: i64,
    updated_at: i64,
) -> (entity: Entity)
    ensures
        entity.deep_view() == (EntityView {
            machine_id: machine_id@,
            tenant_id: tenant_id@,
            entity_id: entity_id@,
            current_state: current_state@,
            context: context_or_empty(context.deep_view()),
            state_version,
            created_at,
            updated_at,
        }),
{
    Entity {
        machine_id,
        tenant_id,
        entity_id,
        current_state,
        context: match context {
            Some(context) => context,
            None => StringMap::new(),
        },
        state_version,
        created_at,
        updated_at,
    }
}

/// The error for an entity that does not exist.
pub open spec fn entity_missing(machine_id: Seq<char>, entity_id: Seq<char>) -> AppErrorView {
    AppErrorView::NotFound("Entity '"@ + entity_id + "' not found in machine '"@ + machine_id + "'"@)
}

/// The error for an entity that does not exist.
pub fn entity_not_found(machine_id: &str, entity_id: &str) -> (error: AppError)
    ensures
        error.deep_view() == entity_missing(machine_id@, entity_id@),
{
    AppError::NotFound(concat5("Entity '", entity_id, "' not found in machine '", machine_id, "'"))
}

/// The entity that was looked for.
pub fn load_entity(machine_id: &str, entity_id: &str, read: Option<Entity>) -> (result: Result<
    Entity,
    AppError,
>)
    ensures
        match (read, result) {
            (Some(found), Ok(entity)) => entity == found,
            (None, Err(error)) => error.deep_view() == entity_missing(machine_id@, entity_id@),
            _ => false,
        },
{
    match read {
        Some(entity) => Ok(entity),
        None => Err(entity_not_found(machine_id, entity_id)),
    }
}

/// Whether an entity was deleted, given how many were; its history is to be deleted too.
pub fn delete_entity(machine_id: &str, entity_id: &str, deleted: u64) -> (result: Result<
    (),
    AppError,
>)
    ensures
        match result {
            Ok(_) => deleted > 0,
            Err(error) => deleted == 0 && error.deep_view() == entity_missing(
                machine_id@,
                entity_id@,
            ),
        },
{
    if deleted == 0 {
        Err(entity_not_found(machine_id, entity_id))
    } else {
        Ok(())
    }
}

/// What to do once an entity was looked for that is created where there is none.
#[derive(Debug)]
pub enum AfterLoad {
    /// It is there.
    Found(Entity),
    /// There is none: insert this one, and look again.
    Create(Entity),
    /// It could not be looked for.
    Failed(AppError),
}

/// What an [`AfterLoad`] stands for.
#[verifier::ext_equal]
pub enum AfterLoadView {
    Found(EntityView),
    Create(EntityView),
    Failed(AppErrorView),
}

impl DeepView for AfterLoad {
    type V = AfterLoadView;

    open spec fn deep_view(&self) -> AfterLoadView {
        match self {
            AfterLoad::Found(inner) => AfterLoadView::Found(inner.deep_view()),
            AfterLoad::Create(inner) => AfterLoadView::Create(inner.deep_view()),
            AfterLoad::Failed(inner) => AfterLoadView::Failed(inner.deep_view()),
        }
    }
}

/// What to do once an entity was looked for that is created where there is none, in the initial
/// state of its machine and with an empty context.
pub open spec fn after_load(
    machine: MachineDefinitionView,
    tenant_id: Seq<char>,
    machine_id: Seq<char>,
    entity_id: Seq<char>,
    found: Result<EntityView, AppErrorView>,
    now: i64,
) -> AfterLoadView {
    match found {
        Ok(entity) => AfterLoadView::Found(entity),
        Err(AppErrorView::NotFound(_)) => AfterLoadView::Create(
            new_entity(
                machine,
                tenant_id,
                machine_id,
                CreateEntityRequestView { entity_id, context: None },
                now,
            ),
        ),
        Err(error) => AfterLoadView::Failed(error),
    }
}

/// What to do once an entity was looked for that is created where there is none.
pub fn load_or_create_entity(
    machine: &MachineDefinition,
    tenant_id: &str,
    machine_id: &str,
    entity_id: &str,
    found: Result<Entity, AppError>,
    now: i64,
) -> (next: AfterLoad)
    ensures
        next.deep_view() == after_load(
            machine.deep_view(),
            tenant_id@,
            machine_id@,
            entity_id@,
            match found {
                Ok(entity) => Ok(entity.deep_view()),
                Err(error) => Err(error.deep_view()),
            },
            now,
        ),
{
    match found {
        Ok(entity) => AfterLoad::Found(entity),
        Err(AppError::NotFound(_)) => {
            let req = CreateEntityRequest { entity_id: entity_id.to_owned(), context: None };
            AfterLoad::Create(begin_entity(machine, tenant_id, machine_id, req, now))
        },
        Err(error) => AfterLoad::Failed(error),
    }
}

/// A child begins alike whether it is created when its compound state is entered or, later, when an
/// event is forwarded to it: in the initial state of its machine, with an empty context.
pub proof fn law_children_begin_alike(
    child: ChildView,
    machine: MachineDefinitionView,
    tenant_id: Seq<char>,
    reason: Seq<char>,
    now: i64,
)
    ensures
        ({
            let begun = new_entity(
                machine,
                tenant_id,
                child.machine_id,
                (CreateEntityRequestView { entity_id: child.entity_id, context: None }),
                now,
            );
            &&& after_load(
                machine,
                tenant_id,
                child.machine_id,
                child.entity_id,
                Err(AppErrorView::NotFound(reason)),
                now,
            ) == AfterLoadView::Create(begun)
            &&& begun.current_state == crate::entity::encoded_state(
                crate::machine::initial_map(machine),
            )
            &&& begun.context == Map::<Seq<char>, ValueView>::empty()
            &&& begun.state_version == FIRST_VERSION
        }),
{
}

/// A list has as many parameters as its text counts: two, and one for each of its conditions.
pub proof fn law_list_parameters_match(
    tenant_id: Seq<char>,
    machine_id: Seq<char>,
    query: ListEntitiesQueryView,
)
    ensures
        ({
            let params = list_query(tenant_id, machine_id, query).params;
            &&& query.state matches Some(state) ==> params[2] == SqlParamView::Text(state)
            &&& query.updated_since matches Some(time) ==> params[if query.state is Some {
                3int
            } else {
                2int
            }] == SqlParamView::Integer(time)
            &&& params.len() == 2 + (if query.state is Some {
                1int
            } else {
                0int
            }) + (if query.updated_since is Some {
                1int
            } else {
                0int
            })
        }),
{
}

} // verus!
