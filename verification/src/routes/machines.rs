//! Machine definitions: created, updated, deleted, and found again.

use vstd::prelude::*;

use crate::cache::MachineCache;
use crate::errors::{AppError, AppErrorView};
use crate::models::{
    CreateMachineRequest, CreateMachineRequestView, MachineDefinition, MachineDefinitionView,
    UpdateMachineRequest, UpdateMachineRequestView,
};
use crate::string_map::Duplicate;
use crate::text::{concat3, concat5, decimal};

verus! {

/// The machine that a request asks for.
pub open spec fn requested_machine(
    tenant_id: Seq<char>,
    req: CreateMachineRequestView,
) -> MachineDefinitionView {
    MachineDefinitionView {
        machine_id: req.machine_id,
        tenant_id,
        states: req.states,
        initial_state: req.initial_state,
        regions: req.regions,
        joins: req.joins,
        transitions: req.transitions,
        actions: req.actions,
        sub_machines: req.sub_machines,
    }
}

/// The machine that becomes of another one by a request; its name stays.
pub open spec fn updated_machine(
    machine: MachineDefinitionView,
    req: UpdateMachineRequestView,
) -> MachineDefinitionView {
    MachineDefinitionView {
        machine_id: machine.machine_id,
        tenant_id: machine.tenant_id,
        states: req.states,
        initial_state: req.initial_state,
        regions: req.regions,
        joins: req.joins,
        transitions: req.transitions,
        actions: req.actions,
        sub_machines: req.sub_machines,
    }
}

/// Whether a machine is accepted as it is, or else refused with a message that tells its fault.
pub open spec fn accepts(
    machine: MachineDefinitionView,
    result: Result<MachineDefinition, AppError>,
) -> bool {
    match result {
        Ok(accepted) => crate::machine::is_valid(machine) && accepted.deep_view() == machine,
        Err(error) => {
            &&& !crate::machine::is_valid(machine)
            &&& error.deep_view() matches AppErrorView::BadRequest(message)
            &&& crate::machine::tells_fault(machine, message)
        },
    }
}

/// Accepts a machine if it is consistent.
fn accept(machine: MachineDefinition) -> (result: Result<MachineDefinition, AppError>)
    ensures
        accepts(machine.deep_view(), result),
{
    match machine.validate() {
        Ok(_) => Ok(machine),
        Err(message) => Err(AppError::BadRequest(message)),
    }
}

/// The machine that a tenant creates, if it is consistent.
pub fn create_machine(tenant_id: &str, req: CreateMachineRequest) -> (result: Result<
    MachineDefinition,
    AppError,
>)
    ensures
        accepts(requested_machine(tenant_id@, req.deep_view()), result),
{
    accept(
        MachineDefinition {
            machine_id: req.machine_id,
            tenant_id: tenant_id.to_owned(),
            states: req.states,
            initial_state: req.initial_state,
            regions: req.regions,
            joins: req.joins,
            transitions: req.transitions,
            actions: req.actions,
            sub_machines: req.sub_machines,
        },
    )
}

/// The error for a machine that could not be inserted, of which `detail` tells more.
pub fn machine_insertion_error(detail: &str, machine_id: &str) -> (error: AppError)
    ensures
        error.deep_view() == if crate::errors::is_duplicate_key(detail@) {
            AppErrorView::Conflict("Machine '"@ + machine_id@ + "' already exists"@)
        } else {
            AppErrorView::Internal("Database error: "@ + detail@)
        },
{
    AppError::insertion(detail, concat3("Machine '", machine_id, "' already exists"))
}

/// What becomes of a machine by a request, if that is consistent. Its name stays.
pub fn update_machine(machine: MachineDefinition, req: UpdateMachineRequest) -> (result: Result<
    MachineDefinition,
    AppError,
>)
    ensures
        accepts(updated_machine(machine.deep_view(), req.deep_view()), result),
{
    accept(
        MachineDefinition {
            machine_id: machine.machine_id,
            tenant_id: machine.tenant_id,
            states: req.states,
            initial_state: req.initial_state,
            regions: req.regions,
            joins: req.joins,
            transitions: req.transitions,
            actions: req.actions,
            sub_machines: req.sub_machines,
        },
    )
}

/// The error for a machine that does not exist.
pub open spec fn machine_missing(machine_id: Seq<char>) -> AppErrorView {
    AppErrorView::NotFound("Machine '"@ + machine_id + "' not found"@)
}

/// The error for a machine that does not exist.
pub fn machine_not_found(machine_id: &str) -> (error: AppError)
    ensures
        error.deep_view() == machine_missing(machine_id@),
{
    AppError::NotFound(concat3("Machine '", machine_id, "' not found"))
}

/// Why a machine may not be deleted, given how many entities it has.
pub open spec fn deletion_refusal(machine_id: Seq<char>, entities: i64) -> Option<AppErrorView> {
    if entities > 0 {
        Some(
            AppErrorView::Conflict(
                "Cannot delete machine '"@ + machine_id + "': "@ + crate::text::decimal_text(
                    entities as nat,
                ) + " entities exist. Delete entities first."@,
            ),
        )
    } else {
        None
    }
}

/// Whether a machine may be deleted, given how many entities it has.
pub fn check_deletion(machine_id: &str, entities: i64) -> (result: Result<(), AppError>)
    ensures
        match result {
            Ok(_) => entities <= 0,
            Err(error) => entities > 0 && error.deep_view() == AppErrorView::Conflict(
                "Cannot delete machine '"@ + machine_id@ + "': "@ + crate::text::decimal_text(
                    entities as nat,
                ) + " entities exist. Delete entities first."@,
            ),
        },
        match result {
            Ok(_) => deletion_refusal(machine_id@, entities) is None,
            Err(error) => deletion_refusal(machine_id@, entities) == Some(error.deep_view()),
        },
{
    if entities > 0 {
        let count = decimal(entities as u64);
        Err(
            AppError::Conflict(
                concat5(
                    "Cannot delete machine '",
                    machine_id,
                    "': ",
                    count.as_str(),
                    " entities exist. Delete entities first.",
                ),
            ),
        )
    } else {
        Ok(())
    }
}

/// What the cache holds once a number of machines of a name are deleted from the database.
pub open spec fn cache_after_deletion(
    cache: Map<(Seq<char>, Seq<char>), MachineDefinitionView>,
    tenant_id: Seq<char>,
    machine_id: Seq<char>,
    deleted: u64,
) -> Map<(Seq<char>, Seq<char>), MachineDefinitionView> {
    if deleted > 0 {
        cache.remove((tenant_id, machine_id))
    } else {
        cache
    }
}

/// Goes on once a machine is deleted from the database, where `deleted` tells how many were. The
/// cache then holds it no longer.
pub fn delete_machine(
    cache: &mut MachineCache,
    tenant_id: &str,
    machine_id: &str,
    deleted: u64,
) -> (result: Result<(), AppError>)
    ensures
        match result {
            Ok(_) => deleted > 0 && final(cache)@ == old(cache)@.remove((tenant_id@, machine_id@)),
            Err(error) => deleted == 0 && final(cache)@ == old(cache)@ && error.deep_view()
                == machine_missing(machine_id@),
        },
        final(cache)@ == cache_after_deletion(old(cache)@, tenant_id@, machine_id@, deleted),
{
    if deleted == 0 {
        return Err(machine_not_found(machine_id));
    }
    cache.remove(tenant_id, machine_id);
    Ok(())
}

/// Goes on once a machine is written to the database, new or updated. The cache holds it from now
/// on, in place of any earlier one.
pub fn remember_machine(cache: &mut MachineCache, machine: &MachineDefinition)
    ensures
        final(cache)@ == old(cache)@.insert(
            (machine.tenant_id@, machine.machine_id@),
            machine.deep_view(),
        ),
{
    cache.insert(
        machine.tenant_id.as_str(),
        machine.machine_id.as_str(),
        machine.duplicate(),
    );
}

/// How a machine is found.
#[derive(Debug)]
pub enum MachineLookup {
    /// The cache holds it.
    Cached(MachineDefinition),
    /// It is to be looked for in the database.
    Read,
}

/// What a [`MachineLookup`] stands for.
#[verifier::ext_equal]
pub enum MachineLookupView {
    Cached(MachineDefinitionView),
    Read,
}

impl DeepView for MachineLookup {
    type V = MachineLookupView;

    open spec fn deep_view(&self) -> MachineLookupView {
        match self {
            MachineLookup::Cached(machine) => MachineLookupView::Cached(machine.deep_view()),
            MachineLookup::Read => MachineLookupView::Read,
        }
    }
}

/// How a machine is found, given what the cache holds.
pub open spec fn machine_lookup(
    cache: Map<(Seq<char>, Seq<char>), MachineDefinitionView>,
    tenant_id: Seq<char>,
    machine_id: Seq<char>,
) -> MachineLookupView {
    if cache.contains_key((tenant_id, machine_id)) {
        MachineLookupView::Cached(cache[(tenant_id, machine_id)])
    } else {
        MachineLookupView::Read
    }
}

/// Looks for a machine: first in the cache.
pub fn look_up_machine(cache: &MachineCache, tenant_id: &str, machine_id: &str) -> (lookup:
    MachineLookup)
    ensures
        lookup.deep_view() == machine_lookup(cache@, tenant_id@, machine_id@),
{
    match cache.get(tenant_id, machine_id) {
        Some(machine) => MachineLookup::Cached(machine),
        None => MachineLookup::Read,
    }
}

/// What the cache holds once a machine was looked for in the database.
pub open spec fn cache_after_read(
    cache: Map<(Seq<char>, Seq<char>), MachineDefinitionView>,
    tenant_id: Seq<char>,
    machine_id: Seq<char>,
    read: Option<MachineDefinitionView>,
) -> Map<(Seq<char>, Seq<char>), MachineDefinitionView> {
    match read {
        Some(machine) => cache.insert((tenant_id, machine_id), machine),
        None => cache,
    }
}

/// Goes on once a machine that is not in the cache was looked for in the database. The cache holds
/// it from now on.
pub fn load_machine(
    cache: &mut MachineCache,
    tenant_id: &str,
    machine_id: &str,
    read: Option<MachineDefinition>,
) -> (result: Result<MachineDefinition, AppError>)
    ensures
        match (read, result) {
            (Some(found), Ok(machine)) => machine.deep_view() == found.deep_view() && final(cache)@
                == old(cache)@.insert((tenant_id@, machine_id@), found.deep_view()),
            (None, Err(error)) => error.deep_view() == machine_missing(machine_id@) && final(cache)@
                == old(cache)@,
            _ => false,
        },
        final(cache)@ == cache_after_read(
            old(cache)@,
            tenant_id@,
            machine_id@,
            read.deep_view(),
        ),
{
    match read {
        Some(machine) => {
            cache.insert(tenant_id, machine_id, machine.duplicate());
            Ok(machine)
        },
        None => Err(machine_not_found(machine_id)),
    }
}

/// A machine is found again as it was put into the cache, until another one takes its place or it
/// is removed; other machines are not touched.
pub proof fn law_cache_gives_back_what_it_holds(
    cache: Map<(Seq<char>, Seq<char>), MachineDefinitionView>,
    key: (Seq<char>, Seq<char>),
    other: (Seq<char>, Seq<char>),
    machine: MachineDefinitionView,
)
    requires
        key != other,
    ensures
        cache.insert(key, machine).contains_key(key),
        cache.insert(key, machine)[key] == machine,
        !cache.insert(key, machine).remove(key).contains_key(key),
        cache.insert(key, machine).contains_key(other) == cache.contains_key(other),
        cache.insert(key, machine).remove(key).contains_key(other) == cache.contains_key(other),
        cache.contains_key(other) ==> cache.insert(key, machine)[other] == cache[other]
            && cache.insert(key, machine).remove(key)[other] == cache[other],
{
}

/// A machine that was created or updated is what is found from then on, whatever the cache held
/// before; once it is deleted, it is looked for in the database again.
pub proof fn law_written_machines_are_found(
    cache: Map<(Seq<char>, Seq<char>), MachineDefinitionView>,
    machine: MachineDefinitionView,
)
    ensures
        ({
            let key = (machine.tenant_id, machine.machine_id);
            let written = cache.insert(key, machine);
            &&& machine_lookup(written, machine.tenant_id, machine.machine_id)
                == MachineLookupView::Cached(machine)
            &&& machine_lookup(written.remove(key), machine.tenant_id, machine.machine_id)
                == MachineLookupView::Read
        }),
{
}

} // verus!
