//! What is kept in memory so that it need not be read from the database: machine definitions and
//! ingest tokens, in a `DashMap` each.

use dashmap::DashMap;
use vstd::prelude::*;

use crate::models::{MachineDefinition, MachineDefinitionView};
use crate::string_map::Duplicate;

verus! {

/// Declares `dashmap::DashMap`, of which nothing is known but what the functions below say.
#[verifier::external_type_specification]
#[verifier::external_body]
#[verifier::reject_recursive_types(K)]
#[verifier::reject_recursive_types(V)]
#[verifier::reject_recursive_types(S)]
pub struct ExDashMap<K, V, S>(dashmap::DashMap<K, V, S>);

/// The machines that a `DashMap` holds, by tenant and machine ID.
pub uninterp spec fn held_machines(
    entries: DashMap<(String, String), MachineDefinition>,
) -> Map<(Seq<char>, Seq<char>), MachineDefinitionView>;

/// The tokens that a `DashMap` holds, by tenant.
pub uninterp spec fn held_tokens(entries: DashMap<String, String>) -> Map<Seq<char>, Seq<char>>;

/// No machines at all.
pub open spec fn no_machines() -> Map<(Seq<char>, Seq<char>), MachineDefinitionView> {
    Map::empty()
}

/// No tokens at all.
pub open spec fn no_tokens() -> Map<Seq<char>, Seq<char>> {
    Map::empty()
}

/// Makes a map with `DashMap::new`.
///
/// Trusted: the map holds nothing.
#[verifier::external_body]
fn new_machines() -> (entries: DashMap<(String, String), MachineDefinition>)
    ensures
        held_machines(entries) == no_machines(),
{
    DashMap::new()
}

/// Finds a machine with `DashMap::view`, which hands the value under the key to a closure.
///
/// Trusted: the closure gets the value that the map holds under the key, where it holds one.
#[verifier::external_body]
fn find_machine(
    entries: &DashMap<(String, String), MachineDefinition>,
    key: &(String, String),
) -> (machine: Option<MachineDefinition>)
    ensures
        match machine {
            Some(m) => held_machines(*entries).contains_key((key.0@, key.1@)) && m.deep_view()
                == held_machines(*entries)[(key.0@, key.1@)],
            None => !held_machines(*entries).contains_key((key.0@, key.1@)),
        },
{
    entries.view(key, |_, machine| machine.duplicate())
}

/// Puts a machine in place of any earlier one with `DashMap::insert`.
///
/// Trusted: the map then holds the machine under the key, and everything else as before.
#[verifier::external_body]
fn put_machine(
    entries: &mut DashMap<(String, String), MachineDefinition>,
    key: (String, String),
    machine: MachineDefinition,
)
    ensures
        held_machines(*final(entries)) == held_machines(*old(entries)).insert(
            (key.0@, key.1@),
            machine.deep_view(),
        ),
{
    entries.insert(key, machine);
}

/// Removes a machine with `DashMap::remove`.
///
/// Trusted: the map then holds nothing under the key, and everything else as before.
#[verifier::external_body]
fn remove_machine(
    entries: &mut DashMap<(String, String), MachineDefinition>,
    key: &(String, String),
)
    ensures
        held_machines(*final(entries)) == held_machines(*old(entries)).remove((key.0@, key.1@)),
{
    entries.remove(key);
}

/// Makes a map with `DashMap::new`.
///
/// Trusted: the map holds nothing.
#[verifier::external_body]
fn new_tokens() -> (entries: DashMap<String, String>)
    ensures
        held_tokens(entries) == no_tokens(),
{
    DashMap::new()
}

/// Finds a token with `DashMap::get`.
///
/// Trusted: it is the value that the map holds under the key, where it holds one.
#[verifier::external_body]
fn find_token(entries: &DashMap<String, String>, tenant_id: &str) -> (token: Option<String>)
    ensures
        match token {
            Some(t) => held_tokens(*entries).contains_key(tenant_id@) && t@ == held_tokens(
                *entries,
            )[tenant_id@],
            None => !held_tokens(*entries).contains_key(tenant_id@),
        },
{
    entries.get(tenant_id).map(|entry| entry.value().clone())
}

/// Puts a token in place of any earlier one with `DashMap::insert`.
///
/// Trusted: the map then holds the token under the key, and everything else as before.
#[verifier::external_body]
fn put_token(entries: &mut DashMap<String, String>, tenant_id: String, token: String)
    ensures
        held_tokens(*final(entries)) == held_tokens(*old(entries)).insert(tenant_id@, token@),
{
    entries.insert(tenant_id, token);
}

/// Machine definitions by tenant and machine ID. It spares the database a read for each event.
pub struct MachineCache {
    entries: DashMap<(String, String), MachineDefinition>,
}

impl View for MachineCache {
    type V = Map<(Seq<char>, Seq<char>), MachineDefinitionView>;

    closed spec fn view(&self) -> Map<(Seq<char>, Seq<char>), MachineDefinitionView> {
        held_machines(self.entries)
    }
}

impl MachineCache {
    /// A cache that holds nothing.
    pub fn new() -> (cache: Self)
        ensures
            cache@ == no_machines(),
    {
        MachineCache { entries: new_machines() }
    }

    /// The machine of a tenant, where the cache holds it.
    pub fn get(&self, tenant_id: &str, machine_id: &str) -> (machine: Option<MachineDefinition>)
        ensures
            match machine {
                Some(m) => self@.contains_key((tenant_id@, machine_id@)) && m.deep_view() == self@[
                    (tenant_id@, machine_id@)
                ],
                None => !self@.contains_key((tenant_id@, machine_id@)),
            },
    {
        find_machine(&self.entries, &(tenant_id.to_owned(), machine_id.to_owned()))
    }

    /// Holds a machine of a tenant from now on.
    pub fn insert(&mut self, tenant_id: &str, machine_id: &str, machine: MachineDefinition)
        ensures
            final(self)@ == old(self)@.insert((tenant_id@, machine_id@), machine.deep_view()),
    {
        put_machine(&mut self.entries, (tenant_id.to_owned(), machine_id.to_owned()), machine);
    }

    /// Holds a machine of a tenant no longer.
    pub fn remove(&mut self, tenant_id: &str, machine_id: &str)
        ensures
            final(self)@ == old(self)@.remove((tenant_id@, machine_id@)),
    {
        remove_machine(&mut self.entries, &(tenant_id.to_owned(), machine_id.to_owned()));
    }
}

/// Ingest tokens by tenant.
pub struct TokenCache {
    entries: DashMap<String, String>,
}

impl View for TokenCache {
    type V = Map<Seq<char>, Seq<char>>;

    closed spec fn view(&self) -> Map<Seq<char>, Seq<char>> {
        held_tokens(self.entries)
    }
}

impl TokenCache {
    /// A cache that holds nothing.
    pub fn new() -> (cache: Self)
        ensures
            cache@ == no_tokens(),
    {
        TokenCache { entries: new_tokens() }
    }

    /// The token of a tenant, where the cache holds it.
    pub fn get(&self, tenant_id: &str) -> (token: Option<String>)
        ensures
            match token {
                Some(t) => self@.contains_key(tenant_id@) && t@ == self@[tenant_id@],
                None => !self@.contains_key(tenant_id@),
            },
    {
        find_token(&self.entries, tenant_id)
    }

    /// Holds the token of a tenant from now on.
    pub fn insert(&mut self, tenant_id: &str, token: &str)
        ensures
            final(self)@ == old(self)@.insert(tenant_id@, token@),
    {
        put_token(&mut self.entries, tenant_id.to_owned(), token.to_owned());
    }
}

} // verus!
