//! The state of an entity: how it is stored, read back and shown.

use vstd::prelude::*;

use crate::json_text::{check_json, parse_string_object, write_string_object};
use crate::models::{Entity, EntityResponse, StateValue, DEFAULT_REGION};
use crate::string_map::{Duplicate, StringMap};
use crate::text::has_opening_brace;

verus! {

/// The states by region of an entity that is in one state only.
pub open spec fn flat_state_map(state: Seq<char>) -> Map<Seq<char>, Seq<char>> {
    Map::<Seq<char>, Seq<char>>::empty().insert(DEFAULT_REGION@, state)
}

/// Whether a map has a state for the default region and for no other.
pub open spec fn is_flat(map: Map<Seq<char>, Seq<char>>) -> bool {
    map.dom() == Set::<Seq<char>>::empty().insert(DEFAULT_REGION@)
}

/// The states by region that a stored state denotes, where `read` is the map that it denotes as a
/// JSON object of strings.
pub open spec fn decoded_state(
    stored: Seq<char>,
    read: Option<Map<Seq<char>, Seq<char>>>,
) -> Map<Seq<char>, Seq<char>> {
    match read {
        Some(map) if crate::text::opens_with_brace(stored) => map,
        _ => flat_state_map(stored),
    }
}

/// The states by region that a stored state denotes.
pub open spec fn stored_state(stored: Seq<char>) -> Map<Seq<char>, Seq<char>> {
    decoded_state(stored, crate::json_text::string_object(stored))
}

/// How the states by region are stored: the bare state of a flat machine, or a JSON object.
pub open spec fn encoded_state(map: Map<Seq<char>, Seq<char>>) -> Seq<char> {
    if is_flat(map) {
        map[DEFAULT_REGION@]
    } else {
        crate::json_text::string_object_text(map)
    }
}

/// How a stored state is shown: as the JSON that it is, or as a string.
pub open spec fn shown_state(stored: Seq<char>) -> crate::models::StateValueView {
    if crate::text::opens_with_brace(stored) && crate::json_text::is_json(stored) {
        crate::models::StateValueView::Json(stored)
    } else {
        crate::models::StateValueView::Text(stored)
    }
}

/// How the states by region are shown: the bare state of a flat machine, or an object.
pub open spec fn shown_map(map: Map<Seq<char>, Seq<char>>) -> crate::models::StateValueView {
    if is_flat(map) {
        crate::models::StateValueView::Text(map[DEFAULT_REGION@])
    } else {
        crate::models::StateValueView::Json(crate::json_text::string_object_text(map))
    }
}

/// Whether a stored state denotes these states by region; a bare state that is itself a JSON
/// object of strings denotes that object instead.
pub open spec fn keeps_its_meaning(map: Map<Seq<char>, Seq<char>>) -> bool {
    !(is_flat(map) && crate::text::opens_with_brace(map[DEFAULT_REGION@])
        && crate::json_text::string_object(map[DEFAULT_REGION@]) is Some)
}

/// Whether states are shown alike also when they are read back from storage: a bare state as a
/// string, which must not be JSON, and states by region as an object, which must not have the key
/// that marks raw JSON text.
pub open spec fn keeps_its_look(map: Map<Seq<char>, Seq<char>>) -> bool {
    &&& !(is_flat(map) && crate::text::opens_with_brace(map[DEFAULT_REGION@])
        && crate::json_text::is_json(map[DEFAULT_REGION@]))
    &&& !map.contains_key(crate::json_text::RAW_VALUE_KEY@)
}

/// The states by region that a stored state denotes, given what it reads as.
pub fn decode_state(stored: &str, read: Option<StringMap<String>>) -> (map: StringMap<String>)
    ensures
        map.deep_view() == decoded_state(stored@, read.deep_view()),
{
    if has_opening_brace(stored) {
        if let Some(map) = read {
            return map;
        }
    }
    let mut map: StringMap<String> = StringMap::new();
    map.insert(DEFAULT_REGION.to_owned(), stored.to_owned());
    map
}

/// The state of a flat map, and whether there is one.
fn flat_state_of(map: &StringMap<String>) -> (state: Option<&String>)
    ensures
        match state {
            Some(s) => is_flat(map.deep_view()) && s@ == map.deep_view()[DEFAULT_REGION@],
            None => !is_flat(map.deep_view()),
        },
{
    let ghost regions = map.deep_view().dom();
    let ghost flat = Set::<Seq<char>>::empty().insert(DEFAULT_REGION@);
    if map.len() == 1 {
        if let Some(state) = map.get(DEFAULT_REGION) {
            proof {
                assert(regions.remove(DEFAULT_REGION@).len() == 0);
                assert(regions.remove(DEFAULT_REGION@) =~= Set::empty());
                assert(regions =~= flat);
            }
            return Some(state);
        }
        assert(flat.contains(DEFAULT_REGION@));
    }
    assert(flat.len() == 1);
    None
}

/// How a state is shown, given whether its text is JSON.
pub fn show_state(stored: &str, json: bool) -> (value: StateValue)
    ensures
        value.deep_view() == if crate::text::opens_with_brace(stored@) && json {
            crate::models::StateValueView::Json(stored@)
        } else {
            crate::models::StateValueView::Text(stored@)
        },
{
    if has_opening_brace(stored) && json {
        StateValue::Json(stored.to_owned())
    } else {
        StateValue::Text(stored.to_owned())
    }
}

/// How a stored state is shown.
pub fn show_stored_state(stored: &str) -> (value: StateValue)
    ensures
        value.deep_view() == shown_state(stored@),
{
    show_state(stored, has_opening_brace(stored) && check_json(stored))
}

impl Entity {
    /// The states by region: `{"_": "active"}` for a flat machine, `{"payment": "captured", ..}`
    /// for a parallel one.
    pub fn state_map(&self) -> (map: StringMap<String>)
        ensures
            map.deep_view() == stored_state(self.current_state@),
    {
        let stored: &str = self.current_state.as_str();
        let read: Option<StringMap<String>> = if has_opening_brace(stored) {
            parse_string_object(stored)
        } else {
            None
        };
        decode_state(stored, read)
    }

    /// The state of one region.
    pub fn region_state(&self, region: &str) -> (state: Option<String>)
        ensures
            match state {
                Some(s) => stored_state(self.current_state@).contains_key(region@) && s@
                    == stored_state(self.current_state@)[region@],
                None => !stored_state(self.current_state@).contains_key(region@),
            },
    {
        match self.state_map().get(region) {
            Some(state) => Some(state.clone()),
            None => None,
        }
    }

    /// Whether the stored state is that of a parallel machine.
    pub fn is_parallel(&self) -> (parallel: bool)
        ensures
            parallel == crate::text::opens_with_brace(self.current_state@),
    {
        has_opening_brace(self.current_state.as_str())
    }

    /// How the states by region are stored: a bare state for the default region alone, otherwise a
    /// JSON object. Reading it back gives the map.
    pub fn encode_state(map: &StringMap<String>) -> (stored: String)
        ensures
            stored@ == encoded_state(map.deep_view()),
            keeps_its_meaning(map.deep_view()) ==> stored_state(stored@) == map.deep_view(),
    {
        match flat_state_of(map) {
            Some(state) => {
                assert(flat_state_map(state@) =~= map.deep_view());
                state.clone()
            },
            None => write_string_object(map),
        }
    }

    /// The entity as a response shows it.
    pub fn to_response(&self) -> (response: EntityResponse)
        ensures
            response.deep_view() == (crate::models::EntityResponseView {
                machine_id: self.machine_id@,
                tenant_id: self.tenant_id@,
                entity_id: self.entity_id@,
                current_state: shown_state(self.current_state@),
                context: self.context.deep_view(),
                state_version: self.state_version,
                created_at: self.created_at,
                updated_at: self.updated_at,
            }),
    {
        EntityResponse {
            machine_id: self.machine_id.clone(),
            tenant_id: self.tenant_id.clone(),
            entity_id: self.entity_id.clone(),
            current_state: show_stored_state(self.current_state.as_str()),
            context: self.context.duplicate(),
            state_version: self.state_version,
            created_at: self.created_at,
            updated_at: self.updated_at,
        }
    }
}

/// How the states by region are shown. This is also how they are shown once they are stored.
pub fn state_map_to_value(map: &StringMap<String>) -> (value: StateValue)
    ensures
        value.deep_view() == shown_map(map.deep_view()),
        keeps_its_look(map.deep_view()) ==> value.deep_view() == shown_state(
            encoded_state(map.deep_view()),
        ),
{
    match flat_state_of(map) {
        Some(state) => StateValue::Text(state.clone()),
        None => StateValue::Json(write_string_object(map)),
    }
}

} // verus!
