//! The history of an entity.

use vstd::prelude::*;

use crate::json_text::{parse_string_array, parse_string_object};
use crate::models::{TransitionRecord, TransitionRecordView};
use crate::string_map::StringMap;

verus! {

/// An entry of the audit log as the database has it.
#[derive(Debug)]
pub struct HistoryRow {
    pub id: i64,
    pub tenant_id: String,
    pub machine_id: String,
    pub entity_id: String,
    pub from_state: String,
    pub to_state: String,
    pub event_type: String,
    /// JSON text.
    pub event_params: Option<String>,
    /// JSON text.
    pub actions_dispatched: Option<String>,
    pub region: Option<String>,
    pub timestamp: i64,
    pub created_at: i64,
}

/// What a [`HistoryRow`] stands for.
#[verifier::ext_equal]
pub struct HistoryRowView {
    pub id: i64,
    pub tenant_id: Seq<char>,
    pub machine_id: Seq<char>,
    pub entity_id: Seq<char>,
    pub from_state: Seq<char>,
    pub to_state: Seq<char>,
    pub event_type: Seq<char>,
    pub event_params: Option<Seq<char>>,
    pub actions_dispatched: Option<Seq<char>>,
    pub region: Option<Seq<char>>,
    pub timestamp: i64,
    pub created_at: i64,
}

impl DeepView for HistoryRow {
    type V = HistoryRowView;

    open spec fn deep_view(&self) -> HistoryRowView {
        HistoryRowView {
            id: self.id,
            tenant_id: self.tenant_id@,
            machine_id: self.machine_id@,
            entity_id: self.entity_id@,
            from_state: self.from_state@,
            to_state: self.to_state@,
            event_type: self.event_type@,
            event_params: self.event_params.deep_view(),
            actions_dispatched: self.actions_dispatched.deep_view(),
            region: self.region.deep_view(),
            timestamp: self.timestamp,
            created_at: self.created_at,
        }
    }
}

/// The entry that a row stands for, given what its parameters and its actions read as.
pub open spec fn record_of(
    row: HistoryRowView,
    params: Option<Map<Seq<char>, Seq<char>>>,
    actions: Option<Seq<Seq<char>>>,
) -> TransitionRecordView {
    TransitionRecordView {
        id: row.id,
        tenant_id: row.tenant_id,
        machine_id: row.machine_id,
        entity_id: row.entity_id,
        from_state: row.from_state,
        to_state: row.to_state,
        event_type: row.event_type,
        event_params: params,
        actions_dispatched: match actions {
            Some(list) => list,
            None => Seq::empty(),
        },
        region: match row.region {
            Some(region) if region.len() > 0 => Some(region),
            _ => None,
        },
        timestamp: row.timestamp,
        created_at: row.created_at,
    }
}

/// What the parameters of a row read as.
pub open spec fn params_of(row: HistoryRowView) -> Option<Map<Seq<char>, Seq<char>>> {
    match row.event_params {
        Some(text) => crate::json_text::string_object(text),
        None => None,
    }
}

/// What the actions of a row read as.
pub open spec fn actions_of(row: HistoryRowView) -> Option<Seq<Seq<char>>> {
    match row.actions_dispatched {
        Some(text) => crate::json_text::string_array(text),
        None => None,
    }
}

/// The entry that a row stands for, given what its parameters and its actions read as. An empty
/// region stands for none.
pub fn build_record(
    row: HistoryRow,
    params: Option<StringMap<String>>,
    actions: Option<Vec<String>>,
) -> (record: TransitionRecord)
    ensures
        record.deep_view() == record_of(row.deep_view(), params.deep_view(), actions.deep_view()),
{
    let actions_dispatched: Vec<String> = match actions {
        Some(list) => list,
        None => Vec::new(),
    };
    assert(actions is None ==> actions_dispatched.deep_view() =~= Seq::empty());
    let region: Option<String> = match row.region {
        Some(region) => if region.as_str().is_empty() {
            None
        } else {
            Some(region)
        },
        None => None,
    };
    TransitionRecord {
        id: row.id,
        tenant_id: row.tenant_id,
        machine_id: row.machine_id,
        entity_id: row.entity_id,
        from_state: row.from_state,
        to_state: row.to_state,
        event_type: row.event_type,
        event_params: params,
        actions_dispatched,
        region,
        timestamp: row.timestamp,
        created_at: row.created_at,
    }
}

/// The entry that a row stands for.
pub fn get_history(row: HistoryRow) -> (record: TransitionRecord)
    ensures
        record.deep_view() == record_of(
            row.deep_view(),
            params_of(row.deep_view()),
            actions_of(row.deep_view()),
        ),
{
    let params: Option<StringMap<String>> = match &row.event_params {
        Some(text) => parse_string_object(text.as_str()),
        None => None,
    };
    let actions: Option<Vec<String>> = match &row.actions_dispatched {
        Some(text) => parse_string_array(text.as_str()),
        None => None,
    };
    build_record(row, params, actions)
}

} // verus!
