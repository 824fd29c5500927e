//! What the endpoints of the service decide.

use vstd::prelude::*;

use crate::errors::{AppError, AppErrorView};
use crate::json::{push_text_field, Value, ValueView};

pub mod entities;
pub mod evaluate;
pub mod machines;
pub mod transitions;

verus! {

/// The tenant that the `X-Tenant-Id` header names.
pub fn extract_tenant_id(header: Option<&str>) -> (tenant_id: Result<String, AppError>)
    ensures
        match (header, tenant_id) {
            (Some(text), Ok(id)) => id@ == text@,
            (None, Err(error)) => error.deep_view() == AppErrorView::BadRequest(
                "Missing X-Tenant-Id header"@,
            ),
            _ => false,
        },
{
    match header {
        Some(text) => Ok(text.to_owned()),
        None => Err(AppError::BadRequest("Missing X-Tenant-Id header".to_owned())),
    }
}

/// Reads the clock with `SystemTime::elapsed`: the milliseconds since 1970, or nothing where the
/// clock is set before. Nothing is claimed of the result, which depends on the time.
#[verifier::external_body]
fn elapsed_millis() -> (millis: Option<u128>) {
    std::time::UNIX_EPOCH.elapsed().ok().map(|elapsed| elapsed.as_millis())
}

/// A number of milliseconds as a timestamp: its lower 64 bits.
pub fn timestamp_of(millis: u128) -> (timestamp: i64)
    ensures
        timestamp == millis as i64,
        millis <= i64::MAX ==> timestamp == millis,
{
    #[verifier::truncate]
    (millis as i64)
}

/// The time that the clock tells, given the milliseconds since 1970, of which there are none where
/// the clock is set before.
pub fn clock_time(elapsed: Option<u128>) -> (time: Option<i64>)
    ensures
        time == match elapsed {
            Some(millis) => Some(millis as i64),
            None => None,
        },
{
    match elapsed {
        Some(millis) => Some(timestamp_of(millis)),
        None => None,
    }
}

/// The current time in milliseconds since 1970; nothing where the clock is set before. What it is
/// depends on the clock alone: [`clock_time`] says what comes of each reading.
pub fn now_millis() -> (now: Option<i64>) {
    clock_time(elapsed_millis())
}

/// What the health check answers.
pub open spec fn health(version: Seq<char>) -> ValueView {
    ValueView::Object(
        Map::<Seq<char>, ValueView>::empty().insert("status"@, ValueView::String("ok"@)).insert(
            "version"@,
            ValueView::String(version),
        ).insert("service"@, ValueView::String("state-machine"@)),
    )
}

/// What the health check answers.
pub fn health_body(version: &str) -> (body: Value)
    ensures
        body.deep_view() == health(version@),
{
    let mut fields: Vec<(String, Value)> = Vec::new();
    push_text_field(&mut fields, "status", "ok");
    push_text_field(&mut fields, "version", version);
    push_text_field(&mut fields, "service", "state-machine");
    Value::Object(fields)
}

} // verus!
