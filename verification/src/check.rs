//! Health checks: exact status match, latency of the response headers.

use vstd::prelude::*;

use crate::config::ServiceConfig;
use crate::state::{AppState, ServiceStatus};
use crate::text;
use crate::time::Timestamp;

verus! {

/// How long a check waits for the response headers.
pub const CHECK_TIMEOUT_SECONDS: u64 = 10;

/// What came of a request.
#[derive(Debug, Clone, PartialEq, Eq)]
pub enum Reply {
    /// A completed response, with its status code.
    Answered { status: u16 },
    /// A transport error: its own message, then those of its causes, outermost first.
    Failed { causes: Vec<String> },
}

/// Whether a status code says that a request succeeded: 2xx.
pub open spec fn is_success(status: u16) -> bool {
    200 <= status <= 299
}

/// What is said of a status code that is not the expected one.
pub open spec fn unexpected_status_text(status: u16, expected: u16) -> Seq<char> {
    "unexpected status "@ + text::decimal(status as nat) + " (want "@ + text::decimal(
        expected as nat,
    ) + ")"@
}

/// Whether a result differs from the one before in being up or down; the first result of
/// a service always does.
pub open spec fn is_transition(previous: Option<ServiceStatus>, status: ServiceStatus) -> bool {
    previous matches Some(previous) ==> previous.ok != status.ok
}

/// Whether a request came through: it was answered, with a 2xx.
pub fn came_through(status: Option<u16>) -> (r: bool)
    ensures
        r == (status matches Some(code) && is_success(code)),
{
    match status {
        Some(code) => 200 <= code && code <= 299,
        None => false,
    }
}

/// An error's message with those of its causes: the message of a transport error alone is
/// the same for every failure, the reason lies further down.
pub fn describe_error(causes: &Vec<String>) -> (r: String)
    ensures
        r@ == text::joined(text::texts(causes@), ": "@),
{
    text::join(causes.as_slice(), ": ")
}

/// The result of one health check. A transport error is a result: down, without latency.
/// A completed response always has its latency, up or down.
pub fn check_once(
    service: &ServiceConfig,
    reply: &Reply,
    latency_ms: u64,
    last_checked: Timestamp,
) -> (r: ServiceStatus)
    ensures
        r.last_checked == last_checked,
        match *reply {
            Reply::Answered { status } => {
                &&& r.ok == (status == service.ok_status_code)
                &&& r.latency_ms == Some(latency_ms)
                &&& r.error is Some <==> !r.ok
                &&& r.error matches Some(error) ==> error@ == unexpected_status_text(
                    status,
                    service.ok_status_code,
                )
            },
            Reply::Failed { causes } => {
                &&& !r.ok
                &&& r.latency_ms is None
                &&& r.error matches Some(error) && error@ == text::joined(
                    text::texts(causes@),
                    ": "@,
                )
            },
        },
{
    match reply {
        Reply::Answered { status } => {
            let ok = *status == service.ok_status_code;
            let error = if ok {
                None
            } else {
                Some(
                    "unexpected status ".to_string().concat(
                        text::decimal_text(*status as u64).as_str(),
                    ).concat(" (want ").concat(
                        text::decimal_text(service.ok_status_code as u64).as_str(),
                    ).concat(")"),
                )
            };
            ServiceStatus { ok, last_checked, latency_ms: Some(latency_ms), error }
        },
        Reply::Failed { causes } => ServiceStatus {
            ok: false,
            last_checked,
            latency_ms: None,
            error: Some(describe_error(causes)),
        },
    }
}

/// Overwrites the service's result, and says whether it went up or down.
pub fn record_check(state: &mut AppState, service: &ServiceConfig, status: &ServiceStatus) -> (r:
    bool)
    ensures
        final(state).names() == old(state).names(),
        final(state).results() == old(state).results().insert(service.service@, *status),
        r == is_transition(old(state).result(service.service@), *status),
{
    match state.record(service.service.as_str(), status.clone()) {
        Some(previous) => previous.ok != status.ok,
        None => true,
    }
}

/// A request came through exactly when it was answered with a code from 200 to 299.
pub proof fn law_came_through(status: Option<u16>, r: bool)
    requires
        call_ensures(came_through, (status,), r),
    ensures
        r <==> (status matches Some(code) && 200 <= code < 300),
        status matches Some(code) ==> r == is_success(code),
{
}

/// An error is described by all the messages of its chain, in order, with colons between.
pub proof fn law_description(causes: &Vec<String>, parts: &[String], r: String, joined: String)
    requires
        call_ensures(describe_error, (causes,), r),
        parts@ == causes@,
        call_ensures(text::join, (parts, ": "), joined),
    ensures
        r@ == joined@,
{
}

/// A service is up exactly when it answered with the one code that is expected of it. An
/// answer has its latency, unchanged, up or down; a transport error has none. What is down
/// says why: the code that came and the one expected, or the description of the error.
pub proof fn law_check(
    service: &ServiceConfig,
    reply: &Reply,
    latency_ms: u64,
    last_checked: Timestamp,
    r: ServiceStatus,
    came: u64,
    wanted: u64,
    came_text: String,
    wanted_text: String,
    causes: &Vec<String>,
    description: String,
)
    requires
        call_ensures(check_once, (service, reply, latency_ms, last_checked), r),
        *reply matches Reply::Answered { status } ==> came == status,
        *reply matches Reply::Failed { causes: list } ==> list == *causes,
        wanted == service.ok_status_code,
        call_ensures(text::decimal_text, (came,), came_text),
        call_ensures(text::decimal_text, (wanted,), wanted_text),
        call_ensures(describe_error, (causes,), description),
    ensures
        r.last_checked == last_checked,
        r.ok <==> *reply is Answered && came == service.ok_status_code,
        r.latency_ms == if *reply is Answered {
            Some(latency_ms)
        } else {
            None
        },
        r.ok <==> r.error is None,
        *reply is Answered && !r.ok ==> r.error->0@ == "unexpected status "@ + came_text@
            + " (want "@ + wanted_text@ + ")"@,
        *reply is Failed ==> r.error->0@ == description@,
{
}

/// A check's result, unchanged, is the one that the state holds for the service from then
/// on, and what the next snapshot shows; of other services the snapshot shows what it
/// showed. It is a transition unless the result before was up or down alike.
pub proof fn law_record_check(
    state: &mut AppState,
    service: &ServiceConfig,
    status: &ServiceStatus,
    r: bool,
    before: Vec<(String, Option<ServiceStatus>)>,
    after: Vec<(String, Option<ServiceStatus>)>,
    i: int,
)
    requires
        call_ensures(AppState::snapshot, (&*old(state),), before),
        call_ensures(record_check, (state, service, status), r),
        call_ensures(AppState::snapshot, (&*final(state),), after),
        0 <= i < before@.len(),
    ensures
        after@.len() == before@.len(),
        after@[i].0@ == before@[i].0@,
        before@[i].0@ != service.service@ ==> after@[i].1 == before@[i].1,
        before@[i].0@ == service.service@ ==> after@[i].1 == Some(*status) && (r <==> (
        before@[i].1 matches Some(previous) ==> previous.ok != status.ok)),
        final(state).result(service.service@) == Some(*status),
        r <==> (old(state).result(service.service@) matches Some(previous) ==> previous.ok
            != status.ok),
{
    assert(before@[i].1 == old(state).result(before@[i].0@));
    assert(after@[i].1 == final(state).result(after@[i].0@));
}

} // verus!
