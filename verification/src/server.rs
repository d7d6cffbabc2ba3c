//! The status endpoint: `GET /` and nothing else.

use vstd::prelude::*;

use crate::state;
use crate::state::{AppState, ServiceStatus};
use crate::text;
use crate::time;
use crate::time::Timestamp;

verus! {

pub const DEFAULT_PORT: u16 = 3000;

/// What the endpoint says of one service; all but the name is absent for a service that
/// has not been checked yet.
#[derive(Debug, Clone, PartialEq, Eq)]
pub struct ServiceEntry {
    pub service: String,
    pub ok: Option<bool>,
    /// UTC, RFC 3339, second precision.
    pub last_checked: Option<String>,
    pub latency_ms: Option<u64>,
}

#[derive(Debug, Clone, PartialEq, Eq)]
pub struct StatusResponse {
    pub operational: bool,
    pub services: Vec<ServiceEntry>,
}

/// An answer of the server: its status code and its body, to be sent as JSON.
#[derive(Debug, Clone, PartialEq, Eq)]
pub struct Answer {
    pub code: u16,
    pub body: Option<StatusResponse>,
}

/// Whether an entry shows a service with its latest result.
pub open spec fn shows(entry: ServiceEntry, name: Seq<char>, status: Option<ServiceStatus>) -> bool {
    &&& entry.service@ == name
    &&& match status {
        Some(status) => {
            &&& entry.ok == Some(status.ok)
            &&& entry.last_checked matches Some(text) && time::is_rfc3339(
                text@,
                time::whole_second(status.last_checked@),
            )
            &&& entry.latency_ms == status.latency_ms
        },
        None => entry.ok is None && entry.last_checked is None && entry.latency_ms is None,
    }
}

/// Whether a response shows a snapshot: one entry per service, in order, and
/// `operational` exactly when every checked service is up.
pub open spec fn shows_all(
    response: StatusResponse,
    snapshot: Seq<(String, Option<ServiceStatus>)>,
) -> bool {
    &&& response.services@.len() == snapshot.len()
    &&& forall|i: int|
        0 <= i < snapshot.len() ==> shows(
            #[trigger] response.services@[i],
            snapshot[i].0@,
            snapshot[i].1,
        )
    &&& response.operational == state::all_up(snapshot)
}

/// Whether a response shows the current state: one entry per configured service, in
/// configuration order, and `operational` exactly when every checked service is up.
pub open spec fn shows_state(response: StatusResponse, state: AppState) -> bool {
    &&& response.services@.len() == state.names().len()
    &&& forall|i: int|
        0 <= i < state.names().len() ==> shows(
            #[trigger] response.services@[i],
            state.names()[i],
            state.result(state.names()[i]),
        )
    &&& response.operational == state.is_operational()
}

/// What the endpoint says of one service.
fn service_entry(name: &String, status: &Option<ServiceStatus>) -> (r: ServiceEntry)
    ensures
        shows(r, name@, *status),
{
    match status {
        Some(status) => ServiceEntry {
            service: name.clone(),
            ok: Some(status.ok),
            last_checked: Some(status.last_checked.to_second_text()),
            latency_ms: status.latency_ms,
        },
        None => ServiceEntry {
            service: name.clone(),
            ok: None,
            last_checked: None,
            latency_ms: None,
        },
    }
}

/// What the endpoint says of a snapshot.
pub fn status_response(snapshot: &[(String, Option<ServiceStatus>)]) -> (r: StatusResponse)
    ensures
        shows_all(r, snapshot@),
{
    let mut services: Vec<ServiceEntry> = Vec::new();
    let mut operational = true;
    for i in 0..snapshot.len()
        invariant
            services@.len() == i,
            forall|k: int|
                0 <= k < i ==> shows(#[trigger] services@[k], snapshot@[k].0@, snapshot@[k].1),
            operational == state::all_up(snapshot@.take(i as int)),
    {
        let entry = service_entry(&snapshot[i].0, &snapshot[i].1);
        if let Some(false) = entry.ok {
            operational = false;
        }
        services.push(entry);
        proof {
            let before = snapshot@.take(i as int);
            let after = snapshot@.take(i + 1);
            assert(after[i as int] == snapshot@[i as int]);
            assert forall|k: int| 0 <= k < i implies #[trigger] after[k] == before[k] by {}
            if state::all_up(after) {
                assert forall|k: int| 0 <= k < i implies ((#[trigger] before[k]).1 matches Some(
                    status,
                ) ==> status.ok) by {
                    assert(after[k] == before[k]);
                }
            }
        }
    }
    proof {
        assert(snapshot@.take(snapshot@.len() as int) == snapshot@);
    }
    StatusResponse { operational, services }
}

/// Answers a request: `GET /` with the current status, 200 when operational and 500
/// otherwise; any other method or path with an empty 404.
pub fn status_handler(method: &str, path: &str, state: &AppState) -> (r: Answer)
    ensures
        if method@ == "GET"@ && path@ == "/"@ {
            &&& r.body matches Some(response)
            &&& shows_state(response, *state)
            &&& r.code == if state.is_operational() {
                200
            } else {
                500u16
            }
        } else {
            r.body is None && r.code == 404
        },
{
    if !text::same_text(method, "GET") || !text::same_text(path, "/") {
        return Answer { code: 404, body: None };
    }
    let snapshot = state.snapshot();
    let response = status_response(snapshot.as_slice());
    proof {
        state::law_operational_iff_all_up(*state, snapshot@);
    }
    let code: u16 = if response.operational {
        200
    } else {
        500
    };
    Answer { code, body: Some(response) }
}

/// What the environment gives as port is none.
#[derive(Debug, Clone, PartialEq, Eq)]
pub struct PortError {
    value: String,
}

impl PortError {
    /// What was given.
    pub closed spec fn value(self) -> Seq<char> {
        self.value@
    }

    pub open spec fn message(self) -> Seq<char> {
        "PORT must be an integer in 1..=65535, got \""@ + self.value() + "\""@
    }

    pub fn to_string(&self) -> (r: String)
        ensures
            r@ == self.message(),
    {
        "PORT must be an integer in 1..=65535, got \"".to_string().concat(
            self.value.as_str(),
        ).concat("\"")
    }
}

/// The error names what was given.
pub proof fn law_port_error_names_the_value(error: PortError)
    ensures
        text::contains_text(error.message(), error.value()),
{
    text::lemma_contains_part(
        "PORT must be an integer in 1..=65535, got \""@,
        error.value(),
        "\""@,
    );
}

/// The port to listen on: 3000 unless the environment gives one, which must be an integer
/// from 1 to 65535.
pub fn resolve_port(env_value: Option<&str>) -> (r: Result<u16, PortError>)
    ensures
        match env_value {
            None => r == Ok::<u16, PortError>(DEFAULT_PORT),
            Some(raw) => match text::unsigned_value(raw@, 65_535) {
                Some(port) if port >= 1 => r == Ok::<u16, PortError>(port as u16),
                _ => r matches Err(error) && error.value() == raw@,
            },
        },
{
    match env_value {
        None => Ok(DEFAULT_PORT),
        Some(raw) => match text::parse_unsigned(raw, 65_535) {
            Some(port) if port >= 1 => Ok(port as u16),
            _ => Err(PortError { value: raw.to_string() }),
        },
    }
}

/// The decimal form of every port from 1 to 65535 is accepted as that port.
pub proof fn law_every_port_is_accepted(port: nat)
    requires
        1 <= port <= 65_535,
    ensures
        text::unsigned_value(text::decimal(port), 65_535) == Some(port),
{
    text::lemma_decimal_reads_back(port);
}

/// The answer shows what a snapshot shows: one entry per service, in order, under its very
/// name, with whether it is up, its latency, unchanged, and the text of when it was
/// checked; all three are absent for a service without a result. It is operational exactly
/// when no service is shown as down.
pub proof fn law_response_shows_the_snapshot(
    snapshot: &[(String, Option<ServiceStatus>)],
    r: StatusResponse,
    i: int,
    text: String,
)
    requires
        call_ensures(status_response, (snapshot,), r),
        0 <= i < snapshot@.len(),
        snapshot@[i].1 matches Some(status) ==> call_ensures(
            Timestamp::to_second_text,
            (status.last_checked,),
            text,
        ),
    ensures
        r.services@.len() == snapshot@.len(),
        ({
            let entry = r.services@[i];
            &&& entry.service@ == snapshot@[i].0@
            &&& match snapshot@[i].1 {
                Some(status) => {
                    &&& entry.ok == Some(status.ok)
                    &&& entry.latency_ms == status.latency_ms
                    &&& entry.last_checked is Some && entry.last_checked->0@ == text@
                },
                None => entry.ok is None && entry.latency_ms is None && entry.last_checked is None,
            }
        }),
        r.operational <==> !exists|k: int|
            0 <= k < snapshot@.len() && ((#[trigger] snapshot@[k]).1 matches Some(status)
                && !status.ok),
{
    let entry = r.services@[i];
    assert(shows(entry, snapshot@[i].0@, snapshot@[i].1));
    if let Some(status) = snapshot@[i].1 {
        time::law_one_text_per_second(
            entry.last_checked->0@,
            text@,
            time::whole_second(status.last_checked@),
        );
    }
    state::law_all_up(snapshot@);
}

/// `GET /`, and nothing else, is answered with the current status: what the response to a
/// snapshot of the state says, entry for entry, with 200 where no service is shown as down
/// and 500 where one is. Anything else is answered with an empty 404.
pub proof fn law_answer(
    method: &str,
    path: &str,
    state: &AppState,
    r: Answer,
    list: Vec<(String, Option<ServiceStatus>)>,
    i: int,
    text: String,
)
    requires
        call_ensures(status_handler, (method, path, state), r),
        call_ensures(AppState::snapshot, (state,), list),
        0 <= i < list@.len() && list@[i].1 is Some ==> call_ensures(
            Timestamp::to_second_text,
            (list@[i].1->0.last_checked,),
            text,
        ),
    ensures
        r.body is Some <==> method@ == seq!['G', 'E', 'T'] && path@ == seq!['/'],
        r.body is None ==> r.code == 404,
        r.body matches Some(body) ==> {
            let down = exists|k: int|
                0 <= k < list@.len() && ((#[trigger] list@[k]).1 matches Some(status)
                    && !status.ok);
            &&& r.code == if down {
                500
            } else {
                200u16
            }
            &&& body.operational == !down
            &&& body.services@.len() == list@.len()
            &&& 0 <= i < list@.len() ==> {
                let entry = body.services@[i];
                &&& entry.service@ == list@[i].0@
                &&& match list@[i].1 {
                    Some(status) => {
                        &&& entry.ok == Some(status.ok)
                        &&& entry.latency_ms == status.latency_ms
                        &&& entry.last_checked is Some && entry.last_checked->0@ == text@
                    },
                    None => entry.ok is None && entry.latency_ms is None
                        && entry.last_checked is None,
                }
            }
        },
{
    reveal_strlit("GET");
    reveal_strlit("/");
    assert("GET"@ == seq!['G', 'E', 'T']);
    assert("/"@ == seq!['/']);
    if let Some(body) = r.body {
        state::law_operational_iff_all_up(*state, list@);
        state::law_all_up(list@);
        if 0 <= i < list@.len() {
            let entry = body.services@[i];
            assert(list@[i].0@ == state.names()[i]);
            assert(shows(entry, state.names()[i], state.result(state.names()[i])));
            if let Some(status) = list@[i].1 {
                time::law_one_text_per_second(
                    entry.last_checked->0@,
                    text@,
                    time::whole_second(status.last_checked@),
                );
            }
        }
    }
}

/// The port is 3000 where none is given, and otherwise the number that is given, from 1 to
/// 65535; whatever else is given is refused, and quoted.
pub proof fn law_port(
    env_value: Option<&str>,
    r: Result<u16, PortError>,
    number: Option<u64>,
    message: String,
)
    requires
        call_ensures(resolve_port, (env_value,), r),
        env_value matches Some(raw) ==> call_ensures(
            text::parse_unsigned,
            (raw, 65_535u64),
            number,
        ),
        r matches Err(error) ==> call_ensures(PortError::to_string, (&error,), message),
    ensures
        env_value is None ==> r == Ok::<u16, PortError>(3000),
        env_value is Some ==> (r is Ok <==> (number matches Some(n) && n >= 1)),
        env_value is Some && r is Ok ==> r->Ok_0 == number->0,
        env_value is Some && r is Err ==> message@
            == "PORT must be an integer in 1..=65535, got \""@ + env_value->0@ + "\""@,
{
}

} // verus!
