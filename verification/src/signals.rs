//! The signals of the monitor together: the endpoint, the heartbeat and the notifications.

use vstd::prelude::*;

use crate::check;
use crate::config::{Config, HeartbeatConfig, NotifyConfig, ServiceConfig};
use crate::heartbeat;
use crate::notify;
use crate::notify::{NotifyState, NotifyStep};
use crate::server;
use crate::server::Answer;
use crate::state;
use crate::state::{AppState, ServiceStatus};
use crate::time::Timestamp;

verus! {

/// The first result of a service is seen by all: the next snapshot shows it, unchanged, at
/// the place of the service in the configuration; the endpoint answers 500 exactly when it
/// is down; the heartbeat is skipped exactly then; and a notify entry to which nothing has
/// come through sends a message exactly then.
pub proof fn law_first_result_is_seen_by_all(
    config: &Config,
    fresh: AppState,
    state: &mut AppState,
    i: int,
    service: &ServiceConfig,
    status: &ServiceStatus,
    transition: bool,
    list: Vec<(String, Option<ServiceStatus>)>,
    snapshot: &[(String, Option<ServiceStatus>)],
    method: &str,
    path: &str,
    answer: Answer,
    hb: &HeartbeatConfig,
    base_url: &str,
    ping: Option<String>,
    entry: &NotifyConfig,
    memory: &mut NotifyState,
    now: Timestamp,
    step: NotifyStep,
)
    requires
        call_ensures(AppState::new, (config,), fresh),
        *old(state) == fresh,
        0 <= i < config.services@.len(),
        *service == config.services@[i],
        call_ensures(check::record_check, (state, service, status), transition),
        call_ensures(AppState::snapshot, (&*final(state),), list),
        snapshot@ == list@,
        method@ == "GET"@ && path@ == "/"@,
        call_ensures(server::status_handler, (method, path, &*final(state)), answer),
        call_ensures(heartbeat::heartbeat_tick, (snapshot, hb, base_url), ping),
        old(memory).last_sent is None,
        call_ensures(notify::notify_tick, (snapshot, entry, memory, now), step),
    ensures
        transition,
        list@.len() == config.services@.len(),
        list@[i].0@ == config.services@[i].service@,
        list@[i].1 == Some(*status),
        answer.code == if status.ok {
            200
        } else {
            500u16
        },
        ping is None <==> !status.ok,
        step is SendDown <==> !status.ok,
{
    let after = *final(state);
    assert(after.names() == fresh.names());
    assert(fresh.result(service.service@) is None);
    assert(list@[i].0@ == after.names()[i]);
    assert forall|k: int| 0 <= k < list@.len() implies ((#[trigger] list@[k]).1 matches Some(shown)
        ==> shown == *status) by {
        assert(list@[k].1 == after.result(list@[k].0@));
    }
    state::law_operational_iff_all_up(after, list@);
    state::law_all_up(list@);
    state::law_all_up_iff_none_failing(list@);
    assert(list@[i].1 == Some(*status));
}

/// What one of the signals says, the others say too: the endpoint answers 200 exactly when
/// the heartbeat pings, and then no notify entry reports anything as down.
pub proof fn law_signals_agree(
    state: &AppState,
    list: Vec<(String, Option<ServiceStatus>)>,
    snapshot: &[(String, Option<ServiceStatus>)],
    method: &str,
    path: &str,
    answer: Answer,
    hb: &HeartbeatConfig,
    base_url: &str,
    ping: Option<String>,
    entry: &NotifyConfig,
    memory: &mut NotifyState,
    now: Timestamp,
    step: NotifyStep,
)
    requires
        call_ensures(AppState::snapshot, (state,), list),
        snapshot@ == list@,
        method@ == "GET"@ && path@ == "/"@,
        call_ensures(server::status_handler, (method, path, state), answer),
        call_ensures(heartbeat::heartbeat_tick, (snapshot, hb, base_url), ping),
        call_ensures(notify::notify_tick, (snapshot, entry, memory, now), step),
    ensures
        answer.code == 200 || answer.code == 500,
        answer.code == 200 <==> ping is Some,
        ping is Some ==> step is SendRecovery || step == NotifyStep::Done(
            notify::NotifyOutcome::Quiet,
        ),
        ping is None ==> final(memory).was_down && step !is SendRecovery,
{
    state::law_operational_iff_all_up(*state, list@);
}

} // verus!
