//! Dead man's switch: ping upstream only when everything that was checked is up. A
//! missing ping is the alarm.

use vstd::prelude::*;

use crate::check;
use crate::config::HeartbeatConfig;
use crate::state;
use crate::state::ServiceStatus;

verus! {

pub const DEFAULT_HC_BASE_URL: &'static str = "https://hc-ping.com";

pub const DEFAULT_HTTPBIN_BASE_URL: &'static str = "https://httpbin.org";

#[derive(Debug, Clone, Copy, PartialEq, Eq)]
pub enum HeartbeatOutcome {
    /// Something is down: skipping the ping is the alarm.
    Skipped,
    Sent,
    /// A transport error or an answer other than 2xx; the next tick tries again.
    Failed,
}

/// The address that a heartbeat pings.
pub open spec fn ping_url(heartbeat: HeartbeatConfig, base_url: Seq<char>) -> Seq<char> {
    match heartbeat {
        HeartbeatConfig::HealthchecksIo { uuid, schedule } => base_url + "/"@ + uuid@,
        HeartbeatConfig::Httpbin { schedule } => base_url + "/get"@,
    }
}

/// The base address of a heartbeat: the one that the environment gives, else the default
/// of its type.
pub fn base_url(heartbeat: &HeartbeatConfig, env_override: Option<String>) -> (r: String)
    ensures
        r@ == match env_override {
            Some(base) => base@,
            None => match *heartbeat {
                HeartbeatConfig::HealthchecksIo { uuid, schedule } => DEFAULT_HC_BASE_URL@,
                HeartbeatConfig::Httpbin { schedule } => DEFAULT_HTTPBIN_BASE_URL@,
            },
        },
{
    match env_override {
        Some(base) => base,
        None => match heartbeat {
            HeartbeatConfig::HealthchecksIo { uuid: _, schedule: _ } =>
            DEFAULT_HC_BASE_URL.to_string(),
            HeartbeatConfig::Httpbin { schedule: _ } => DEFAULT_HTTPBIN_BASE_URL.to_string(),
        },
    }
}

/// What a heartbeat does on a tick: the address to ping when every checked service is up,
/// nothing when one is down.
pub fn heartbeat_tick(
    snapshot: &[(String, Option<ServiceStatus>)],
    heartbeat: &HeartbeatConfig,
    base_url: &str,
) -> (r: Option<String>)
    ensures
        r is Some <==> state::all_up(snapshot@),
        r matches Some(url) ==> url@ == ping_url(*heartbeat, base_url@),
{
    for i in 0..snapshot.len()
        invariant
            forall|k: int|
                0 <= k < i ==> ((#[trigger] snapshot@[k]).1 matches Some(status) ==> status.ok),
    {
        if let Some(status) = &snapshot[i].1 {
            if !status.ok {
                return None;
            }
        }
    }
    Some(
        match heartbeat {
            HeartbeatConfig::HealthchecksIo { uuid, schedule: _ } => base_url.to_string().concat(
                "/",
            ).concat(uuid.as_str()),
            HeartbeatConfig::Httpbin { schedule: _ } => base_url.to_string().concat("/get"),
        },
    )
}

/// What came of a tick: `ping` is what the tick said to do, `status` the status code of
/// the answer to the ping, `None` for a transport error.
pub fn heartbeat_outcome(ping: &Option<String>, status: Option<u16>) -> (r: HeartbeatOutcome)
    ensures
        r == if *ping is None {
            HeartbeatOutcome::Skipped
        } else if status is Some && check::is_success(status->0) {
            HeartbeatOutcome::Sent
        } else {
            HeartbeatOutcome::Failed
        },
{
    match ping {
        None => HeartbeatOutcome::Skipped,
        Some(_) => if check::came_through(status) {
            HeartbeatOutcome::Sent
        } else {
            HeartbeatOutcome::Failed
        },
    }
}

/// A heartbeat pings the address that is given, else the one of its type.
pub proof fn law_base_url(heartbeat: &HeartbeatConfig, env_override: Option<String>, r: String)
    requires
        call_ensures(base_url, (heartbeat, env_override), r),
    ensures
        env_override matches Some(base) ==> r@ == base@,
        env_override is None && *heartbeat is HealthchecksIo ==> r@ == "https://hc-ping.com"@,
        env_override is None && *heartbeat is Httpbin ==> r@ == "https://httpbin.org"@,
{
}

/// The ping goes missing exactly when a service is known to be down; a service that has
/// not been checked does not count, and neither does anything else. What is pinged is the
/// uuid, or `get`, under the base address.
pub proof fn law_ping(
    snapshot: &[(String, Option<ServiceStatus>)],
    heartbeat: &HeartbeatConfig,
    base_url: &str,
    r: Option<String>,
)
    requires
        call_ensures(heartbeat_tick, (snapshot, heartbeat, base_url), r),
    ensures
        r is None <==> exists|i: int|
            0 <= i < snapshot@.len() && ((#[trigger] snapshot@[i]).1 matches Some(status)
                && !status.ok),
        r matches Some(url) ==> match *heartbeat {
            HeartbeatConfig::HealthchecksIo { uuid, schedule } => url@ == base_url@ + seq!['/']
                + uuid@,
            HeartbeatConfig::Httpbin { schedule } => url@ == base_url@ + seq![
                '/',
                'g',
                'e',
                't',
            ],
        },
{
    reveal_strlit("/");
    reveal_strlit("/get");
    assert("/"@ == seq!['/']);
    assert("/get"@ == seq!['/', 'g', 'e', 't']);
    state::law_all_up(snapshot@);
}

/// A ping that was not due is skipped; one that was is sent exactly when it came through.
pub proof fn law_outcome(
    ping: &Option<String>,
    status: Option<u16>,
    r: HeartbeatOutcome,
    through: bool,
)
    requires
        call_ensures(heartbeat_outcome, (ping, status), r),
        call_ensures(check::came_through, (status,), through),
    ensures
        r == HeartbeatOutcome::Skipped <==> *ping is None,
        r == HeartbeatOutcome::Sent <==> *ping is Some && through,
        r == HeartbeatOutcome::Failed <==> *ping is Some && !through,
{
}

} // verus!
