//! The latest result per service. There is no history.

use vstd::hash_map::StringHashMap;
use vstd::prelude::*;

use crate::config::Config;
use crate::config::ServiceConfig;
use crate::text;
use crate::time::Timestamp;

verus! {

/// The result of one check.
#[derive(Debug, PartialEq, Eq)]
pub struct ServiceStatus {
    pub ok: bool,
    pub last_checked: Timestamp,
    /// How long the response took, if there was one, up or down.
    pub latency_ms: Option<u64>,
    /// Why the service is down.
    pub error: Option<String>,
}

impl Clone for ServiceStatus {
    fn clone(&self) -> (r: Self)
        ensures
            r == *self,
    {
        let error = match &self.error {
            Some(error) => Some(error.clone()),
            None => None,
        };
        ServiceStatus {
            ok: self.ok,
            last_checked: self.last_checked,
            latency_ms: self.latency_ms,
            error,
        }
    }
}

/// The names of the configured services, in configuration order.
pub open spec fn service_names(services: Seq<ServiceConfig>) -> Seq<Seq<char>> {
    Seq::new(services.len(), |i: int| services[i].service@)
}

/// The services that are known to be down, in order.
pub open spec fn failing(snapshot: Seq<(String, Option<ServiceStatus>)>) -> Seq<Seq<char>>
    decreases snapshot.len(),
{
    if snapshot.len() == 0 {
        seq![]
    } else {
        let (name, status) = snapshot.last();
        match status {
            Some(status) if !status.ok => failing(snapshot.drop_last()).push(name@),
            _ => failing(snapshot.drop_last()),
        }
    }
}

/// Whether every service that has been checked is up. A service not checked yet does not
/// count.
pub open spec fn all_up(snapshot: Seq<(String, Option<ServiceStatus>)>) -> bool {
    forall|i: int|
        0 <= i < snapshot.len() ==> ((#[trigger] snapshot[i]).1 matches Some(status) ==> status.ok)
}

/// Every checked service is up exactly when no service is known to be down.
pub proof fn law_all_up_iff_none_failing(snapshot: Seq<(String, Option<ServiceStatus>)>)
    ensures
        all_up(snapshot) <==> failing(snapshot).len() == 0,
    decreases snapshot.len(),
{
    if snapshot.len() > 0 {
        let rest = snapshot.drop_last();
        law_all_up_iff_none_failing(rest);
        let last = snapshot.last();
        if all_up(snapshot) {
            assert forall|i: int| 0 <= i < rest.len() implies ((#[trigger] rest[i]).1 matches Some(
                status,
            ) ==> status.ok) by {
                assert(snapshot[i] == rest[i]);
            }
            assert(snapshot[snapshot.len() - 1].1 == last.1);
        }
        if all_up(rest) && (last.1 matches Some(status) ==> status.ok) {
            assert forall|i: int| 0 <= i < snapshot.len() implies ((
            #[trigger] snapshot[i]).1 matches Some(status) ==> status.ok) by {
                if i < rest.len() {
                    assert(rest[i] == snapshot[i]);
                }
            }
        }
    }
}

/// A service is named among the failing ones exactly when its result says that it is down.
pub proof fn law_failing_are_those_down(
    snapshot: Seq<(String, Option<ServiceStatus>)>,
    name: Seq<char>,
)
    ensures
        failing(snapshot).contains(name) <==> exists|i: int|
            0 <= i < snapshot.len() && (#[trigger] snapshot[i]).0@ == name && (
            snapshot[i].1 matches Some(status) && !status.ok),
    decreases snapshot.len(),
{
    if snapshot.len() > 0 {
        let rest = snapshot.drop_last();
        let n = snapshot.len() - 1;
        law_failing_are_those_down(rest, name);
        if failing(rest).contains(name) {
            let i = choose|i: int|
                0 <= i < rest.len() && (#[trigger] rest[i]).0@ == name && (
                rest[i].1 matches Some(status) && !status.ok);
            assert(snapshot[i] == rest[i]);
            let k = choose|k: int| 0 <= k < failing(rest).len() && failing(rest)[k] == name;
            assert(failing(snapshot)[k] == name);
        }
        if exists|i: int|
            0 <= i < snapshot.len() && (#[trigger] snapshot[i]).0@ == name && (
            snapshot[i].1 matches Some(status) && !status.ok) {
            let i = choose|i: int|
                0 <= i < snapshot.len() && (#[trigger] snapshot[i]).0@ == name && (
                snapshot[i].1 matches Some(status) && !status.ok);
            if i < n {
                assert(rest[i] == snapshot[i]);
                assert(failing(rest).contains(name));
            } else {
                assert(failing(snapshot).last() == name);
            }
        }
        if failing(snapshot).contains(name) && !failing(rest).contains(name) {
            let k = choose|k: int|
                0 <= k < failing(snapshot).len() && failing(snapshot)[k] == name;
            if k < failing(rest).len() {
                assert(failing(rest)[k] == name);
            }
            assert(snapshot[n].0@ == name);
        }
    }
}

/// The configured services and the latest result of each.
pub struct AppState {
    service_names: Vec<String>,
    statuses: StringHashMap<ServiceStatus>,
}

impl AppState {
    /// The configured services, in configuration order.
    pub closed spec fn names(self) -> Seq<Seq<char>> {
        text::texts(self.service_names@)
    }

    /// The latest result of every service that has one.
    pub closed spec fn results(self) -> Map<Seq<char>, ServiceStatus> {
        self.statuses@
    }

    /// The latest result of a service.
    pub open spec fn result(self, name: Seq<char>) -> Option<ServiceStatus> {
        if self.results().contains_key(name) {
            Some(self.results()[name])
        } else {
            None
        }
    }

    /// Whether a list holds the latest results in configuration order, `None` for a
    /// service not yet checked.
    pub open spec fn is_snapshot(self, list: Seq<(String, Option<ServiceStatus>)>) -> bool {
        &&& list.len() == self.names().len()
        &&& forall|i: int|
            0 <= i < list.len() ==> (#[trigger] list[i]).0@ == self.names()[i] && list[i].1
                == self.result(self.names()[i])
    }

    /// Whether every configured service that has been checked is up.
    pub open spec fn is_operational(self) -> bool {
        forall|i: int|
            0 <= i < self.names().len() ==> (self.result(
                #[trigger] self.names()[i],
            ) matches Some(status) ==> status.ok)
    }

    /// Nothing is checked yet.
    pub fn new(config: &Config) -> (r: AppState)
        ensures
            r.names() == service_names(config.services@),
            r.results() == Map::<Seq<char>, ServiceStatus>::empty(),
    {
        let mut names: Vec<String> = Vec::new();
        for i in 0..config.services.len()
            invariant
                text::texts(names@) == service_names(config.services@).take(i as int),
        {
            let ghost before = names@;
            let name = config.services[i].service.clone();
            let ghost added = name@;
            names.push(name);
            proof {
                assert(text::texts(names@) == text::texts(before).push(added));
                assert(service_names(config.services@).take(i + 1) == service_names(
                    config.services@,
                ).take(i as int).push(added));
            }
        }
        proof {
            assert(service_names(config.services@).take(config.services@.len() as int)
                == service_names(config.services@));
        }
        AppState { service_names: names, statuses: StringHashMap::new() }
    }

    /// Overwrites the result of a service, and hands back the one before.
    pub fn record(&mut self, service: &str, status: ServiceStatus) -> (r: Option<ServiceStatus>)
        ensures
            final(self).names() == old(self).names(),
            final(self).results() == old(self).results().insert(service@, status),
            r == old(self).result(service@),
    {
        let previous = match self.statuses.get(service) {
            Some(previous) => Some(previous.clone()),
            None => None,
        };
        self.statuses.insert(service.to_string(), status);
        previous
    }

    /// The latest results in configuration order; `None` for a service not yet checked.
    pub fn snapshot(&self) -> (r: Vec<(String, Option<ServiceStatus>)>)
        ensures
            self.is_snapshot(r@),
    {
        let mut out: Vec<(String, Option<ServiceStatus>)> = Vec::new();
        for i in 0..self.service_names.len()
            invariant
                out@.len() == i,
                forall|k: int|
                    0 <= k < i ==> (#[trigger] out@[k]).0@ == self.names()[k] && out@[k].1
                        == self.result(self.names()[k]),
        {
            let name = self.service_names[i].clone();
            let status = match self.statuses.get(name.as_str()) {
                Some(status) => Some(status.clone()),
                None => None,
            };
            out.push((name, status));
        }
        out
    }
}

/// All who look at the state see the same: it is operational exactly when a snapshot of it
/// has every checked service up, which is when it has none failing.
pub proof fn law_operational_iff_all_up(
    state: AppState,
    snapshot: Seq<(String, Option<ServiceStatus>)>,
)
    requires
        state.is_snapshot(snapshot),
    ensures
        state.is_operational() <==> all_up(snapshot),
        state.is_operational() <==> failing(snapshot).len() == 0,
{
    law_all_up_iff_none_failing(snapshot);
    if state.is_operational() {
        assert forall|i: int| 0 <= i < snapshot.len() implies ((#[trigger] snapshot[i]).1 matches Some(
            status,
        ) ==> status.ok) by {
            assert(state.result(state.names()[i]) == snapshot[i].1);
        }
    }
    if all_up(snapshot) {
        assert forall|i: int| 0 <= i < state.names().len() implies (state.result(
            #[trigger] state.names()[i],
        ) matches Some(status) ==> status.ok) by {
            assert(snapshot[i].1 == state.result(state.names()[i]));
        }
    }
}

/// A recorded result is what the next snapshot shows of its service, and of no other.
pub proof fn law_recorded_result_is_shown(
    before: AppState,
    after: AppState,
    service: Seq<char>,
    status: ServiceStatus,
    shown_before: Seq<(String, Option<ServiceStatus>)>,
    shown_after: Seq<(String, Option<ServiceStatus>)>,
)
    requires
        after.names() == before.names(),
        after.results() == before.results().insert(service, status),
        before.is_snapshot(shown_before),
        after.is_snapshot(shown_after),
    ensures
        shown_after.len() == shown_before.len(),
        forall|i: int|
            0 <= i < shown_after.len() ==> (#[trigger] shown_after[i]).1 == if before.names()[i]
                == service {
                Some(status)
            } else {
                shown_before[i].1
            },
{
    assert forall|i: int| 0 <= i < shown_after.len() implies (#[trigger] shown_after[i]).1 == if before.names()[i]
        == service {
        Some(status)
    } else {
        shown_before[i].1
    } by {
        assert(shown_before[i].1 == before.result(before.names()[i]));
    }
}

/// A new state lists the configured services, each under its very name, in order, and
/// none of them has a result.
pub proof fn law_new_state_lists_the_services(
    config: &Config,
    state: AppState,
    list: Vec<(String, Option<ServiceStatus>)>,
)
    requires
        call_ensures(AppState::new, (config,), state),
        call_ensures(AppState::snapshot, (&state,), list),
    ensures
        list@.len() == config.services@.len(),
        state.names().len() == config.services@.len(),
        forall|i: int|
            0 <= i < config.services@.len() ==> (#[trigger] list@[i]).0@
                == config.services@[i].service@ && state.names()[i] == config.services@[i].service@
                && list@[i].1 is None,
        forall|name: Seq<char>| state.result(name) is None,
{
    assert forall|i: int| 0 <= i < config.services@.len() implies (#[trigger] list@[i]).0@
        == config.services@[i].service@ && list@[i].1 is None by {
        assert(list@[i].0@ == state.names()[i]);
    }
}

/// The latest result of a service is the one that the state holds for its very name.
pub proof fn law_results_go_by_name(state: AppState, name: Seq<char>)
    ensures
        state.result(name) is Some <==> state.results().dom().contains(name),
        state.result(name) is Some ==> state.result(name) == Some(state.results()[name]),
{
}

/// Recording a result hands back the one before it, and changes what a snapshot shows of
/// the service of that very name to the result, unchanged; of any other service it shows
/// what it showed before.
pub proof fn law_record_then_snapshot(
    state: &mut AppState,
    service: &str,
    status: ServiceStatus,
    previous: Option<ServiceStatus>,
    before: Vec<(String, Option<ServiceStatus>)>,
    after: Vec<(String, Option<ServiceStatus>)>,
)
    requires
        call_ensures(AppState::snapshot, (&*old(state),), before),
        call_ensures(AppState::record, (state, service, status), previous),
        call_ensures(AppState::snapshot, (&*final(state),), after),
    ensures
        after@.len() == before@.len(),
        forall|i: int|
            0 <= i < before@.len() ==> {
                &&& (#[trigger] after@[i]).0@ == before@[i].0@
                &&& before@[i].0@ == service@ ==> after@[i].1 == Some(status) && previous
                    == before@[i].1
                &&& before@[i].0@ != service@ ==> after@[i].1 == before@[i].1
            },
{
    assert forall|i: int| 0 <= i < before@.len() implies {
        &&& (#[trigger] after@[i]).0@ == before@[i].0@
        &&& before@[i].0@ == service@ ==> after@[i].1 == Some(status) && previous == before@[i].1
        &&& before@[i].0@ != service@ ==> after@[i].1 == before@[i].1
    } by {
        assert(before@[i].0@ == old(state).names()[i]);
        assert(before@[i].1 == old(state).result(before@[i].0@));
        assert(after@[i].1 == final(state).result(after@[i].0@));
    }
}

/// Of two results recorded one after the other, the second recording hands back the first
/// one if they are of one service; if not, it hands back what it would have handed back
/// without the first.
pub proof fn law_record_twice(
    state: &mut AppState,
    service: &str,
    status: ServiceStatus,
    first: Option<ServiceStatus>,
    then: &mut AppState,
    other: &str,
    other_status: ServiceStatus,
    second: Option<ServiceStatus>,
    alone: &mut AppState,
    without: Option<ServiceStatus>,
)
    requires
        call_ensures(AppState::record, (state, service, status), first),
        *old(then) == *final(state),
        call_ensures(AppState::record, (then, other, other_status), second),
        *old(alone) == *old(state),
        call_ensures(AppState::record, (alone, other, other_status), without),
    ensures
        service@ == other@ ==> second == Some(status),
        service@ != other@ ==> second == without,
{
}

/// A copy of a result is the same result.
pub proof fn law_copy_of_a_result(status: &ServiceStatus, copy: ServiceStatus)
    requires
        call_ensures(<ServiceStatus as Clone>::clone, (status,), copy),
    ensures
        copy == *status,
{
}

/// The failing services are all those that a snapshot shows as down, and none else, in the
/// order of the snapshot: there are positions, rising, of just the entries that are down,
/// and the names are those of the entries there.
pub proof fn law_failing_in_order(snapshot: Seq<(String, Option<ServiceStatus>)>)
    ensures
        exists|at: Seq<int>| #[trigger] are_positions_of_the_down(snapshot, failing(snapshot), at),
    decreases snapshot.len(),
{
    if snapshot.len() == 0 {
        assert(are_positions_of_the_down(snapshot, failing(snapshot), seq![]));
    } else {
        let rest = snapshot.drop_last();
        let n = snapshot.len() - 1;
        law_failing_in_order(rest);
        let at = choose|at: Seq<int>| #[trigger]
            are_positions_of_the_down(rest, failing(rest), at);
        let down = snapshot[n].1 matches Some(status) && !status.ok;
        let next = if down {
            at.push(n)
        } else {
            at
        };
        assert forall|i: int| 0 <= i < snapshot.len() && (
        (#[trigger] snapshot[i]).1 matches Some(status) && !status.ok) implies next.contains(i) by {
            if i < n {
                assert(rest[i] == snapshot[i]);
                let k = choose|k: int| 0 <= k < at.len() && at[k] == i;
                assert(next[k] == i);
            } else {
                assert(next[at.len() as int] == n);
            }
        }
        assert(are_positions_of_the_down(snapshot, failing(snapshot), next));
    }
}

/// Whether `at` are the positions, rising, of all entries of a snapshot that are down, and
/// `names` are the names that stand there.
pub open spec fn are_positions_of_the_down(
    snapshot: Seq<(String, Option<ServiceStatus>)>,
    names: Seq<Seq<char>>,
    at: Seq<int>,
) -> bool {
    &&& at.len() == names.len()
    &&& forall|k: int|
        0 <= k < at.len() ==> 0 <= #[trigger] at[k] < snapshot.len() && snapshot[at[k]].0@
            == names[k] && (snapshot[at[k]].1 matches Some(status) && !status.ok)
    &&& forall|k: int, l: int| 0 <= k < l < at.len() ==> #[trigger] at[k] < #[trigger] at[l]
    &&& forall|i: int|
        0 <= i < snapshot.len() && ((#[trigger] snapshot[i]).1 matches Some(status) && !status.ok)
            ==> at.contains(i)
}

/// Nothing but the results counts for whether all is well: every checked service is up
/// exactly when there is no position at which a snapshot shows a service as down.
pub proof fn law_all_up(snapshot: Seq<(String, Option<ServiceStatus>)>)
    ensures
        all_up(snapshot) <==> !exists|i: int|
            0 <= i < snapshot.len() && ((#[trigger] snapshot[i]).1 matches Some(status)
                && !status.ok),
{
}

} // verus!
