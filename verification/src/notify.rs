//! Notifications: rate-limited down messages while an outage lasts, one recovery message
//! when it ends.

use vstd::prelude::*;

use crate::config::{NotifyConfig, NtfyEntry};
use crate::state;
use crate::state::ServiceStatus;
use crate::text;
use crate::time::Timestamp;

verus! {

pub const DEFAULT_NTFY_BASE_URL: &'static str = "https://ntfy.sh";

/// What a notify entry remembers between ticks. Two entries never share it.
#[derive(Debug, Clone, Copy, PartialEq)]
pub struct NotifyState {
    /// When the last down message of the current outage went out.
    pub last_sent: Option<Timestamp>,
    /// Whether something was down at the last tick, or no recovery message has come
    /// through since.
    pub was_down: bool,
}

impl Default for NotifyState {
    fn default() -> (r: NotifyState)
        ensures
            r.last_sent is None,
            !r.was_down,
    {
        NotifyState { last_sent: None, was_down: false }
    }
}

#[derive(Debug, Clone, Copy, PartialEq, Eq)]
pub enum NotifyOutcome {
    /// Nothing failing, nothing to recover from.
    Quiet,
    /// Failing, but inside the rate-limit window.
    RateLimited,
    SentDown,
    /// The send failed: `last_sent` is untouched, the next tick tries again.
    SendFailed,
    Recovered,
    /// The recovery send failed: `was_down` stays, the next tick tries again.
    RecoveryFailed,
}

/// A message to send.
#[derive(Debug, Clone, PartialEq, Eq)]
pub struct Notification {
    pub title: String,
    pub tags: String,
    pub body: String,
}

/// What a tick says to do.
#[derive(Debug, Clone, PartialEq, Eq)]
pub enum NotifyStep {
    /// Nothing; the tick is over.
    Done(NotifyOutcome),
    SendDown(Notification),
    SendRecovery(Notification),
}

/// What is said of the failing services; nothing where none fails. Singular or plural,
/// the names in order with commas and a final `and`.
pub open spec fn down_message(failing: Seq<Seq<char>>) -> Option<Seq<char>> {
    if failing.len() == 0 {
        None
    } else if failing.len() == 1 {
        Some("1 service down: "@ + failing[0])
    } else {
        Some(
            text::decimal(failing.len()) + " services down: "@ + text::joined(
                failing.drop_last(),
                ", "@,
            ) + " and "@ + failing.last(),
        )
    }
}

/// The contents of a list of string slices.
pub open spec fn slices(list: Seq<&str>) -> Seq<Seq<char>> {
    Seq::new(list.len(), |i: int| list[i]@)
}

pub fn format_notification_message(failing: &[&str]) -> (r: Option<String>)
    ensures
        match down_message(slices(failing@)) {
            Some(message) => r matches Some(body) && body@ == message,
            None => r is None,
        },
{
    if failing.len() == 0 {
        return None;
    }
    if failing.len() == 1 {
        return Some("1 service down: ".to_string().concat(failing[0]));
    }
    let last: usize = failing.len() - 1;
    let mut init: Vec<String> = Vec::new();
    for i in 0..last
        invariant
            last == failing@.len() - 1,
            text::texts(init@) == slices(failing@).take(i as int),
    {
        let ghost before = init@;
        init.push(failing[i].to_string());
        proof {
            assert(text::texts(init@) == text::texts(before).push(failing@[i as int]@));
            assert(slices(failing@).take(i + 1) == slices(failing@).take(i as int).push(
                failing@[i as int]@,
            ));
        }
    }
    proof {
        assert(slices(failing@).take(last as int) == slices(failing@).drop_last());
    }
    Some(
        text::decimal_text(failing.len() as u64).concat(" services down: ").concat(
            text::join(init.as_slice(), ", ").as_str(),
        ).concat(" and ").concat(failing[last]),
    )
}

/// A message names every failing service.
pub proof fn law_message_names_every_failing_service(failing: Seq<Seq<char>>, i: int)
    requires
        0 <= i < failing.len(),
    ensures
        down_message(failing) is Some,
        text::contains_text(down_message(failing)->0, failing[i]),
{
    let message = down_message(failing)->0;
    if failing.len() == 1 {
        text::lemma_contains_part("1 service down: "@, failing[i], seq![]);
        assert(message == "1 service down: "@ + failing[i] + Seq::<char>::empty());
    } else {
        let count = text::decimal(failing.len()) + " services down: "@;
        let init = text::joined(failing.drop_last(), ", "@);
        if i == failing.len() - 1 {
            text::lemma_contains_part(count + init + " and "@, failing[i], seq![]);
            assert(message == (count + init + " and "@) + failing[i] + Seq::<char>::empty());
        } else {
            text::lemma_joined_contains(failing.drop_last(), ", "@, i);
            assert(failing.drop_last()[i] == failing[i]);
            text::lemma_contains_deeper(count, init, " and "@ + failing.last(), failing[i]);
            assert(message == count + init + (" and "@ + failing.last()));
        }
    }
}

/// Whether an entry's window since its last down message is over: more than `window`
/// nanoseconds, strictly.
pub open spec fn is_due(state: NotifyState, window: int, now: int) -> bool {
    state.last_sent matches Some(sent) ==> now - sent@ > window
}

/// The state once a tick has seen whether something is failing.
pub open spec fn after_look(state: NotifyState, failing: bool) -> NotifyState {
    NotifyState { last_sent: state.last_sent, was_down: state.was_down || failing }
}

/// Whether a tick sends a down message.
pub open spec fn sends_down(state: NotifyState, failing: bool, window: int, now: int) -> bool {
    failing && is_due(state, window, now)
}

/// Whether a tick sends a recovery message.
pub open spec fn sends_recovery(state: NotifyState, failing: bool) -> bool {
    !failing && state.was_down
}

/// What comes of a whole tick; `delivered` says whether the message, if one was sent,
/// came through.
pub open spec fn tick_outcome(
    state: NotifyState,
    failing: bool,
    window: int,
    now: int,
    delivered: bool,
) -> NotifyOutcome {
    if sends_down(state, failing, window, now) {
        if delivered {
            NotifyOutcome::SentDown
        } else {
            NotifyOutcome::SendFailed
        }
    } else if sends_recovery(state, failing) {
        if delivered {
            NotifyOutcome::Recovered
        } else {
            NotifyOutcome::RecoveryFailed
        }
    } else if failing {
        NotifyOutcome::RateLimited
    } else {
        NotifyOutcome::Quiet
    }
}

/// The state after a whole tick at `now`.
pub open spec fn tick_state(
    state: NotifyState,
    failing: bool,
    window: int,
    now: Timestamp,
    delivered: bool,
) -> NotifyState {
    match tick_outcome(state, failing, window, now@, delivered) {
        NotifyOutcome::SentDown => NotifyState { last_sent: Some(now), was_down: true },
        NotifyOutcome::Recovered => NotifyState { last_sent: None, was_down: false },
        _ => after_look(state, failing),
    }
}

/// What the first half of a tick says to do: whether and what it sends.
pub open spec fn is_planned(
    step: NotifyStep,
    state: NotifyState,
    failing: Seq<Seq<char>>,
    window: int,
    now: int,
) -> bool {
    let any = failing.len() > 0;
    if sends_down(state, any, window, now) {
        &&& step matches NotifyStep::SendDown(message)
        &&& message.title@ == "Service down"@
        &&& message.tags@ == "warning"@
        &&& down_message(failing) == Some(message.body@)
    } else if sends_recovery(state, any) {
        &&& step matches NotifyStep::SendRecovery(message)
        &&& message.title@ == "Services recovered"@
        &&& message.tags@ == "white_check_mark"@
        &&& message.body@ == "All services back up"@
    } else if any {
        step == NotifyStep::Done(NotifyOutcome::RateLimited)
    } else {
        step == NotifyStep::Done(NotifyOutcome::Quiet)
    }
}

/// What comes of a step; `delivered` says whether its message, if it has one, came
/// through.
pub open spec fn step_outcome(step: NotifyStep, delivered: bool) -> NotifyOutcome {
    match step {
        NotifyStep::Done(outcome) => outcome,
        NotifyStep::SendDown(_) => if delivered {
            NotifyOutcome::SentDown
        } else {
            NotifyOutcome::SendFailed
        },
        NotifyStep::SendRecovery(_) => if delivered {
            NotifyOutcome::Recovered
        } else {
            NotifyOutcome::RecoveryFailed
        },
    }
}

/// The state after a step at `now`. Only a delivered message changes anything.
pub open spec fn after_step(
    state: NotifyState,
    step: NotifyStep,
    delivered: bool,
    now: Timestamp,
) -> NotifyState {
    if !delivered {
        state
    } else {
        match step {
            NotifyStep::Done(_) => state,
            NotifyStep::SendDown(_) => NotifyState {
                last_sent: Some(now),
                was_down: state.was_down,
            },
            NotifyStep::SendRecovery(_) => NotifyState { last_sent: None, was_down: false },
        }
    }
}

/// The services that are known to be down, in order.
pub fn failing_services<'a>(snapshot: &'a [(String, Option<ServiceStatus>)]) -> (r: Vec<&'a str>)
    ensures
        slices(r@) == state::failing(snapshot@),
{
    let mut out: Vec<&'a str> = Vec::new();
    for i in 0..snapshot.len()
        invariant
            slices(out@) == state::failing(snapshot@.take(i as int)),
    {
        let ghost before = out@;
        proof {
            assert(snapshot@.take(i + 1).drop_last() == snapshot@.take(i as int));
        }
        if let Some(status) = &snapshot[i].1 {
            if !status.ok {
                let name = snapshot[i].0.as_str();
                out.push(name);
                proof {
                    assert(slices(out@) == slices(before).push(name@));
                }
            }
        }
    }
    proof {
        assert(snapshot@.take(snapshot@.len() as int) == snapshot@);
    }
    out
}

/// The first half of a tick: looks at the services, and says what to send. Something
/// failing is remembered at once, whether or not a message goes out.
pub fn notify_tick(
    snapshot: &[(String, Option<ServiceStatus>)],
    entry: &NotifyConfig,
    state: &mut NotifyState,
    now: Timestamp,
) -> (r: NotifyStep)
    ensures
        *final(state) == after_look(*old(state), state::failing(snapshot@).len() > 0),
        is_planned(
            r,
            *old(state),
            state::failing(snapshot@),
            entry.minutes_between_spec().nanoseconds as int,
            now@,
        ),
{
    let failing = failing_services(snapshot);
    proof {
        assert(slices(failing@).len() == failing@.len());
    }
    match format_notification_message(failing.as_slice()) {
        None => {
            if !state.was_down {
                return NotifyStep::Done(NotifyOutcome::Quiet);
            }
            NotifyStep::SendRecovery(
                Notification {
                    title: "Services recovered".to_string(),
                    tags: "white_check_mark".to_string(),
                    body: "All services back up".to_string(),
                },
            )
        },
        Some(body) => {
            state.was_down = true;
            let due = match state.last_sent {
                None => true,
                Some(sent) => now.nanoseconds_since(sent) > entry.minutes_between().nanoseconds,
            };
            if !due {
                return NotifyStep::Done(NotifyOutcome::RateLimited);
            }
            NotifyStep::SendDown(
                Notification {
                    title: "Service down".to_string(),
                    tags: "warning".to_string(),
                    body,
                },
            )
        },
    }
}

/// The second half of a tick: takes note of whether the message came through.
pub fn notify_sent(
    step: &NotifyStep,
    delivered: bool,
    state: &mut NotifyState,
    now: Timestamp,
) -> (r: NotifyOutcome)
    ensures
        r == step_outcome(*step, delivered),
        *final(state) == after_step(*old(state), *step, delivered, now),
{
    match step {
        NotifyStep::Done(outcome) => *outcome,
        NotifyStep::SendDown(_) => {
            if delivered {
                state.last_sent = Some(now);
                NotifyOutcome::SentDown
            } else {
                NotifyOutcome::SendFailed
            }
        },
        NotifyStep::SendRecovery(_) => {
            if delivered {
                state.was_down = false;
                state.last_sent = None;
                NotifyOutcome::Recovered
            } else {
                NotifyOutcome::RecoveryFailed
            }
        },
    }
}

/// The two halves of a tick together are the whole tick.
pub proof fn law_two_halves_make_a_tick(
    step: NotifyStep,
    state: NotifyState,
    failing: Seq<Seq<char>>,
    window: int,
    now: Timestamp,
    delivered: bool,
)
    requires
        is_planned(step, state, failing, window, now@),
    ensures
        step_outcome(step, delivered) == tick_outcome(
            state,
            failing.len() > 0,
            window,
            now@,
            delivered,
        ),
        after_step(after_look(state, failing.len() > 0), step, delivered, now) == tick_state(
            state,
            failing.len() > 0,
            window,
            now,
            delivered,
        ),
{
}

/// Which services fail changes the words of a message, and nothing else.
pub proof fn law_only_whether_something_fails_matters(
    step: NotifyStep,
    other: NotifyStep,
    state: NotifyState,
    failing: Seq<Seq<char>>,
    other_failing: Seq<Seq<char>>,
    window: int,
    now: Timestamp,
    delivered: bool,
)
    requires
        is_planned(step, state, failing, window, now@),
        is_planned(other, state, other_failing, window, now@),
        failing.len() > 0 <==> other_failing.len() > 0,
    ensures
        step_outcome(step, delivered) == step_outcome(other, delivered),
        after_step(after_look(state, failing.len() > 0), step, delivered, now) == after_step(
            after_look(state, other_failing.len() > 0),
            other,
            delivered,
            now,
        ),
{
}

/// With nothing down, and nothing down before, nothing is sent and nothing changes.
pub proof fn law_quiet_while_all_is_well(
    state: NotifyState,
    window: int,
    now: Timestamp,
    delivered: bool,
)
    requires
        !state.was_down,
    ensures
        tick_outcome(state, false, window, now@, delivered) == NotifyOutcome::Quiet,
        tick_state(state, false, window, now, delivered) == state,
{
}

/// A recovery message is never rate-limited: whenever it was that a message went out, the
/// first tick that finds nothing down sends it.
pub proof fn law_recovery_is_not_rate_limited(
    state: NotifyState,
    window: int,
    now: Timestamp,
    delivered: bool,
)
    requires
        state.was_down,
    ensures
        sends_recovery(state, false),
        tick_outcome(state, false, window, now@, delivered) == if delivered {
            NotifyOutcome::Recovered
        } else {
            NotifyOutcome::RecoveryFailed
        },
{
}

/// The window never carries over from one outage to the next: the first down message
/// after a recovery goes out at once, however soon it comes.
pub proof fn law_fresh_outage_is_reported_at_once(
    state: NotifyState,
    failing: bool,
    window: int,
    now: Timestamp,
    later: int,
)
    requires
        tick_outcome(state, failing, window, now@, true) == NotifyOutcome::Recovered,
    ensures
        sends_down(tick_state(state, failing, window, now, true), true, window, later),
{
}

/// The first tick that finds something down sends a message.
pub proof fn law_first_outage_is_reported_at_once(state: NotifyState, window: int, now: int)
    requires
        state.last_sent is None,
    ensures
        sends_down(state, true, window, now),
{
}

/// A message that did not come through is sent again by the next tick, unless there is
/// nothing left to report.
pub proof fn law_failed_send_is_retried(
    state: NotifyState,
    failing: bool,
    window: int,
    now: Timestamp,
    later: Timestamp,
)
    requires
        now@ <= later@,
    ensures
        ({
            let after = tick_state(state, failing, window, now, false);
            let outcome = tick_outcome(state, failing, window, now@, false);
            &&& after.last_sent == state.last_sent
            &&& outcome == NotifyOutcome::SendFailed ==> sends_down(after, true, window, later@)
                && sends_recovery(after, false)
            &&& outcome == NotifyOutcome::RecoveryFailed ==> after == state && sends_recovery(
                after,
                false,
            )
        }),
{
}

/// What is down is remembered by every tick, whether or not its message came through.
pub proof fn law_outage_is_remembered(
    state: NotifyState,
    window: int,
    now: Timestamp,
    delivered: bool,
)
    ensures
        tick_state(state, true, window, now, delivered).was_down,
{
}

/// The window ends strictly after its last nanosecond: exactly at its end nothing is sent.
pub proof fn law_window_is_strict(state: NotifyState, window: int, now: int)
    requires
        state.last_sent is Some,
    ensures
        sends_down(state, true, window, now) <==> now > state.last_sent->0@ + window,
{
}

/// With a window of no length every tick that finds something down sends a message, as
/// long as the clock moves on.
pub proof fn law_no_window_no_limit(state: NotifyState, now: int)
    requires
        state.last_sent matches Some(sent) ==> sent@ < now,
    ensures
        sends_down(state, true, 0, now),
{
}

/// One tick of an entry: whether something was failing, when it was, and whether the
/// message, if one was sent, came through.
pub struct Tick {
    pub failing: bool,
    pub now: Timestamp,
    pub delivered: bool,
}

/// The state after the first `n` ticks.
pub open spec fn state_after(start: NotifyState, window: int, ticks: Seq<Tick>, n: int) -> NotifyState
    decreases n,
{
    if n <= 0 {
        start
    } else {
        let tick = ticks[n - 1];
        tick_state(
            state_after(start, window, ticks, n - 1),
            tick.failing,
            window,
            tick.now,
            tick.delivered,
        )
    }
}

/// What came of tick `i`.
pub open spec fn outcome_at(start: NotifyState, window: int, ticks: Seq<Tick>, i: int) -> NotifyOutcome {
    tick_outcome(
        state_after(start, window, ticks, i),
        ticks[i].failing,
        window,
        ticks[i].now@,
        ticks[i].delivered,
    )
}

/// Whether a window is open only while an outage lasts.
pub open spec fn is_in_order(state: NotifyState) -> bool {
    state.last_sent is Some ==> state.was_down
}

/// An entry that starts with nothing down has a rate-limit window open only while an
/// outage lasts.
pub proof fn law_window_only_in_an_outage(
    start: NotifyState,
    window: int,
    ticks: Seq<Tick>,
    n: int,
)
    requires
        is_in_order(start),
        0 <= n <= ticks.len(),
    ensures
        is_in_order(state_after(start, window, ticks, n)),
    decreases n,
{
    if n > 0 {
        law_window_only_in_an_outage(start, window, ticks, n - 1);
    }
}

/// There is at most one recovery message per outage: between two of them something was
/// down.
pub proof fn law_one_recovery_per_outage(
    start: NotifyState,
    window: int,
    ticks: Seq<Tick>,
    i: int,
    j: int,
)
    requires
        0 <= i < j < ticks.len(),
        outcome_at(start, window, ticks, i) == NotifyOutcome::Recovered,
        outcome_at(start, window, ticks, j) == NotifyOutcome::Recovered,
    ensures
        exists|k: int| i < k < j && (#[trigger] ticks[k]).failing,
{
    if !exists|k: int| i < k < j && (#[trigger] ticks[k]).failing {
        lemma_nothing_down_stays_so(start, window, ticks, i + 1, j);
    }
}

/// A recovery message follows an outage: an entry that starts with nothing down sends none
/// before something was down.
pub proof fn law_recovery_follows_an_outage(
    start: NotifyState,
    window: int,
    ticks: Seq<Tick>,
    j: int,
)
    requires
        !start.was_down,
        0 <= j < ticks.len(),
        outcome_at(start, window, ticks, j) == NotifyOutcome::Recovered,
    ensures
        exists|k: int| 0 <= k < j && (#[trigger] ticks[k]).failing,
{
    if !exists|k: int| 0 <= k < j && (#[trigger] ticks[k]).failing {
        lemma_nothing_down_stays_so(start, window, ticks, 0, j);
    }
}

/// While nothing fails, an entry that has nothing to recover from stays so.
proof fn lemma_nothing_down_stays_so(
    start: NotifyState,
    window: int,
    ticks: Seq<Tick>,
    from: int,
    to: int,
)
    requires
        0 <= from <= to <= ticks.len(),
        !state_after(start, window, ticks, from).was_down,
        forall|k: int| from <= k < to ==> !(#[trigger] ticks[k]).failing,
    ensures
        !state_after(start, window, ticks, to).was_down,
    decreases to - from,
{
    if from < to {
        lemma_nothing_down_stays_so(start, window, ticks, from, to - 1);
        assert(!ticks[to - 1].failing);
    }
}

/// Within one outage, any two down messages that came through lie more than the window
/// apart.
pub proof fn law_down_messages_keep_their_distance(
    start: NotifyState,
    window: int,
    ticks: Seq<Tick>,
    i: int,
    j: int,
)
    requires
        window >= 0,
        0 <= i < j < ticks.len(),
        outcome_at(start, window, ticks, i) == NotifyOutcome::SentDown,
        outcome_at(start, window, ticks, j) == NotifyOutcome::SentDown,
        forall|k: int|
            i < k < j ==> #[trigger] outcome_at(start, window, ticks, k)
                != NotifyOutcome::Recovered,
    ensures
        ticks[j].now@ - ticks[i].now@ > window,
{
    lemma_last_sent(start, window, ticks, i, j);
}

/// After a down message and up to the next recovery, the last message is that one or lies
/// more than the window after it.
proof fn lemma_last_sent(start: NotifyState, window: int, ticks: Seq<Tick>, i: int, n: int)
    requires
        window >= 0,
        0 <= i < n <= ticks.len(),
        outcome_at(start, window, ticks, i) == NotifyOutcome::SentDown,
        forall|k: int|
            i < k < n ==> #[trigger] outcome_at(start, window, ticks, k)
                != NotifyOutcome::Recovered,
    ensures
        state_after(start, window, ticks, n).last_sent matches Some(sent) && (sent@
            == ticks[i].now@ || sent@ - ticks[i].now@ > window),
    decreases n - i,
{
    if n > i + 1 {
        lemma_last_sent(start, window, ticks, i, n - 1);
        assert(outcome_at(start, window, ticks, n - 1) != NotifyOutcome::Recovered);
    }
}

/// A request that publishes a notification: a POST of `body` to `url`, with the headers
/// `Title` and `Tags`.
#[derive(Debug, Clone, PartialEq, Eq)]
pub struct NtfyRequest {
    pub url: String,
    pub title: String,
    pub tags: String,
    pub body: String,
}

/// The request that publishes a notification to an entry's topic.
pub fn ntfy_request(entry: &NtfyEntry, base_url: &str, notification: &Notification) -> (r:
    NtfyRequest)
    ensures
        r.url@ == base_url@ + "/"@ + entry.topic@,
        r.title@ == notification.title@,
        r.tags@ == notification.tags@,
        r.body@ == notification.body@,
{
    NtfyRequest {
        url: base_url.to_string().concat("/").concat(entry.topic.as_str()),
        title: notification.title.clone(),
        tags: notification.tags.clone(),
        body: notification.body.clone(),
    }
}

/// The environment variable that overrides the base address of an entry's kind.
pub fn env_var(entry: &NotifyConfig) -> (r: &'static str)
    ensures
        r@ == match *entry {
            NotifyConfig::Ntfy(_) => "VARDE_NTFY_BASE_URL"@,
            NotifyConfig::Telegram(_) => "VARDE_TELEGRAM_BASE_URL"@,
            NotifyConfig::Pushover(_) => "VARDE_PUSHOVER_BASE_URL"@,
        },
{
    match entry {
        NotifyConfig::Ntfy(_) => "VARDE_NTFY_BASE_URL",
        NotifyConfig::Telegram(_) => "VARDE_TELEGRAM_BASE_URL",
        NotifyConfig::Pushover(_) => "VARDE_PUSHOVER_BASE_URL",
    }
}

/// The base address that an entry publishes to: the one that the environment gives, else
/// the default of its kind. Only ntfy has a default.
pub fn base_url(entry: &NotifyConfig, env_override: Option<String>) -> (r: Option<String>)
    ensures
        match env_override {
            Some(base) => r matches Some(url) && url@ == base@,
            None => if entry is Ntfy {
                r matches Some(url) && url@ == DEFAULT_NTFY_BASE_URL@
            } else {
                r is None
            },
        },
{
    match env_override {
        Some(base) => Some(base),
        None => match entry {
            NotifyConfig::Ntfy(_) => Some(DEFAULT_NTFY_BASE_URL.to_string()),
            NotifyConfig::Telegram(_) | NotifyConfig::Pushover(_) => None,
        },
    }
}

/// Whom an entry's messages reach.
pub open spec fn recipient_spec(entry: NotifyConfig) -> Seq<char> {
    match entry {
        NotifyConfig::Ntfy(entry) => entry.topic@,
        NotifyConfig::Telegram(entry) => entry.chat_id@,
        NotifyConfig::Pushover(entry) => entry.user_key@,
    }
}

pub fn recipient(entry: &NotifyConfig) -> (r: &str)
    ensures
        r@ == recipient_spec(*entry),
{
    match entry {
        NotifyConfig::Ntfy(entry) => entry.topic.as_str(),
        NotifyConfig::Telegram(entry) => entry.chat_id.as_str(),
        NotifyConfig::Pushover(entry) => entry.user_key.as_str(),
    }
}

/// What is sent to try an entry out.
pub fn test_notification() -> (r: Notification)
    ensures
        r.title@ == "Test notification"@,
        r.tags@ == "white_check_mark"@,
        r.body@ == "This is a test notification from varde"@,
{
    Notification {
        title: "Test notification".to_string(),
        tags: "white_check_mark".to_string(),
        body: "This is a test notification from varde".to_string(),
    }
}

/// The failing services are all those that a snapshot shows as down, and none else, in
/// order, each under its very name.
pub proof fn law_failing_services(
    snapshot: &[(String, Option<ServiceStatus>)],
    r: Vec<&str>,
    i: int,
)
    requires
        call_ensures(failing_services, (snapshot,), r),
    ensures
        exists|at: Seq<int>| #[trigger]
            state::are_positions_of_the_down(snapshot@, slices(r@), at),
        slices(r@).len() == r@.len(),
        forall|k: int| 0 <= k < r@.len() ==> #[trigger] slices(r@)[k] == r@[k]@,
        r@.len() > 0 <==> exists|k: int|
            0 <= k < snapshot@.len() && ((#[trigger] snapshot@[k]).1 matches Some(status)
                && !status.ok),
        0 <= i < snapshot@.len() && (snapshot@[i].1 matches Some(status) && !status.ok)
            ==> exists|k: int| 0 <= k < r@.len() && #[trigger] r@[k]@ == snapshot@[i].0@,
{
    let names = slices(r@);
    state::law_failing_in_order(snapshot@);
    let at = choose|at: Seq<int>| #[trigger]
        state::are_positions_of_the_down(snapshot@, names, at);
    if r@.len() > 0 {
        assert(snapshot@[at[0]].1 is Some);
    }
    if exists|k: int|
        0 <= k < snapshot@.len() && ((#[trigger] snapshot@[k]).1 matches Some(status)
            && !status.ok) {
        let k = choose|k: int|
            0 <= k < snapshot@.len() && ((#[trigger] snapshot@[k]).1 matches Some(status)
                && !status.ok);
        assert(at.contains(k));
    }
    if 0 <= i < snapshot@.len() && (snapshot@[i].1 matches Some(status) && !status.ok) {
        assert(at.contains(i));
        let k = choose|k: int| 0 <= k < at.len() && at[k] == i;
        assert(names[k] == snapshot@[at[k]].0@);
        assert(r@[k]@ == snapshot@[i].0@);
    }
}

/// The words of a message: how many services are down, in decimal, then all their names in
/// order, with commas between them and `and` before the last; there is no message for none.
pub proof fn law_words_of_a_message(
    failing: &[&str],
    r: Option<String>,
    count: u64,
    number: String,
    front: &[String],
    list: String,
)
    requires
        call_ensures(format_notification_message, (failing,), r),
        count == failing@.len(),
        call_ensures(text::decimal_text, (count,), number),
        failing@.len() > 0 ==> front@.len() == failing@.len() - 1,
        forall|i: int| 0 <= i < front@.len() ==> (#[trigger] front@[i])@ == failing@[i]@,
        call_ensures(text::join, (front, ", "), list),
    ensures
        r is None <==> failing@.len() == 0,
        failing@.len() == 1 ==> r->0@ == number@ + " service down: "@ + failing@[0]@,
        failing@.len() > 1 ==> r->0@ == number@ + " services down: "@ + list@ + " and "@
            + failing@[failing@.len() - 1]@,
{
    let names = slices(failing@);
    if failing@.len() == 1 {
        reveal_strlit("1 service down: ");
        reveal_strlit(" service down: ");
        assert(number@ == seq!['1']);
        assert("1 service down: "@ == number@ + " service down: "@);
        assert(names[0] == failing@[0]@);
    }
    if failing@.len() > 1 {
        assert(text::texts(front@) == names.drop_last());
        assert(names.last() == failing@[failing@.len() - 1]@);
    }
}

/// A down message reports all that is down: its words are those for the services that the
/// snapshot shows as down, all of them, whatever was sent before; its title and tags are
/// always the same. So it names every service that is down.
pub proof fn law_down_message_reports_all(
    snapshot: &[(String, Option<ServiceStatus>)],
    entry: &NotifyConfig,
    state: &mut NotifyState,
    now: Timestamp,
    message: Notification,
    failing: Vec<&str>,
    list: &[&str],
    body: Option<String>,
    i: int,
)
    requires
        call_ensures(
            notify_tick,
            (snapshot, entry, state, now),
            NotifyStep::SendDown(message),
        ),
        call_ensures(failing_services, (snapshot,), failing),
        list@ == failing@,
        call_ensures(format_notification_message, (list,), body),
    ensures
        body is Some && message.body@ == body->0@,
        message.title@ == "Service down"@,
        message.tags@ == "warning"@,
        0 <= i < snapshot@.len() && (snapshot@[i].1 matches Some(status) && !status.ok)
            ==> exists|before: Seq<char>, after: Seq<char>|
            message.body@ == #[trigger] (before + snapshot@[i].0@ + after),
{
    let names = state::failing(snapshot@);
    assert(slices(failing@) == names);
    if 0 <= i < snapshot@.len() && (snapshot@[i].1 matches Some(status) && !status.ok) {
        let name = snapshot@[i].0@;
        law_failing_services(snapshot, failing, i);
        let k = choose|k: int| 0 <= k < failing@.len() && #[trigger] failing@[k]@ == name;
        assert(names[k] == name);
        law_message_names_every_failing_service(names, k);
        text::law_contains_text(message.body@, name);
    }
}

/// Two down messages about one snapshot are the same, whatever the two entries remember
/// and whenever they are sent: the first message of an outage and the last reminder alike.
pub proof fn law_down_messages_are_alike(
    snapshot: &[(String, Option<ServiceStatus>)],
    entry: &NotifyConfig,
    state: &mut NotifyState,
    now: Timestamp,
    message: Notification,
    other_entry: &NotifyConfig,
    other_state: &mut NotifyState,
    other_now: Timestamp,
    other_message: Notification,
)
    requires
        call_ensures(
            notify_tick,
            (snapshot, entry, state, now),
            NotifyStep::SendDown(message),
        ),
        call_ensures(
            notify_tick,
            (snapshot, other_entry, other_state, other_now),
            NotifyStep::SendDown(other_message),
        ),
    ensures
        message.title@ == other_message.title@,
        message.tags@ == other_message.tags@,
        message.body@ == other_message.body@,
{
}

/// When a tick says what. With something shown as down, it sends a down message exactly
/// when none has come through in this outage or more than the entry's minutes have passed
/// since the last one, however long that is; if not, it is rate-limited. With nothing
/// shown as down, it sends a recovery message exactly when something was down before; if
/// not, all is quiet. What it remembers is that something is down; nothing else changes.
pub proof fn law_when_a_tick_sends(
    snapshot: &[(String, Option<ServiceStatus>)],
    entry: &NotifyConfig,
    state: &mut NotifyState,
    now: Timestamp,
    step: NotifyStep,
    at: i128,
    sent: i128,
)
    requires
        call_ensures(notify_tick, (snapshot, entry, state, now), step),
        call_ensures(Timestamp::as_nanosecond, (now,), at),
        old(state).last_sent matches Some(t) ==> call_ensures(
            Timestamp::as_nanosecond,
            (t,),
            sent,
        ),
    ensures
        ({
            let down = exists|k: int|
                0 <= k < snapshot@.len() && ((#[trigger] snapshot@[k]).1 matches Some(status)
                    && !status.ok);
            let window = match *entry {
                NotifyConfig::Ntfy(e) => e.minutes_between.nanoseconds,
                NotifyConfig::Telegram(e) => e.minutes_between.nanoseconds,
                NotifyConfig::Pushover(e) => e.minutes_between.nanoseconds,
            };
            let due = old(state).last_sent is None || at - sent > window;
            &&& step is SendDown <==> down && due
            &&& step == NotifyStep::Done(NotifyOutcome::RateLimited) <==> down && !due
            &&& step is SendRecovery <==> !down && old(state).was_down
            &&& step == NotifyStep::Done(NotifyOutcome::Quiet) <==> !down && !old(state).was_down
            &&& final(state).last_sent == old(state).last_sent
            &&& final(state).was_down <==> old(state).was_down || down
        }),
        step matches NotifyStep::SendRecovery(message) ==> message.title@ == "Services recovered"@
            && message.tags@ == "white_check_mark"@ && message.body@ == "All services back up"@,
{
    state::law_all_up_iff_none_failing(snapshot@);
    state::law_all_up(snapshot@);
}

/// What comes of a step. A message that came through is the outcome, and changes what is
/// remembered: of a down message, when it went out; of a recovery message, that nothing is
/// down and none has gone out. One that did not come through changes nothing.
pub proof fn law_what_comes_of_a_step(
    step: &NotifyStep,
    delivered: bool,
    state: &mut NotifyState,
    now: Timestamp,
    r: NotifyOutcome,
)
    requires
        call_ensures(notify_sent, (step, delivered, state, now), r),
    ensures
        *step matches NotifyStep::Done(outcome) ==> r == outcome,
        r == NotifyOutcome::SentDown && *step !is Done ==> *step is SendDown && delivered,
        *step is SendDown ==> r == if delivered {
            NotifyOutcome::SentDown
        } else {
            NotifyOutcome::SendFailed
        },
        *step is SendRecovery ==> r == if delivered {
            NotifyOutcome::Recovered
        } else {
            NotifyOutcome::RecoveryFailed
        },
        !delivered || *step is Done ==> final(state).last_sent == old(state).last_sent
            && final(state).was_down == old(state).was_down,
        delivered && *step is SendDown ==> final(state).last_sent == Some(now)
            && final(state).was_down == old(state).was_down,
        delivered && *step is SendRecovery ==> final(state).last_sent is None,
        delivered && *step is SendRecovery ==> !final(state).was_down,
{
}

/// A whole tick, in both halves, comes to what it is meant to: a down message exactly when
/// one is due, a recovery message exactly when an outage is over, and the state that goes
/// with it.
pub proof fn law_whole_tick(
    state: NotifyState,
    failing: bool,
    window: int,
    now: Timestamp,
    delivered: bool,
)
    ensures
        ({
            let due = state.last_sent matches Some(sent) ==> now@ - sent@ > window;
            let outcome = tick_outcome(state, failing, window, now@, delivered);
            let after = tick_state(state, failing, window, now, delivered);
            &&& outcome == NotifyOutcome::SentDown <==> failing && due && delivered
            &&& outcome == NotifyOutcome::SendFailed <==> failing && due && !delivered
            &&& outcome == NotifyOutcome::RateLimited <==> failing && !due
            &&& outcome == NotifyOutcome::Recovered <==> !failing && state.was_down && delivered
            &&& outcome == NotifyOutcome::RecoveryFailed <==> !failing && state.was_down
                && !delivered
            &&& outcome == NotifyOutcome::Quiet <==> !failing && !state.was_down
            &&& after.last_sent == if failing && due && delivered {
                Some(now)
            } else if !failing && state.was_down && delivered {
                None
            } else {
                state.last_sent
            }
            &&& after.was_down <==> failing || state.was_down && !delivered
        }),
{
}

/// An entry starts with nothing down and nothing sent.
pub proof fn law_start(state: NotifyState)
    requires
        call_ensures(<NotifyState as Default>::default, (), state),
    ensures
        state.last_sent is None && !state.was_down,
{
}

/// A notification is published as it is, to its entry's topic under the base address.
pub proof fn law_request(
    entry: &NtfyEntry,
    base_url: &str,
    notification: &Notification,
    r: NtfyRequest,
)
    requires
        call_ensures(ntfy_request, (entry, base_url, notification), r),
    ensures
        r.url@ == base_url@ + seq!['/'] + entry.topic@,
        r.title@ == notification.title@,
        r.tags@ == notification.tags@,
        r.body@ == notification.body@,
{
    reveal_strlit("/");
    assert("/"@ == seq!['/']);
}

/// Each type of entry has its own variable, its own address and its own kind of recipient.
pub proof fn law_addresses(
    entry: &NotifyConfig,
    env_override: Option<String>,
    variable: &'static str,
    address: Option<String>,
    to: &str,
)
    requires
        call_ensures(env_var, (entry,), variable),
        call_ensures(base_url, (entry, env_override), address),
        call_ensures(recipient, (entry,), to),
    ensures
        env_override matches Some(base) ==> address is Some && address->0@ == base@,
        match *entry {
            NotifyConfig::Ntfy(e) => variable@ == "VARDE_NTFY_BASE_URL"@ && to@ == e.topic@ && (
            env_override is None ==> address is Some && address->0@ == "https://ntfy.sh"@),
            NotifyConfig::Telegram(e) => variable@ == "VARDE_TELEGRAM_BASE_URL"@ && to@
                == e.chat_id@ && (env_override is None ==> address is None),
            NotifyConfig::Pushover(e) => variable@ == "VARDE_PUSHOVER_BASE_URL"@ && to@
                == e.user_key@ && (env_override is None ==> address is None),
        },
{
}

/// A test message is none of the messages about services.
pub proof fn law_test_message(r: Notification)
    requires
        call_ensures(test_notification, (), r),
    ensures
        r.title@ != "Service down"@ && r.title@ != "Services recovered"@,
        r.body@ == "This is a test notification from varde"@,
        r.tags@ == "white_check_mark"@,
{
    reveal_strlit("Test notification");
    reveal_strlit("Service down");
    reveal_strlit("Services recovered");
    assert("Test notification"@.len() == 17 && "Service down"@.len() == 12
        && "Services recovered"@.len() == 18);
}

} // verus!
