//! The configuration: what it holds, and which configurations are accepted.

use vstd::hash_set::StringHashSet;
use vstd::prelude::*;

use crate::schedule::Schedule;
use crate::text;

verus! {

pub const DEFAULT_CONFIG_PATH: &'static str = "/config/config.json";

/// The type of a notify entry that gives none.
pub const DEFAULT_NOTIFY_TYPE: &'static str = "ntfy";

#[derive(Debug, Clone, PartialEq)]
pub struct Config {
    pub services: Vec<ServiceConfig>,
    pub heartbeat: Option<HeartbeatConfig>,
    pub notify: Vec<NotifyConfig>,
}

#[derive(Debug, Clone, PartialEq)]
pub struct ServiceConfig {
    /// The service's identity: no two services share it.
    pub service: String,
    pub schedule: Schedule,
    pub url: String,
    /// The one status code of a healthy answer.
    pub ok_status_code: u16,
}

#[derive(Debug, Clone, PartialEq)]
pub enum HeartbeatConfig {
    HealthchecksIo { uuid: String, schedule: Schedule },
    Httpbin { schedule: Schedule },
}

/// A number of minutes, whole or fractional. A time span is longer than this many minutes
/// exactly when it has more than `nanoseconds` nanoseconds: a fraction of a nanosecond is
/// rounded down.
#[derive(Debug, Clone, PartialEq)]
pub struct Minutes {
    /// The number in decimal, for messages.
    pub text: String,
    pub nanoseconds: i128,
}

#[derive(Debug, Clone, PartialEq)]
pub struct NtfyEntry {
    pub topic: String,
    pub schedule: Schedule,
    pub minutes_between: Minutes,
}

#[derive(Debug, Clone, PartialEq)]
pub struct TelegramEntry {
    pub bot_token: String,
    pub chat_id: String,
    pub schedule: Schedule,
    pub minutes_between: Minutes,
}

#[derive(Debug, Clone, PartialEq)]
pub struct PushoverEntry {
    pub api_token: String,
    pub user_key: String,
    pub priority: Option<i8>,
    pub schedule: Schedule,
    pub minutes_between: Minutes,
}

#[derive(Debug, Clone, PartialEq)]
pub enum NotifyConfig {
    Ntfy(NtfyEntry),
    Telegram(TelegramEntry),
    Pushover(PushoverEntry),
}

impl HeartbeatConfig {
    pub open spec fn schedule_spec(self) -> Schedule {
        match self {
            HeartbeatConfig::HealthchecksIo { uuid, schedule } => schedule,
            HeartbeatConfig::Httpbin { schedule } => schedule,
        }
    }

    pub fn schedule(&self) -> (r: &Schedule)
        ensures
            *r == self.schedule_spec(),
    {
        match self {
            HeartbeatConfig::HealthchecksIo { uuid: _, schedule } => schedule,
            HeartbeatConfig::Httpbin { schedule } => schedule,
        }
    }
}

impl NotifyConfig {
    pub open spec fn schedule_spec(self) -> Schedule {
        match self {
            NotifyConfig::Ntfy(entry) => entry.schedule,
            NotifyConfig::Telegram(entry) => entry.schedule,
            NotifyConfig::Pushover(entry) => entry.schedule,
        }
    }

    pub open spec fn minutes_between_spec(self) -> Minutes {
        match self {
            NotifyConfig::Ntfy(entry) => entry.minutes_between,
            NotifyConfig::Telegram(entry) => entry.minutes_between,
            NotifyConfig::Pushover(entry) => entry.minutes_between,
        }
    }

    /// The name that the configuration has for this kind of entry.
    pub open spec fn kind_spec(self) -> Seq<char> {
        match self {
            NotifyConfig::Ntfy(_) => "ntfy"@,
            NotifyConfig::Telegram(_) => "telegram"@,
            NotifyConfig::Pushover(_) => "pushover"@,
        }
    }

    pub fn schedule(&self) -> (r: &Schedule)
        ensures
            *r == self.schedule_spec(),
    {
        match self {
            NotifyConfig::Ntfy(entry) => &entry.schedule,
            NotifyConfig::Telegram(entry) => &entry.schedule,
            NotifyConfig::Pushover(entry) => &entry.schedule,
        }
    }

    pub fn minutes_between(&self) -> (r: &Minutes)
        ensures
            *r == self.minutes_between_spec(),
    {
        match self {
            NotifyConfig::Ntfy(entry) => &entry.minutes_between,
            NotifyConfig::Telegram(entry) => &entry.minutes_between,
            NotifyConfig::Pushover(entry) => &entry.minutes_between,
        }
    }

    pub fn kind(&self) -> (r: &'static str)
        ensures
            r@ == self.kind_spec(),
    {
        match self {
            NotifyConfig::Ntfy(_) => "ntfy",
            NotifyConfig::Telegram(_) => "telegram",
            NotifyConfig::Pushover(_) => "pushover",
        }
    }
}

/// Why a configuration is not accepted.
#[derive(Debug, Clone, PartialEq)]
pub enum ConfigError {
    Read { path: String, message: String },
    Json { message: String },
    Shape { location: String, message: String },
    EmptyServiceName { index: usize },
    DuplicateService { name: String },
    StatusCodeRange { service: String, code: u16 },
    EmptyUuid,
    NegativeMinutesBetween { index: usize, value: String },
}

/// The contents of a `ConfigError`.
pub enum Fault {
    Read { path: Seq<char>, message: Seq<char> },
    Json { message: Seq<char> },
    Shape { location: Seq<char>, message: Seq<char> },
    EmptyServiceName { index: nat },
    DuplicateService { name: Seq<char> },
    StatusCodeRange { service: Seq<char>, code: nat },
    EmptyUuid,
    NegativeMinutesBetween { index: nat, value: Seq<char> },
}

/// What is said of a fault; it always names the culprit.
pub open spec fn fault_text(fault: Fault) -> Seq<char> {
    match fault {
        Fault::Read { path, message } => "cannot read config file "@ + path + ": "@ + message,
        Fault::Json { message } => "config is not valid JSON: "@ + message,
        Fault::Shape { location, message } => "invalid config at `"@ + location + "`: "@ + message,
        Fault::EmptyServiceName { index } => "services["@ + text::decimal(index)
            + "].service must not be empty"@,
        Fault::DuplicateService { name } => "duplicate service name \""@ + name + "\""@,
        Fault::StatusCodeRange { service, code } => "service \""@ + service
            + "\" has okStatusCode "@ + text::decimal(code) + " outside 1..=599"@,
        Fault::EmptyUuid => "heartbeat uuid must not be empty"@,
        Fault::NegativeMinutesBetween { index, value } => "notify["@ + text::decimal(index)
            + "] has negative minutesBetween "@ + value,
    }
}

impl View for ConfigError {
    type V = Fault;

    open spec fn view(&self) -> Fault {
        match *self {
            ConfigError::Read { path, message } => Fault::Read { path: path@, message: message@ },
            ConfigError::Json { message } => Fault::Json { message: message@ },
            ConfigError::Shape { location, message } => Fault::Shape {
                location: location@,
                message: message@,
            },
            ConfigError::EmptyServiceName { index } => Fault::EmptyServiceName {
                index: index as nat,
            },
            ConfigError::DuplicateService { name } => Fault::DuplicateService { name: name@ },
            ConfigError::StatusCodeRange { service, code } => Fault::StatusCodeRange {
                service: service@,
                code: code as nat,
            },
            ConfigError::EmptyUuid => Fault::EmptyUuid,
            ConfigError::NegativeMinutesBetween { index, value } => Fault::NegativeMinutesBetween {
                index: index as nat,
                value: value@,
            },
        }
    }
}

impl ConfigError {
    pub fn to_string(&self) -> (r: String)
        ensures
            r@ == fault_text(self@),
    {
        match self {
            ConfigError::Read { path, message } => "cannot read config file ".to_string().concat(
                path.as_str(),
            ).concat(": ").concat(message.as_str()),
            ConfigError::Json { message } => "config is not valid JSON: ".to_string().concat(
                message.as_str(),
            ),
            ConfigError::Shape { location, message } => "invalid config at `".to_string().concat(
                location.as_str(),
            ).concat("`: ").concat(message.as_str()),
            ConfigError::EmptyServiceName { index } => "services[".to_string().concat(
                text::decimal_text(*index as u64).as_str(),
            ).concat("].service must not be empty"),
            ConfigError::DuplicateService { name } => "duplicate service name \"".to_string().concat(
                name.as_str(),
            ).concat("\""),
            ConfigError::StatusCodeRange { service, code } => "service \"".to_string().concat(
                service.as_str(),
            ).concat("\" has okStatusCode ").concat(
                text::decimal_text(*code as u64).as_str(),
            ).concat(" outside 1..=599"),
            ConfigError::EmptyUuid => "heartbeat uuid must not be empty".to_string(),
            ConfigError::NegativeMinutesBetween { index, value } => "notify[".to_string().concat(
                text::decimal_text(*index as u64).as_str(),
            ).concat("] has negative minutesBetween ").concat(value.as_str()),
        }
    }
}

/// Whether a service before the one at `index` has its name.
pub open spec fn name_is_taken(services: Seq<ServiceConfig>, index: int) -> bool {
    exists|j: int| 0 <= j < index && #[trigger] services[j].service@ == services[index].service@
}

/// What is wrong with the service at `index`, the services before it being in order.
pub open spec fn service_fault(services: Seq<ServiceConfig>, index: int) -> Option<Fault> {
    let service = services[index];
    if service.service@.len() == 0 {
        Some(Fault::EmptyServiceName { index: index as nat })
    } else if name_is_taken(services, index) {
        Some(Fault::DuplicateService { name: service.service@ })
    } else if !(1 <= service.ok_status_code <= 599) {
        Some(
            Fault::StatusCodeRange {
                service: service.service@,
                code: service.ok_status_code as nat,
            },
        )
    } else {
        None
    }
}

/// The first fault among the first `n` services.
pub open spec fn first_service_fault(services: Seq<ServiceConfig>, n: int) -> Option<Fault>
    decreases n,
{
    if n <= 0 {
        None
    } else {
        match first_service_fault(services, n - 1) {
            Some(fault) => Some(fault),
            None => service_fault(services, n - 1),
        }
    }
}

pub open spec fn heartbeat_fault(heartbeat: Option<HeartbeatConfig>) -> Option<Fault> {
    match heartbeat {
        Some(HeartbeatConfig::HealthchecksIo { uuid, schedule }) if uuid@.len() == 0 => Some(
            Fault::EmptyUuid,
        ),
        _ => None,
    }
}

/// The first fault among the first `n` notify entries.
pub open spec fn first_notify_fault(notify: Seq<NotifyConfig>, n: int) -> Option<Fault>
    decreases n,
{
    if n <= 0 {
        None
    } else {
        match first_notify_fault(notify, n - 1) {
            Some(fault) => Some(fault),
            None => if notify[n - 1].minutes_between_spec().nanoseconds < 0 {
                Some(
                    Fault::NegativeMinutesBetween {
                        index: (n - 1) as nat,
                        value: notify[n - 1].minutes_between_spec().text@,
                    },
                )
            } else {
                None
            },
        }
    }
}

/// The first fault of a configuration: services first, in order, then the heartbeat, then
/// the notify entries, in order.
pub open spec fn first_fault(config: Config) -> Option<Fault> {
    match first_service_fault(config.services@, config.services@.len() as int) {
        Some(fault) => Some(fault),
        None => match heartbeat_fault(config.heartbeat) {
            Some(fault) => Some(fault),
            None => first_notify_fault(config.notify@, config.notify@.len() as int),
        },
    }
}

/// Whether a set holds the names of the first `n` services.
spec fn holds_names(names: Set<Seq<char>>, services: Seq<ServiceConfig>, n: int) -> bool {
    forall|name: Seq<char>|
        #[trigger] names.contains(name) <==> exists|j: int|
            0 <= j < n && #[trigger] services[j].service@ == name
}

/// What is wrong with the service at `index`; `names` holds the names of those before it,
/// and takes its name where nothing is wrong.
fn check_service(services: &Vec<ServiceConfig>, index: usize, names: &mut StringHashSet) -> (r:
    Option<ConfigError>)
    requires
        index < services.len(),
        holds_names(old(names)@, services@, index as int),
    ensures
        match service_fault(services@, index as int) {
            Some(fault) => r matches Some(error) && error@ == fault,
            None => r is None && holds_names(final(names)@, services@, index + 1),
        },
{
    let service = &services[index];
    if service.service.as_str().is_empty() {
        return Some(ConfigError::EmptyServiceName { index });
    }
    let ghost before = names@;
    let fresh = names.insert(service.service.clone());
    proof {
        assert(before.contains(service.service@) == name_is_taken(services@, index as int));
        lemma_name_added(before, services@, index as int);
    }
    if !fresh {
        return Some(ConfigError::DuplicateService { name: service.service.clone() });
    }
    if !(1 <= service.ok_status_code && service.ok_status_code <= 599) {
        return Some(
            ConfigError::StatusCodeRange {
                service: service.service.clone(),
                code: service.ok_status_code,
            },
        );
    }
    None
}

/// With the name of the next service added, a set holds one name more.
proof fn lemma_name_added(names: Set<Seq<char>>, services: Seq<ServiceConfig>, n: int)
    requires
        0 <= n < services.len(),
        holds_names(names, services, n),
    ensures
        holds_names(names.insert(services[n].service@), services, n + 1),
{
    let added = names.insert(services[n].service@);
    assert forall|name: Seq<char>| #[trigger]
        added.contains(name) <==> exists|j: int|
            0 <= j < n + 1 && #[trigger] services[j].service@ == name by {
        if names.contains(name) {
            let j = choose|j: int| 0 <= j < n && #[trigger] services[j].service@ == name;
            assert(0 <= j < n + 1 && services[j].service@ == name);
        }
        if exists|j: int| 0 <= j < n + 1 && #[trigger] services[j].service@ == name {
            let j = choose|j: int| 0 <= j < n + 1 && #[trigger] services[j].service@ == name;
            if j < n {
                assert(names.contains(name));
            }
        }
    }
}

/// Accepts a configuration, or names its first fault.
pub fn validate(config: &Config) -> (r: Result<(), ConfigError>)
    ensures
        match first_fault(*config) {
            Some(fault) => r matches Err(error) && error@ == fault,
            None => r is Ok,
        },
{
    let mut names = StringHashSet::new();
    for i in 0..config.services.len()
        invariant
            first_service_fault(config.services@, i as int) is None,
            holds_names(names@, config.services@, i as int),
    {
        if let Some(error) = check_service(&config.services, i, &mut names) {
            proof {
                lemma_first_service_fault_stays(config.services@, i + 1, config.services@.len() as int);
            }
            return Err(error);
        }
    }
    if let Some(HeartbeatConfig::HealthchecksIo { uuid, schedule: _ }) = &config.heartbeat {
        if uuid.as_str().is_empty() {
            return Err(ConfigError::EmptyUuid);
        }
    }
    for i in 0..config.notify.len()
        invariant
            first_service_fault(config.services@, config.services@.len() as int) is None,
            heartbeat_fault(config.heartbeat) is None,
            first_notify_fault(config.notify@, i as int) is None,
    {
        let minutes = config.notify[i].minutes_between();
        if minutes.nanoseconds < 0 {
            proof {
                lemma_first_notify_fault_stays(config.notify@, i + 1, config.notify@.len() as int);
            }
            return Err(
                ConfigError::NegativeMinutesBetween { index: i, value: minutes.text.clone() },
            );
        }
    }
    Ok(())
}

/// What comes after the first fault does not matter.
proof fn lemma_first_service_fault_stays(services: Seq<ServiceConfig>, n: int, m: int)
    requires
        n <= m,
        first_service_fault(services, n) is Some,
    ensures
        first_service_fault(services, m) == first_service_fault(services, n),
    decreases m - n,
{
    if n < m {
        lemma_first_service_fault_stays(services, n, m - 1);
    }
}

/// What comes after the first fault does not matter.
proof fn lemma_first_notify_fault_stays(notify: Seq<NotifyConfig>, n: int, m: int)
    requires
        n <= m,
        first_notify_fault(notify, n) is Some,
    ensures
        first_notify_fault(notify, m) == first_notify_fault(notify, n),
    decreases m - n,
{
    if n < m {
        lemma_first_notify_fault_stays(notify, n, m - 1);
    }
}

/// What made a text no configuration: text that is not JSON or breaks off, JSON that is
/// no configuration, or a failure to read on.
#[derive(Debug, Clone, Copy, PartialEq, Eq)]
pub enum JsonCategory {
    Syntax,
    Eof,
    Data,
    Io,
}

/// What came of reading and parsing the configuration file.
#[derive(Debug, Clone, PartialEq)]
pub enum ConfigSource {
    /// The file could not be read.
    Unreadable { path: String, message: String },
    /// The text could not be parsed; `location` is the path of the offending field.
    Unparsable { category: JsonCategory, location: String, message: String },
    Parsed(Config),
}

pub open spec fn source_fault(source: ConfigSource) -> Option<Fault> {
    match source {
        ConfigSource::Unreadable { path, message } => Some(
            Fault::Read { path: path@, message: message@ },
        ),
        ConfigSource::Unparsable { category, location, message } => Some(
            if category is Syntax || category is Eof {
                Fault::Json { message: message@ }
            } else {
                Fault::Shape { location: location@, message: message@ }
            },
        ),
        ConfigSource::Parsed(config) => first_fault(config),
    }
}

/// Accepts what was read as the configuration, unchanged, or says why not.
pub fn load(source: ConfigSource) -> (r: Result<Config, ConfigError>)
    ensures
        match source_fault(source) {
            Some(fault) => r matches Err(error) && error@ == fault,
            None => r matches Ok(config) && source == ConfigSource::Parsed(config),
        },
{
    match source {
        ConfigSource::Unreadable { path, message } => Err(ConfigError::Read { path, message }),
        ConfigSource::Unparsable { category, location, message } => match category {
            JsonCategory::Syntax | JsonCategory::Eof => Err(ConfigError::Json { message }),
            JsonCategory::Data | JsonCategory::Io => Err(ConfigError::Shape { location, message }),
        },
        ConfigSource::Parsed(config) => match validate(&config) {
            Ok(_) => Ok(config),
            Err(error) => Err(error),
        },
    }
}

/// The type of a notify entry: the one that it gives, else `ntfy`.
pub fn notify_type(given: Option<String>) -> (r: String)
    ensures
        r@ == match given {
            Some(kind) => kind@,
            None => DEFAULT_NOTIFY_TYPE@,
        },
{
    match given {
        Some(kind) => kind,
        None => DEFAULT_NOTIFY_TYPE.to_string(),
    }
}

/// The path of the configuration file: the one that the environment gives, else
/// `/config/config.json`.
pub fn config_path(env_override: Option<String>) -> (r: String)
    ensures
        r@ == match env_override {
            Some(path) => path@,
            None => DEFAULT_CONFIG_PATH@,
        },
{
    match env_override {
        Some(path) => path,
        None => DEFAULT_CONFIG_PATH.to_string(),
    }
}

/// A configuration that can be honored in full: every service has a name, no two the same
/// one, and expects a status code from 1 to 599; a healthchecks.io heartbeat has a uuid;
/// no notify entry waits a negative time.
pub open spec fn is_valid(config: Config) -> bool {
    &&& forall|i: int|
        0 <= i < config.services@.len() ==> (#[trigger] config.services@[i]).service@.len() > 0
    &&& forall|i: int, j: int|
        0 <= i < j < config.services@.len() ==> (#[trigger] config.services@[i]).service@ != (
        #[trigger] config.services@[j]).service@
    &&& forall|i: int|
        0 <= i < config.services@.len() ==> 1 <= (
        #[trigger] config.services@[i]).ok_status_code <= 599
    &&& config.heartbeat matches Some(HeartbeatConfig::HealthchecksIo { uuid, schedule })
        ==> uuid@.len() > 0
    &&& forall|i: int|
        0 <= i < config.notify@.len() ==> (
        #[trigger] config.notify@[i]).minutes_between_spec().nanoseconds >= 0
}

/// The configurations that are accepted are exactly those that can be honored in full.
pub proof fn law_accepted_iff_valid(config: Config)
    ensures
        first_fault(config) is None <==> is_valid(config),
{
    lemma_no_service_fault(config.services@, config.services@.len() as int);
    lemma_no_notify_fault(config.notify@, config.notify@.len() as int);
    if is_valid(config) {
        assert forall|i: int| 0 <= i < config.services@.len() implies #[trigger] service_fault(
            config.services@,
            i,
        ) is None by {
            assert(config.services@[i].service@.len() > 0);
        }
    }
    if first_fault(config) is None {
        assert forall|i: int| 0 <= i < config.services@.len() implies (
        #[trigger] config.services@[i]).service@.len() > 0 && 1
            <= config.services@[i].ok_status_code <= 599 by {
            assert(service_fault(config.services@, i) is None);
        }
        assert forall|i: int, j: int| 0 <= i < j < config.services@.len() implies (
        #[trigger] config.services@[i]).service@ != (#[trigger] config.services@[j]).service@ by {
            assert(service_fault(config.services@, j) is None);
            assert(!name_is_taken(config.services@, j));
        }
    }
}

/// What a fault names: the file, the field, the service or the number at fault.
pub open spec fn culprit(fault: Fault) -> Seq<char> {
    match fault {
        Fault::Read { path, message } => path,
        Fault::Json { message } => message,
        Fault::Shape { location, message } => location,
        Fault::EmptyServiceName { index } => "services["@ + text::decimal(index) + "].service"@,
        Fault::DuplicateService { name } => name,
        Fault::StatusCodeRange { service, code } => service,
        Fault::EmptyUuid => "heartbeat uuid"@,
        Fault::NegativeMinutesBetween { index, value } => "notify["@ + text::decimal(index) + "]"@,
    }
}

/// What is said of a fault always names the culprit.
pub proof fn law_faults_name_their_culprit(fault: Fault)
    ensures
        text::contains_text(fault_text(fault), culprit(fault)),
{
    let said = fault_text(fault);
    let named = culprit(fault);
    match fault {
        Fault::Read { path, message } => {
            let after = ": "@ + message;
            text::lemma_contains_part("cannot read config file "@, named, after);
            assert(said == "cannot read config file "@ + named + after);
        },
        Fault::Json { message } => {
            text::lemma_contains_part("config is not valid JSON: "@, named, seq![]);
            assert(said == "config is not valid JSON: "@ + named + seq![]);
        },
        Fault::Shape { location, message } => {
            let after = "`: "@ + message;
            text::lemma_contains_part("invalid config at `"@, named, after);
            assert(said == "invalid config at `"@ + named + after);
        },
        Fault::EmptyServiceName { index } => {
            reveal_strlit("].service must not be empty");
            reveal_strlit("].service");
            reveal_strlit(" must not be empty");
            text::lemma_contains_part(seq![], named, " must not be empty"@);
            assert(said == Seq::<char>::empty() + named + " must not be empty"@);
        },
        Fault::DuplicateService { name } => {
            text::lemma_contains_part("duplicate service name \""@, named, "\""@);
        },
        Fault::StatusCodeRange { service, code } => {
            let after = "\" has okStatusCode "@ + text::decimal(code) + " outside 1..=599"@;
            text::lemma_contains_part("service \""@, named, after);
            assert(said == "service \""@ + named + after);
        },
        Fault::EmptyUuid => {
            reveal_strlit("heartbeat uuid must not be empty");
            reveal_strlit("heartbeat uuid");
            reveal_strlit(" must not be empty");
            text::lemma_contains_part(seq![], named, " must not be empty"@);
            assert(said == Seq::<char>::empty() + named + " must not be empty"@);
        },
        Fault::NegativeMinutesBetween { index, value } => {
            let after = " has negative minutesBetween "@ + value;
            reveal_strlit("] has negative minutesBetween ");
            reveal_strlit("]");
            reveal_strlit(" has negative minutesBetween ");
            text::lemma_contains_part(seq![], named, after);
            assert(said == Seq::<char>::empty() + named + after);
        },
    }
}

proof fn lemma_no_service_fault(services: Seq<ServiceConfig>, n: int)
    requires
        0 <= n <= services.len(),
    ensures
        first_service_fault(services, n) is None <==> (forall|i: int|
            0 <= i < n ==> #[trigger] service_fault(services, i) is None),
    decreases n,
{
    if n > 0 {
        lemma_no_service_fault(services, n - 1);
        if first_service_fault(services, n) is Some {
            if first_service_fault(services, n - 1) is None {
                assert(service_fault(services, n - 1) is Some);
            }
        }
    }
}

proof fn lemma_no_notify_fault(notify: Seq<NotifyConfig>, n: int)
    requires
        0 <= n <= notify.len(),
    ensures
        first_notify_fault(notify, n) is None <==> (forall|i: int|
            0 <= i < n ==> (#[trigger] notify[i]).minutes_between_spec().nanoseconds >= 0),
    decreases n,
{
    if n > 0 {
        lemma_no_notify_fault(notify, n - 1);
    }
}

/// An entry has its own schedule, its own minutes and the name of its type.
pub proof fn law_entries_tell_of_themselves(
    entry: &NotifyConfig,
    schedule: &Schedule,
    minutes: &Minutes,
    kind: &'static str,
)
    requires
        call_ensures(NotifyConfig::schedule, (entry,), schedule),
        call_ensures(NotifyConfig::minutes_between, (entry,), minutes),
        call_ensures(NotifyConfig::kind, (entry,), kind),
    ensures
        match *entry {
            NotifyConfig::Ntfy(e) => *schedule == e.schedule && *minutes == e.minutes_between
                && kind@ == "ntfy"@,
            NotifyConfig::Telegram(e) => *schedule == e.schedule && *minutes == e.minutes_between
                && kind@ == "telegram"@,
            NotifyConfig::Pushover(e) => *schedule == e.schedule && *minutes == e.minutes_between
                && kind@ == "pushover"@,
        },
        entry.schedule_spec() == *schedule,
        entry.minutes_between_spec() == *minutes,
        entry.kind_spec() == kind@,
{
}

/// A heartbeat has its own schedule.
pub proof fn law_heartbeat_tells_its_schedule(heartbeat: &HeartbeatConfig, r: &Schedule)
    requires
        call_ensures(HeartbeatConfig::schedule, (heartbeat,), r),
    ensures
        match *heartbeat {
            HeartbeatConfig::HealthchecksIo { uuid, schedule } => *r == schedule,
            HeartbeatConfig::Httpbin { schedule } => *r == schedule,
        },
{
}

/// A configuration is accepted exactly when every service has a name that none before it
/// has, and expects a status code from 1 to 599; a healthchecks.io heartbeat has a uuid; and
/// no notify entry waits a negative time. Nothing else matters.
pub proof fn law_what_is_accepted(config: &Config, r: Result<(), ConfigError>)
    requires
        call_ensures(validate, (config,), r),
    ensures
        r is Ok <==> ({
            &&& forall|i: int|
                0 <= i < config.services@.len() ==> (
                #[trigger] config.services@[i]).service@.len() > 0 && 1
                    <= config.services@[i].ok_status_code <= 599
            &&& forall|i: int, j: int|
                0 <= i < j < config.services@.len() ==> (#[trigger] config.services@[i]).service@
                    != (#[trigger] config.services@[j]).service@
            &&& config.heartbeat matches Some(HeartbeatConfig::HealthchecksIo { uuid, schedule })
                ==> uuid@.len() > 0
            &&& forall|i: int|
                0 <= i < config.notify@.len() ==> 0 <= match #[trigger] config.notify@[i] {
                    NotifyConfig::Ntfy(e) => e.minutes_between.nanoseconds,
                    NotifyConfig::Telegram(e) => e.minutes_between.nanoseconds,
                    NotifyConfig::Pushover(e) => e.minutes_between.nanoseconds,
                }
        }),
{
    law_accepted_iff_valid(*config);
    if r is Ok {
        assert forall|i: int| 0 <= i < config.notify@.len() implies 0 <= match #[trigger] config.notify@[i] {
            NotifyConfig::Ntfy(e) => e.minutes_between.nanoseconds,
            NotifyConfig::Telegram(e) => e.minutes_between.nanoseconds,
            NotifyConfig::Pushover(e) => e.minutes_between.nanoseconds,
        } by {
            assert(config.notify@[i].minutes_between_spec().nanoseconds >= 0);
        }
    }
}

/// Whether nothing is wrong with the first `n` services of a list.
pub open spec fn are_in_order(services: Seq<ServiceConfig>, n: int) -> bool {
    &&& forall|i: int|
        0 <= i < n ==> (#[trigger] services[i]).service@.len() > 0 && 1
            <= services[i].ok_status_code <= 599
    &&& forall|i: int, j: int|
        0 <= i < j < n ==> (#[trigger] services[i]).service@ != (#[trigger] services[j]).service@
}

/// What is reported is wrong, and nothing before it is: services come first, in order, each
/// with its name, whether it is taken, and its status code; then the heartbeat; then the
/// notify entries, in order.
pub proof fn law_first_fault_is_reported(config: &Config, error: ConfigError)
    requires
        call_ensures(validate, (config,), Err::<(), ConfigError>(error)),
    ensures
        ({
            let services = config.services@;
            let no_uuid = config.heartbeat matches Some(
                HeartbeatConfig::HealthchecksIo { uuid, schedule },
            ) && uuid@.len() == 0;
            match error {
                ConfigError::EmptyServiceName { index } => index < services.len() && are_in_order(
                    services,
                    index as int,
                ) && services[index as int].service@.len() == 0,
                ConfigError::DuplicateService { name } => exists|i: int, j: int|
                    0 <= j < i < services.len() && are_in_order(services, i) && (
                    #[trigger] services[i]).service@ == name@ && (#[trigger] services[j]).service@
                        == name@ && name@.len() > 0,
                ConfigError::StatusCodeRange { service, code } => exists|i: int|
                    0 <= i < services.len() && #[trigger] are_in_order(services, i)
                        && services[i].service@ == service@ && services[i].ok_status_code == code
                        && !(1 <= code <= 599) && service@.len() > 0 && forall|j: int|
                        0 <= j < i ==> (#[trigger] services[j]).service@ != service@,
                ConfigError::EmptyUuid => are_in_order(services, services.len() as int) && no_uuid,
                ConfigError::NegativeMinutesBetween { index, value } => {
                    &&& are_in_order(services, services.len() as int) && !no_uuid
                    &&& index < config.notify@.len()
                    &&& config.notify@[index as int].minutes_between_spec().nanoseconds < 0
                    &&& config.notify@[index as int].minutes_between_spec().text@ == value@
                    &&& forall|k: int|
                        0 <= k < index ==> (
                        #[trigger] config.notify@[k]).minutes_between_spec().nanoseconds >= 0
                },
                _ => false,
            }
        }),
{
    let services = config.services@;
    let n = services.len() as int;
    lemma_service_fault_is_at(services, n);
    lemma_no_service_fault(services, n);
    if first_service_fault(services, n) is None {
        lemma_no_fault_in_order(services, n);
    } else {
        let i = choose|i: int|
            0 <= i < n && #[trigger] service_fault(services, i) is Some && service_fault(
                services,
                i,
            ) == first_service_fault(services, n) && first_service_fault(services, i) is None;
        lemma_no_service_fault(services, i);
        lemma_no_fault_in_order(services, i);
        if let ConfigError::DuplicateService { name } = error {
            let j = choose|j: int|
                0 <= j < i && #[trigger] services[j].service@ == services[i].service@;
            assert(services[i].service@ == name@ && services[j].service@ == name@);
        }
        if let ConfigError::StatusCodeRange { service, code } = error {
            assert(!name_is_taken(services, i));
            assert(are_in_order(services, i));
        }
    }
    lemma_notify_fault_is_at(config.notify@, config.notify@.len() as int);
}

proof fn lemma_no_fault_in_order(services: Seq<ServiceConfig>, n: int)
    requires
        0 <= n <= services.len(),
        forall|i: int| 0 <= i < n ==> #[trigger] service_fault(services, i) is None,
    ensures
        are_in_order(services, n),
{
    assert forall|i: int| 0 <= i < n implies (#[trigger] services[i]).service@.len() > 0 && 1
        <= services[i].ok_status_code <= 599 by {
        assert(service_fault(services, i) is None);
    }
    assert forall|i: int, j: int| 0 <= i < j < n implies (#[trigger] services[i]).service@ != (
    #[trigger] services[j]).service@ by {
        assert(service_fault(services, j) is None);
        assert(!name_is_taken(services, j));
    }
}

/// The first fault among services is that of one of them, those before it having none.
proof fn lemma_service_fault_is_at(services: Seq<ServiceConfig>, n: int)
    ensures
        first_service_fault(services, n) is Some ==> exists|i: int|
            0 <= i < n && #[trigger] service_fault(services, i) is Some && service_fault(
                services,
                i,
            ) == first_service_fault(services, n) && first_service_fault(services, i) is None,
    decreases n,
{
    if n > 0 {
        lemma_service_fault_is_at(services, n - 1);
        if first_service_fault(services, n - 1) is None && first_service_fault(services, n)
            is Some {
            assert(service_fault(services, n - 1) is Some);
        }
    }
}

proof fn lemma_notify_fault_is_at(notify: Seq<NotifyConfig>, n: int)
    requires
        0 <= n <= notify.len(),
    ensures
        first_notify_fault(notify, n) matches Some(fault) ==> {
            &&& fault matches Fault::NegativeMinutesBetween { index, value }
            &&& index < n
            &&& notify[index as int].minutes_between_spec().nanoseconds < 0
            &&& notify[index as int].minutes_between_spec().text@ == value
            &&& forall|k: int|
                0 <= k < index ==> (#[trigger] notify[k]).minutes_between_spec().nanoseconds >= 0
        },
    decreases n,
{
    if n > 0 {
        lemma_notify_fault_is_at(notify, n - 1);
        lemma_no_notify_fault(notify, n - 1);
    }
}

/// What was read is the configuration, as it was read, exactly when it is accepted; else
/// the reason is handed on, a text that is no JSON apart from one that is no configuration.
pub proof fn law_load(
    source: ConfigSource,
    r: Result<Config, ConfigError>,
    validated: Result<(), ConfigError>,
)
    requires
        call_ensures(load, (source,), r),
        source matches ConfigSource::Parsed(config) ==> call_ensures(
            validate,
            (&config,),
            validated,
        ),
    ensures
        match source {
            ConfigSource::Unreadable { path, message } => r matches Err(
                ConfigError::Read { path: p, message: m },
            ) && p@ == path@ && m@ == message@,
            ConfigSource::Unparsable { category, location, message } => match category {
                JsonCategory::Syntax | JsonCategory::Eof => r matches Err(
                    ConfigError::Json { message: m },
                ) && m@ == message@,
                JsonCategory::Data | JsonCategory::Io => r matches Err(
                    ConfigError::Shape { location: l, message: m },
                ) && l@ == location@ && m@ == message@,
            },
            ConfigSource::Parsed(config) => match validated {
                Ok(_) => r == Ok::<Config, ConfigError>(config),
                Err(error) => r matches Err(other) && other@ == error@,
            },
        },
{
}

/// Errors with the same contents are the same kind of error, with the same words in it.
pub proof fn law_error_contents(a: ConfigError, b: ConfigError)
    requires
        a@ == b@,
    ensures
        match (a, b) {
            (
                ConfigError::Read { path, message },
                ConfigError::Read { path: p, message: m },
            ) => path@ == p@ && message@ == m@,
            (ConfigError::Json { message }, ConfigError::Json { message: m }) => message@ == m@,
            (
                ConfigError::Shape { location, message },
                ConfigError::Shape { location: l, message: m },
            ) => location@ == l@ && message@ == m@,
            (
                ConfigError::EmptyServiceName { index },
                ConfigError::EmptyServiceName { index: i },
            ) => index == i,
            (
                ConfigError::DuplicateService { name },
                ConfigError::DuplicateService { name: n },
            ) => name@ == n@,
            (
                ConfigError::StatusCodeRange { service, code },
                ConfigError::StatusCodeRange { service: s, code: c },
            ) => service@ == s@ && code == c,
            (ConfigError::EmptyUuid, ConfigError::EmptyUuid) => true,
            (
                ConfigError::NegativeMinutesBetween { index, value },
                ConfigError::NegativeMinutesBetween { index: i, value: v },
            ) => index == i && value@ == v@,
            _ => false,
        },
{
}

/// What is said of an error: its kind, and what it is about, word for word.
pub proof fn law_error_text(error: &ConfigError, r: String, n: u64, number: String)
    requires
        call_ensures(ConfigError::to_string, (error,), r),
        call_ensures(text::decimal_text, (n,), number),
        match *error {
            ConfigError::EmptyServiceName { index } => n == index,
            ConfigError::StatusCodeRange { service, code } => n == code,
            ConfigError::NegativeMinutesBetween { index, value } => n == index,
            _ => true,
        },
    ensures
        r@ == match *error {
            ConfigError::Read { path, message } => "cannot read config file "@ + path@ + ": "@
                + message@,
            ConfigError::Json { message } => "config is not valid JSON: "@ + message@,
            ConfigError::Shape { location, message } => "invalid config at `"@ + location@
                + "`: "@ + message@,
            ConfigError::EmptyServiceName { index } => "services["@ + number@
                + "].service must not be empty"@,
            ConfigError::DuplicateService { name } => "duplicate service name \""@ + name@ + "\""@,
            ConfigError::StatusCodeRange { service, code } => "service \""@ + service@
                + "\" has okStatusCode "@ + number@ + " outside 1..=599"@,
            ConfigError::EmptyUuid => "heartbeat uuid must not be empty"@,
            ConfigError::NegativeMinutesBetween { index, value } => "notify["@ + number@
                + "] has negative minutesBetween "@ + value@,
        },
{
}

/// What is given goes before what is taken where nothing is given.
pub proof fn law_defaults(given: Option<String>, kind: String, path: String)
    requires
        call_ensures(notify_type, (given,), kind),
        call_ensures(config_path, (given,), path),
    ensures
        given matches Some(text) ==> kind@ == text@ && path@ == text@,
        given is None ==> kind@ == "ntfy"@ && path@ == "/config/config.json"@,
{
}

} // verus!
