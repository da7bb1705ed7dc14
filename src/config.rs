use vstd::prelude::*;

verus! {

/// Settings of the whole server, as read from its configuration file.
#[derive(Debug, Clone, PartialEq)]
pub struct ServerConfig {
    pub global: Global,
    pub pow: Pow,
    pub state: StateGlobal,
}

/// Who is being watched over, and how heartbeats are authenticated.
#[derive(Debug, Clone, PartialEq)]
pub struct Global {
    /// Short name, shown while the person is alive.
    pub name: String,
    /// Full name, shown in every other state.
    pub full_name: String,
    /// Offset of the displayed times from UTC, in hours.
    pub utc_offset: i32,
    /// Argon2id hash of the heartbeat password, in PHC string form.
    pub heartbeat_auth_hash: String,
}

/// Proof-of-work settings.
#[derive(Debug, Clone, PartialEq)]
pub struct Pow {
    /// Secret mixed into every challenge seed; never shown to clients.
    pub secret: String,
    /// Difficulty tier, from 1 (one leading zero digit) to 5.
    pub difficulty: u8,
}

/// Timing of the liveness states, and what is shown in each.
#[derive(Debug, Clone, PartialEq)]
pub struct StateGlobal {
    /// Minutes between two periodic re-evaluations of the state.
    pub tick_interval: u16,
    /// Hours of silence after which the person is probably alive only.
    pub time_until_uncertain: u16,
    /// Hours of silence after which the person is missing or dead.
    pub time_until_missing: u16,
    /// Minutes the server must have been up before the state may worsen.
    pub minimum_uptime: u16,
    pub alive: State,
    pub uncertain: State,
    pub missing: State,
    pub incapacitated: State,
    pub dead: State,
}

/// Images and message templates shown for one liveness state.
#[derive(Debug, Clone, PartialEq)]
pub struct State {
    pub images: Vec<String>,
    /// Templates where `{0}` is a name, `{1}` a number of hours and `{2}`
    /// the plural ending of "hour".
    pub messages: Vec<String>,
}

pub open spec fn default_image() -> Seq<char> {
    "https://placehold.co/400"@
}

pub open spec fn default_message() -> Seq<char> {
    "The last heartbeat received from {0} was {1} hour{2} ago."@
}

impl Default for State {
    fn default() -> (r: Self)
        ensures
            r.images@.len() == 1,
            r.images@[0]@ == default_image(),
            r.messages@.len() == 1,
            r.messages@[0]@ == default_message(),
    {
        State {
            images: vec!["https://placehold.co/400".to_owned()],
            messages: vec!["The last heartbeat received from {0} was {1} hour{2} ago.".to_owned()],
        }
    }
}

impl StateGlobal {
    /// Seconds of silence after which an alive person becomes probably alive.
    pub open spec fn uncertain_secs(&self) -> int {
        self.time_until_uncertain as int * 3600
    }

    /// Seconds of silence after which a probably alive person becomes missing.
    pub open spec fn missing_secs(&self) -> int {
        self.time_until_missing as int * 3600
    }

    /// Seconds of uptime needed before the state may worsen.
    pub open spec fn minimum_uptime_secs(&self) -> int {
        self.minimum_uptime as int * 60
    }
}

} // verus!
