use crate::api::{HeartbeatOutcome, HeartbeatRequest, StatusApiResponse};
use crate::config::ServerConfig;
use crate::database::InitialState;
use crate::liveness::{
    next_life_state, next_state, not_available, status_name, AssociatedColor, HeartbeatDisplay,
    LifeState,
};
use crate::pow::{pow_accepts, verify_pow_solution, PoWState};
use crate::presentation::{
    assets_of, dead_class, display_name, format_status_message, hours_since, note_class, pick_index,
    replaced, shows_silence, silent_hours, state_assets, FrontPage,
};
use crate::ratelimit::{backoff_after_failure, blocks, ClientAddr, RateLimiter};
use crate::redundancy::Redundant;
use crate::text::decimal;
use vstd::prelude::*;

verus! {

/// Number of recent heartbeats shown on the front page.
pub const MAX_DISPLAYED_HEARTBEATS: usize = 5;

/// First Unix second (10000-01-01) whose date no longer has a four-digit year.
pub const DISPLAYABLE_TIME_LIMIT: u64 = 253402300800;

/// Whether `password` matches an Argon2 hash given in PHC string form.
pub uninterp spec fn argon2_accepts(password: Seq<char>, phc_hash: Seq<char>) -> bool;

/// Relies on password-hash's `PasswordHash::new`, which parses the PHC
/// string, and on argon2's `PasswordVerifier::verify_password`, which hashes
/// the password again with the salt and parameters found there and compares.
/// A string that does not parse matches no password.
#[verifier::external_body]
fn verify_password(password: &str, phc_hash: &str) -> (r: bool)
    ensures
        r == argon2_accepts(password@, phc_hash@),
{
    match argon2::password_hash::PasswordHash::new(phc_hash) {
        Ok(hash) => argon2::PasswordVerifier::verify_password(
            &argon2::Argon2::default(),
            password.as_bytes(),
            &hash,
        ).is_ok(),
        Err(_) => false,
    }
}

/// Whether a text parses as a password hash in PHC string form.
pub uninterp spec fn phc_parses(hash: Seq<char>) -> bool;

/// Relies on password-hash's `PasswordHash::new`: whether the text parses
/// as a PHC string.
#[verifier::external_body]
fn parses_as_phc(hash: &str) -> (r: bool)
    ensures
        r == phc_parses(hash@),
{
    argon2::password_hash::PasswordHash::new(hash).is_ok()
}

/// The RFC 2822 text of a Unix time seen at a fixed offset from UTC.
pub uninterp spec fn rfc2822_of(unix_secs: int, offset_secs: int) -> Seq<char>;

/// Relies on chrono's `FixedOffset::east_opt`, `TimeZone::timestamp_opt` and
/// `DateTime::to_rfc2822`: the date and time of `unix_secs` at `offset_secs`
/// east of UTC, such as `Tue, 1 Jul 2003 10:52:37 +0200`. The offset must lie
/// strictly within a day and the local year within four digits.
#[verifier::external_body]
pub(crate) fn rfc2822(unix_secs: i64, offset_secs: i32) -> (r: String)
    requires
        -86400 < offset_secs < 86400,
        0 <= unix_secs,
        unix_secs + offset_secs < DISPLAYABLE_TIME_LIMIT,
    ensures
        r@ == rfc2822_of(unix_secs as int, offset_secs as int),
{
    let offset = chrono::FixedOffset::east_opt(offset_secs).unwrap();
    chrono::TimeZone::timestamp_opt(&offset, unix_secs, 0).unwrap().to_rfc2822()
}

/// The offset of displayed times from UTC, in seconds.
/// An offset of whole hours east of UTC, in seconds.
pub open spec fn offset_secs_of(hours: i32) -> int {
    hours * 3600
}

/// The note after a heartbeat: cleared on request, replaced by a nonempty
/// new note, otherwise kept.
pub open spec fn note_after(note: Option<String>, req: HeartbeatRequest) -> Option<String> {
    if req.remove_current_note {
        None
    } else if req.updated_note@.len() > 0 {
        Some(req.updated_note)
    } else {
        note
    }
}

/// The message shown for a heartbeat: its own, or `N/A` when it has none.
pub open spec fn shown_message(message: Seq<char>) -> Seq<char> {
    if message.len() == 0 {
        not_available()
    } else {
        message
    }
}

/// The last heartbeat after an attempt at `now`: `now` if it was accepted,
/// else unchanged.
pub open spec fn next_last_heartbeat(prev: u64, now: u64, accepted: bool) -> u64 {
    if accepted {
        now
    } else {
        prev
    }
}

/// The value of the last heartbeat after a sequence of attempts, each a time
/// and whether it was accepted.
pub open spec fn last_heartbeat_after(initial: u64, attempts: Seq<(u64, bool)>) -> u64
    decreases attempts.len(),
{
    if attempts.len() == 0 {
        initial
    } else {
        next_last_heartbeat(
            last_heartbeat_after(initial, attempts.drop_last()),
            attempts.last().0,
            attempts.last().1,
        )
    }
}

/// After any sequence of attempts, the last heartbeat is the time of the most
/// recently accepted one, or the initial value when none was accepted; with
/// times that increase from the initial value it never decreases.
pub proof fn lemma_last_heartbeat_is_latest_accepted(initial: u64, attempts: Seq<(u64, bool)>)
    ensures
        forall|j: int|
            0 <= j < attempts.len() && #[trigger] attempts[j].1 && (forall|k: int|
                j < k < attempts.len() ==> !(#[trigger] attempts[k].1)) ==> last_heartbeat_after(
                initial,
                attempts,
            ) == attempts[j].0,
        (forall|k: int| 0 <= k < attempts.len() ==> !(#[trigger] attempts[k].1))
            ==> last_heartbeat_after(initial, attempts) == initial,
        (forall|k: int| 0 <= k < attempts.len() ==> initial <= (#[trigger] attempts[k]).0) ==> initial
            <= last_heartbeat_after(initial, attempts),
    decreases attempts.len(),
{
    if attempts.len() > 0 {
        let prefix = attempts.drop_last();
        lemma_last_heartbeat_is_latest_accepted(initial, prefix);
        assert forall|j: int|
            0 <= j < attempts.len() && #[trigger] attempts[j].1 && (forall|k: int|
                j < k < attempts.len() ==> !(#[trigger] attempts[k].1)) implies last_heartbeat_after(
            initial,
            attempts,
        ) == attempts[j].0 by {
            if j < attempts.len() - 1 {
                assert(!attempts[attempts.len() - 1].1);
                assert(prefix[j] == attempts[j]);
                assert forall|k: int| j < k < prefix.len() implies !(#[trigger] prefix[k].1) by {
                    assert(prefix[k] == attempts[k]);
                }
            }
        }
        if forall|k: int| 0 <= k < attempts.len() ==> !(#[trigger] attempts[k].1) {
            assert forall|k: int| 0 <= k < prefix.len() implies !(#[trigger] prefix[k].1) by {
                assert(prefix[k] == attempts[k]);
            }
        }
        if forall|k: int| 0 <= k < attempts.len() ==> initial <= (#[trigger] attempts[k]).0 {
            assert forall|k: int| 0 <= k < prefix.len() implies initial <= (
            #[trigger] prefix[k]).0 by {
                assert(prefix[k] == attempts[k]);
            }
            assert(initial <= attempts[attempts.len() - 1].0);
        }
    }
}

/// With attempts at strictly increasing times, none before the initial
/// value, the last heartbeat never passes the latest attempt's time.
pub proof fn lemma_last_heartbeat_not_after_latest_attempt(initial: u64, attempts: Seq<(u64, bool)>)
    requires
        attempts.len() > 0,
        initial <= attempts[0].0,
        forall|i: int, j: int| 0 <= i < j < attempts.len() ==> attempts[i].0 < attempts[j].0,
    ensures
        last_heartbeat_after(initial, attempts) <= attempts.last().0,
    decreases attempts.len(),
{
    if attempts.len() > 1 {
        let prefix = attempts.drop_last();
        assert(prefix[0] == attempts[0]);
        assert forall|i: int, j: int| 0 <= i < j < prefix.len() implies prefix[i].0 < prefix[j].0 by {
            assert(prefix[i] == attempts[i] && prefix[j] == attempts[j]);
        }
        lemma_last_heartbeat_not_after_latest_attempt(initial, prefix);
        assert(prefix.last() == attempts[attempts.len() - 2]);
        assert(attempts[attempts.len() - 2].0 < attempts[attempts.len() - 1].0);
    } else {
        assert(attempts.drop_last().len() == 0);
        assert(last_heartbeat_after(initial, attempts.drop_last()) == initial);
        assert(attempts.last() == attempts[0]);
    }
}

/// The process-wide state of the server, without its locks.
pub struct ServerState {
    pub state: Redundant<LifeState>,
    /// Unix time of the last accepted heartbeat, in seconds.
    pub last_heartbeat: Redundant<u64>,
    /// Unix time at which the server started, in seconds.
    pub server_start_time: Redundant<u64>,
    pub config: ServerConfig,
    /// The most recent heartbeats, newest first.
    pub displayed_heartbeats: Vec<HeartbeatDisplay>,
    pub note: Option<String>,
    pub rate_limited_ips: RateLimiter,
    pub pow_state: PoWState,
}

/// Why a server cannot start from a configuration.
#[derive(Debug, Clone, Copy, PartialEq, Eq, Structural)]
pub enum StartupError {
    /// The proof-of-work difficulty is not a tier from 1 to 5.
    InvalidDifficulty,
    /// The UTC offset is not strictly within a day.
    InvalidUtcOffset,
    /// The initial table of recent heartbeats does not have five rows.
    InvalidDisplayedHeartbeats,
    /// The heartbeat password hash is not a PHC string.
    InvalidPasswordHash,
}

impl ServerState {
    pub open spec fn wf(&self) -> bool {
        &&& self.state.wf()
        &&& self.last_heartbeat.wf()
        &&& self.server_start_time.wf()
        &&& self.displayed_heartbeats@.len() == MAX_DISPLAYED_HEARTBEATS
        &&& self.pow_state.wf()
        &&& self.pow_state.secret@ == self.config.pow.secret@
        &&& -24 < self.config.global.utc_offset < 24
        &&& phc_parses(self.config.global.heartbeat_auth_hash@)
    }

    /// The fields that a failed authentication leaves alone agree.
    pub open spec fn same_except_rate_limits(&self, other: &ServerState) -> bool {
        &&& self.state == other.state
        &&& self.last_heartbeat == other.last_heartbeat
        &&& self.server_start_time == other.server_start_time
        &&& self.config == other.config
        &&& self.displayed_heartbeats@ == other.displayed_heartbeats@
        &&& self.note == other.note
        &&& self.pow_state == other.pow_state
    }

    /// The server as it starts at `boot_time` from `initial`.
    pub fn new(config: ServerConfig, initial: InitialState, boot_time: u64) -> (r: Result<
        ServerState,
        StartupError,
    >)
        ensures
            match r {
                Ok(s) => {
                    &&& s.wf()
                    &&& s.state@ == initial.state
                    &&& s.last_heartbeat@ == initial.last_heartbeat
                    &&& s.server_start_time@ == boot_time
                    &&& s.config == config
                    &&& s.displayed_heartbeats@ == initial.heartbeat_display@
                    &&& s.note == initial.note
                    &&& s.pow_state.difficulty_index == config.pow.difficulty - 1
                    &&& forall|a: ClientAddr| s.rate_limited_ips.entry(a) is None
                },
                Err(e) => e == (if !(1 <= config.pow.difficulty <= 5) {
                    StartupError::InvalidDifficulty
                } else if !(-24 < config.global.utc_offset < 24) {
                    StartupError::InvalidUtcOffset
                } else if initial.heartbeat_display@.len() != MAX_DISPLAYED_HEARTBEATS {
                    StartupError::InvalidDisplayedHeartbeats
                } else {
                    StartupError::InvalidPasswordHash
                }) && !(1 <= config.pow.difficulty <= 5 && -24 < config.global.utc_offset < 24
                    && initial.heartbeat_display@.len() == MAX_DISPLAYED_HEARTBEATS && phc_parses(
                    config.global.heartbeat_auth_hash@,
                )),
            },
    {
        let pow_state = match PoWState::new(config.pow.secret.clone(), config.pow.difficulty) {
            Some(p) => p,
            None => return Err(StartupError::InvalidDifficulty),
        };
        if !(-24 < config.global.utc_offset && config.global.utc_offset < 24) {
            return Err(StartupError::InvalidUtcOffset);
        }
        if initial.heartbeat_display.len() != MAX_DISPLAYED_HEARTBEATS {
            return Err(StartupError::InvalidDisplayedHeartbeats);
        }
        if !parses_as_phc(config.global.heartbeat_auth_hash.as_str()) {
            return Err(StartupError::InvalidPasswordHash);
        }
        Ok(
            ServerState {
                state: Redundant::new(initial.state),
                last_heartbeat: Redundant::new(initial.last_heartbeat),
                server_start_time: Redundant::new(boot_time),
                config,
                displayed_heartbeats: initial.heartbeat_display,
                note: initial.note,
                rate_limited_ips: RateLimiter::new(),
                pow_state,
            },
        )
    }

    /// Re-evaluates the liveness state at Unix time `now`; returns whether it
    /// changed, in which case any cached status must be rebuilt.
    pub fn update(&mut self, now: u64) -> (changed: bool)
        requires
            old(self).wf(),
            old(self).last_heartbeat@ <= now,
            old(self).server_start_time@ <= now,
        ensures
            final(self).wf(),
            final(self).state@ == next_state(
                old(self).state@,
                now - old(self).last_heartbeat@,
                now - old(self).server_start_time@,
                old(self).config.state,
            ),
            changed == (final(self).state@ != old(self).state@),
            final(self).last_heartbeat == old(self).last_heartbeat,
            final(self).server_start_time == old(self).server_start_time,
            final(self).config == old(self).config,
            final(self).displayed_heartbeats@ == old(self).displayed_heartbeats@,
            final(self).note == old(self).note,
            final(self).rate_limited_ips == old(self).rate_limited_ips,
            final(self).pow_state == old(self).pow_state,
    {
        let last_seen: u64 = self.last_heartbeat.get();
        let current: LifeState = self.state.get();
        let uptime: u64 = now - self.server_start_time.get();
        let next = next_life_state(current, now - last_seen, uptime, &self.config.state);
        if next != current {
            self.state = Redundant::new(next);
            true
        } else {
            false
        }
    }

    /// The status served to API clients.
    pub fn status(&self) -> (r: StatusApiResponse)
        requires
            self.wf(),
        ensures
            r.status@ == status_name(self.state@),
            r.last_heartbeat == self.last_heartbeat@,
            r.active_note@ == match self.note {
                Some(n) => n@,
                None => Seq::<char>::empty(),
            },
    {
        let active_note = match &self.note {
            Some(n) => n.clone(),
            None => String::new(),
        };
        StatusApiResponse {
            status: self.state.get().to_string(),
            last_heartbeat: self.last_heartbeat.get(),
            active_note,
        }
    }

    /// Admits or rejects a heartbeat from `addr` (written `address` as text)
    /// at Unix time `now` (`now_ms` in milliseconds): rate limit, then proof
    /// of work, then password, stopping at the first that fails. Only an
    /// accepted heartbeat changes more than the address's rate limit. The
    /// clock must not lie before the last heartbeat or the server's start,
    /// and must leave a day before the year 10000, so that the heartbeat's
    /// time can be shown.
    pub fn heartbeat(
        &mut self,
        addr: ClientAddr,
        address: &str,
        req: HeartbeatRequest,
        now: u64,
        now_ms: u128,
    ) -> (r: HeartbeatOutcome)
        requires
            old(self).wf(),
            old(self).last_heartbeat@ <= now,
            old(self).server_start_time@ <= now,
            now + 86400 <= DISPLAYABLE_TIME_LIMIT,
        ensures
            final(self).wf(),
            final(self).last_heartbeat@ == next_last_heartbeat(
                old(self).last_heartbeat@,
                now,
                r == HeartbeatOutcome::Accepted,
            ),
            ({
                let entry = old(self).rate_limited_ips.entry(addr);
                let password_ok = argon2_accepts(
                    req.password@,
                    old(self).config.global.heartbeat_auth_hash@,
                );
                if blocks(entry, now) {
                    &&& r == HeartbeatOutcome::RateLimited {
                        retry_after: (entry.unwrap().timestamp - now) as u64,
                    }
                    &&& final(self).same_except_rate_limits(old(self))
                    &&& final(self).rate_limited_ips == old(self).rate_limited_ips
                } else if !pow_accepts(old(self).pow_state, address@, req.pow, now_ms) {
                    &&& r == HeartbeatOutcome::InvalidPow
                    &&& final(self).same_except_rate_limits(old(self))
                    &&& final(self).rate_limited_ips == old(self).rate_limited_ips
                } else if !password_ok {
                    let block = backoff_after_failure(entry, now);
                    &&& r == HeartbeatOutcome::Unauthorized { retry_after: block.period }
                    &&& final(self).same_except_rate_limits(old(self))
                    &&& final(self).rate_limited_ips.entry(addr) == Some(block)
                    &&& forall|b: ClientAddr|
                        b != addr ==> final(self).rate_limited_ips.entry(b) == old(
                            self,
                        ).rate_limited_ips.entry(b)
                } else {
                    let shown = final(self).displayed_heartbeats@;
                    &&& r == HeartbeatOutcome::Accepted
                    &&& final(self).rate_limited_ips.entry(addr) is None
                    &&& forall|b: ClientAddr|
                        b != addr ==> final(self).rate_limited_ips.entry(b) == old(
                            self,
                        ).rate_limited_ips.entry(b)
                    &&& final(self).note == note_after(old(self).note, req)
                    &&& shown.len() == MAX_DISPLAYED_HEARTBEATS
                    &&& shown[0].timestamp@ == rfc2822_of(now as int, offset_secs_of(old(self).config.global.utc_offset))
                    &&& shown[0].message@ == shown_message(req.message@)
                    &&& shown.subrange(1, MAX_DISPLAYED_HEARTBEATS as int)
                        == old(self).displayed_heartbeats@.subrange(
                        0,
                        MAX_DISPLAYED_HEARTBEATS - 1,
                    )
                    &&& final(self).state@ == next_state(
                        old(self).state@,
                        0,
                        now - old(self).server_start_time@,
                        old(self).config.state,
                    )
                    &&& final(self).server_start_time == old(self).server_start_time
                    &&& final(self).config == old(self).config
                    &&& final(self).pow_state == old(self).pow_state
                }
            }),
    {
        if let Some(retry_after) = self.rate_limited_ips.retry_after(addr, now) {
            return HeartbeatOutcome::RateLimited { retry_after };
        }
        if !verify_pow_solution(&self.pow_state, address, &req.pow, now_ms) {
            return HeartbeatOutcome::InvalidPow;
        }
        if !verify_password(req.password.as_str(), self.config.global.heartbeat_auth_hash.as_str()) {
            let retry_after = self.rate_limited_ips.record_failure(addr, now);
            return HeartbeatOutcome::Unauthorized { retry_after };
        }
        self.rate_limited_ips.record_success(addr);
        let HeartbeatRequest { remove_current_note, updated_note, message, .. } = req;
        if remove_current_note {
            self.note = None;
        } else if !updated_note.as_str().is_empty() {
            self.note = Some(updated_note);
        }
        self.last_heartbeat = Redundant::new(now);
        let offset: i32 = self.config.global.utc_offset * 3600;
        let timestamp = rfc2822(now as i64, offset);
        let shown = if message.as_str().is_empty() {
            "N/A".to_owned()
        } else {
            message
        };
        let row = HeartbeatDisplay { timestamp, message: shown };
        self.displayed_heartbeats.insert(0, row);
        self.displayed_heartbeats.truncate(MAX_DISPLAYED_HEARTBEATS);
        self.update(now);
        HeartbeatOutcome::Accepted
    }
}


impl ServerState {
    /// Whether the front page can be shown at `now`: the state has images and
    /// messages, and where the page tells the silence, the last heartbeat is
    /// not after `now`.
    pub open spec fn can_show_page(&self, now: u64) -> bool {
        let assets = assets_of(self.state@, self.config.state);
        &&& assets.images@.len() > 0
        &&& assets.messages@.len() > 0
        &&& shows_silence(self.state@) ==> self.last_heartbeat@ <= now
    }

    /// Whether the front page can be shown at `now` (see `can_show_page`).
    pub fn page_available(&self, now: u64) -> (r: bool)
        requires
            self.wf(),
        ensures
            r == self.can_show_page(now),
    {
        let state = self.state.get();
        let assets = state_assets(state, &self.config.state);
        if assets.images.len() == 0 || assets.messages.len() == 0 {
            return false;
        }
        match state {
            LifeState::ProbablyAlive | LifeState::MissingOrDead | LifeState::Incapacitated => {
                self.last_heartbeat.get() <= now
            },
            _ => true,
        }
    }

    /// The front page at `now`; the image and the message are the ones that
    /// two random numbers pick among those configured for the state.
    pub fn front_page(&self, now: u64, image_random: u64, message_random: u64) -> (r: FrontPage)
        requires
            self.wf(),
            self.can_show_page(now),
        ensures
            ({
                let state = self.state@;
                let assets = assets_of(state, self.config.state);
                let template = assets.messages@[(message_random % assets.messages@.len() as u64) as int]@;
                &&& r.name@ == (if state == LifeState::Alive {
                    self.config.global.name@
                } else {
                    self.config.global.full_name@
                })
                &&& r.status_title@ == status_name(state)
                &&& r.status_color@ == state.css_color_spec()
                &&& r.status_image@ == assets.images@[(image_random % assets.images@.len() as u64) as int]@
                &&& r.status_message@ == if shows_silence(state) {
                    let h = silent_hours(now, self.last_heartbeat@);
                    replaced(
                        replaced(replaced(template, "{0}"@, r.name@), "{1}"@, decimal(h as nat)),
                        "{2}"@,
                        if h > 1 {
                            "s"@
                        } else {
                            Seq::<char>::empty()
                        },
                    )
                } else {
                    replaced(template, "{0}"@, r.name@)
                }
                &&& r.show_note@ == (if self.note is Some {
                    Seq::<char>::empty()
                } else {
                    crate::presentation::hide_css_id()
                })
                &&& r.note_message@ == match self.note {
                    Some(n) => n@,
                    None => Seq::<char>::empty(),
                }
                &&& r.is_dead@ == (if state == LifeState::Dead || state == LifeState::MissingOrDead {
                    crate::presentation::dead_css_id()
                } else {
                    Seq::<char>::empty()
                })
            }),
    {
        let state = self.state.get();
        let name = display_name(state, &self.config.global);
        let assets = state_assets(state, &self.config.state);
        let image = pick_index(image_random, assets.images.len());
        let message = pick_index(message_random, assets.messages.len());
        let hours = match state {
            LifeState::ProbablyAlive | LifeState::MissingOrDead | LifeState::Incapacitated => Some(
                hours_since(now, self.last_heartbeat.get()),
            ),
            _ => None,
        };
        let status_message = format_status_message(
            assets.messages[message].as_str(),
            name.as_str(),
            hours,
        );
        let note_message = match &self.note {
            Some(n) => n.clone(),
            None => String::new(),
        };
        FrontPage {
            status_title: state.to_string(),
            status_color: state.css_color(),
            status_image: assets.images[image].clone(),
            status_message,
            show_note: note_class(&self.note),
            note_message,
            is_dead: dead_class(state),
            name,
        }
    }
}

} // verus!
