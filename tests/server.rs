use am_i_alive::{
    ClientAddr, Global, HeartbeatDisplay, HeartbeatOutcome, HeartbeatRequest, InitialState, LifeState,
    Pow, PowSolution, ServerConfig, ServerState, StartupError, State, StateGlobal,
};
use argon2::password_hash::{PasswordHasher, SaltString};
use argon2::{Algorithm, Argon2, Params, Version};
use sha2::{Digest, Sha256};

const START: u64 = 1_700_000_000;
const ADDR: &str = "192.168.1.20";

fn sha_hex(text: &str) -> String {
    hex::encode(Sha256::digest(text.as_bytes()))
}

fn password_hash(password: &str) -> String {
    let params = Params::new(8, 1, 1, None).unwrap();
    let argon = Argon2::new(Algorithm::Argon2id, Version::V0x13, params);
    let salt = SaltString::encode_b64(b"fixed-test-salt!").unwrap();
    argon.hash_password(password.as_bytes(), &salt).unwrap().to_string()
}

fn config(minimum_uptime: u16) -> ServerConfig {
    ServerConfig {
        global: Global {
            name: "Max".into(),
            full_name: "Max Example".into(),
            utc_offset: 0,
            heartbeat_auth_hash: password_hash("correct horse"),
        },
        pow: Pow { secret: "pow-secret".into(), difficulty: 1 },
        state: StateGlobal {
            tick_interval: 1,
            time_until_uncertain: 1,
            time_until_missing: 24,
            minimum_uptime,
            alive: State::default(),
            uncertain: State::default(),
            missing: State::default(),
            incapacitated: State::default(),
            dead: State::default(),
        },
    }
}

fn server(minimum_uptime: u16, state: LifeState, last_heartbeat: u64) -> ServerState {
    let initial = InitialState {
        state,
        last_heartbeat,
        note: None,
        heartbeat_display: vec![HeartbeatDisplay::default(); 5],
    };
    ServerState::new(config(minimum_uptime), initial, START).unwrap()
}

fn solution(address: &str, now_ms: u128) -> PowSolution {
    let ts = now_ms - 1000;
    let seed = sha_hex(&format!("pow-secret{}", ts));
    for nonce in 0u64.. {
        let hash = sha_hex(&format!("{}{}{}", address, seed, nonce));
        if hash.starts_with('0') {
            return PowSolution { nonce, hash, timestamp_ms: ts };
        }
    }
    unreachable!()
}

fn request(password: &str, now: u64, message: &str) -> HeartbeatRequest {
    HeartbeatRequest {
        remove_current_note: false,
        updated_note: String::new(),
        message: message.into(),
        password: password.into(),
        pow: solution(ADDR, now as u128 * 1000),
    }
}

#[test]
fn ticks_move_through_uncertain_to_missing() {
    let mut s = server(0, LifeState::Alive, START);
    assert!(!s.update(START + 1800));
    assert_eq!(s.state.get(), LifeState::Alive);
    assert!(s.update(START + 2 * 3600));
    assert_eq!(s.state.get(), LifeState::ProbablyAlive);
    assert!(!s.update(START + 10 * 3600));
    assert!(s.update(START + 25 * 3600));
    assert_eq!(s.state.get(), LifeState::MissingOrDead);
}

#[test]
fn young_server_does_not_worsen() {
    let mut s = server(60, LifeState::Alive, START - 100 * 3600);
    assert!(!s.update(START + 59 * 60));
    assert_eq!(s.state.get(), LifeState::Alive);
    let mut p = server(60, LifeState::ProbablyAlive, START - 100 * 3600);
    assert!(!p.update(START + 30 * 60));
    assert_eq!(p.state.get(), LifeState::ProbablyAlive);
    assert!(s.update(START + 2 * 3600));
    assert_eq!(s.state.get(), LifeState::ProbablyAlive);
}

#[test]
fn startup_rejects_bad_settings() {
    let initial = || InitialState {
        state: LifeState::Alive,
        last_heartbeat: 0,
        note: None,
        heartbeat_display: vec![HeartbeatDisplay::default(); 5],
    };
    let mut c = config(0);
    c.pow.difficulty = 0;
    assert_eq!(ServerState::new(c, initial(), START).err(), Some(StartupError::InvalidDifficulty));
    let mut c = config(0);
    c.global.utc_offset = 24;
    assert_eq!(ServerState::new(c, initial(), START).err(), Some(StartupError::InvalidUtcOffset));
    let mut c = config(0);
    c.global.heartbeat_auth_hash = "not a hash".into();
    assert_eq!(ServerState::new(c, initial(), START).err(), Some(StartupError::InvalidPasswordHash));
    let mut short = initial();
    short.heartbeat_display.pop();
    assert_eq!(
        ServerState::new(config(0), short, START).err(),
        Some(StartupError::InvalidDisplayedHeartbeats)
    );
}

#[test]
fn accepted_heartbeat_updates_everything() {
    let mut s = server(0, LifeState::MissingOrDead, START - 50 * 3600);
    let addr = ClientAddr::V4(0xc0a80114);
    let now = START + 3600;
    let mut req = request("correct horse", now, "all good");
    req.updated_note = "on holiday".into();
    let out = s.heartbeat(addr, ADDR, req, now, now as u128 * 1000);
    assert_eq!(out, HeartbeatOutcome::Accepted);
    assert_eq!(s.last_heartbeat.get(), now);
    assert_eq!(s.state.get(), LifeState::Alive);
    assert_eq!(s.note.as_deref(), Some("on holiday"));
    assert_eq!(s.displayed_heartbeats.len(), 5);
    assert_eq!(s.displayed_heartbeats[0].message, "all good");
    assert_eq!(s.displayed_heartbeats[0].timestamp, "Tue, 14 Nov 2023 23:13:20 +0000");
    assert_eq!(s.displayed_heartbeats[1].message, "N/A");
    let status = s.status();
    assert_eq!(status.status, "ALIVE");
    assert_eq!(status.last_heartbeat, now);
    assert_eq!(status.active_note, "on holiday");

    let later = now + 60;
    let mut req = request("correct horse", later, "");
    req.remove_current_note = true;
    assert_eq!(s.heartbeat(addr, ADDR, req, later, later as u128 * 1000), HeartbeatOutcome::Accepted);
    assert_eq!(s.note, None);
    assert_eq!(s.displayed_heartbeats[0].message, "N/A");
    assert_eq!(s.displayed_heartbeats[1].message, "all good");
    assert_eq!(s.last_heartbeat.get(), later);
}

#[test]
fn rejected_heartbeats_change_nothing_but_the_block() {
    let mut s = server(0, LifeState::Alive, START);
    let addr = ClientAddr::V4(0xc0a80114);
    let now = START + 100;
    let mut bad_pow = request("correct horse", now, "x");
    bad_pow.pow.nonce += 1;
    assert_eq!(s.heartbeat(addr, ADDR, bad_pow, now, now as u128 * 1000), HeartbeatOutcome::InvalidPow);
    assert_eq!(s.rate_limited_ips.get(addr), None);
    assert_eq!(s.last_heartbeat.get(), START);

    let wrong = request("wrong", now, "x");
    assert_eq!(
        s.heartbeat(addr, ADDR, wrong, now, now as u128 * 1000),
        HeartbeatOutcome::Unauthorized { retry_after: 300 }
    );
    assert_eq!(s.last_heartbeat.get(), START);
    assert_eq!(s.displayed_heartbeats[0].message, "N/A");

    let during = now + 100;
    let good = request("correct horse", during, "x");
    assert_eq!(
        s.heartbeat(addr, ADDR, good, during, during as u128 * 1000),
        HeartbeatOutcome::RateLimited { retry_after: 200 }
    );
    let after = now + 301;
    let wrong = request("wrong", after, "x");
    assert_eq!(
        s.heartbeat(addr, ADDR, wrong, after, after as u128 * 1000),
        HeartbeatOutcome::Unauthorized { retry_after: 600 }
    );
    let much_later = after + 601;
    let good = request("correct horse", much_later, "back");
    assert_eq!(
        s.heartbeat(addr, ADDR, good, much_later, much_later as u128 * 1000),
        HeartbeatOutcome::Accepted
    );
    assert_eq!(s.rate_limited_ips.get(addr), None);
    assert_eq!(s.last_heartbeat.get(), much_later);
}

#[test]
fn front_page_shows_state() {
    let mut s = server(0, LifeState::ProbablyAlive, START - 5 * 3600 - 1700);
    let page = s.front_page(START, 3, 9);
    assert_eq!(page.name, "Max Example");
    assert_eq!(page.status_title, "PROBABLY ALIVE");
    assert_eq!(page.status_color, "#b1d000");
    assert_eq!(page.status_image, "https://placehold.co/400");
    assert_eq!(page.status_message, "The last heartbeat received from Max Example was 5 hours ago.");
    assert_eq!(page.show_note, "hidden");
    assert_eq!(page.is_dead, "");
    s.last_heartbeat = am_i_alive::Redundant::new(START);
    assert!(s.page_available(START));
    let page = s.front_page(START, 0, 0);
    assert_eq!(page.status_message, "The last heartbeat received from Max Example was 1 hour ago.");
    s.note = Some("hello".into());
    s.state = am_i_alive::Redundant::new(LifeState::Alive);
    let page = s.front_page(START, 0, 0);
    assert_eq!(page.name, "Max");
    assert_eq!(page.status_message, "The last heartbeat received from Max was {1} hour{2} ago.");
    assert_eq!(page.show_note, "");
    assert_eq!(page.note_message, "hello");
}
