use am_i_alive::{load_database, parse_initial_state, parse_log_line};
use am_i_alive::{Database, DbError, HeartbeatLog, LifeState, LineError};

const DB: &str = "1\n1700000000\nback soon\n1699990000 10.0.0.1 first one\n1699995000 ::1 \n1700000000 10.0.0.2 hi there\n";

#[test]
fn loads_database_file() {
    let db = load_database(DB).unwrap();
    assert_eq!(db.state, "1");
    assert_eq!(db.last_heartbeat, 1_700_000_000);
    assert_eq!(db.note, "back soon");
    assert_eq!(db.heartbeat_history.len(), 3);
    assert_eq!(
        db.heartbeat_history[0],
        HeartbeatLog { timestamp: 1_699_990_000, from_address: "10.0.0.1".into(), message: "first one".into() }
    );
    assert_eq!(db.heartbeat_history[1].message, "");
    assert_eq!(db.heartbeat_history[2].from_address, "10.0.0.2");
    assert_eq!(db.heartbeat_history[2].message, "hi there");
}

#[test]
fn database_text_round_trips() {
    let db = load_database(DB).unwrap();
    assert_eq!(db.to_text(), DB);
    let empty = Database {
        state: "0".into(),
        last_heartbeat: 5,
        note: String::new(),
        heartbeat_history: vec![],
    };
    assert_eq!(empty.to_text(), "0\n5\n\n");
    assert_eq!(load_database(&empty.to_text()).unwrap(), empty);
}

#[test]
fn short_database_keeps_defaults() {
    let db = load_database("2").unwrap();
    assert_eq!(db.state, "2");
    assert_eq!(db.last_heartbeat, 0);
    assert_eq!(db.note, "");
    assert!(db.heartbeat_history.is_empty());
    assert_eq!(load_database("").unwrap(), Database::default());
}

#[test]
fn database_errors() {
    assert_eq!(load_database("\n1\n"), Err(DbError::EmptyState));
    assert_eq!(load_database("0\nsoon\n"), Err(DbError::InvalidLastHeartbeat));
    assert_eq!(load_database("0\n1\n\n5 a b\nbroken\n"), Err(DbError::CorruptedEntry { line: 5 }));
    assert_eq!(load_database("0\n1\n\nx a b\n"), Err(DbError::InvalidEntryTimestamp { line: 4 }));
}

#[test]
fn log_lines() {
    let h = parse_log_line("12 1.2.3.4 hello  world").unwrap();
    assert_eq!(h.timestamp, 12);
    assert_eq!(h.from_address, "1.2.3.4");
    assert_eq!(h.message, "hello  world");
    assert_eq!(h.to_line(), "12 1.2.3.4 hello  world\n");
    assert_eq!(parse_log_line("12 1.2.3.4"), Err(LineError::Corrupted));
    assert_eq!(parse_log_line("12"), Err(LineError::Corrupted));
    assert_eq!(parse_log_line("-1 a b"), Err(LineError::InvalidTimestamp));
}

#[test]
fn initial_state_from_file() {
    let s = parse_initial_state(DB, 0).unwrap();
    assert_eq!(s.state, LifeState::ProbablyAlive);
    assert_eq!(s.last_heartbeat, 1_700_000_000);
    assert_eq!(s.note.as_deref(), Some("back soon"));
    assert_eq!(s.heartbeat_display.len(), 5);
    assert_eq!(s.heartbeat_display[0].timestamp, "Tue, 14 Nov 2023 22:13:20 +0000");
    assert_eq!(s.heartbeat_display[0].message, "hi there");
    assert_eq!(s.heartbeat_display[1].message, "N/A");
    assert_eq!(s.heartbeat_display[2].message, "first one");
    assert_eq!(s.heartbeat_display[3].timestamp, "N/A");
    assert_eq!(s.heartbeat_display[4].message, "N/A");
}

#[test]
fn initial_state_times_use_offset() {
    let s = parse_initial_state("0\n0\n\n0 a m\n", 2).unwrap();
    assert_eq!(s.heartbeat_display[0].timestamp, "Thu, 1 Jan 1970 02:00:00 +0200");
    assert_eq!(s.note, None);
    assert_eq!(s.state, LifeState::Alive);
}

#[test]
fn initial_state_shows_only_latest_five() {
    let mut text = String::from("0\n10\n\n");
    for t in 1..=7 {
        text.push_str(&format!("{} a m{}\n", t, t));
    }
    let s = parse_initial_state(&text, 0).unwrap();
    let msgs: Vec<&str> = s.heartbeat_display.iter().map(|d| d.message.as_str()).collect();
    assert_eq!(msgs, vec!["m7", "m6", "m5", "m4", "m3"]);
}

#[test]
fn initial_state_errors() {
    assert_eq!(parse_initial_state("\n", 0).map(|_| ()), Err(DbError::EmptyState));
    assert_eq!(parse_initial_state("9\n", 0).map(|_| ()), Err(DbError::InvalidState));
    assert_eq!(parse_initial_state("0\nx\n", 0).map(|_| ()), Err(DbError::InvalidLastHeartbeat));
    assert_eq!(
        parse_initial_state("0\n1\n\n5 a b\nbad\n", 0).map(|_| ()),
        Err(DbError::CorruptedEntry { line: 5 })
    );
    assert_eq!(
        parse_initial_state("0\n1\n\n253402300800 a b\n", 0).map(|_| ()),
        Err(DbError::UndisplayableEntry { line: 4 })
    );
    assert!(parse_initial_state("0\n1\n\n253402300800 a b\n", -1).is_ok());
}
