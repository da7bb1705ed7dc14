use am_i_alive::{next_life_state, AssociatedColor, LifeState, State, StateGlobal};

fn timing(uncertain: u16, missing: u16, minimum_uptime: u16) -> StateGlobal {
    StateGlobal {
        tick_interval: 1,
        time_until_uncertain: uncertain,
        time_until_missing: missing,
        minimum_uptime,
        alive: State::default(),
        uncertain: State::default(),
        missing: State::default(),
        incapacitated: State::default(),
        dead: State::default(),
    }
}

#[test]
fn alive_becomes_probably_alive_after_uncertainty_period() {
    let cfg = timing(1, 24, 0);
    assert_eq!(next_life_state(LifeState::Alive, 3600, 10_000, &cfg), LifeState::Alive);
    assert_eq!(next_life_state(LifeState::Alive, 3601, 10_000, &cfg), LifeState::ProbablyAlive);
}

#[test]
fn probably_alive_becomes_missing_or_returns() {
    let cfg = timing(1, 24, 0);
    assert_eq!(
        next_life_state(LifeState::ProbablyAlive, 24 * 3600 + 1, 0, &cfg),
        LifeState::MissingOrDead
    );
    assert_eq!(next_life_state(LifeState::ProbablyAlive, 24 * 3600, 0, &cfg), LifeState::ProbablyAlive);
    assert_eq!(next_life_state(LifeState::ProbablyAlive, 10, 0, &cfg), LifeState::Alive);
}

#[test]
fn missing_bound_is_tested_before_return_to_alive() {
    // a missing period shorter than the uncertainty period
    let cfg = timing(10, 2, 0);
    assert_eq!(
        next_life_state(LifeState::ProbablyAlive, 3 * 3600, 0, &cfg),
        LifeState::MissingOrDead
    );
    assert_eq!(next_life_state(LifeState::ProbablyAlive, 3600, 0, &cfg), LifeState::Alive);
}

#[test]
fn fresh_heartbeat_overrides_manual_states() {
    let cfg = timing(1, 24, 0);
    assert_eq!(next_life_state(LifeState::Dead, 5, 0, &cfg), LifeState::Alive);
    assert_eq!(next_life_state(LifeState::Incapacitated, 5, 0, &cfg), LifeState::Alive);
    assert_eq!(next_life_state(LifeState::MissingOrDead, 5, 0, &cfg), LifeState::Alive);
    assert_eq!(next_life_state(LifeState::Dead, 3600, 0, &cfg), LifeState::Dead);
    assert_eq!(next_life_state(LifeState::MissingOrDead, 90_000, 0, &cfg), LifeState::MissingOrDead);
}

#[test]
fn young_server_holds_back_worsening() {
    let cfg = timing(1, 24, 60);
    assert_eq!(next_life_state(LifeState::Alive, 7200, 3599, &cfg), LifeState::Alive);
    assert_eq!(next_life_state(LifeState::Alive, 1_000_000, 0, &cfg), LifeState::Alive);
    assert_eq!(
        next_life_state(LifeState::ProbablyAlive, 1_000_000, 3599, &cfg),
        LifeState::ProbablyAlive
    );
    assert_eq!(next_life_state(LifeState::ProbablyAlive, 10, 0, &cfg), LifeState::Alive);
    assert_eq!(next_life_state(LifeState::Alive, 7200, 3600, &cfg), LifeState::ProbablyAlive);
}

#[test]
fn state_names_colors_and_codes() {
    assert_eq!(LifeState::Alive.to_string(), "ALIVE");
    assert_eq!(LifeState::ProbablyAlive.to_string(), "PROBABLY ALIVE");
    assert_eq!(LifeState::MissingOrDead.to_string(), "MISSING OR DEAD");
    assert_eq!(LifeState::Incapacitated.to_string(), "ALIVE BUT INCAPACITATED");
    assert_eq!(LifeState::Dead.to_string(), "DEAD");
    assert_eq!(LifeState::Alive.css_color(), "#00cd00");
    assert_eq!(LifeState::Dead.css_color(), "#828282");
    assert_eq!(LifeState::from_code("3"), Some(LifeState::Incapacitated));
    assert_eq!(LifeState::from_code("5"), None);
    assert_eq!(LifeState::from_code("00"), None);
    assert_eq!(LifeState::Dead.code(), "4");
    assert_eq!(LifeState::default(), LifeState::Alive);
}

#[test]
fn default_state_assets() {
    let s = State::default();
    assert_eq!(s.images, vec!["https://placehold.co/400".to_string()]);
    assert_eq!(
        s.messages,
        vec!["The last heartbeat received from {0} was {1} hour{2} ago.".to_string()]
    );
}
