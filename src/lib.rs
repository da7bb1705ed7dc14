//! A liveness beacon: a person proves they are alive with authenticated
//! heartbeats, and the absence of heartbeats moves a public status through
//! growing uncertainty. This crate holds the verified core: the guarded
//! values, the per-address rate limiter, the proof-of-work challenges, the
//! liveness state machine, the heartbeat admission pipeline and the database
//! file format.

pub mod api;
pub mod config;
pub mod database;
pub mod lines;
pub mod liveness;
pub mod pow;
pub mod presentation;
pub mod ratelimit;
pub mod redundancy;
pub mod server;
pub mod text;

pub use api::{HeartbeatOutcome, HeartbeatRequest, StatusApiResponse};
pub use config::{Global, Pow, ServerConfig, State, StateGlobal};
pub use database::{load_database, parse_initial_state, parse_log_line};
pub use database::{Database, DbError, HeartbeatLog, InitialState, LineError};
pub use liveness::{next_life_state, AssociatedColor, HeartbeatDisplay, LifeState};
pub use pow::{generate_seed, verify_pow_solution, PoWState, PowChallenge, PowSolution};
pub use presentation::FrontPage;
pub use ratelimit::{ClientAddr, RateLimit, RateLimiter};
pub use redundancy::Redundant;
pub use server::{ServerState, StartupError, MAX_DISPLAYED_HEARTBEATS};
