use am_i_alive::pow::check_pow_hash;
use am_i_alive::{generate_seed, verify_pow_solution, PoWState, PowSolution};
use sha2::{Digest, Sha256};

fn sha_hex(text: &str) -> String {
    hex::encode(Sha256::digest(text.as_bytes()))
}

/// Finds a nonce whose hash for `address` has `zeros` leading zero digits.
fn solve(secret: &str, address: &str, timestamp_ms: u128, zeros: usize) -> (u64, String) {
    let seed = sha_hex(&format!("{}{}", secret, timestamp_ms));
    let prefix = "0".repeat(zeros);
    for nonce in 0u64.. {
        let hash = sha_hex(&format!("{}{}{}", address, seed, nonce));
        if hash.starts_with(&prefix) {
            return (nonce, hash);
        }
    }
    unreachable!()
}

#[test]
fn seed_is_sha256_of_secret_and_timestamp() {
    let seed = generate_seed("s3cret", 1_700_000_000_123);
    assert_eq!(seed, sha_hex("s3cret1700000000123"));
    assert_eq!(seed.len(), 64);
    assert_ne!(seed, generate_seed("s3cret", 1_700_000_000_124));
}

#[test]
fn known_sha256_digest() {
    assert_eq!(
        generate_seed("", 0),
        "5feceb66ffc86f38d952786c6d696c79c2dbc239dd4e91b46729d73a27fb57e9"
    );
}

#[test]
fn valid_solution_is_accepted() {
    let state = PoWState::new("k".to_string(), 2).unwrap();
    let now_ms: u128 = 1_700_000_005_000;
    let ts = now_ms - 3000;
    let (nonce, hash) = solve("k", "10.0.0.1", ts, 2);
    let pow = PowSolution { nonce, hash, timestamp_ms: ts };
    assert!(verify_pow_solution(&state, "10.0.0.1", &pow, now_ms));
    assert!(verify_pow_solution(&state, "10.0.0.1", &pow, ts + 10_000));
}

#[test]
fn stale_solution_is_rejected() {
    let state = PoWState::new("k".to_string(), 1).unwrap();
    let ts: u128 = 1_700_000_000_000;
    let (nonce, hash) = solve("k", "10.0.0.1", ts, 1);
    let pow = PowSolution { nonce, hash, timestamp_ms: ts };
    assert!(verify_pow_solution(&state, "10.0.0.1", &pow, ts + 10_000));
    assert!(!verify_pow_solution(&state, "10.0.0.1", &pow, ts + 11_000));
    assert!(!verify_pow_solution(&state, "10.0.0.1", &pow, ts - 1));
}

#[test]
fn solution_for_another_address_is_rejected() {
    let state = PoWState::new("k".to_string(), 1).unwrap();
    let ts: u128 = 1_700_000_000_000;
    let (nonce, hash) = solve("k", "10.0.0.1", ts, 1);
    let pow = PowSolution { nonce, hash, timestamp_ms: ts };
    assert!(verify_pow_solution(&state, "10.0.0.1", &pow, ts + 1));
    assert!(!verify_pow_solution(&state, "10.0.0.2", &pow, ts + 1));
}

#[test]
fn fabricated_or_weak_hash_is_rejected() {
    let state = PoWState::new("k".to_string(), 3).unwrap();
    let ts: u128 = 1_700_000_000_000;
    let fake = PowSolution { nonce: 1, hash: "000".to_string() + &"f".repeat(61), timestamp_ms: ts };
    assert!(!verify_pow_solution(&state, "::1", &fake, ts));
    let (nonce, hash) = solve("k", "::1", ts, 1);
    let weak = PowSolution { nonce, hash: hash.clone(), timestamp_ms: ts };
    let enough = hash.starts_with("000");
    assert_eq!(verify_pow_solution(&state, "::1", &weak, ts), enough);
}

#[test]
fn hash_check_needs_match_and_zeros() {
    assert!(check_pow_hash("00ab", "00ab", 1));
    assert!(!check_pow_hash("00ab", "00ab", 2));
    assert!(!check_pow_hash("00ab", "00ac", 0));
    assert!(!check_pow_hash("0", "0", 1));
    assert!(check_pow_hash("00000f", "00000f", 4));
}

#[test]
fn difficulty_tiers_and_challenge() {
    assert!(PoWState::new("k".to_string(), 0).is_none());
    assert!(PoWState::new("k".to_string(), 6).is_none());
    let state = PoWState::new("k".to_string(), 5).unwrap();
    assert_eq!(state.difficulty_index, 4);
    let c = state.challenge(42);
    assert_eq!(c.difficulty, format!("{:032x}", 0x00000fffffffffffffffffffffffffffu128));
    assert_eq!(c.seed, sha_hex("k42"));
    assert_eq!(c.timestamp_ms, 42);
    let easy = PoWState::new("k".to_string(), 1).unwrap().challenge(7);
    assert_eq!(easy.difficulty, format!("{:032x}", 0x0fffffffffffffffffffffffffffffffu128));
}
