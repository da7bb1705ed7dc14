use crate::text::{decimal, decimal_string};
use vstd::prelude::*;
use vstd::string::StringExecFns;

verus! {

/// Milliseconds between two challenges sent to subscribers.
pub const CHALLENGE_INTERVAL: u64 = 500;

/// Milliseconds for which a challenge can be answered.
pub const CHALLENGE_VALID_PERIOD: u128 = 10000;

/// Number of difficulty tiers.
pub const DIFFICULTY_TIERS: usize = 5;

/// What SHA-256 makes of a message.
pub uninterp spec fn sha256_of(data: Seq<u8>) -> Seq<u8>;

/// Relies on sha2's `Sha256::digest`: the SHA-256 digest of `data`, whose
/// output type holds 32 bytes.
#[verifier::external_body]
fn sha256_digest(data: &[u8]) -> (r: Vec<u8>)
    ensures
        r@ == sha256_of(data@),
        r@.len() == 32,
{
    <sha2::Sha256 as sha2::Digest>::digest(data).to_vec()
}

/// The lowercase hex digit for `d`, below sixteen.
pub open spec fn hex_char(d: nat) -> char {
    if d < 10 {
        crate::text::digit_char(d)
    } else if d == 10 {
        'a'
    } else if d == 11 {
        'b'
    } else if d == 12 {
        'c'
    } else if d == 13 {
        'd'
    } else if d == 14 {
        'e'
    } else {
        'f'
    }
}

/// `data` in lowercase hex: two digits per byte, high nibble first.
pub open spec fn hex_lower(data: Seq<u8>) -> Seq<char> {
    Seq::new(
        2 * data.len(),
        |i: int|
            if i % 2 == 0 {
                hex_char((data[i / 2] / 16) as nat)
            } else {
                hex_char((data[i / 2] % 16) as nat)
            },
    )
}

/// Relies on `hex::encode`: lowercase hex, two digits per byte.
#[verifier::external_body]
fn hex_encode(data: &[u8]) -> (r: String)
    ensures
        r@ == hex_lower(data@),
{
    hex::encode(data)
}

/// The UTF-8 bytes of a text.
pub open spec fn utf8(s: Seq<char>) -> Seq<u8> {
    vstd::utf8::encode_utf8(s)
}

/// The seed of the challenge issued at `timestamp_ms`:
/// hex(SHA-256(secret followed by the timestamp in decimal)).
pub open spec fn seed_of(secret: Seq<char>, timestamp_ms: u128) -> Seq<char> {
    hex_lower(sha256_of(utf8(secret + decimal(timestamp_ms as nat))))
}

/// The hash that answers the challenge of `timestamp_ms` from `address` with
/// `nonce`: hex(SHA-256(address, seed and nonce in decimal, one after another)).
pub open spec fn expected_pow_hash(
    secret: Seq<char>,
    address: Seq<char>,
    timestamp_ms: u128,
    nonce: u64,
) -> Seq<char> {
    hex_lower(sha256_of(utf8(address + seed_of(secret, timestamp_ms) + decimal(nonce as nat))))
}

/// `h` starts with `n` zero digits.
pub open spec fn has_leading_zeros(h: Seq<char>, n: nat) -> bool {
    h.len() >= n && forall|i: int| 0 <= i < n ==> h[i] == '0'
}

/// A solution answers a challenge that was issued no more than the validity
/// window before `now_ms` (and not after it).
pub open spec fn is_fresh(timestamp_ms: u128, now_ms: u128) -> bool {
    timestamp_ms <= now_ms && now_ms - timestamp_ms <= CHALLENGE_VALID_PERIOD
}

/// The challenge's seed: SHA-256 of the secret followed by the timestamp, in hex.
pub fn generate_seed(secret: &str, timestamp_ms: u128) -> (r: String)
    ensures
        r@ == seed_of(secret@, timestamp_ms),
        r@.len() == 64,
{
    let message = secret.to_owned().concat(decimal_string(timestamp_ms).as_str());
    let digest = sha256_digest(message.as_str().as_bytes());
    hex_encode(digest.as_slice())
}

/// A client's answer to a challenge.
#[derive(Debug, Clone, PartialEq)]
pub struct PowSolution {
    pub nonce: u64,
    /// The hash the client found, in lowercase hex.
    pub hash: String,
    /// When the answered challenge was issued, in Unix milliseconds.
    pub timestamp_ms: u128,
}

/// A challenge as it is sent to subscribers.
#[derive(Debug, Clone, PartialEq)]
pub struct PowChallenge {
    pub seed: String,
    /// The difficulty mask, as 32 hex digits.
    pub difficulty: String,
    pub timestamp_ms: u128,
}

/// The server's proof-of-work settings.
#[derive(Debug, Clone, PartialEq)]
pub struct PoWState {
    /// Secret used to generate challenges that can't be predicted.
    pub secret: String,
    /// Difficulty tier, from 0 (one leading zero digit) to 4 (five).
    pub difficulty_index: usize,
}

/// The difficulty mask of a tier written as 32 hex digits: `tier + 1` zeros,
/// then `f`s.
pub open spec fn difficulty_text(index: nat) -> Seq<char> {
    Seq::new(32, |i: int| if i <= index { '0' } else { 'f' })
}

/// Whether `submitted` is the expected hash and starts with the required
/// number of zero digits.
pub fn check_pow_hash(submitted: &str, expected: &str, difficulty_index: usize) -> (r: bool)
    requires
        difficulty_index < DIFFICULTY_TIERS,
    ensures
        r == (submitted@ == expected@ && has_leading_zeros(
            submitted@,
            difficulty_index as nat + 1,
        )),
{
    let n = submitted.unicode_len();
    let m = expected.unicode_len();
    if n != m {
        return false;
    }
    let mut i: usize = 0;
    while i < n
        invariant
            i <= n,
            n == submitted@.len(),
            m == expected@.len(),
            n == m,
            forall|j: int| 0 <= j < i ==> submitted@[j] == expected@[j],
        decreases n - i,
    {
        if submitted.get_char(i) != expected.get_char(i) {
            return false;
        }
        i = i + 1;
    }
    assert(submitted@ == expected@);
    let zeros = difficulty_index + 1;
    if n < zeros {
        return false;
    }
    let mut k: usize = 0;
    while k < zeros
        invariant
            k <= zeros,
            zeros <= n,
            zeros == difficulty_index + 1,
            n == submitted@.len(),
            forall|j: int| 0 <= j < k ==> submitted@[j] == '0',
        decreases zeros - k,
    {
        if submitted.get_char(k) != '0' {
            assert(submitted@[k as int] != '0');
            return false;
        }
        k = k + 1;
    }
    true
}

/// Whether a challenge issued at `timestamp_ms` may still be answered at `now_ms`.
pub fn challenge_is_fresh(timestamp_ms: u128, now_ms: u128) -> (r: bool)
    ensures
        r == is_fresh(timestamp_ms, now_ms),
{
    timestamp_ms <= now_ms && now_ms - timestamp_ms <= CHALLENGE_VALID_PERIOD
}

impl PoWState {
    pub open spec fn wf(&self) -> bool {
        self.difficulty_index < DIFFICULTY_TIERS
    }

    /// Settings for a secret and a difficulty tier from 1 to 5; `None` for
    /// any other tier.
    pub fn new(secret: String, difficulty: u8) -> (r: Option<PoWState>)
        ensures
            match r {
                Some(p) => 1 <= difficulty <= 5 && p.wf() && p.secret@ == secret@
                    && p.difficulty_index == difficulty - 1,
                None => !(1 <= difficulty <= 5),
            },
    {
        if 1 <= difficulty && difficulty <= 5 {
            Some(PoWState { secret, difficulty_index: (difficulty - 1) as usize })
        } else {
            None
        }
    }

    /// The challenge issued at `timestamp_ms`.
    pub fn challenge(&self, timestamp_ms: u128) -> (r: PowChallenge)
        requires
            self.wf(),
        ensures
            r.seed@ == seed_of(self.secret@, timestamp_ms),
            r.seed@.len() == 64,
            r.difficulty@ == difficulty_text(self.difficulty_index as nat),
            r.timestamp_ms == timestamp_ms,
    {
        let seed = generate_seed(self.secret.as_str(), timestamp_ms);
        let mut difficulty = String::new();
        let mut i: usize = 0;
        while i < 32
            invariant
                i <= 32,
                self.difficulty_index < DIFFICULTY_TIERS,
                difficulty@ == difficulty_text(self.difficulty_index as nat).subrange(0, i as int),
            decreases 32 - i,
        {
            proof {
                reveal_strlit("0");
                reveal_strlit("f");
            }
            if i <= self.difficulty_index {
                difficulty.append("0");
            } else {
                difficulty.append("f");
            }
            i = i + 1;
            assert(difficulty@ =~= difficulty_text(self.difficulty_index as nat).subrange(
                0,
                i as int,
            ));
        }
        assert(difficulty@ == difficulty_text(self.difficulty_index as nat));
        PowChallenge { seed, difficulty, timestamp_ms }
    }

    /// The hash that answers the challenge of `timestamp_ms` from `address`
    /// with `nonce`.
    pub fn expected_hash(&self, address: &str, timestamp_ms: u128, nonce: u64) -> (r: String)
        ensures
            r@ == expected_pow_hash(self.secret@, address@, timestamp_ms, nonce),
            r@.len() == 64,
    {
        let seed = generate_seed(self.secret.as_str(), timestamp_ms);
        let message = address.to_owned().concat(seed.as_str()).concat(
            decimal_string(nonce as u128).as_str(),
        );
        let digest = sha256_digest(message.as_str().as_bytes());
        hex_encode(digest.as_slice())
    }
}

/// Whether a solution sent from `address` at `now_ms` proves the work:
/// the challenge is fresh, the hash is the one its seed, the address and the
/// nonce give, and it has the required leading zero digits.
pub open spec fn pow_accepts(state: PoWState, address: Seq<char>, pow: PowSolution, now_ms: u128) -> bool {
    &&& is_fresh(pow.timestamp_ms, now_ms)
    &&& pow.hash@ == expected_pow_hash(state.secret@, address, pow.timestamp_ms, pow.nonce)
    &&& has_leading_zeros(pow.hash@, state.difficulty_index as nat + 1)
}

/// Checks a client's proof-of-work solution; `address` is the client's
/// address as text, which the hash must have been computed for.
pub fn verify_pow_solution(state: &PoWState, address: &str, pow: &PowSolution, now_ms: u128) -> (r:
    bool)
    requires
        state.wf(),
    ensures
        r == pow_accepts(*state, address@, *pow, now_ms),
{
    if !challenge_is_fresh(pow.timestamp_ms, now_ms) {
        return false;
    }
    let expected = state.expected_hash(address, pow.timestamp_ms, pow.nonce);
    check_pow_hash(pow.hash.as_str(), expected.as_str(), state.difficulty_index)
}

} // verus!

verus! {

/// A solution whose challenge was issued more than the validity window
/// before `now_ms` is rejected, whatever its hash.
pub proof fn lemma_stale_solution_rejected(
    state: PoWState,
    address: Seq<char>,
    pow: PowSolution,
    now_ms: u128,
)
    requires
        pow.timestamp_ms <= now_ms,
        now_ms - pow.timestamp_ms > CHALLENGE_VALID_PERIOD,
    ensures
        !pow_accepts(state, address, pow, now_ms),
{
}

/// A solution bound to one address is rejected when another address
/// presents it: the hash it carries is the one computed for `address_a`,
/// and the hash for `address_b` is a different one.
pub proof fn lemma_solution_bound_to_address(
    state: PoWState,
    address_a: Seq<char>,
    address_b: Seq<char>,
    pow: PowSolution,
    now_ms: u128,
)
    requires
        pow.hash@ == expected_pow_hash(state.secret@, address_a, pow.timestamp_ms, pow.nonce),
        expected_pow_hash(state.secret@, address_a, pow.timestamp_ms, pow.nonce)
            != expected_pow_hash(state.secret@, address_b, pow.timestamp_ms, pow.nonce),
    ensures
        !pow_accepts(state, address_b, pow, now_ms),
{
}

} // verus!
