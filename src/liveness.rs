use crate::config::StateGlobal;
use vstd::prelude::*;

verus! {

/// The public classification of the watched person's well-being.
#[derive(Debug, Clone, Copy, PartialEq, Eq, Structural)]
pub enum LifeState {
    /// A heartbeat came recently enough.
    Alive,
    /// No heartbeat for longer than the uncertainty period.
    ProbablyAlive,
    /// No heartbeat for longer than the maximum silence period.
    MissingOrDead,
    /// Set only by a trusted party.
    Incapacitated,
    /// Set only by a trusted party.
    Dead,
}

impl Default for LifeState {
    fn default() -> (r: Self)
        ensures
            r == LifeState::Alive,
    {
        LifeState::Alive
    }
}

/// Implemented by any state that the rendered page shows in a colour.
pub trait AssociatedColor {
    /// The colour, as a CSS hex code.
    spec fn css_color_spec(&self) -> Seq<char>;

    fn css_color(&self) -> (r: String)
        ensures
            r@ == self.css_color_spec(),
    ;
}

impl AssociatedColor for LifeState {
    open spec fn css_color_spec(&self) -> Seq<char> {
        match self {
            LifeState::Alive => "#00cd00"@,
            LifeState::ProbablyAlive => "#b1d000"@,
            LifeState::MissingOrDead => "#d80000"@,
            LifeState::Incapacitated => "#515cef"@,
            LifeState::Dead => "#828282"@,
        }
    }

    fn css_color(&self) -> (r: String) {
        match self {
            LifeState::Alive => "#00cd00".to_owned(),
            LifeState::ProbablyAlive => "#b1d000".to_owned(),
            LifeState::MissingOrDead => "#d80000".to_owned(),
            LifeState::Incapacitated => "#515cef".to_owned(),
            LifeState::Dead => "#828282".to_owned(),
        }
    }
}

/// The upper-case name under which a state is published.
pub open spec fn status_name(s: LifeState) -> Seq<char> {
    match s {
        LifeState::Alive => "ALIVE"@,
        LifeState::ProbablyAlive => "PROBABLY ALIVE"@,
        LifeState::MissingOrDead => "MISSING OR DEAD"@,
        LifeState::Incapacitated => "ALIVE BUT INCAPACITATED"@,
        LifeState::Dead => "DEAD"@,
    }
}

/// The state whose stored digit `code` is, if any.
pub open spec fn state_from_code(code: Seq<char>) -> Option<LifeState> {
    if code == seq!['0'] {
        Some(LifeState::Alive)
    } else if code == seq!['1'] {
        Some(LifeState::ProbablyAlive)
    } else if code == seq!['2'] {
        Some(LifeState::MissingOrDead)
    } else if code == seq!['3'] {
        Some(LifeState::Incapacitated)
    } else if code == seq!['4'] {
        Some(LifeState::Dead)
    } else {
        None
    }
}

/// The digit under which a state is stored.
pub open spec fn state_code(s: LifeState) -> Seq<char> {
    match s {
        LifeState::Alive => seq!['0'],
        LifeState::ProbablyAlive => seq!['1'],
        LifeState::MissingOrDead => seq!['2'],
        LifeState::Incapacitated => seq!['3'],
        LifeState::Dead => seq!['4'],
    }
}

impl LifeState {
    /// The published name of the state (`ALIVE`, `PROBABLY ALIVE`, ...).
    pub fn to_string(&self) -> (r: String)
        ensures
            r@ == status_name(*self),
    {
        match self {
            LifeState::Alive => "ALIVE".to_owned(),
            LifeState::ProbablyAlive => "PROBABLY ALIVE".to_owned(),
            LifeState::MissingOrDead => "MISSING OR DEAD".to_owned(),
            LifeState::Incapacitated => "ALIVE BUT INCAPACITATED".to_owned(),
            LifeState::Dead => "DEAD".to_owned(),
        }
    }

    /// Reads a stored state digit; `None` when the text is no state's code.
    pub fn from_code(code: &str) -> (r: Option<LifeState>)
        ensures
            r == state_from_code(code@),
    {
        if code.unicode_len() != 1 {
            assert(code@ != seq!['0'] && code@ != seq!['1'] && code@ != seq!['2']);
            assert(code@ != seq!['3'] && code@ != seq!['4']);
            return None;
        }
        let c = code.get_char(0);
        assert(code@ =~= seq![c]);
        if c == '0' {
            Some(LifeState::Alive)
        } else if c == '1' {
            Some(LifeState::ProbablyAlive)
        } else if c == '2' {
            Some(LifeState::MissingOrDead)
        } else if c == '3' {
            Some(LifeState::Incapacitated)
        } else if c == '4' {
            Some(LifeState::Dead)
        } else {
            None
        }
    }

    /// The digit under which the state is stored.
    pub fn code(&self) -> (r: String)
        ensures
            r@ == state_code(*self),
    {
        proof {
            reveal_strlit("0");
            reveal_strlit("1");
            reveal_strlit("2");
            reveal_strlit("3");
            reveal_strlit("4");
        }
        match self {
            LifeState::Alive => "0".to_owned(),
            LifeState::ProbablyAlive => "1".to_owned(),
            LifeState::MissingOrDead => "2".to_owned(),
            LifeState::Incapacitated => "3".to_owned(),
            LifeState::Dead => "4".to_owned(),
        }
    }
}

/// The state that silence alone would lead to from `current`, before the
/// uptime guard: `None` when no automatic transition applies.
pub open spec fn proposed_transition(current: LifeState, elapsed: int, cfg: StateGlobal) -> Option<
    LifeState,
> {
    match current {
        LifeState::Alive => if elapsed > cfg.uncertain_secs() {
            Some(LifeState::ProbablyAlive)
        } else {
            None
        },
        LifeState::ProbablyAlive => if elapsed > cfg.missing_secs() {
            Some(LifeState::MissingOrDead)
        } else if elapsed < cfg.uncertain_secs() {
            Some(LifeState::Alive)
        } else {
            None
        },
        _ => if elapsed < cfg.uncertain_secs() {
            Some(LifeState::Alive)
        } else {
            None
        },
    }
}

/// A state that the uptime guard holds back while the server is young.
pub open spec fn is_worsening(s: LifeState) -> bool {
    s == LifeState::ProbablyAlive || s == LifeState::MissingOrDead
}

/// The state after an automatic evaluation: `elapsed` seconds since the last
/// heartbeat, `uptime` seconds since the server started.
pub open spec fn next_state(current: LifeState, elapsed: int, uptime: int, cfg: StateGlobal) -> LifeState {
    match proposed_transition(current, elapsed, cfg) {
        Some(s) => if is_worsening(s) && uptime < cfg.minimum_uptime_secs() {
            current
        } else {
            s
        },
        None => current,
    }
}

/// Evaluates the automatic transition of the liveness state machine.
pub fn next_life_state(current: LifeState, elapsed: u64, uptime: u64, cfg: &StateGlobal) -> (r:
    LifeState)
    ensures
        r == next_state(current, elapsed as int, uptime as int, *cfg),
{
    let uncertain: u64 = cfg.time_until_uncertain as u64 * 3600;
    let missing: u64 = cfg.time_until_missing as u64 * 3600;
    let min_uptime: u64 = cfg.minimum_uptime as u64 * 60;
    let proposed: Option<LifeState> = match current {
        LifeState::Alive => if elapsed > uncertain {
            Some(LifeState::ProbablyAlive)
        } else {
            None
        },
        LifeState::ProbablyAlive => if elapsed > missing {
            Some(LifeState::MissingOrDead)
        } else if elapsed < uncertain {
            Some(LifeState::Alive)
        } else {
            None
        },
        _ => if elapsed < uncertain {
            Some(LifeState::Alive)
        } else {
            None
        },
    };
    match proposed {
        Some(s) => {
            let worsening = match s {
                LifeState::ProbablyAlive | LifeState::MissingOrDead => true,
                _ => false,
            };
            if worsening && uptime < min_uptime {
                current
            } else {
                s
            }
        },
        None => current,
    }
}

/// One row of the table of recent heartbeats on the front page.
#[derive(Debug, Clone, PartialEq)]
pub struct HeartbeatDisplay {
    pub timestamp: String,
    pub message: String,
}

/// What an empty row of the table shows.
pub open spec fn not_available() -> Seq<char> {
    "N/A"@
}

impl Default for HeartbeatDisplay {
    fn default() -> (r: Self)
        ensures
            r.timestamp@ == not_available(),
            r.message@ == not_available(),
    {
        HeartbeatDisplay { timestamp: "N/A".to_owned(), message: "N/A".to_owned() }
    }
}

} // verus!

verus! {

/// While the server has been up for less than the minimum uptime, no
/// automatic transition leads into `ProbablyAlive` or `MissingOrDead`,
/// whatever the silence: the state either stays or returns to `Alive`.
pub proof fn lemma_young_server_never_worsens(
    current: LifeState,
    elapsed: int,
    uptime: int,
    cfg: StateGlobal,
)
    requires
        uptime < cfg.minimum_uptime_secs(),
    ensures
        next_state(current, elapsed, uptime, cfg) == current || next_state(
            current,
            elapsed,
            uptime,
            cfg,
        ) == LifeState::Alive,
        is_worsening(next_state(current, elapsed, uptime, cfg)) ==> next_state(
            current,
            elapsed,
            uptime,
            cfg,
        ) == current,
{
}

} // verus!
