use crate::config::{Global, State, StateGlobal};
use crate::liveness::LifeState;
use vstd::prelude::*;
use vstd::string::StringExecFns;

verus! {

/// CSS id that hides an element of the page.
pub open spec fn hide_css_id() -> Seq<char> {
    "hidden"@
}

/// CSS id that greys out the page out of respect.
pub open spec fn dead_css_id() -> Seq<char> {
    "dead"@
}

/// The name shown for a state: the short one while alive, else the full one.
pub fn display_name(state: LifeState, global: &Global) -> (r: String)
    ensures
        r@ == (if state == LifeState::Alive {
            global.name@
        } else {
            global.full_name@
        }),
{
    match state {
        LifeState::Alive => global.name.clone(),
        _ => global.full_name.clone(),
    }
}

/// The CSS id of the page in a state: `dead` when missing or dead, else none.
pub fn dead_class(state: LifeState) -> (r: String)
    ensures
        r@ == (if state == LifeState::Dead || state == LifeState::MissingOrDead {
            dead_css_id()
        } else {
            Seq::<char>::empty()
        }),
{
    match state {
        LifeState::Dead | LifeState::MissingOrDead => "dead".to_owned(),
        _ => String::new(),
    }
}

/// The CSS id of the note's box: `hidden` when there is no note.
pub fn note_class(note: &Option<String>) -> (r: String)
    ensures
        r@ == (if note is Some {
            Seq::<char>::empty()
        } else {
            hide_css_id()
        }),
{
    match note {
        Some(_) => String::new(),
        None => "hidden".to_owned(),
    }
}

/// The images and messages configured for a state.
pub open spec fn assets_of(state: LifeState, cfg: StateGlobal) -> State {
    match state {
        LifeState::Alive => cfg.alive,
        LifeState::ProbablyAlive => cfg.uncertain,
        LifeState::MissingOrDead => cfg.missing,
        LifeState::Incapacitated => cfg.incapacitated,
        LifeState::Dead => cfg.dead,
    }
}

/// The images and messages configured for a state.
pub fn state_assets(state: LifeState, cfg: &StateGlobal) -> (r: &State)
    ensures
        *r == assets_of(state, *cfg),
{
    match state {
        LifeState::Alive => &cfg.alive,
        LifeState::ProbablyAlive => &cfg.uncertain,
        LifeState::MissingOrDead => &cfg.missing,
        LifeState::Incapacitated => &cfg.incapacitated,
        LifeState::Dead => &cfg.dead,
    }
}

/// Which of `len` choices a random number picks.
pub fn pick_index(random: u64, len: usize) -> (r: usize)
    requires
        len > 0,
    ensures
        r == random % len as u64,
        r < len,
{
    (random % len as u64) as usize
}

/// Whether the page of a state tells how long the person has been silent.
pub open spec fn shows_silence(state: LifeState) -> bool {
    state == LifeState::ProbablyAlive || state == LifeState::MissingOrDead || state
        == LifeState::Incapacitated
}

/// Hours of silence rounded to the nearest hour (halves up), at least one.
pub open spec fn silent_hours(now: u64, last_seen: u64) -> int {
    let h = (now - last_seen + 1800) / 3600;
    if h < 1 {
        1
    } else {
        h
    }
}

/// Hours since the last heartbeat, as shown on the page.
pub fn hours_since(now: u64, last_seen: u64) -> (r: u64)
    requires
        last_seen <= now,
    ensures
        r == silent_hours(now, last_seen),
{
    let silence = now - last_seen;
    let hours = if silence % 3600 >= 1800 {
        silence / 3600 + 1
    } else {
        silence / 3600
    };
    assert(hours as int == (silence as int + 1800) / 3600) by (nonlinear_arith)
        requires
            silence as int % 3600 >= 1800 ==> hours as int == silence as int / 3600 + 1,
            silence as int % 3600 < 1800 ==> hours as int == silence as int / 3600,
    ;
    if hours < 1 {
        1
    } else {
        hours
    }
}

/// The ending of "hour" for a number of hours: `s` for more than one.
pub fn plural_suffix(hours: u64) -> (r: String)
    ensures
        r@ == (if hours > 1 {
            "s"@
        } else {
            Seq::<char>::empty()
        }),
{
    if hours > 1 {
        "s".to_owned()
    } else {
        String::new()
    }
}

} // verus!

verus! {

/// `s` from position `i` on, with each occurrence of `p` replaced by `w`,
/// scanning left to right without overlaps, as std's `str::replace` does.
pub open spec fn replaced_from(s: Seq<char>, p: Seq<char>, w: Seq<char>, i: int) -> Seq<char>
    decreases s.len() - i,
{
    if i < 0 || i >= s.len() || p.len() == 0 {
        if 0 <= i <= s.len() {
            s.subrange(i, s.len() as int)
        } else {
            Seq::empty()
        }
    } else if i + p.len() <= s.len() && s.subrange(i, i + p.len()) == p {
        w + replaced_from(s, p, w, i + p.len())
    } else {
        seq![s[i]] + replaced_from(s, p, w, i + 1)
    }
}

/// `s` with each occurrence of `p` replaced by `w`.
pub open spec fn replaced(s: Seq<char>, p: Seq<char>, w: Seq<char>) -> Seq<char> {
    replaced_from(s, p, w, 0)
}

/// Whether `p` occurs in `s` at position `i`.
fn occurs_at(s: &str, p: &str, i: usize) -> (r: bool)
    requires
        i <= s@.len(),
    ensures
        r == (i + p@.len() <= s@.len() && s@.subrange(i as int, i + p@.len()) == p@),
{
    let n = s.unicode_len();
    let m = p.unicode_len();
    if m > n - i {
        return false;
    }
    let mut k: usize = 0;
    while k < m
        invariant
            k <= m,
            m == p@.len(),
            n == s@.len(),
            i + m <= n,
            forall|j: int| 0 <= j < k ==> s@[i + j] == p@[j],
        decreases m - k,
    {
        if s.get_char(i + k) != p.get_char(k) {
            assert(s@.subrange(i as int, i + m)[k as int] != p@[k as int]);
            return false;
        }
        k = k + 1;
    }
    assert(s@.subrange(i as int, i + m) =~= p@);
    true
}

/// Replaces each occurrence of `from` in `s` by `to`, left to right.
pub fn replace_all(s: &str, from: &str, to: &str) -> (r: String)
    requires
        from@.len() > 0,
    ensures
        r@ == replaced(s@, from@, to@),
{
    let n = s.unicode_len();
    let m = from.unicode_len();
    let mut out = String::new();
    let mut i: usize = 0;
    while i < n
        invariant
            i <= n,
            n == s@.len(),
            m == from@.len(),
            m > 0,
            out@ + replaced_from(s@, from@, to@, i as int) == replaced(s@, from@, to@),
        decreases n - i,
    {
        let ghost before = out@;
        if occurs_at(s, from, i) {
            out.append(to);
            assert(out@ + replaced_from(s@, from@, to@, i + m) == before + replaced_from(
                s@,
                from@,
                to@,
                i as int,
            ));
            i = i + m;
        } else {
            out.append(s.substring_char(i, i + 1));
            assert(s@.subrange(i as int, i + 1) =~= seq![s@[i as int]]);
            assert(out@ + replaced_from(s@, from@, to@, i + 1) =~= before + replaced_from(
                s@,
                from@,
                to@,
                i as int,
            ));
            i = i + 1;
        }
    }
    assert(replaced_from(s@, from@, to@, n as int) =~= Seq::<char>::empty());
    assert(out@ + Seq::<char>::empty() =~= out@);
    out
}

/// The status message shown on the page: `{0}` in the template becomes the
/// name; where the page tells the silence, `{1}` becomes the hours and `{2}`
/// the plural ending of "hour".
pub fn format_status_message(template: &str, name: &str, hours: Option<u64>) -> (r: String)
    ensures
        r@ == match hours {
            Some(h) => replaced(
                replaced(replaced(template@, "{0}"@, name@), "{1}"@, crate::text::decimal(h as nat)),
                "{2}"@,
                if h > 1 {
                    "s"@
                } else {
                    Seq::<char>::empty()
                },
            ),
            None => replaced(template@, "{0}"@, name@),
        },
{
    proof {
        reveal_strlit("{0}");
        reveal_strlit("{1}");
        reveal_strlit("{2}");
    }
    let named = replace_all(template, "{0}", name);
    match hours {
        Some(h) => {
            let counted = replace_all(
                named.as_str(),
                "{1}",
                crate::text::decimal_string(h as u128).as_str(),
            );
            replace_all(counted.as_str(), "{2}", plural_suffix(h).as_str())
        },
        None => named,
    }
}

} // verus!

verus! {

/// Everything the front page shows.
#[derive(Debug, Clone, PartialEq)]
pub struct FrontPage {
    pub name: String,
    pub status_title: String,
    pub status_color: String,
    pub status_image: String,
    pub status_message: String,
    /// CSS id of the note's box.
    pub show_note: String,
    pub note_message: String,
    /// CSS id of the page.
    pub is_dead: String,
}

} // verus!
