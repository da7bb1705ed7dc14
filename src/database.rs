use crate::lines::{find_char, find_char_from, lemma_find_char, lines_of, split_lines, texts};
use crate::liveness::{not_available, state_from_code, HeartbeatDisplay, LifeState};
use crate::server::{offset_secs_of, rfc2822, rfc2822_of, DISPLAYABLE_TIME_LIMIT, MAX_DISPLAYED_HEARTBEATS};
use crate::text::{decimal, decimal_string, parse_u64, parsed_u64};
use vstd::prelude::*;
use vstd::string::StringExecFns;

verus! {

/// What the server starts from, as read from its database file.
#[derive(Debug, Clone, PartialEq)]
pub struct InitialState {
    pub state: LifeState,
    pub last_heartbeat: u64,
    pub note: Option<String>,
    /// The most recent heartbeats, newest first; always five rows.
    pub heartbeat_display: Vec<HeartbeatDisplay>,
}

/// The whole database file, line by line.
#[derive(Debug, Default, Clone, PartialEq)]
pub struct Database {
    /// The stored state digit.
    pub state: String,
    pub last_heartbeat: u64,
    /// The note, empty when there is none.
    pub note: String,
    /// Every heartbeat received, oldest first.
    pub heartbeat_history: Vec<HeartbeatLog>,
}

/// One received heartbeat, as logged.
#[derive(Debug, Default, Clone, PartialEq)]
pub struct HeartbeatLog {
    /// Unix time, in seconds.
    pub timestamp: u64,
    /// e.g. "16.13.35.105" (IPv4), "2700:3600:a3bf::3" (IPv6)
    pub from_address: String,
    pub message: String,
}

/// Why a line of the heartbeat log cannot be read.
#[derive(Debug, Clone, Copy, PartialEq, Eq, Structural)]
pub enum LineError {
    /// The line lacks the two spaces that separate its fields.
    Corrupted,
    /// The first field is not a Unix time.
    InvalidTimestamp,
}

/// Why a database file cannot be read; `line` counts from 1.
#[derive(Debug, Clone, Copy, PartialEq, Eq, Structural)]
pub enum DbError {
    /// The first line, which holds the state, is empty.
    EmptyState,
    /// The first line is not a state's digit.
    InvalidState,
    /// The second line is not a Unix time.
    InvalidLastHeartbeat,
    /// A heartbeat line lacks the spaces between its fields.
    CorruptedEntry { line: usize },
    /// A heartbeat line does not start with a Unix time.
    InvalidEntryTimestamp { line: usize },
    /// A heartbeat's time cannot be shown with a four-digit year.
    UndisplayableEntry { line: usize },
}

impl HeartbeatLog {
    /// The logged heartbeat as plain values: time, address, message.
    pub open spec fn model(&self) -> (u64, Seq<char>, Seq<char>) {
        (self.timestamp, self.from_address@, self.message@)
    }
}

/// The three fields of a log line `<time> <address> <message>`: split at the
/// first space and at the next one; the message is the rest, spaces and all.
pub open spec fn log_fields(l: Seq<char>) -> Option<(Seq<char>, Seq<char>, Seq<char>)> {
    let i = find_char(l, ' ', 0);
    if i >= l.len() {
        None
    } else {
        let rest = l.subrange(i + 1, l.len() as int);
        let j = find_char(rest, ' ', 0);
        if j >= rest.len() {
            None
        } else {
            Some((l.subrange(0, i), rest.subrange(0, j), rest.subrange(j + 1, rest.len() as int)))
        }
    }
}

/// A log line read as a heartbeat.
pub open spec fn parsed_log(l: Seq<char>) -> Result<(u64, Seq<char>, Seq<char>), LineError> {
    match log_fields(l) {
        None => Err(LineError::Corrupted),
        Some(f) => match parsed_u64(f.0) {
            None => Err(LineError::InvalidTimestamp),
            Some(t) => Ok((t, f.1, f.2)),
        },
    }
}

/// Reads one line of the heartbeat log.
pub fn parse_log_line(line: &str) -> (r: Result<HeartbeatLog, LineError>)
    ensures
        match r {
            Ok(h) => parsed_log(line@) == Ok::<_, LineError>(h.model()),
            Err(e) => parsed_log(line@) == Err::<(u64, Seq<char>, Seq<char>), _>(e),
        },
{
    let n = line.unicode_len();
    let i = find_char_from(line, ' ', 0);
    proof {
        lemma_find_char(line@, ' ', 0);
    }
    if i >= n {
        return Err(LineError::Corrupted);
    }
    let rest = line.substring_char(i + 1, n);
    let m = rest.unicode_len();
    let j = find_char_from(rest, ' ', 0);
    proof {
        lemma_find_char(rest@, ' ', 0);
    }
    if j >= m {
        return Err(LineError::Corrupted);
    }
    let timestamp = match parse_u64(line.substring_char(0, i)) {
        Some(t) => t,
        None => return Err(LineError::InvalidTimestamp),
    };
    let from_address = rest.substring_char(0, j).to_owned();
    let message = rest.substring_char(j + 1, m).to_owned();
    Ok(HeartbeatLog { timestamp, from_address, message })
}

/// The error for a log line, numbered `line`.
pub open spec fn entry_error(e: LineError, line: int) -> DbError {
    match e {
        LineError::Corrupted => DbError::CorruptedEntry { line: line as usize },
        LineError::InvalidTimestamp => DbError::InvalidEntryTimestamp { line: line as usize },
    }
}

/// The heartbeats of lines 3 to `n - 1` (from 0), or the first line's error.
pub open spec fn history_upto(ls: Seq<Seq<char>>, n: int) -> Result<
    Seq<(u64, Seq<char>, Seq<char>)>,
    DbError,
>
    decreases n,
{
    if n <= 3 {
        Ok(Seq::empty())
    } else {
        match history_upto(ls, n - 1) {
            Err(e) => Err(e),
            Ok(h) => match parsed_log(ls[n - 1]) {
                Err(e) => Err(entry_error(e, n)),
                Ok(x) => Ok(h.push(x)),
            },
        }
    }
}

proof fn lemma_history_error_sticks(ls: Seq<Seq<char>>, n: int, m: int)
    requires
        n <= m,
        history_upto(ls, n) is Err,
    ensures
        history_upto(ls, m) == history_upto(ls, n),
    decreases m - n,
{
    if n < m {
        lemma_history_error_sticks(ls, n, m - 1);
    }
}

/// The error in the first three lines of a database file, if any.
pub open spec fn header_error(ls: Seq<Seq<char>>) -> Option<DbError> {
    if ls.len() > 0 && ls[0].len() == 0 {
        Some(DbError::EmptyState)
    } else if ls.len() > 1 && parsed_u64(ls[1]) is None {
        Some(DbError::InvalidLastHeartbeat)
    } else {
        None
    }
}

/// The lines of a database file: the state digit, the last heartbeat's time,
/// the note, then one heartbeat per line, oldest first. Missing lines leave
/// the defaults (empty texts, time 0).
pub open spec fn database_matches(d: Database, ls: Seq<Seq<char>>) -> bool {
    &&& d.state@ == (if ls.len() > 0 { ls[0] } else { Seq::empty() })
    &&& d.last_heartbeat == (if ls.len() > 1 { parsed_u64(ls[1]).unwrap() } else { 0 })
    &&& d.note@ == (if ls.len() > 2 { ls[2] } else { Seq::empty() })
    &&& history_upto(ls, ls.len() as int) == Ok::<_, DbError>(
        d.heartbeat_history@.map_values(|h: HeartbeatLog| h.model()),
    )
}

/// The error that reading a database file's lines meets first.
pub open spec fn database_error(ls: Seq<Seq<char>>) -> Option<DbError> {
    match header_error(ls) {
        Some(e) => Some(e),
        None => match history_upto(ls, ls.len() as int) {
            Err(e) => Some(e),
            Ok(_) => None,
        },
    }
}

/// Reads the whole contents of a database file.
pub fn load_database(contents: &str) -> (r: Result<Database, DbError>)
    ensures
        match r {
            Ok(d) => database_error(lines_of(contents@)) is None && database_matches(
                d,
                lines_of(contents@),
            ),
            Err(e) => database_error(lines_of(contents@)) == Some(e),
        },
{
    let lines = split_lines(contents);
    let ghost ls = lines_of(contents@);
    let count = lines.len();
    assert(texts(lines@).len() == count);
    let mut state = String::new();
    let mut last_heartbeat: u64 = 0;
    let mut note = String::new();
    if count > 0 {
        assert(lines@[0]@ == ls[0]);
        if lines[0].as_str().is_empty() {
            return Err(DbError::EmptyState);
        }
        state = lines[0].clone();
    }
    if count > 1 {
        assert(lines@[1]@ == ls[1]);
        match parse_u64(lines[1].as_str()) {
            Some(t) => last_heartbeat = t,
            None => return Err(DbError::InvalidLastHeartbeat),
        }
    }
    if count > 2 {
        assert(lines@[2]@ == ls[2]);
        note = lines[2].clone();
    }
    let mut history: Vec<HeartbeatLog> = Vec::new();
    let mut i: usize = 3;
    if count < 3 {
        i = count;
    }
    assert(history@.map_values(|h: HeartbeatLog| h.model()) =~= Seq::empty());
    while i < count
        invariant
            i <= count,
            header_error(ls) is None,
            ls == lines_of(contents@),
            state@ == (if ls.len() > 0 { ls[0] } else { Seq::empty() }),
            last_heartbeat == (if ls.len() > 1 { parsed_u64(ls[1]).unwrap() } else { 0 }),
            note@ == (if ls.len() > 2 { ls[2] } else { Seq::empty() }),
            count == ls.len(),
            texts(lines@) == ls,
            i >= 3 || i == count,
            history_upto(ls, i as int) == Ok::<_, DbError>(
                history@.map_values(|h: HeartbeatLog| h.model()),
            ),
        decreases count - i,
    {
        assert(lines@[i as int]@ == ls[i as int]);
        match parse_log_line(lines[i].as_str()) {
            Ok(h) => {
                let ghost before = history@;
                history.push(h);
                assert(history@.map_values(|h: HeartbeatLog| h.model()) == before.map_values(
                    |h: HeartbeatLog| h.model(),
                ).push(h.model()));
            },
            Err(e) => {
                assert(history_upto(ls, i + 1) == Err::<Seq<(u64, Seq<char>, Seq<char>)>, _>(
                    entry_error(e, i + 1),
                ));
                proof {
                    lemma_history_error_sticks(ls, i + 1, count as int);
                }
                let err = match e {
                    LineError::Corrupted => DbError::CorruptedEntry { line: i + 1 },
                    LineError::InvalidTimestamp => DbError::InvalidEntryTimestamp { line: i + 1 },
                };
                assert(err == entry_error(e, i + 1));
                assert(database_error(ls) == Some(err));
                return Err(err);
            },
        }
        i = i + 1;
    }
    Ok(Database { state, last_heartbeat, note, heartbeat_history: history })
}

} // verus!

verus! {

/// The error in the first three lines when the server starts from them.
pub open spec fn initial_header_error(ls: Seq<Seq<char>>) -> Option<DbError> {
    if ls.len() > 0 && ls[0].len() == 0 {
        Some(DbError::EmptyState)
    } else if ls.len() > 0 && state_from_code(ls[0]) is None {
        Some(DbError::InvalidState)
    } else if ls.len() > 1 && parsed_u64(ls[1]) is None {
        Some(DbError::InvalidLastHeartbeat)
    } else {
        None
    }
}

/// How many of the table's rows the log fills: the heartbeat lines, at most five.
pub open spec fn shown_rows(ls: Seq<Seq<char>>) -> int {
    if ls.len() <= 3 {
        0
    } else if ls.len() - 3 >= MAX_DISPLAYED_HEARTBEATS {
        MAX_DISPLAYED_HEARTBEATS as int
    } else {
        ls.len() - 3
    }
}

/// The first `n` rows of the table (time and message), newest first, each
/// read from the log line `ls.len() - 1 - row`; or the first row's error.
pub open spec fn display_upto(ls: Seq<Seq<char>>, offset: int, n: int) -> Result<
    Seq<(Seq<char>, Seq<char>)>,
    DbError,
>
    decreases n,
{
    if n <= 0 {
        Ok(Seq::empty())
    } else {
        match display_upto(ls, offset, n - 1) {
            Err(e) => Err(e),
            Ok(rows) => {
                let idx = ls.len() - n;
                match parsed_log(ls[idx]) {
                    Err(e) => Err(entry_error(e, idx + 1)),
                    Ok(x) => if x.0 + offset >= DISPLAYABLE_TIME_LIMIT {
                        Err(DbError::UndisplayableEntry { line: (idx + 1) as usize })
                    } else {
                        Ok(rows.push((rfc2822_of(x.0 as int, offset), crate::server::shown_message(x.2))))
                    },
                }
            },
        }
    }
}

proof fn lemma_display_error_sticks(ls: Seq<Seq<char>>, offset: int, n: int, m: int)
    requires
        n <= m,
        display_upto(ls, offset, n) is Err,
    ensures
        display_upto(ls, offset, m) == display_upto(ls, offset, n),
    decreases m - n,
{
    if n < m {
        lemma_display_error_sticks(ls, offset, n, m - 1);
    }
}

/// The error that starting from a database file's lines meets first.
pub open spec fn initial_state_error(ls: Seq<Seq<char>>, offset: int) -> Option<DbError> {
    match initial_header_error(ls) {
        Some(e) => Some(e),
        None => match display_upto(ls, offset, shown_rows(ls)) {
            Err(e) => Some(e),
            Ok(_) => None,
        },
    }
}

/// What the server starts from, given a database file's lines.
pub open spec fn initial_state_matches(s: InitialState, ls: Seq<Seq<char>>, offset: int) -> bool {
    let rows = display_upto(ls, offset, shown_rows(ls)).unwrap();
    let table = s.heartbeat_display@;
    &&& s.state == (if ls.len() > 0 { state_from_code(ls[0]).unwrap() } else { LifeState::Alive })
    &&& s.last_heartbeat == (if ls.len() > 1 { parsed_u64(ls[1]).unwrap() } else { 0 })
    &&& s.note == (if ls.len() > 2 && ls[2].len() > 0 {
        Some(s.note.unwrap())
    } else {
        None::<String>
    })
    &&& (ls.len() > 2 && ls[2].len() > 0 ==> s.note.unwrap()@ == ls[2])
    &&& table.len() == MAX_DISPLAYED_HEARTBEATS
    &&& forall|i: int|
        0 <= i < MAX_DISPLAYED_HEARTBEATS ==> if i < shown_rows(ls) {
            (#[trigger] table[i]).timestamp@ == rows[i].0 && table[i].message@ == rows[i].1
        } else {
            table[i].timestamp@ == not_available() && table[i].message@ == not_available()
        }
}

/// Reads what the server starts from out of a database file's contents: the
/// state, the last heartbeat, the note, and the table of the (up to) five
/// latest heartbeats, their times shown `utc_offset` hours east of UTC.
pub fn parse_initial_state(contents: &str, utc_offset: i32) -> (r: Result<InitialState, DbError>)
    requires
        -24 < utc_offset < 24,
    ensures
        match r {
            Ok(s) => initial_state_error(lines_of(contents@), offset_secs_of(utc_offset)) is None
                && initial_state_matches(s, lines_of(contents@), offset_secs_of(utc_offset)),
            Err(e) => initial_state_error(lines_of(contents@), offset_secs_of(utc_offset)) == Some(
                e,
            ),
        },
{
    let lines = split_lines(contents);
    let ghost ls = lines_of(contents@);
    let ghost offset = offset_secs_of(utc_offset);
    let count = lines.len();
    assert(texts(lines@).len() == count);
    let mut state = LifeState::Alive;
    let mut last_heartbeat: u64 = 0;
    let mut note: Option<String> = None;
    if count > 0 {
        assert(lines@[0]@ == ls[0]);
        if lines[0].as_str().is_empty() {
            return Err(DbError::EmptyState);
        }
        match LifeState::from_code(lines[0].as_str()) {
            Some(s) => state = s,
            None => return Err(DbError::InvalidState),
        }
    }
    if count > 1 {
        assert(lines@[1]@ == ls[1]);
        match parse_u64(lines[1].as_str()) {
            Some(t) => last_heartbeat = t,
            None => return Err(DbError::InvalidLastHeartbeat),
        }
    }
    if count > 2 {
        assert(lines@[2]@ == ls[2]);
        if !lines[2].as_str().is_empty() {
            note = Some(lines[2].clone());
        }
    }
    let shown: usize = if count <= 3 {
        0
    } else if count - 3 >= MAX_DISPLAYED_HEARTBEATS {
        MAX_DISPLAYED_HEARTBEATS
    } else {
        count - 3
    };
    let offset_secs: i32 = utc_offset * 3600;
    let mut table: Vec<HeartbeatDisplay> = Vec::new();
    let mut i: usize = 0;
    assert(table@.map_values(|d: HeartbeatDisplay| (d.timestamp@, d.message@)) =~= Seq::empty());
    while i < shown
        invariant
            i <= shown,
            table@.len() == i,
            shown == shown_rows(ls),
            count == ls.len(),
            texts(lines@) == ls,
            ls == lines_of(contents@),
            offset == offset_secs_of(utc_offset),
            offset_secs == offset,
            -24 < utc_offset < 24,
            initial_header_error(ls) is None,
            state == (if ls.len() > 0 { state_from_code(ls[0]).unwrap() } else { LifeState::Alive }),
            last_heartbeat == (if ls.len() > 1 { parsed_u64(ls[1]).unwrap() } else { 0 }),
            note == (if ls.len() > 2 && ls[2].len() > 0 {
                Some(note.unwrap())
            } else {
                None::<String>
            }),
            (ls.len() > 2 && ls[2].len() > 0 ==> note.unwrap()@ == ls[2]),
            display_upto(ls, offset, i as int) == Ok::<_, DbError>(
                table@.map_values(|d: HeartbeatDisplay| (d.timestamp@, d.message@)),
            ),
        decreases shown - i,
    {
        let idx = count - 1 - i;
        assert(lines@[idx as int]@ == ls[idx as int]);
        let ghost rows = table@.map_values(|d: HeartbeatDisplay| (d.timestamp@, d.message@));
        match parse_log_line(lines[idx].as_str()) {
            Ok(h) => {
                if h.timestamp >= DISPLAYABLE_TIME_LIMIT + 86400 || (h.timestamp as i64) + (
                offset_secs as i64) >= DISPLAYABLE_TIME_LIMIT as i64 {
                    let err = DbError::UndisplayableEntry { line: idx + 1 };
                    assert(display_upto(ls, offset, i + 1) == Err::<
                        Seq<(Seq<char>, Seq<char>)>,
                        _,
                    >(err));
                    proof {
                        lemma_display_error_sticks(ls, offset, i + 1, shown as int);
                    }
                    return Err(err);
                }
                let timestamp = rfc2822(h.timestamp as i64, offset_secs);
                let message = if h.message.as_str().is_empty() {
                    "N/A".to_owned()
                } else {
                    h.message
                };
                table.push(HeartbeatDisplay { timestamp, message });
                assert(table@.map_values(|d: HeartbeatDisplay| (d.timestamp@, d.message@))
                    =~= rows.push((rfc2822_of(h.timestamp as int, offset), crate::server::shown_message(h.model().2))));
            },
            Err(e) => {
                let err = match e {
                    LineError::Corrupted => DbError::CorruptedEntry { line: idx + 1 },
                    LineError::InvalidTimestamp => DbError::InvalidEntryTimestamp { line: idx + 1 },
                };
                assert(display_upto(ls, offset, i + 1) == Err::<Seq<(Seq<char>, Seq<char>)>, _>(
                    err,
                ));
                proof {
                    lemma_display_error_sticks(ls, offset, i + 1, shown as int);
                }
                return Err(err);
            },
        }
        i = i + 1;
    }
    let ghost rows = table@.map_values(|d: HeartbeatDisplay| (d.timestamp@, d.message@));
    while table.len() < MAX_DISPLAYED_HEARTBEATS
        invariant
            shown <= table@.len() <= MAX_DISPLAYED_HEARTBEATS,
            shown == shown_rows(ls),
            rows.len() == shown,
            ls == lines_of(contents@),
            offset == offset_secs_of(utc_offset),
            initial_header_error(ls) is None,
            display_upto(ls, offset, shown as int) == Ok::<_, DbError>(rows),
            state == (if ls.len() > 0 { state_from_code(ls[0]).unwrap() } else { LifeState::Alive }),
            last_heartbeat == (if ls.len() > 1 { parsed_u64(ls[1]).unwrap() } else { 0 }),
            note == (if ls.len() > 2 && ls[2].len() > 0 {
                Some(note.unwrap())
            } else {
                None::<String>
            }),
            (ls.len() > 2 && ls[2].len() > 0 ==> note.unwrap()@ == ls[2]),

            forall|j: int|
                0 <= j < shown ==> (#[trigger] table@[j]).timestamp@ == rows[j].0
                    && table@[j].message@ == rows[j].1,
            forall|j: int|
                shown <= j < table@.len() ==> (#[trigger] table@[j]).timestamp@ == not_available()
                    && table@[j].message@ == not_available(),
        decreases MAX_DISPLAYED_HEARTBEATS - table@.len(),
    {
        table.push(HeartbeatDisplay::default());
    }
    Ok(InitialState { state, last_heartbeat, note, heartbeat_display: table })
}

} // verus!

verus! {

/// A heartbeat as a line of the log: `<time> <address> <message>\n`.
pub open spec fn log_line(h: (u64, Seq<char>, Seq<char>)) -> Seq<char> {
    decimal(h.0 as nat) + seq![' '] + h.1 + seq![' '] + h.2 + seq!['\n']
}

/// The lines of a heartbeat log, oldest first.
pub open spec fn log_text(hs: Seq<(u64, Seq<char>, Seq<char>)>) -> Seq<char>
    decreases hs.len(),
{
    if hs.len() == 0 {
        Seq::empty()
    } else {
        log_text(hs.drop_last()) + log_line(hs.last())
    }
}

/// A database as its file holds it: state, last heartbeat and note on a line
/// each, then the log.
pub open spec fn database_text(d: Database) -> Seq<char> {
    d.state@ + seq!['\n'] + decimal(d.last_heartbeat as nat) + seq!['\n'] + d.note@ + seq!['\n']
        + log_text(d.heartbeat_history@.map_values(|h: HeartbeatLog| h.model()))
}

impl HeartbeatLog {
    /// The heartbeat as a line of the log, newline included.
    pub fn to_line(&self) -> (r: String)
        ensures
            r@ == log_line(self.model()),
    {
        proof {
            reveal_strlit(" ");
            reveal_strlit("\n");
        }
        let mut line = decimal_string(self.timestamp as u128);
        line.append(" ");
        line.append(self.from_address.as_str());
        line.append(" ");
        line.append(self.message.as_str());
        line.append("\n");
        line
    }
}

impl Database {
    /// The text of the database file.
    pub fn to_text(&self) -> (r: String)
        ensures
            r@ == database_text(*self),
    {
        proof {
            reveal_strlit("\n");
        }
        let mut text = self.state.clone();
        text.append("\n");
        text.append(decimal_string(self.last_heartbeat as u128).as_str());
        text.append("\n");
        text.append(self.note.as_str());
        text.append("\n");
        let ghost head = text@;
        let ghost hs = self.heartbeat_history@.map_values(|h: HeartbeatLog| h.model());
        let mut i: usize = 0;
        while i < self.heartbeat_history.len()
            invariant
                i <= self.heartbeat_history@.len(),
                hs == self.heartbeat_history@.map_values(|h: HeartbeatLog| h.model()),
                text@ == head + log_text(hs.subrange(0, i as int)),
            decreases self.heartbeat_history@.len() - i,
        {
            let line = self.heartbeat_history[i].to_line();
            text.append(line.as_str());
            assert(hs.subrange(0, i + 1).drop_last() == hs.subrange(0, i as int));
            i = i + 1;
        }
        assert(hs.subrange(0, i as int) == hs);
        text
    }
}

} // verus!
