use vstd::prelude::*;

verus! {

/// Index of the first `c` in `s` at or after `from`; `s.len()` when there is none.
pub open spec fn find_char(s: Seq<char>, c: char, from: int) -> int
    decreases s.len() - from,
{
    if from >= s.len() {
        s.len() as int
    } else if s[from] == c {
        from
    } else {
        find_char(s, c, from + 1)
    }
}

/// `find_char` lands on `c`, or on the end, and skips no `c`.
pub proof fn lemma_find_char(s: Seq<char>, c: char, from: int)
    requires
        0 <= from <= s.len(),
    ensures
        from <= find_char(s, c, from) <= s.len(),
        find_char(s, c, from) < s.len() ==> s[find_char(s, c, from)] == c,
        forall|j: int| from <= j < find_char(s, c, from) ==> s[j] != c,
    decreases s.len() - from,
{
    if from < s.len() && s[from] != c {
        lemma_find_char(s, c, from + 1);
    }
}

/// A line without the carriage return that may end it.
pub open spec fn strip_cr(l: Seq<char>) -> Seq<char> {
    if l.len() > 0 && l.last() == '\r' {
        l.drop_last()
    } else {
        l
    }
}

/// The lines of `s` from position `from` on, as std's `str::lines` gives
/// them: split at each `\n`, a `\r` just before a `\n` dropped, and no
/// empty line after a final `\n`.
pub open spec fn lines_from(s: Seq<char>, from: int) -> Seq<Seq<char>>
    decreases s.len() - from,
{
    if from >= s.len() || from < 0 {
        Seq::empty()
    } else {
        let k = find_char(s, '\n', from);
        if k < from {
            Seq::empty()
        } else if k >= s.len() {
            seq![s.subrange(from, s.len() as int)]
        } else {
            seq![strip_cr(s.subrange(from, k))] + lines_from(s, k + 1)
        }
    }
}

/// The lines of `s`.
pub open spec fn lines_of(s: Seq<char>) -> Seq<Seq<char>> {
    lines_from(s, 0)
}

/// The texts of a list of strings.
pub open spec fn texts(v: Seq<String>) -> Seq<Seq<char>> {
    v.map_values(|l: String| l@)
}

/// Index of the first `c` in `s` at or after `from`; the length of `s` when
/// there is none.
pub fn find_char_from(s: &str, c: char, from: usize) -> (r: usize)
    requires
        from <= s@.len(),
    ensures
        r == find_char(s@, c, from as int),
{
    let len = s.unicode_len();
    let mut i = from;
    while i < len
        invariant
            from <= i <= len,
            len == s@.len(),
            find_char(s@, c, i as int) == find_char(s@, c, from as int),
        decreases len - i,
    {
        if s.get_char(i) == c {
            return i;
        }
        i = i + 1;
    }
    i
}

/// Splits a text into its lines, as std's `str::lines` does.
pub fn split_lines(s: &str) -> (r: Vec<String>)
    ensures
        texts(r@) == lines_of(s@),
{
    let len = s.unicode_len();
    let mut out: Vec<String> = Vec::new();
    let mut pos: usize = 0;
    while pos < len
        invariant
            pos <= len,
            len == s@.len(),
            texts(out@) + lines_from(s@, pos as int) == lines_of(s@),
        decreases len - pos,
    {
        let k = find_char_from(s, '\n', pos);
        proof {
            lemma_find_char(s@, '\n', pos as int);
        }
        let mut end = k;
        if k < len && end > pos && s.get_char(end - 1) == '\r' {
            end = end - 1;
        }
        let line = s.substring_char(pos, end).to_owned();
        assert(k < len ==> line@ == strip_cr(s@.subrange(pos as int, k as int)));
        assert(k >= len ==> line@ == s@.subrange(pos as int, len as int));
        let ghost before = out@;
        out.push(line);
        assert(texts(out@) == texts(before).push(line@));
        if k < len {
            assert(lines_from(s@, pos as int) == seq![line@] + lines_from(s@, k + 1));
            assert(texts(out@) + lines_from(s@, k + 1) == texts(before) + lines_from(
                s@,
                pos as int,
            ));
            pos = k + 1;
        } else {
            assert(lines_from(s@, pos as int) == seq![line@]);
            assert(texts(out@) + lines_from(s@, len as int) == texts(before) + lines_from(
                s@,
                pos as int,
            ));
            pos = len;
        }
    }
    assert(lines_from(s@, pos as int) == Seq::<Seq<char>>::empty());
    assert(texts(out@) + Seq::<Seq<char>>::empty() == texts(out@));
    out
}

} // verus!
