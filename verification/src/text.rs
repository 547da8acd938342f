//! Character-level helpers over `&str`, stated over `Seq<char>`.

use vstd::prelude::*;
use crate::search::{last_index, lemma_last_index_is, lemma_last_index_none};

verus! {

/// `p` occurs in `s` at position `at`.
pub open spec fn occurs_at(s: Seq<char>, p: Seq<char>, at: int) -> bool {
    0 <= at && at + p.len() <= s.len() && s.subrange(at, at + p.len()) == p
}

/// `s` begins with `p`.
pub open spec fn has_prefix(s: Seq<char>, p: Seq<char>) -> bool {
    occurs_at(s, p, 0)
}

/// `s` ends with `p`.
pub open spec fn has_suffix(s: Seq<char>, p: Seq<char>) -> bool {
    occurs_at(s, p, s.len() - p.len())
}

/// The position of the first occurrence of `p` in `s` at or after `from`.
pub open spec fn first_occurrence(s: Seq<char>, p: Seq<char>, from: int) -> Option<int>
    decreases s.len() - from + 1,
{
    if from < 0 || from + p.len() > s.len() {
        None
    } else if occurs_at(s, p, from) {
        Some(from)
    } else {
        first_occurrence(s, p, from + 1)
    }
}

/// `p` occurs somewhere in `s`.
pub open spec fn contains_text(s: Seq<char>, p: Seq<char>) -> bool {
    first_occurrence(s, p, 0) is Some
}

/// What `first_occurrence` finds is an occurrence, and the earliest one.
pub proof fn lemma_first_occurrence(s: Seq<char>, p: Seq<char>, from: int)
    requires
        0 <= from,
    ensures
        match first_occurrence(s, p, from) {
            Some(k) => from <= k && occurs_at(s, p, k) && forall|j: int|
                from <= j < k ==> !occurs_at(s, p, j),
            None => forall|j: int| from <= j ==> !occurs_at(s, p, j),
        },
    decreases s.len() - from + 1,
{
    if from + p.len() > s.len() {
    } else if occurs_at(s, p, from) {
    } else {
        lemma_first_occurrence(s, p, from + 1);
    }
}

/// The position of the first line feed in `s`, or the length of `s` where it
/// holds none.
pub open spec fn line_end(s: Seq<char>) -> int
    decreases s.len(),
{
    if s.len() == 0 || s[0] == '\n' {
        0
    } else {
        1 + line_end(s.drop_first())
    }
}

/// A line without the carriage return that may end it.
pub open spec fn without_carriage_return(line: Seq<char>) -> Seq<char> {
    if line.len() > 0 && line.last() == '\r' {
        line.drop_last()
    } else {
        line
    }
}

/// The lines of a text. A line ends at a line feed, or at a carriage return
/// followed by one; neither is part of the line. What follows the last line
/// feed is a line too, unless it is empty, and keeps a carriage return at
/// its end.
pub open spec fn split_lines(s: Seq<char>) -> Seq<Seq<char>>
    decreases s.len(),
{
    let end = line_end(s);
    if s.len() == 0 {
        Seq::empty()
    } else if end < 0 || end >= s.len() {
        seq![s]
    } else {
        seq![without_carriage_return(s.subrange(0, end))] + split_lines(
            s.subrange(end + 1, s.len() as int),
        )
    }
}

/// The texts of a list of strings.
pub open spec fn texts_of(strings: Seq<String>) -> Seq<Seq<char>> {
    Seq::new(strings.len(), |i: int| strings[i]@)
}

/// The line feed that ends the first line of `s` stands at `line_end(s)`,
/// and nowhere before it.
pub proof fn lemma_line_end(s: Seq<char>)
    ensures
        0 <= line_end(s) <= s.len(),
        forall|i: int| 0 <= i < line_end(s) ==> s[i] != '\n',
        line_end(s) < s.len() ==> s[line_end(s)] == '\n',
    decreases s.len(),
{
    if s.len() > 0 && s[0] != '\n' {
        let rest = s.drop_first();
        lemma_line_end(rest);
        assert forall|i: int| 0 <= i < line_end(s) implies s[i] != '\n' by {
            if i > 0 {
                assert(rest[i - 1] == s[i]);
            }
        }
        if line_end(s) < s.len() {
            assert(rest[line_end(rest)] == s[line_end(s)]);
        }
    }
}

/// A copy of the characters of `text` from `from` up to `to`. A text of
/// ASCII characters alone is cut in constant time.
pub fn piece_of(text: &str, is_ascii: bool, from: usize, to: usize) -> (r: String)
    requires
        is_ascii == text.is_ascii(),
        from <= to <= text@.len(),
    ensures
        r@ == text@.subrange(from as int, to as int),
{
    if is_ascii {
        text.substring_ascii(from, to).to_owned()
    } else {
        text.substring_char(from, to).to_owned()
    }
}

/// The lines of a text.
pub fn lines_of(text: &str) -> (r: Vec<String>)
    ensures
        texts_of(r@) == split_lines(text@),
{
    let chars = chars_of(text);
    let is_ascii = text.is_ascii();
    let n: usize = chars.len();
    let mut lines: Vec<String> = Vec::new();
    let mut start: usize = 0;
    assert(chars@.subrange(0, n as int) =~= chars@);
    assert(texts_of(lines@) + split_lines(chars@.subrange(0, n as int)) =~= split_lines(text@));
    while start < n
        invariant
            n == chars@.len(),
            chars@ == text@,
            is_ascii == text.is_ascii(),
            start <= n,
            texts_of(lines@) + split_lines(chars@.subrange(start as int, n as int)) == split_lines(
                text@,
            ),
        decreases n - start,
    {
        let ghost rest = chars@.subrange(start as int, n as int);
        let mut end: usize = start;
        while end < n && chars[end] != '\n'
            invariant
                start <= end <= n,
                n == chars@.len(),
                rest == chars@.subrange(start as int, n as int),
                forall|i: int| 0 <= i < end - start ==> rest[i] != '\n',
            decreases n - end,
        {
            end += 1;
        }
        proof {
            lemma_line_end(rest);
            if end < n {
                assert(rest[end - start] == '\n');
            }
            assert(line_end(rest) == end - start);
        }
        let ghost listed = lines@;
        if end == n {
            lines.push(piece_of(text, is_ascii, start, n));
            proof {
                assert(texts_of(lines@) =~= texts_of(listed).push(rest));
                assert(chars@.subrange(n as int, n as int) =~= Seq::<char>::empty());
                assert(texts_of(listed) + seq![rest] =~= texts_of(lines@)
                    + split_lines(Seq::<char>::empty()));
            }
            start = n;
        } else {
            let stop: usize = if end > start && chars[end - 1] == '\r' {
                end - 1
            } else {
                end
            };
            lines.push(piece_of(text, is_ascii, start, stop));
            proof {
                let line = rest.subrange(0, end - start);
                assert(chars@.subrange(start as int, stop as int) =~= without_carriage_return(
                    line,
                ));
                assert(rest.subrange(end - start + 1, rest.len() as int) =~= chars@.subrange(
                    end + 1,
                    n as int,
                ));
                assert(texts_of(lines@) =~= texts_of(listed).push(without_carriage_return(line)));
                assert(texts_of(listed) + (seq![without_carriage_return(line)] + split_lines(
                    chars@.subrange(end + 1, n as int),
                )) =~= texts_of(lines@) + split_lines(chars@.subrange(end + 1, n as int)));
            }
            start = end + 1;
        }
    }
    assert(chars@.subrange(n as int, n as int) =~= Seq::<char>::empty());
    assert(texts_of(lines@) + Seq::<Seq<char>>::empty() =~= texts_of(lines@));
    lines
}

/// The characters of a string, in order.
pub fn chars_of(s: &str) -> (r: Vec<char>)
    ensures
        r@ == s@,
{
    let mut out: Vec<char> = Vec::new();
    for c in it: s.chars()
        invariant
            out@ == it.seq().subrange(0, it.index() as int),
            it.seq() == s@,
    {
        out.push(c);
        assert(out@ =~= it.seq().subrange(0, it.index() + 1));
    }
    assert(out@ =~= s@);
    out
}

/// Whether `p` occurs in `s` at position `at`.
pub fn matches_at(s: &Vec<char>, p: &Vec<char>, at: usize) -> (r: bool)
    ensures
        r == occurs_at(s@, p@, at as int),
{
    if p.len() > s.len() || at > s.len() - p.len() {
        return false;
    }
    let mut i: usize = 0;
    while i < p.len()
        invariant
            at + p.len() <= s.len(),
            i <= p.len(),
            s@.subrange(at as int, at + i) == p@.subrange(0, i as int),
        decreases p.len() - i,
    {
        if s[at + i] != p[i] {
            assert(s@.subrange(at as int, at + p.len())[i as int] == s@[at + i]);
            return false;
        }
        assert(s@.subrange(at as int, at + i + 1) =~= s@.subrange(at as int, at + i).push(
            s@[at + i],
        ));
        assert(p@.subrange(0, i + 1) =~= p@.subrange(0, i as int).push(p@[i as int]));
        i += 1;
    }
    assert(p@.subrange(0, p.len() as int) =~= p@);
    true
}

/// The position of the first occurrence of `p` in `s` at or after `from`.
pub fn find_from(s: &Vec<char>, p: &Vec<char>, from: usize) -> (r: Option<usize>)
    ensures
        match r {
            Some(k) => first_occurrence(s@, p@, from as int) == Some(k as int),
            None => first_occurrence(s@, p@, from as int) is None,
        },
{
    if p.len() > s.len() || from > s.len() - p.len() {
        return None;
    }
    let last: usize = s.len() - p.len();
    let mut i: usize = from;
    loop
        invariant
            last == s.len() - p.len(),
            from <= i <= last,
            first_occurrence(s@, p@, from as int) == first_occurrence(s@, p@, i as int),
        decreases last - i,
    {
        if matches_at(s, p, i) {
            return Some(i);
        }
        if i == last {
            assert(first_occurrence(s@, p@, i + 1) is None);
            return None;
        }
        i += 1;
    }
}

/// The character is `c`.
pub open spec fn is_char(c: char) -> spec_fn(char) -> bool {
    |x: char| x == c
}

/// The position of the last `c` among the first `end` characters of `s`.
pub fn rfind_char(s: &Vec<char>, end: usize, c: char) -> (r: Option<usize>)
    requires
        end <= s.len(),
    ensures
        match r {
            Some(k) => last_index(s@.subrange(0, end as int), is_char(c)) == Some(k as int) && k
                < end,
            None => last_index(s@.subrange(0, end as int), is_char(c)) is None,
        },
{
    let ghost head = s@.subrange(0, end as int);
    let mut i: usize = end;
    while i > 0
        invariant
            i <= end <= s.len(),
            head == s@.subrange(0, end as int),
            forall|j: int| i <= j < end ==> !is_char(c)(#[trigger] head[j]),
        decreases i,
    {
        i -= 1;
        if s[i] == c {
            proof {
                lemma_last_index_is(head, is_char(c), i as int);
            }
            return Some(i);
        }
    }
    proof {
        lemma_last_index_none(head, is_char(c));
    }
    None
}

/// Whether `s` begins with `p`.
pub fn starts_with(s: &str, p: &str) -> (r: bool)
    ensures
        r == has_prefix(s@, p@),
{
    let sc = chars_of(s);
    let pc = chars_of(p);
    matches_at(&sc, &pc, 0)
}

/// Whether `s` ends with `p`.
pub fn ends_with(s: &str, p: &str) -> (r: bool)
    ensures
        r == has_suffix(s@, p@),
{
    let sc = chars_of(s);
    let pc = chars_of(p);
    if pc.len() > sc.len() {
        return false;
    }
    matches_at(&sc, &pc, sc.len() - pc.len())
}

/// Whether `p` occurs somewhere in `s`.
pub fn contains(s: &str, p: &str) -> (r: bool)
    ensures
        r == contains_text(s@, p@),
{
    let sc = chars_of(s);
    let pc = chars_of(p);
    find_from(&sc, &pc, 0).is_some()
}

/// Whether two strings hold the same characters.
pub fn same_text(a: &str, b: &str) -> (r: bool)
    ensures
        r == (a@ == b@),
{
    let ac = chars_of(a);
    let bc = chars_of(b);
    if ac.len() != bc.len() {
        return false;
    }
    let r = matches_at(&ac, &bc, 0);
    assert(ac@.subrange(0, ac@.len() as int) =~= ac@);
    r
}

} // verus!
