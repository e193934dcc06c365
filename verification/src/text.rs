//! Text primitives of the article format: characters, substrings and lines.
//! Every contract is stated over `Seq<char>`, the view of a string.

use vstd::prelude::*;
use vstd::std_specs::iter::IteratorSpec;
use vstd::string::StringExecFns;

verus! {

/// `String::push` appends one character at the end of the string.
pub assume_specification[ String::push ](s: &mut String, c: char)
    ensures
        final(s)@ == old(s)@.push(c),
;

/// Equality of string slices is equality of their characters.
pub assume_specification[ <str as PartialEq>::eq ](a: &str, b: &str) -> (r: bool)
    ensures
        r == (a@ == b@),
;

/// The view of every string in `v`, in order.
pub open spec fn texts(v: Seq<String>) -> Seq<Seq<char>> {
    Seq::new(v.len(), |i: int| v[i]@)
}

/// The view of an optional string.
pub open spec fn opt_text(o: Option<String>) -> Option<Seq<char>> {
    match o {
        Some(s) => Some(s@),
        None => None,
    }
}

/// The characters of `text`, in order.
pub fn to_chars(text: &str) -> (chars: Vec<char>)
    ensures
        chars@ == text@,
{
    let mut chars: Vec<char> = Vec::new();
    for c in it: text.chars()
        invariant
            chars@ == it.seq().take(it.index() as int),
    {
        chars.push(c);
    }
    chars
}

/// The string made of `chars[from..to]`.
pub fn substring(chars: &Vec<char>, from: usize, to: usize) -> (s: String)
    requires
        from <= to <= chars.len(),
    ensures
        s@ == chars@.subrange(from as int, to as int),
{
    let mut s = String::new();
    let mut i: usize = from;
    while i < to
        invariant
            from <= i <= to <= chars.len(),
            s@ == chars@.subrange(from as int, i as int),
        decreases to - i,
    {
        s.push(chars[i]);
        i += 1;
    }
    s
}

/// `needle` stands in `hay` at position `at`.
pub open spec fn stands_at(hay: Seq<char>, at: int, needle: Seq<char>) -> bool {
    0 <= at && at + needle.len() <= hay.len() && hay.subrange(at, at + needle.len()) == needle
}

/// Tells whether `needle` stands in `hay` at position `at`.
pub fn matches_at(hay: &Vec<char>, at: usize, needle: &Vec<char>) -> (r: bool)
    ensures
        r == stands_at(hay@, at as int, needle@),
{
    if at > hay.len() || needle.len() > hay.len() - at {
        return false;
    }
    let ghost part = hay@.subrange(at as int, at + needle.len());
    let mut i: usize = 0;
    while i < needle.len()
        invariant
            i <= needle.len(),
            at + needle.len() <= hay.len(),
            part == hay@.subrange(at as int, at + needle.len()),
            part.take(i as int) == needle@.take(i as int),
        decreases needle.len() - i,
    {
        if hay[at + i] != needle[i] {
            proof {
                assert(part[i as int] != needle@[i as int]);
            }
            return false;
        }
        proof {
            assert(part[i as int] == needle@[i as int]);
            assert(part.take(i as int + 1) == part.take(i as int).push(part[i as int]));
            assert(needle@.take(i as int + 1) == needle@.take(i as int).push(needle@[i as int]));
        }
        i += 1;
    }
    proof {
        assert(part.take(needle.len() as int) == part);
        assert(needle@.take(needle.len() as int) == needle@);
    }
    true
}

// ---------------------------------------------------------------------------
// Lines
// ---------------------------------------------------------------------------

/// Index of the first line feed of `s` at or after `from`, or `s.len()` when
/// there is none.
pub open spec fn line_end(s: Seq<char>, from: int) -> int
    decreases s.len() - from,
{
    if from < 0 || from >= s.len() {
        s.len() as int
    } else if s[from] == '\n' {
        from
    } else {
        line_end(s, from + 1)
    }
}

/// The line that starts at `from` and stops before `end`: a line closed by a
/// line feed loses one carriage return that stands right before it; the last,
/// unclosed line keeps its characters as they are.
pub open spec fn line_text(s: Seq<char>, from: int, end: int) -> Seq<char> {
    if end < s.len() && from < end && s[end - 1] == '\r' {
        s.subrange(from, end - 1)
    } else {
        s.subrange(from, end)
    }
}

/// The lines of `s` from position `from` on.
pub open spec fn lines_from(s: Seq<char>, from: int) -> Seq<Seq<char>>
    decreases s.len() - from,
{
    if from < 0 || from >= s.len() {
        Seq::empty()
    } else {
        let end = line_end(s, from);
        if end < from {
            Seq::empty()
        } else if end >= s.len() {
            seq![line_text(s, from, end)]
        } else {
            seq![line_text(s, from, end)] + lines_from(s, end + 1)
        }
    }
}

/// The lines of `s`. A line ends at a line feed or at a carriage return
/// followed by a line feed; the terminator is not part of the line; the last
/// line needs no terminator; the empty text has no line.
pub open spec fn lines_of(s: Seq<char>) -> Seq<Seq<char>> {
    lines_from(s, 0)
}

/// `line_end` finds the first line feed: it stays inside the text, nothing
/// before it is a line feed, and it is a line feed unless the text ran out.
pub proof fn lemma_line_end(s: Seq<char>, from: int)
    requires
        0 <= from <= s.len(),
    ensures
        from <= line_end(s, from) <= s.len(),
        forall|k: int| from <= k < line_end(s, from) ==> s[k] != '\n',
        line_end(s, from) < s.len() ==> s[line_end(s, from)] == '\n',
    decreases s.len() - from,
{
    if from < s.len() && s[from] != '\n' {
        lemma_line_end(s, from + 1);
    }
}

/// No line holds a line feed.
pub proof fn lemma_lines_hold_no_line_feed(s: Seq<char>, from: int)
    requires
        0 <= from <= s.len(),
    ensures
        forall|i: int, k: int|
            0 <= i < lines_from(s, from).len() && 0 <= k < lines_from(s, from)[i].len()
                ==> #[trigger] lines_from(s, from)[i][k] != '\n',
    decreases s.len() - from,
{
    if from < s.len() {
        let end = line_end(s, from);
        lemma_line_end(s, from);
        let head = line_text(s, from, end);
        let rest = lines_from(s, end + 1);
        if end + 1 <= s.len() {
            lemma_lines_hold_no_line_feed(s, end + 1);
        }
        assert forall|i: int, k: int|
            0 <= i < lines_from(s, from).len() && 0 <= k < lines_from(s, from)[i].len()
            implies #[trigger] lines_from(s, from)[i][k] != '\n' by {
            if i == 0 {
                assert(lines_from(s, from)[0] == head);
                assert(head[k] == s[from + k]);
            } else {
                assert(lines_from(s, from)[i] == rest[i - 1]);
            }
        }
    }
}

/// Splits `text` into its lines.
pub fn lines(text: &str) -> (out: Vec<String>)
    ensures
        texts(out@) == lines_of(text@),
        forall|i: int, k: int|
            0 <= i < out@.len() && 0 <= k < out@[i]@.len() ==> #[trigger] out@[i]@[k] != '\n',
{
    proof {
        lemma_lines_hold_no_line_feed(text@, 0);
    }
    let chars = to_chars(text);
    let n: usize = chars.len();
    let mut out: Vec<String> = Vec::new();
    let mut start: usize = 0;
    while start < n
        invariant
            n == chars.len(),
            chars@ == text@,
            start <= n,
            lines_of(text@) == texts(out@) + lines_from(text@, start as int),
        decreases n - start,
    {
        let mut end: usize = start;
        while end < n && chars[end] != '\n'
            invariant
                n == chars.len(),
                chars@ == text@,
                start <= end <= n,
                line_end(text@, start as int) == line_end(text@, end as int),
            decreases n - end,
        {
            end += 1;
        }
        let stop: usize = if end < n && start < end && chars[end - 1] == '\r' {
            end - 1
        } else {
            end
        };
        let line = substring(&chars, start, stop);
        proof {
            assert(line_end(text@, start as int) == end);
            assert(line@ == line_text(text@, start as int, end as int));
            assert(texts(out@.push(line)) == texts(out@) + seq![line@]);
            assert(lines_from(text@, start as int) == seq![line@] + lines_from(
                text@,
                end as int + 1,
            ));
        }
        out.push(line);
        start = if end < n {
            end + 1
        } else {
            n
        };
    }
    proof {
        assert(lines_from(text@, start as int) == Seq::<Seq<char>>::empty());
        assert forall|i: int, k: int|
            0 <= i < out@.len() && 0 <= k < out@[i]@.len() implies #[trigger] out@[i]@[k]
            != '\n' by {
            assert(out@[i]@ == texts(out@)[i]);
            assert(lines_from(text@, 0)[i][k] != '\n');
        }
    }
    out
}

/// The lines joined by single line feeds, nothing after the last.
pub open spec fn joined(lines: Seq<Seq<char>>) -> Seq<char>
    decreases lines.len(),
{
    if lines.len() == 0 {
        Seq::empty()
    } else if lines.len() == 1 {
        lines[0]
    } else {
        joined(lines.drop_last()) + seq!['\n'] + lines.last()
    }
}

/// Joins `lines[from..]` with line feeds.
pub fn join_from(lines: &Vec<String>, from: usize) -> (out: String)
    requires
        from <= lines.len(),
    ensures
        out@ == joined(texts(lines@).skip(from as int)),
{
    let mut out = String::new();
    let mut i: usize = from;
    while i < lines.len()
        invariant
            from <= i <= lines.len(),
            out@ == joined(texts(lines@).subrange(from as int, i as int)),
        decreases lines.len() - i,
    {
        let ghost before = texts(lines@).subrange(from as int, i as int);
        let ghost after = texts(lines@).subrange(from as int, i as int + 1);
        if i > from {
            out.push('\n');
        }
        out.append(lines[i].as_str());
        proof {
            assert(after.drop_last() == before);
            assert(after.last() == lines@[i as int]@);
            if i == from {
                assert(before.len() == 0);
                assert(out@ == lines@[i as int]@);
            }
        }
        i += 1;
    }
    proof {
        assert(texts(lines@).subrange(from as int, lines.len() as int) == texts(lines@).skip(
            from as int,
        ));
    }
    out
}

} // verus!
