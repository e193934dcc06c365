//! The tag list of an article: one front-matter value, cut at every
//! comma-and-space, each piece trimmed of white space, and the pieces that
//! are empty after that left out.

use crate::text::{substring, texts, to_chars};
use vstd::prelude::*;

verus! {

/// `c` carries Unicode's White_Space property.
pub open spec fn is_space(c: char) -> bool {
    let n = c as u32;
    (0x09 <= n && n <= 0x0D) || n == 0x20 || n == 0x85 || n == 0xA0 || n == 0x1680 || (0x2000 <= n
        && n <= 0x200A) || n == 0x2028 || n == 0x2029 || n == 0x202F || n == 0x205F || n
        == 0x3000
}

/// Tells whether `c` is white space.
pub fn is_white_space(c: char) -> (r: bool)
    ensures
        r == is_space(c),
{
    let n: u32 = c as u32;
    (0x09 <= n && n <= 0x0D) || n == 0x20 || n == 0x85 || n == 0xA0 || n == 0x1680 || (0x2000 <= n
        && n <= 0x200A) || n == 0x2028 || n == 0x2029 || n == 0x202F || n == 0x205F || n
        == 0x3000
}

/// Index of the first character of `s` at or after `from` that is no white
/// space, or `s.len()` when only white space is left.
pub open spec fn content_start(s: Seq<char>, from: int) -> int
    decreases s.len() - from,
{
    if from < 0 || from >= s.len() {
        s.len() as int
    } else if !is_space(s[from]) {
        from
    } else {
        content_start(s, from + 1)
    }
}

/// Length of `s` without the white space at its end.
pub open spec fn content_end(s: Seq<char>) -> int
    decreases s.len(),
{
    if s.len() == 0 {
        0
    } else if !is_space(s.last()) {
        s.len() as int
    } else {
        content_end(s.drop_last())
    }
}

/// `s` without the white space at its two ends.
pub open spec fn trimmed(s: Seq<char>) -> Seq<char> {
    let start = content_start(s, 0);
    let end = content_end(s);
    if start < end {
        s.subrange(start, end)
    } else {
        Seq::empty()
    }
}

/// What `trimmed` leaves neither starts nor ends with white space, and what
/// it removes is white space only.
pub proof fn lemma_trimmed(s: Seq<char>)
    ensures
        trimmed(s).len() > 0 ==> !is_space(trimmed(s).first()) && !is_space(trimmed(s).last()),
        0 <= content_start(s, 0) <= s.len(),
        0 <= content_end(s) <= s.len(),
        forall|k: int| 0 <= k < content_start(s, 0) ==> is_space(#[trigger] s[k]),
        forall|k: int| content_end(s) <= k < s.len() ==> is_space(#[trigger] s[k]),
{
    lemma_content_start(s, 0);
    lemma_content_end(s);
}

/// `content_start` skips white space and nothing else.
pub proof fn lemma_content_start(s: Seq<char>, from: int)
    requires
        0 <= from <= s.len(),
    ensures
        from <= content_start(s, from) <= s.len(),
        forall|k: int| from <= k < content_start(s, from) ==> is_space(#[trigger] s[k]),
        content_start(s, from) < s.len() ==> !is_space(s[content_start(s, from)]),
    decreases s.len() - from,
{
    if from < s.len() && is_space(s[from]) {
        lemma_content_start(s, from + 1);
    }
}

/// `content_end` drops white space and nothing else.
pub proof fn lemma_content_end(s: Seq<char>)
    ensures
        0 <= content_end(s) <= s.len(),
        forall|k: int| content_end(s) <= k < s.len() ==> is_space(#[trigger] s[k]),
        content_end(s) > 0 ==> !is_space(s[content_end(s) - 1]),
    decreases s.len(),
{
    if s.len() > 0 && is_space(s.last()) {
        let shorter = s.drop_last();
        lemma_content_end(shorter);
        assert forall|k: int| content_end(s) <= k < s.len() implies is_space(#[trigger] s[k]) by {
            if k < shorter.len() {
                assert(shorter[k] == s[k]);
            }
        }
        if content_end(s) > 0 {
            assert(shorter[content_end(s) - 1] == s[content_end(s) - 1]);
        }
    }
}

/// The characters `from..to` of `chars`, trimmed.
fn trimmed_piece(chars: &Vec<char>, from: usize, to: usize) -> (piece: String)
    requires
        from <= to <= chars.len(),
    ensures
        piece@ == trimmed(chars@.subrange(from as int, to as int)),
{
    let ghost s = chars@.subrange(from as int, to as int);
    let mut end: usize = to;
    proof {
        assert(s.take(to - from) == s);
    }
    while end > from && is_white_space(chars[end - 1])
        invariant
            from <= end <= to <= chars.len(),
            s == chars@.subrange(from as int, to as int),
            content_end(s) == content_end(s.take(end - from)),
        decreases end,
    {
        proof {
            let cur = s.take(end - from);
            assert(cur.last() == chars@[end - 1]);
            assert(cur.drop_last() == s.take(end - from - 1));
        }
        end -= 1;
    }
    proof {
        assert(s.take(to - from) == s);
        let cur = s.take(end - from);
        if end > from {
            assert(cur.last() == chars@[end - 1]);
        }
        assert(content_end(s) == end - from);
    }
    let mut start: usize = from;
    while start < end && is_white_space(chars[start])
        invariant
            from <= start <= end <= to <= chars.len(),
            s == chars@.subrange(from as int, to as int),
            content_start(s, 0) == content_start(s, start - from),
        decreases end - start,
    {
        proof {
            assert(s[start - from] == chars@[start as int]);
        }
        start += 1;
    }
    proof {
        lemma_content_start(s, start - from);
        lemma_content_end(s);
        if start < end {
            assert(s[start - from] == chars@[start as int]);
            assert(content_start(s, 0) == start - from);
        } else {
            assert(content_start(s, 0) >= content_end(s));
        }
        assert(chars@.subrange(start as int, end as int) == if start < end {
            s.subrange(start - from, end - from)
        } else {
            Seq::<char>::empty()
        });
    }
    substring(chars, start, end)
}

/// Trims `text` of the white space at its two ends.
pub fn trim(text: &str) -> (out: String)
    ensures
        out@ == trimmed(text@),
{
    let chars = to_chars(text);
    proof {
        assert(chars@.subrange(0, chars.len() as int) == text@);
    }
    trimmed_piece(&chars, 0, chars.len())
}

/// A comma followed by a space stands at `i`.
pub open spec fn separator_at(s: Seq<char>, i: int) -> bool {
    0 <= i && i + 1 < s.len() && s[i] == ',' && s[i + 1] == ' '
}

/// Index of the first separator of `s` at or after `from`, or `s.len()` when
/// there is none.
pub open spec fn next_separator(s: Seq<char>, from: int) -> int
    decreases s.len() - from,
{
    if from < 0 || from >= s.len() {
        s.len() as int
    } else if separator_at(s, from) {
        from
    } else {
        next_separator(s, from + 1)
    }
}

/// The pieces of `s` from position `from` on, cut at each separator, the
/// separators left out. There is always at least one piece.
pub open spec fn pieces_from(s: Seq<char>, from: int) -> Seq<Seq<char>>
    decreases s.len() - from,
{
    if from < 0 || from >= s.len() {
        seq![Seq::empty()]
    } else {
        let at = next_separator(s, from);
        if from <= at && separator_at(s, at) {
            seq![s.subrange(from, at)] + pieces_from(s, at + 2)
        } else {
            seq![s.subrange(from, s.len() as int)]
        }
    }
}

/// The pieces of `s`, each one trimmed.
pub open spec fn trimmed_pieces(s: Seq<char>) -> Seq<Seq<char>> {
    pieces_from(s, 0).map_values(|piece: Seq<char>| trimmed(piece))
}

/// The tags that the raw value `s` lists: its pieces, each one trimmed,
/// without those of which nothing is left. No tag is empty.
pub open spec fn tags_of(s: Seq<char>) -> Seq<Seq<char>> {
    trimmed_pieces(s).filter(|tag: Seq<char>| tag.len() > 0)
}

/// `next_separator` finds the first separator.
pub proof fn lemma_next_separator(s: Seq<char>, from: int)
    requires
        0 <= from <= s.len(),
    ensures
        from <= next_separator(s, from) <= s.len(),
        forall|k: int| from <= k < next_separator(s, from) ==> !separator_at(s, k),
        next_separator(s, from) < s.len() ==> separator_at(s, next_separator(s, from)),
    decreases s.len() - from,
{
    if from < s.len() && !separator_at(s, from) {
        lemma_next_separator(s, from + 1);
    }
}

/// No tag is empty, and a value without a separator lists at most one tag:
/// itself, trimmed, unless it is white space only and lists none.
pub proof fn lemma_tags_of(s: Seq<char>)
    ensures
        forall|i: int| 0 <= i < tags_of(s).len() ==> (#[trigger] tags_of(s)[i]).len() > 0,
        (forall|k: int| !separator_at(s, k)) ==> tags_of(s) == if trimmed(s).len() > 0 {
            seq![trimmed(s)]
        } else {
            Seq::<Seq<char>>::empty()
        },
{
    let kept = |tag: Seq<char>| tag.len() > 0;
    assert forall|i: int| 0 <= i < tags_of(s).len() implies (#[trigger] tags_of(s)[i]).len()
        > 0 by {
        trimmed_pieces(s).lemma_filter_pred(kept, i);
    }
    if forall|k: int| !separator_at(s, k) {
        if s.len() > 0 {
            lemma_next_separator(s, 0);
            assert(s.subrange(0, s.len() as int) == s);
        } else {
            assert(s == Seq::<char>::empty());
        }
        assert(pieces_from(s, 0) == seq![s]);
        let only = seq![trimmed(s)];
        assert(trimmed_pieces(s) == only);
        assert(only.drop_last() == Seq::<Seq<char>>::empty());
        assert(only.filter(kept) == if trimmed(s).len() > 0 {
            only
        } else {
            Seq::<Seq<char>>::empty()
        }) by {
            reveal_with_fuel(Seq::filter, 2);
        }
    }
}

/// There is at least one piece.
pub proof fn lemma_pieces_count(s: Seq<char>, from: int)
    ensures
        pieces_from(s, from).len() >= 1,
    decreases s.len() - from,
{
    if 0 <= from < s.len() {
        let at = next_separator(s, from);
        if from <= at && separator_at(s, at) {
            lemma_pieces_count(s, at + 2);
        }
    }
}

/// Cuts the raw tag list `raw` into its pieces and trims each.
fn split_pieces(raw: &str) -> (tags: Vec<String>)
    ensures
        texts(tags@) == trimmed_pieces(raw@),
        tags@.len() >= 1,
{
    let chars = to_chars(raw);
    let n: usize = chars.len();
    let mut tags: Vec<String> = Vec::new();
    let mut start: usize = 0;
    let ghost trim_each = |piece: Seq<char>| trimmed(piece);
    loop
        invariant_except_break
            n == chars.len(),
            chars@ == raw@,
            start <= n,
            trim_each == (|piece: Seq<char>| trimmed(piece)),
            trimmed_pieces(raw@) == texts(tags@) + pieces_from(raw@, start as int).map_values(
                trim_each,
            ),
        ensures
            texts(tags@) == trimmed_pieces(raw@),
            tags@.len() >= 1,
        decreases n - start,
    {
        let mut at: usize = start;
        while at < n && !(at + 1 < n && chars[at] == ',' && chars[at + 1] == ' ')
            invariant
                n == chars.len(),
                chars@ == raw@,
                start <= at <= n,
                next_separator(raw@, start as int) == next_separator(raw@, at as int),
            decreases n - at,
        {
            at += 1;
        }
        let piece = trimmed_piece(&chars, start, at);
        let ghost rest = pieces_from(raw@, start as int);
        proof {
            assert(next_separator(raw@, start as int) == at);
            assert(texts(tags@.push(piece)) == texts(tags@) + seq![piece@]);
        }
        tags.push(piece);
        if at >= n {
            proof {
                let whole = raw@.subrange(start as int, n as int);
                if start < n {
                    lemma_next_separator(raw@, start as int);
                } else {
                    assert(whole == Seq::<char>::empty());
                }
                assert(rest == seq![whole]);
                assert(rest.map_values(trim_each) == seq![piece@]);
            }
            break;
        }
        proof {
            let tail = pieces_from(raw@, at + 2);
            let head = raw@.subrange(start as int, at as int);
            assert(separator_at(raw@, at as int));
            assert(rest == seq![head] + tail);
            assert(rest.map_values(trim_each) == seq![piece@] + tail.map_values(trim_each));
        }
        start = at + 2;
    }
    tags
}

/// Splits the raw tag list `raw` into its tags. The result is empty where
/// `raw` lists none.
pub fn split_tags(raw: &str) -> (tags: Vec<String>)
    ensures
        texts(tags@) == tags_of(raw@),
        forall|i: int| 0 <= i < tags@.len() ==> (#[trigger] tags@[i])@.len() > 0,
        forall|i: int|
            0 <= i < tags@.len() ==> !is_space((#[trigger] tags@[i])@.first()) && !is_space(
                tags@[i]@.last(),
            ),
{
    let pieces = split_pieces(raw);
    let ghost all = texts(pieces@);
    let ghost input = pieces@;
    let ghost kept = |tag: Seq<char>| tag.len() > 0;
    let mut tags: Vec<String> = Vec::new();
    proof {
        assert(all.take(0).filter(kept) == Seq::<Seq<char>>::empty()) by {
            reveal(Seq::filter);
        }
    }
    for piece in it: pieces
        invariant
            it.seq() == input,
            all == texts(input),
            all == trimmed_pieces(raw@),
            kept == (|tag: Seq<char>| tag.len() > 0),
            texts(tags@) == all.take(it.index() as int).filter(kept),
            forall|i: int| 0 <= i < tags@.len() ==> (#[trigger] tags@[i])@.len() > 0,
            forall|i: int|
                0 <= i < tags@.len() ==> !is_space((#[trigger] tags@[i])@.first()) && !is_space(
                    tags@[i]@.last(),
                ),
    {
        proof {
            let grown = all.take(it.index() as int + 1);
            assert(grown.drop_last() == all.take(it.index() as int));
            assert(grown.last() == piece@);
            assert(grown.filter(kept) == if piece@.len() > 0 {
                all.take(it.index() as int).filter(kept).push(piece@)
            } else {
                all.take(it.index() as int).filter(kept)
            }) by {
                reveal(Seq::filter);
            }
            let at = it.index() as int;
            assert(0 <= at < input.len());
            assert(all.len() == input.len());
            assert(all[at] == input[at]@);
            assert(piece@ == all[at]);
            assert(trimmed_pieces(raw@)[at] == trimmed(pieces_from(raw@, 0)[at]));
            lemma_trimmed(pieces_from(raw@, 0)[at]);
        }
        if !piece.as_str().is_empty() {
            proof {
                assert(texts(tags@.push(piece)) == texts(tags@).push(piece@));
            }
            tags.push(piece);
        }
    }
    proof {
        assert(all.take(all.len() as int) == all);
    }
    tags
}

} // verus!
