//! The metadata extractor: the front matter of an article, read line by
//! line, and the body that follows it.
//!
//! A front-matter line has the shape `% key: value`. Which lines have it,
//! and where key and value lie, is found by a regular expression; that what
//! it reports does stand in the line, in that shape, is checked here before
//! anything is recorded.

use crate::error::IngestError;
use crate::number::{i32_of, parse_i32};
use crate::pattern::{captures_of, groups_view, LinePattern, FIELD_PATTERN};
use crate::text::{
    join_from, joined, lines, lines_of, matches_at, opt_text, stands_at, texts, to_chars,
};
use vstd::prelude::*;

verus! {

/// Number of lines that the front matter takes: the body starts right after.
pub const BODY_OFFSET: usize = 4;

/// The raw strings found in one article file. Each is `None` until a line
/// of the file supplies it; the body is `None` where the file is too short
/// to have one.
#[derive(Debug, Clone, PartialEq, Eq)]
pub struct Metadata {
    pub id: Option<String>,
    pub title: Option<String>,
    pub body: Option<String>,
    pub date: Option<String>,
    pub tags: Option<String>,
}

/// What a `Metadata` record holds, as plain text.
pub struct MetadataView {
    pub id: Option<Seq<char>>,
    pub title: Option<Seq<char>>,
    pub body: Option<Seq<char>>,
    pub date: Option<Seq<char>>,
    pub tags: Option<Seq<char>>,
}

impl View for Metadata {
    type V = MetadataView;

    open spec fn view(&self) -> MetadataView {
        MetadataView {
            id: opt_text(self.id),
            title: opt_text(self.title),
            body: opt_text(self.body),
            date: opt_text(self.date),
            tags: opt_text(self.tags),
        }
    }
}

/// The line ends with a percent sign, a space, the key, a colon, a space and
/// the value, and neither key nor value is empty.
pub open spec fn ends_with_field(line: Seq<char>, key: Seq<char>, value: Seq<char>) -> bool {
    let start = line.len() - value.len() - key.len() - 4;
    &&& key.len() > 0
    &&& value.len() > 0
    &&& start >= 0
    &&& stands_at(line, start, seq!['%', ' '])
    &&& stands_at(line, start + 2, key)
    &&& stands_at(line, start + 2 + key.len(), seq![':', ' '])
    &&& stands_at(line, start + 4 + key.len(), value)
}

/// Key and value of a line, from what the field pattern captured in it: the
/// two groups, where there are exactly two, both took part, and the line
/// does end with them in the shape of a field.
pub open spec fn field_of(line: Seq<char>, groups: Option<Seq<Option<Seq<char>>>>) -> Option<
    (Seq<char>, Seq<char>),
> {
    match groups {
        Some(g) => if g.len() == 2 && g[0] is Some && g[1] is Some && ends_with_field(
            line,
            g[0]->0,
            g[1]->0,
        ) {
            Some((g[0]->0, g[1]->0))
        } else {
            None
        },
        None => None,
    }
}

/// The field that a line supplies, if it supplies one.
pub open spec fn field_in(line: Seq<char>) -> Option<(Seq<char>, Seq<char>)> {
    field_of(line, captures_of(FIELD_PATTERN@, line))
}

impl MetadataView {
    /// The record with nothing in it.
    pub open spec fn empty() -> MetadataView {
        MetadataView { id: None, title: None, body: None, date: None, tags: None }
    }

    /// Identifier, title, date and tags are all there. The body does not
    /// count.
    pub open spec fn is_complete(self) -> bool {
        self.id is Some && self.title is Some && self.date is Some && self.tags is Some
    }

    /// The record after the field `key` was given `value`. Only the four
    /// known keys change anything.
    pub open spec fn with_field(self, key: Seq<char>, value: Seq<char>) -> MetadataView {
        if key == "id"@ {
            MetadataView { id: Some(value), ..self }
        } else if key == "title"@ {
            MetadataView { title: Some(value), ..self }
        } else if key == "date"@ {
            MetadataView { date: Some(value), ..self }
        } else if key == "tags"@ {
            MetadataView { tags: Some(value), ..self }
        } else {
            self
        }
    }

    /// The record after what `found` holds was taken in.
    pub open spec fn with_found(self, found: Option<(Seq<char>, Seq<char>)>) -> MetadataView {
        match found {
            Some((key, value)) => self.with_field(key, value),
            None => self,
        }
    }

    /// The record after one more line was read.
    pub open spec fn with_line(self, line: Seq<char>) -> MetadataView {
        self.with_found(field_in(line))
    }

    /// How many of the four fields are there.
    pub open spec fn fields_present(self) -> int {
        (if self.id is Some { 1int } else { 0 }) + (if self.title is Some { 1int } else { 0 })
            + (if self.date is Some { 1int } else { 0 }) + (if self.tags is Some { 1int } else { 0 })
    }
}

/// The fields that `lines` supply, read from the first line to the last, so
/// that a key's last occurrence is the one that stays.
pub open spec fn scanned(lines: Seq<Seq<char>>) -> MetadataView
    decreases lines.len(),
{
    if lines.len() == 0 {
        MetadataView::empty()
    } else {
        scanned(lines.drop_last()).with_line(lines.last())
    }
}

/// The body of a document: every line after the front matter, joined by
/// line feeds; `None` where the document has fewer lines than the front
/// matter takes.
pub open spec fn body_of(lines: Seq<Seq<char>>) -> Option<Seq<char>> {
    if lines.len() >= BODY_OFFSET {
        Some(joined(lines.skip(BODY_OFFSET as int)))
    } else {
        None
    }
}

/// The metadata of the document `text`.
pub open spec fn extracted(text: Seq<char>) -> MetadataView {
    MetadataView { body: body_of(lines_of(text)), ..scanned(lines_of(text)) }
}

/// Some line of `lines` ends with the field `key: value`.
pub open spec fn some_line_shows(lines: Seq<Seq<char>>, key: Seq<char>, value: Seq<char>) -> bool {
    exists|i: int| 0 <= i < lines.len() && ends_with_field(#[trigger] lines[i], key, value)
}

/// Nothing is made up: each field of the record is the value of a line that
/// ends with `% key: value` under that field's key.
pub proof fn lemma_fields_come_from_lines(lines: Seq<Seq<char>>)
    ensures
        scanned(lines).id matches Some(v) ==> some_line_shows(lines, "id"@, v),
        scanned(lines).title matches Some(v) ==> some_line_shows(lines, "title"@, v),
        scanned(lines).date matches Some(v) ==> some_line_shows(lines, "date"@, v),
        scanned(lines).tags matches Some(v) ==> some_line_shows(lines, "tags"@, v),
    decreases lines.len(),
{
    if lines.len() > 0 {
        let rest = lines.drop_last();
        let last = lines.last();
        lemma_fields_come_from_lines(rest);
        let before = scanned(rest);
        let after = scanned(lines);
        assert(last == lines[lines.len() - 1]);
        assert forall|key: Seq<char>, value: Seq<char>|
            some_line_shows(rest, key, value) implies some_line_shows(lines, key, value) by {
            let i = choose|i: int| 0 <= i < rest.len() && ends_with_field(rest[i], key, value);
            assert(lines[i] == rest[i]);
        }
        match field_in(last) {
            Some((key, value)) => {
                assert(ends_with_field(lines[lines.len() - 1], key, value));
            },
            None => {},
        }
    }
}

/// Each line supplies at most one field.
pub proof fn lemma_fields_need_lines(lines: Seq<Seq<char>>)
    ensures
        0 <= scanned(lines).fields_present() <= lines.len(),
        scanned(lines).fields_present() <= 4,
        scanned(lines).is_complete() <==> scanned(lines).fields_present() == 4,
        scanned(lines).body is None,
    decreases lines.len(),
{
    if lines.len() > 0 {
        lemma_fields_need_lines(lines.drop_last());
    }
}

/// A document too short to have a body is never complete: with fewer lines
/// than the front matter takes, one of the four fields is missing.
pub proof fn lemma_short_document_is_incomplete(text: Seq<char>)
    requires
        extracted(text).body is None,
    ensures
        !extracted(text).is_complete(),
{
    lemma_fields_need_lines(lines_of(text));
}

/// Tells whether `line` ends with a percent sign, a space, `key`, a colon, a
/// space and `value`, none of the two empty.
pub fn shows_field(line: &str, key: &str, value: &str) -> (r: bool)
    ensures
        r == ends_with_field(line@, key@, value@),
{
    let line = to_chars(line);
    let key = to_chars(key);
    let value = to_chars(value);
    if key.len() == 0 || value.len() == 0 || line.len() < 4 {
        return false;
    }
    let room: usize = line.len() - 4;
    if value.len() > room || key.len() > room - value.len() {
        return false;
    }
    let start: usize = room - value.len() - key.len();
    let mut opening: Vec<char> = Vec::new();
    opening.push('%');
    opening.push(' ');
    let mut between: Vec<char> = Vec::new();
    between.push(':');
    between.push(' ');
    proof {
        assert(opening@ == seq!['%', ' ']);
        assert(between@ == seq![':', ' ']);
    }
    matches_at(&line, start, &opening) && matches_at(&line, start + 2, &key) && matches_at(
        &line,
        start + 2 + key.len(),
        &between,
    ) && matches_at(&line, start + 4 + key.len(), &value)
}

/// Key and value of `line`, from what the field pattern captured in it.
pub fn key_and_value(line: &str, groups: Option<Vec<Option<String>>>) -> (r: Option<
    (String, String),
>)
    ensures
        (match r {
            Some((key, value)) => Some((key@, value@)),
            None => None,
        }) == field_of(line@, groups_view(groups)),
{
    match groups {
        Some(mut found) => {
            if found.len() != 2 {
                return None;
            }
            let ghost g = groups_view(Some(found))->0;
            assert(g[0] == opt_text(found@[0]));
            assert(g[1] == opt_text(found@[1]));
            let second = found.pop();
            let first = found.pop();
            match (first, second) {
                (Some(Some(key)), Some(Some(value))) => {
                    if shows_field(line, key.as_str(), value.as_str()) {
                        Some((key, value))
                    } else {
                        None
                    }
                },
                _ => None,
            }
        },
        None => None,
    }
}

impl Metadata {
    /// A record with no field set.
    pub fn new() -> (m: Metadata)
        ensures
            m@ == MetadataView::empty(),
    {
        Metadata { id: None, title: None, body: None, date: None, tags: None }
    }

    /// Tells whether identifier, title, date and tags are all there.
    pub fn is_complete(&self) -> (r: bool)
        ensures
            r == self@.is_complete(),
    {
        self.id.is_some() && self.title.is_some() && self.date.is_some() && self.tags.is_some()
    }

    /// Gives the field `key` the value `value`; an unknown key is ignored.
    pub fn set_field(&mut self, key: &str, value: String)
        ensures
            final(self)@ == old(self)@.with_field(key@, value@),
    {
        if *key == *"id" {
            self.id = Some(value);
        } else if *key == *"title" {
            self.title = Some(value);
        } else if *key == *"date" {
            self.date = Some(value);
        } else if *key == *"tags" {
            self.tags = Some(value);
        }
    }

    /// Takes in what the field pattern captured in `line`.
    pub fn record(&mut self, line: &str, groups: Option<Vec<Option<String>>>)
        ensures
            final(self)@ == old(self)@.with_found(field_of(line@, groups_view(groups))),
    {
        match key_and_value(line, groups) {
            Some((key, value)) => self.set_field(key.as_str(), value),
            None => {},
        }
    }
}

/// Reads the fields that `all` supply, line after line.
pub fn scan(all: &Vec<String>) -> (metadata: Metadata)
    ensures
        metadata@ == scanned(texts(all@)),
{
    let mut metadata = Metadata::new();
    let pattern = LinePattern::compile(FIELD_PATTERN);
    let mut i: usize = 0;
    proof {
        assert(texts(all@).take(0) == Seq::<Seq<char>>::empty());
    }
    while i < all.len()
        invariant
            i <= all.len(),
            pattern.source() == FIELD_PATTERN@,
            metadata@ == scanned(texts(all@).take(i as int)),
        decreases all.len() - i,
    {
        let line = all[i].as_str();
        let found = pattern.captures(line);
        proof {
            let upto = texts(all@).take(i as int + 1);
            assert(upto.drop_last() == texts(all@).take(i as int));
            assert(upto.last() == all@[i as int]@);
        }
        metadata.record(line, found);
        i += 1;
    }
    proof {
        assert(texts(all@).take(all.len() as int) == texts(all@));
    }
    metadata
}

/// Extracts the metadata of one article from the text of its file.
pub fn get_metadata(text: &str) -> (metadata: Metadata)
    ensures
        metadata@ == extracted(text@),
{
    let all = lines(text);
    let mut metadata = scan(&all);
    proof {
        lemma_fields_need_lines(lines_of(text@));
    }
    if all.len() >= BODY_OFFSET {
        metadata.body = Some(join_from(&all, BODY_OFFSET));
    }
    metadata
}

/// The identifier that the document `text` declares: the one its metadata
/// hold, so that of the last line that supplies the key `id`. `Ok(None)`
/// where no line supplies one; `MalformedId` where the last that does
/// writes no 32-bit integer.
pub open spec fn declared_id(text: Seq<char>) -> Result<Option<i32>, IngestError> {
    match scanned(lines_of(text)).id {
        Some(raw) => match i32_of(raw) {
            Some(id) => Ok(Some(id)),
            None => Err(IngestError::MalformedId),
        },
        None => Ok(None),
    }
}

/// Finds the identifier of an article in the text of its file, without
/// reading the body.
pub fn get_id(text: &str) -> (r: Result<Option<i32>, IngestError>)
    ensures
        r == declared_id(text@),
{
    let all = lines(text);
    let metadata = scan(&all);
    match metadata.id {
        Some(raw) => match parse_i32(raw.as_str()) {
            Some(id) => Ok(Some(id)),
            None => Err(IngestError::MalformedId),
        },
        None => Ok(None),
    }
}

} // verus!
