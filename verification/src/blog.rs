//! Articles: the record that is stored and shown, and the assembler that
//! makes one out of a file's metadata.

use crate::date::{date_of, is_calendar_date, writes_date, Date, DateView};
use crate::error::IngestError;
use crate::metadata::{declared_id, extracted, Metadata, MetadataView};
use crate::number::{i32_of, parse_i32};
use crate::render::{html_of, render};
use crate::tags::{lemma_tags_of, split_tags, tags_of};
use crate::text::texts;
use vstd::prelude::*;
use vstd::string::StringExecFns;

verus! {

/// An article.
#[derive(Debug, Clone, PartialEq, Eq)]
pub struct Blog {
    pub id: i32,
    pub title: String,
    pub summary: String,
    pub body: String,
    pub date: Date,
    pub tags: Vec<String>,
}

/// What an article holds, as plain values.
pub struct BlogView {
    pub id: int,
    pub title: Seq<char>,
    pub summary: Seq<char>,
    pub body: Seq<char>,
    pub date: DateView,
    pub tags: Seq<Seq<char>>,
}

impl View for Blog {
    type V = BlogView;

    open spec fn view(&self) -> BlogView {
        BlogView {
            id: self.id as int,
            title: self.title@,
            summary: self.summary@,
            body: self.body@,
            date: self.date@,
            tags: texts(self.tags@),
        }
    }
}

/// The view of what the assembler returns.
pub open spec fn assembly_view(r: Result<Blog, IngestError>) -> Result<BlogView, IngestError> {
    match r {
        Ok(blog) => Ok(blog@),
        Err(e) => Err(e),
    }
}

/// The article that the metadata `m` describes, or the reason why it
/// describes none. The checks come in this order: completeness, identifier,
/// body, date, tags. The summary is left empty; an article has at least
/// one tag, and none of its tags is empty.
pub open spec fn assembled(m: MetadataView) -> Result<BlogView, IngestError> {
    if !m.is_complete() {
        Err(IngestError::IncompleteMetadata)
    } else if i32_of(m.id->0) is None {
        Err(IngestError::MalformedId)
    } else if m.body is None {
        Err(IngestError::TruncatedDocument)
    } else if date_of(m.date->0) is None {
        Err(IngestError::MalformedDate)
    } else if tags_of(m.tags->0).len() == 0 {
        Err(IngestError::MalformedTags)
    } else {
        Ok(
            BlogView {
                id: i32_of(m.id->0)->0 as int,
                title: m.title->0,
                summary: Seq::empty(),
                body: m.body->0,
                date: date_of(m.date->0)->0,
                tags: tags_of(m.tags->0),
            },
        )
    }
}

/// A date that the text does not write as a day of the calendar is
/// malformed: metadata that are complete, with an identifier and a body
/// that pass, are turned down for their date.
pub proof fn lemma_off_calendar_date_is_malformed(m: MetadataView)
    requires
        m.is_complete(),
        i32_of(m.id->0) is Some,
        m.body is Some,
        forall|year: int, month: int, day: int|
            writes_date(m.date->0, year, month, day) ==> !is_calendar_date(year, month, day),
    ensures
        assembled(m) == Err::<BlogView, IngestError>(IngestError::MalformedDate),
{
}

/// A file has one identifier: where its text gives an article, the
/// identifier declared in the text is that of the article.
pub proof fn lemma_declared_id_is_the_articles(text: Seq<char>)
    ensures
        assembled(extracted(text)) matches Ok(blog) ==> declared_id(text) == Ok::<
            Option<i32>,
            IngestError,
        >(Some(blog.id as i32)),
        extracted(text).id is None ==> declared_id(text) == Ok::<Option<i32>, IngestError>(None),
{
}

/// Every article that is assembled has at least one tag, and none of its
/// tags is empty.
pub proof fn lemma_articles_have_tags(m: MetadataView)
    ensures
        assembled(m) matches Ok(blog) ==> blog.tags.len() >= 1 && forall|i: int|
            0 <= i < blog.tags.len() ==> (#[trigger] blog.tags[i]).len() > 0,
{
    if m.tags is Some {
        lemma_tags_of(m.tags->0);
    }
}

/// Assembles an article from the metadata of its file.
pub fn metadata_to_blog(metadata: Metadata) -> (r: Result<Blog, IngestError>)
    ensures
        assembly_view(r) == assembled(metadata@),
        r matches Ok(blog) ==> blog.tags@.len() >= 1 && forall|i: int|
            0 <= i < blog.tags@.len() ==> (#[trigger] blog.tags@[i])@.len() > 0,
{
    let Metadata { id, title, body, date, tags } = metadata;
    match (id, title, date, tags) {
        (Some(raw_id), Some(title), Some(raw_date), Some(raw_tags)) => {
            let id: i32 = match parse_i32(raw_id.as_str()) {
                Some(id) => id,
                None => { return Err(IngestError::MalformedId); },
            };
            let body: String = match body {
                Some(body) => body,
                None => { return Err(IngestError::TruncatedDocument); },
            };
            let date: Date = match Date::parse(raw_date.as_str()) {
                Some(date) => date,
                None => { return Err(IngestError::MalformedDate); },
            };
            let tags = split_tags(raw_tags.as_str());
            if tags.len() == 0 {
                return Err(IngestError::MalformedTags);
            }
            Ok(Blog { id, title, summary: String::new(), body, date, tags })
        },
        _ => Err(IngestError::IncompleteMetadata),
    }
}

impl Blog {
    /// Turns Markdown into HTML; HTML written in the text is let through.
    pub fn text_to_html(text: String) -> (html: String)
        ensures
            Some(html@) == html_of(text@, true),
    {
        render(text.as_str(), true).unwrap()
    }

    /// A stand-in for the article `id`, made of a draft that is not stored
    /// yet: the draft rendered as its body, under a fixed title, summary,
    /// date and tag.
    pub fn preview(id: i32, draft: String) -> (shown: Blog)
        ensures
            shown@.id == id,
            shown@.title == "test"@,
            shown@.summary == "test"@,
            Some(shown@.body) == html_of(draft@, true),
            shown@.date == (DateView { year: 2019, month: 1, day: 1 }),
            shown@.tags == seq!["hoi"@],
    {
        let date = Date::from_numbers(2019, 1, 1).unwrap();
        let mut tags: Vec<String> = Vec::new();
        tags.push(String::from_str("hoi"));
        proof {
            assert(texts(tags@) == seq!["hoi"@]);
        }
        Blog {
            id,
            title: String::from_str("test"),
            summary: String::from_str("test"),
            body: Blog::text_to_html(draft),
            date,
            tags,
        }
    }

    /// The article with its body rendered to HTML, everything else as it was.
    pub fn rendered(self) -> (shown: Blog)
        ensures
            Some(shown@.body) == html_of(self@.body, true),
            shown@ == (BlogView { body: shown@.body, ..self@ }),
    {
        let Blog { id, title, summary, body, date, tags } = self;
        Blog { id, title, summary, body: Blog::text_to_html(body), date, tags }
    }
}

} // verus!
