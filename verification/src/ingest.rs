//! The ingestion driver, as a state machine. Reading files and talking to
//! the store is the caller's work; what to do next is decided here. For
//! each file the caller starts with `begin`, performs the action it is
//! handed, and reports what came of it to `step`, until the state is `Done`.

use crate::blog::{assembled, metadata_to_blog, Blog, BlogView};
use crate::error::IngestError;
use crate::metadata::{extracted, get_metadata};
use vstd::prelude::*;

verus! {

/// What the store answered when asked for an identifier.
#[derive(Debug, Clone, Copy, PartialEq, Eq, Structural)]
pub enum Lookup {
    /// An article with that identifier is stored.
    Found,
    /// None is.
    NotFound,
    /// The store could not say.
    Failed,
}

/// What the publish gate decides.
#[derive(Debug, Clone, Copy, PartialEq, Eq, Structural)]
pub enum Gate {
    /// The article is published already: leave it.
    Skip,
    /// Go on and write it.
    Proceed,
}

/// How the ingestion of one file ended.
#[derive(Debug, Clone, Copy, PartialEq, Eq, Structural)]
pub enum Outcome {
    /// The article was written to the store.
    Published(i32),
    /// The store held the article already; nothing was written.
    AlreadyPublished(i32),
    /// The file gave no article, or the store refused it.
    Rejected(IngestError),
}

/// Where the ingestion of one file stands.
#[derive(Debug, Clone, PartialEq, Eq)]
pub enum FileState {
    /// The file's text is awaited.
    Read,
    /// The article is assembled; the store's answer to the lookup is awaited.
    Gate(Blog),
    /// The article was handed over for writing; the store's word is awaited.
    Write(i32),
    /// Nothing is left to do.
    Done(Outcome),
}

/// What the caller reports back.
#[derive(Debug, Clone, PartialEq, Eq)]
pub enum Event {
    /// The file was read; this is its text.
    Content(String),
    /// The file could not be read.
    Unreadable,
    /// The store answered the lookup.
    Looked(Lookup),
    /// The store took the article.
    Stored,
    /// The store refused the article.
    StoreFailed,
}

/// What the caller is to do next.
#[derive(Debug, Clone, PartialEq, Eq)]
pub enum Action {
    /// Read the file and report `Content` or `Unreadable`.
    ReadFile,
    /// Ask the store for this identifier and report `Looked`.
    LookUp(i32),
    /// Write this article, unless its identifier is taken, and report
    /// `Stored` or `StoreFailed`.
    Insert(Blog),
    /// Log the outcome and turn to the next file.
    Report(Outcome),
    /// The event was not the one awaited: nothing changes.
    Idle,
}

/// A `FileState` as plain values.
pub enum StateView {
    Read,
    Gate(BlogView),
    Write(int),
    Done(Outcome),
}

/// An `Event` as plain values.
pub enum EventView {
    Content(Seq<char>),
    Unreadable,
    Looked(Lookup),
    Stored,
    StoreFailed,
}

/// An `Action` as plain values.
pub enum ActionView {
    ReadFile,
    LookUp(int),
    Insert(BlogView),
    Report(Outcome),
    Idle,
}

impl View for FileState {
    type V = StateView;

    open spec fn view(&self) -> StateView {
        match *self {
            FileState::Read => StateView::Read,
            FileState::Gate(blog) => StateView::Gate(blog@),
            FileState::Write(id) => StateView::Write(id as int),
            FileState::Done(outcome) => StateView::Done(outcome),
        }
    }
}

impl View for Event {
    type V = EventView;

    open spec fn view(&self) -> EventView {
        match *self {
            Event::Content(text) => EventView::Content(text@),
            Event::Unreadable => EventView::Unreadable,
            Event::Looked(lookup) => EventView::Looked(lookup),
            Event::Stored => EventView::Stored,
            Event::StoreFailed => EventView::StoreFailed,
        }
    }
}

impl View for Action {
    type V = ActionView;

    open spec fn view(&self) -> ActionView {
        match *self {
            Action::ReadFile => ActionView::ReadFile,
            Action::LookUp(id) => ActionView::LookUp(id as int),
            Action::Insert(blog) => ActionView::Insert(blog@),
            Action::Report(outcome) => ActionView::Report(outcome),
            Action::Idle => ActionView::Idle,
        }
    }
}

/// What is decided on the store's answer: an article that the store holds
/// is skipped; one that it does not hold, or cannot say anything about,
/// goes on to be written.
pub open spec fn gate_of(lookup: Lookup) -> Gate {
    if lookup == Lookup::Found {
        Gate::Skip
    } else {
        Gate::Proceed
    }
}

/// A file's ingestion ended with `outcome`.
pub open spec fn finished(outcome: Outcome) -> (StateView, ActionView) {
    (StateView::Done(outcome), ActionView::Report(outcome))
}

/// What the text of a file leads to: the lookup of the article it
/// describes, or the end of the file's ingestion where it describes none.
/// Incomplete metadata is turned away before anything is assembled.
pub open spec fn after_read(text: Seq<char>) -> (StateView, ActionView) {
    let metadata = extracted(text);
    if !metadata.is_complete() {
        finished(Outcome::Rejected(IngestError::IncompleteMetadata))
    } else {
        match assembled(metadata) {
            Ok(blog) => (StateView::Gate(blog), ActionView::LookUp(blog.id)),
            Err(e) => finished(Outcome::Rejected(e)),
        }
    }
}

/// The state that follows `state` on `event`, and what is to be done then.
/// An event that `state` does not await changes nothing.
pub open spec fn next(state: StateView, event: EventView) -> (StateView, ActionView) {
    match (state, event) {
        (StateView::Read, EventView::Content(text)) => after_read(text),
        (StateView::Read, EventView::Unreadable) => finished(
            Outcome::Rejected(IngestError::FileUnreadable),
        ),
        (StateView::Gate(blog), EventView::Looked(lookup)) => match gate_of(lookup) {
            Gate::Skip => finished(Outcome::AlreadyPublished(blog.id as i32)),
            Gate::Proceed => (StateView::Write(blog.id), ActionView::Insert(blog)),
        },
        (StateView::Write(id), EventView::Stored) => finished(Outcome::Published(id as i32)),
        (StateView::Write(id), EventView::StoreFailed) => finished(
            Outcome::Rejected(IngestError::StoreWriteFailure),
        ),
        (_, _) => (state, ActionView::Idle),
    }
}

/// Tells whether the store holds the article, from its answer to the lookup.
/// An answer that failed counts as "no".
pub fn blog_exists(lookup: Lookup) -> (exists: bool)
    ensures
        exists == (lookup == Lookup::Found),
{
    match lookup {
        Lookup::Found => true,
        _ => false,
    }
}

/// Decides whether an article goes on to be written.
pub fn publish_gate(lookup: Lookup) -> (gate: Gate)
    ensures
        gate == gate_of(lookup),
{
    if blog_exists(lookup) {
        Gate::Skip
    } else {
        Gate::Proceed
    }
}

/// Starts the ingestion of one file.
pub fn begin() -> (r: (FileState, Action))
    ensures
        r.0@ == StateView::Read,
        r.1@ == ActionView::ReadFile,
{
    (FileState::Read, Action::ReadFile)
}

/// Ends the ingestion of one file with `outcome`.
fn finish(outcome: Outcome) -> (r: (FileState, Action))
    ensures
        (r.0@, r.1@) == finished(outcome),
{
    (FileState::Done(outcome), Action::Report(outcome))
}

/// Takes in the text of a file: extracts its metadata, turns the file away
/// where they are incomplete, and assembles the article.
pub fn read(text: &str) -> (r: (FileState, Action))
    ensures
        (r.0@, r.1@) == after_read(text@),
{
    let metadata = get_metadata(text);
    if !metadata.is_complete() {
        return finish(Outcome::Rejected(IngestError::IncompleteMetadata));
    }
    match metadata_to_blog(metadata) {
        Ok(blog) => {
            let id: i32 = blog.id;
            (FileState::Gate(blog), Action::LookUp(id))
        },
        Err(e) => finish(Outcome::Rejected(e)),
    }
}

/// Moves the ingestion of one file on by one event.
pub fn step(state: FileState, event: Event) -> (r: (FileState, Action))
    ensures
        (r.0@, r.1@) == next(state@, event@),
{
    match (state, event) {
        (FileState::Read, Event::Content(text)) => read(text.as_str()),
        (FileState::Read, Event::Unreadable) => finish(
            Outcome::Rejected(IngestError::FileUnreadable),
        ),
        (FileState::Gate(blog), Event::Looked(lookup)) => match publish_gate(lookup) {
            Gate::Skip => finish(Outcome::AlreadyPublished(blog.id)),
            Gate::Proceed => {
                let id: i32 = blog.id;
                (FileState::Write(id), Action::Insert(blog))
            },
        },
        (FileState::Write(id), Event::Stored) => finish(Outcome::Published(id)),
        (FileState::Write(_), Event::StoreFailed) => finish(
            Outcome::Rejected(IngestError::StoreWriteFailure),
        ),
        (state, _) => (state, Action::Idle),
    }
}

} // verus!
