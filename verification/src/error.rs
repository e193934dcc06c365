//! The ways in which ingesting one article, or the whole directory, can fail.

use vstd::prelude::*;

verus! {

/// Why a run, or one file of it, did not end in a published article.
#[derive(Debug, Clone, Copy, PartialEq, Eq, Structural)]
pub enum IngestError {
    /// The article directory could not be listed; the whole run stops.
    DirectoryUnavailable,
    /// One file could not be read.
    FileUnreadable,
    /// The front matter lacks one of identifier, title, date and tags.
    IncompleteMetadata,
    /// The identifier is no 32-bit integer.
    MalformedId,
    /// The date is no calendar date written as year-month-day.
    MalformedDate,
    /// The tags list no tag.
    MalformedTags,
    /// The document ends before the body begins.
    TruncatedDocument,
    /// The store refused the article; a later run may try again.
    StoreWriteFailure,
}

impl IngestError {
    /// Only a directory that cannot be listed stops the run; every other
    /// failure concerns a single file.
    pub open spec fn is_fatal(self) -> bool {
        self == IngestError::DirectoryUnavailable
    }

    /// Tells whether the failure stops the whole run.
    pub fn stops_run(&self) -> (r: bool)
        ensures
            r == self.is_fatal(),
    {
        match self {
            IngestError::DirectoryUnavailable => true,
            _ => false,
        }
    }
}

} // verus!
