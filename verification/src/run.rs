//! A whole run: the report that gathers the outcome of each file, and what
//! holds of a run against a store that keeps what it is given.
//!
//! The store is modelled by the articles it holds, each under its
//! identifier. It answers a lookup truthfully, takes an article where its
//! identifier is free, leaves what it holds as it is, and forgets nothing.

use crate::blog::{assembled, BlogView};
use crate::error::IngestError;
use crate::ingest::{finished, next, ActionView, EventView, Lookup, Outcome, StateView};
use crate::metadata::extracted;
use vstd::prelude::*;

verus! {

/// The outcomes of a run, one for each file, in the order the files were
/// taken.
#[derive(Debug, Clone, PartialEq, Eq)]
pub struct Report {
    pub outcomes: Vec<Outcome>,
}

/// The three ways in which the ingestion of a file ends.
#[derive(Debug, Clone, Copy, PartialEq, Eq, Structural)]
pub enum Ending {
    Published,
    AlreadyPublished,
    Rejected,
}

/// The way in which `outcome` ends a file.
pub open spec fn ending_of(outcome: Outcome) -> Ending {
    match outcome {
        Outcome::Published(_) => Ending::Published,
        Outcome::AlreadyPublished(_) => Ending::AlreadyPublished,
        Outcome::Rejected(_) => Ending::Rejected,
    }
}

/// How many of `outcomes` end in the way `ending`.
pub open spec fn count_of(outcomes: Seq<Outcome>, ending: Ending) -> nat {
    outcomes.filter(|o: Outcome| ending_of(o) == ending).len()
}

/// Tells the way in which `outcome` ends a file.
pub fn ending(outcome: &Outcome) -> (e: Ending)
    ensures
        e == ending_of(*outcome),
{
    match outcome {
        Outcome::Published(_) => Ending::Published,
        Outcome::AlreadyPublished(_) => Ending::AlreadyPublished,
        Outcome::Rejected(_) => Ending::Rejected,
    }
}

impl Report {
    /// Opens a run. A directory that could not be listed ends it at once;
    /// nothing else does.
    pub fn open(directory_listed: bool) -> (r: Result<Report, IngestError>)
        ensures
            directory_listed ==> (r matches Ok(report) && report.outcomes@.len() == 0),
            !directory_listed ==> r == Err::<Report, IngestError>(
                IngestError::DirectoryUnavailable,
            ),
    {
        if directory_listed {
            Ok(Report { outcomes: Vec::new() })
        } else {
            Err(IngestError::DirectoryUnavailable)
        }
    }

    /// Notes the outcome of the next file. Whatever it is, the outcomes
    /// noted before stay as they are.
    pub fn record(&mut self, outcome: Outcome)
        ensures
            final(self).outcomes@ == old(self).outcomes@.push(outcome),
    {
        self.outcomes.push(outcome);
    }

    /// Number of files taken so far.
    pub fn files(&self) -> (n: usize)
        ensures
            n == self.outcomes@.len(),
    {
        self.outcomes.len()
    }

    /// Number of files that ended in the way `wanted`.
    fn count(&self, wanted: Ending) -> (n: usize)
        ensures
            n == count_of(self.outcomes@, wanted),
    {
        let ghost taken = |o: Outcome| ending_of(o) == wanted;
        let mut n: usize = 0;
        let mut i: usize = 0;
        proof {
            assert(self.outcomes@.take(0).filter(taken).len() == 0) by {
                reveal(Seq::filter);
            }
        }
        while i < self.outcomes.len()
            invariant
                i <= self.outcomes.len(),
                taken == (|o: Outcome| ending_of(o) == wanted),
                n == self.outcomes@.take(i as int).filter(taken).len(),
                n <= i,
            decreases self.outcomes.len() - i,
        {
            proof {
                let grown = self.outcomes@.take(i as int + 1);
                assert(grown.drop_last() == self.outcomes@.take(i as int));
                assert(grown.last() == self.outcomes@[i as int]);
                reveal(Seq::filter);
            }
            if ending(&self.outcomes[i]) == wanted {
                n += 1;
            }
            i += 1;
        }
        proof {
            assert(self.outcomes@.take(self.outcomes.len() as int) == self.outcomes@);
        }
        n
    }

    /// Number of articles written in this run.
    pub fn published(&self) -> (n: usize)
        ensures
            n == count_of(self.outcomes@, Ending::Published),
    {
        self.count(Ending::Published)
    }

    /// Number of articles that the store held already.
    pub fn skipped(&self) -> (n: usize)
        ensures
            n == count_of(self.outcomes@, Ending::AlreadyPublished),
    {
        self.count(Ending::AlreadyPublished)
    }

    /// Number of files that were rejected in this run.
    pub fn rejected(&self) -> (n: usize)
        ensures
            n == count_of(self.outcomes@, Ending::Rejected),
    {
        self.count(Ending::Rejected)
    }
}

// ---------------------------------------------------------------------------
// A run against a store that keeps what it is given
// ---------------------------------------------------------------------------

/// What reading a file gives: its text, or `None` where it cannot be read.
pub type FileText = Option<Seq<char>>;

/// What the store holds: each article under its identifier.
pub type Store = Map<int, BlogView>;

/// The event that reading a file reports.
pub open spec fn read_event(file: FileText) -> EventView {
    match file {
        Some(text) => EventView::Content(text),
        None => EventView::Unreadable,
    }
}

/// The article that a file describes, `None` where the file cannot be read
/// or describes no article.
pub open spec fn article(file: FileText) -> Option<BlogView> {
    match next(StateView::Read, read_event(file)).0 {
        StateView::Gate(blog) => Some(blog),
        _ => None,
    }
}

/// The identifier of the article that a file describes.
pub open spec fn article_id(file: FileText) -> Option<int> {
    match article(file) {
        Some(blog) => Some(blog.id),
        None => None,
    }
}

/// The store's answer to a lookup of `id`.
pub open spec fn lookup_in(store: Store, id: int) -> Lookup {
    if store.dom().contains(id) {
        Lookup::Found
    } else {
        Lookup::NotFound
    }
}

/// The store after it was handed `blog`: it takes the article where its
/// identifier is free, and stays as it is where the identifier is taken.
pub open spec fn handed(store: Store, blog: BlogView) -> Store {
    if store.dom().contains(blog.id) {
        store
    } else {
        store.insert(blog.id, blog)
    }
}

/// The outcome that a state stands for, once the file is done.
pub open spec fn outcome_of(state: StateView) -> Outcome {
    match state {
        StateView::Done(outcome) => outcome,
        _ => Outcome::Rejected(IngestError::StoreWriteFailure),
    }
}

/// The ingestion of one file against `store`: the file's outcome, and the
/// store afterwards. The driver's transitions are taken one after the
/// other, each event being what the store, or the reading of the file,
/// reports; the store is handed what the driver asks to insert.
pub open spec fn file_run(file: FileText, store: Store) -> (Outcome, Store) {
    let read = next(StateView::Read, read_event(file)).0;
    match read {
        StateView::Gate(blog) => {
            let gated = next(read, EventView::Looked(lookup_in(store, blog.id)));
            match gated.1 {
                ActionView::Insert(written) => (
                    outcome_of(next(gated.0, EventView::Stored).0),
                    handed(store, written),
                ),
                _ => (outcome_of(gated.0), store),
            }
        },
        _ => (outcome_of(read), store),
    }
}

/// A run over `files`, one after the other, starting with `store`: the
/// outcome of each file, and the store at the end.
pub open spec fn batch_run(files: Seq<FileText>, store: Store) -> (Seq<Outcome>, Store)
    decreases files.len(),
{
    if files.len() == 0 {
        (Seq::empty(), store)
    } else {
        let before = batch_run(files.drop_last(), store);
        let last = file_run(files.last(), before.1);
        (before.0.push(last.0), last.1)
    }
}

/// `later` holds everything `earlier` holds, each article as it was.
pub open spec fn keeps(earlier: Store, later: Store) -> bool {
    forall|id: int| #[trigger]
        earlier.dom().contains(id) ==> later.dom().contains(id) && later[id] == earlier[id]
}

/// What a second run makes of a file whose first run ended with `first`:
/// a published article is found again and skipped, a rejected file is
/// rejected again for the same reason.
pub open spec fn on_rerun(first: Outcome) -> Outcome {
    match first {
        Outcome::Published(id) => Outcome::AlreadyPublished(id),
        other => other,
    }
}

/// One file, spelled out: a file that describes no article is rejected and
/// leaves the store alone; one whose identifier the store holds is skipped
/// and leaves the store alone; any other is published, and the store then
/// holds the article that the file describes.
pub proof fn lemma_file_run(file: FileText, store: Store)
    ensures
        article(file) is None ==> file_run(file, store).0 is Rejected && file_run(file, store).1
            == store,
        article(file) matches Some(blog) ==> file_run(file, store) == if store.dom().contains(
            blog.id,
        ) {
            (Outcome::AlreadyPublished(blog.id as i32), store)
        } else {
            (Outcome::Published(blog.id as i32), store.insert(blog.id, blog))
        },
        article(file) matches Some(blog) ==> i32::MIN <= blog.id <= i32::MAX,
        keeps(store, file_run(file, store).1),
{
    match file {
        Some(text) => {
            let metadata = extracted(text);
            if metadata.is_complete() {
                match assembled(metadata) {
                    Ok(blog) => {},
                    Err(e) => {},
                }
            }
        },
        None => {},
    }
}

/// Incomplete metadata never reaches the store: a file that lacks one of
/// identifier, title, date and tags is rejected as incomplete, no lookup
/// and no write is asked for, and the store is left as it was.
pub proof fn lemma_incomplete_is_turned_away(text: Seq<char>, store: Store)
    requires
        !extracted(text).is_complete(),
    ensures
        next(StateView::Read, EventView::Content(text)) == finished(
            Outcome::Rejected(IngestError::IncompleteMetadata),
        ),
        assembled(extracted(text)) == Err::<BlogView, IngestError>(
            IngestError::IncompleteMetadata,
        ),
        file_run(Some(text), store) == (Outcome::Rejected(IngestError::IncompleteMetadata), store),
{
}

/// A run gives one outcome for each file. It never updates and never
/// loses an article: what the store held it still holds, each article as
/// it was. And it leaves in the store the identifier of every file that
/// describes an article.
pub proof fn lemma_batch_run(files: Seq<FileText>, store: Store)
    ensures
        batch_run(files, store).0.len() == files.len(),
        keeps(store, batch_run(files, store).1),
        forall|i: int|
            0 <= i < files.len() ==> (#[trigger] article_id(files[i]) matches Some(id) ==> batch_run(
                files,
                store,
            ).1.dom().contains(id)),
    decreases files.len(),
{
    if files.len() > 0 {
        let rest = files.drop_last();
        lemma_batch_run(rest, store);
        let before = batch_run(rest, store);
        lemma_file_run(files.last(), before.1);
        let after = batch_run(files, store).1;
        assert forall|id: int| #[trigger] store.dom().contains(id) implies after.dom().contains(id)
            && after[id] == store[id] by {
            assert(before.1.dom().contains(id));
        }
        assert forall|i: int| 0 <= i < files.len() implies (#[trigger] article_id(
            files[i],
        ) matches Some(id) ==> after.dom().contains(id)) by {
            if i < rest.len() {
                assert(files[i] == rest[i]);
                if article_id(rest[i]) is Some {
                    assert(before.1.dom().contains(article_id(rest[i])->0));
                }
            }
        }
    }
}

/// A run over a store that already holds the identifier of every article
/// the files describe writes nothing: each file is skipped or rejected,
/// and the store stays as it is.
pub proof fn lemma_run_over_full_store(files: Seq<FileText>, store: Store)
    requires
        forall|i: int|
            0 <= i < files.len() ==> (#[trigger] article_id(files[i]) matches Some(id)
                ==> store.dom().contains(id)),
    ensures
        batch_run(files, store).1 == store,
        batch_run(files, store).0.len() == files.len(),
        forall|i: int|
            0 <= i < files.len() ==> #[trigger] batch_run(files, store).0[i] == file_run(
                files[i],
                store,
            ).0,
        forall|i: int|
            0 <= i < files.len() ==> !(#[trigger] batch_run(files, store).0[i] is Published),
    decreases files.len(),
{
    if files.len() > 0 {
        let rest = files.drop_last();
        assert forall|i: int| 0 <= i < rest.len() implies (#[trigger] article_id(
            rest[i],
        ) matches Some(id) ==> store.dom().contains(id)) by {
            assert(rest[i] == files[i]);
        }
        lemma_run_over_full_store(rest, store);
        assert(article_id(files[files.len() - 1]) is Some ==> store.dom().contains(
            article_id(files[files.len() - 1])->0,
        ));
        lemma_file_run(files.last(), store);
        let outcomes = batch_run(files, store).0;
        assert forall|i: int| 0 <= i < files.len() implies #[trigger] outcomes[i] == file_run(
            files[i],
            store,
        ).0 by {
            if i < rest.len() {
                assert(files[i] == rest[i]);
                assert(outcomes[i] == batch_run(rest, store).0[i]);
            }
        }
        assert forall|i: int| 0 <= i < files.len() implies !(#[trigger] outcomes[i] is Published) by {
            assert(article_id(files[i]) is Some ==> store.dom().contains(article_id(files[i])->0));
            lemma_file_run(files[i], store);
        }
    }
}

/// Running twice over the same files: the second run writes nothing and
/// fails on nothing new. The store is after the second run what it was
/// after the first; every article that the first run published or found
/// is found and skipped; every file that the first run rejected for what
/// it holds is rejected again for the same reason.
pub proof fn lemma_second_run_changes_nothing(files: Seq<FileText>, store: Store)
    ensures
        ({
            let first = batch_run(files, store);
            let second = batch_run(files, first.1);
            &&& second.1 == first.1
            &&& second.0.len() == files.len()
            &&& first.0.len() == files.len()
            &&& forall|i: int| 0 <= i < files.len() ==> #[trigger] second.0[i] == on_rerun(first.0[i])
            &&& forall|i: int| 0 <= i < files.len() ==> !(#[trigger] second.0[i] is Published)
        }),
{
    let first = batch_run(files, store);
    lemma_batch_run(files, store);
    lemma_run_over_full_store(files, first.1);
    let second = batch_run(files, first.1);
    assert forall|i: int| 0 <= i < files.len() implies #[trigger] second.0[i] == on_rerun(
        first.0[i],
    ) by {
        lemma_outcome_in_batch(files, store, i);
        assert(article_id(files[i]) is Some ==> first.1.dom().contains(article_id(files[i])->0));
        lemma_file_run(files[i], first.1);
        lemma_file_run(files[i], batch_run(files.take(i), store).1);
    }
}

/// The outcome of the file at `i` is that of its own ingestion against the
/// store as the files before it left it.
pub proof fn lemma_outcome_in_batch(files: Seq<FileText>, store: Store, i: int)
    requires
        0 <= i < files.len(),
    ensures
        batch_run(files, store).0.len() == files.len(),
        batch_run(files, store).0[i] == file_run(files[i], batch_run(files.take(i), store).1).0,
    decreases files.len(),
{
    let rest = files.drop_last();
    lemma_batch_run(files, store);
    lemma_batch_run(rest, store);
    if i == files.len() - 1 {
        assert(files.take(i) == rest);
    } else {
        lemma_outcome_in_batch(rest, store, i);
        assert(rest.take(i) == files.take(i));
        assert(rest[i] == files[i]);
    }
}

/// A run over `first` and then `second` is the run over `first` followed by
/// the run over `second` on the store that the first left.
pub proof fn lemma_run_in_two_parts(first: Seq<FileText>, second: Seq<FileText>, store: Store)
    ensures
        batch_run(first + second, store).0 == batch_run(first, store).0 + batch_run(
            second,
            batch_run(first, store).1,
        ).0,
        batch_run(first + second, store).1 == batch_run(second, batch_run(first, store).1).1,
    decreases second.len(),
{
    if second.len() == 0 {
        assert(first + second == first);
    } else {
        let all = first + second;
        assert(all.drop_last() == first + second.drop_last());
        assert(all.last() == second.last());
        lemma_run_in_two_parts(first, second.drop_last(), store);
    }
}

/// What is written is the assembled article, and it stays: where the file
/// at `i` ends as published, the store holds at the end of the run, under
/// the identifier published, the very article that the file describes.
pub proof fn lemma_written_article_is_the_assembled_one(
    files: Seq<FileText>,
    store: Store,
    i: int,
)
    requires
        0 <= i < files.len(),
        batch_run(files, store).0[i] is Published,
    ensures
        article(files[i]) matches Some(blog) && batch_run(files, store).0[i] == Outcome::Published(
            blog.id as i32,
        ) && batch_run(files, store).1.dom().contains(blog.id) && batch_run(files, store).1[blog.id]
            == blog,
{
    lemma_outcome_in_batch(files, store, i);
    let before = batch_run(files.take(i), store).1;
    lemma_file_run(files[i], before);
    let upto = files.take(i + 1);
    assert(upto.drop_last() == files.take(i));
    assert(upto.last() == files[i]);
    let rest = files.skip(i + 1);
    assert(files == upto + rest);
    lemma_run_in_two_parts(upto, rest, store);
    let written = batch_run(upto, store).1;
    lemma_batch_run(rest, written);
    let blog = article(files[i])->0;
    assert(written.dom().contains(blog.id));
}

/// No identifier is published twice in a run: once a file has published an
/// article, no later file publishes one with the same identifier.
pub proof fn lemma_no_identifier_is_published_twice(
    files: Seq<FileText>,
    store: Store,
    i: int,
    j: int,
)
    requires
        0 <= i < j < files.len(),
        batch_run(files, store).0[i] is Published,
    ensures
        batch_run(files, store).0[j] != batch_run(files, store).0[i],
{
    lemma_outcome_in_batch(files, store, i);
    lemma_outcome_in_batch(files, store, j);
    let before_i = batch_run(files.take(i), store).1;
    let before_j = batch_run(files.take(j), store).1;
    lemma_file_run(files[i], before_i);
    lemma_file_run(files[j], before_j);
    let upto = files.take(i + 1);
    assert(upto.drop_last() == files.take(i));
    assert(upto.last() == files[i]);
    let between = files.subrange(i + 1, j);
    assert(files.take(j) == upto + between);
    lemma_run_in_two_parts(upto, between, store);
    lemma_batch_run(between, batch_run(upto, store).1);
    let id = article(files[i])->0.id;
    assert(batch_run(upto, store).1.dom().contains(id));
}

/// A file that describes no article touches nothing but its own outcome:
/// taking it out of the run leaves every other file's outcome and the
/// store at the end as they were.
pub proof fn lemma_rejected_file_is_isolated(files: Seq<FileText>, store: Store, i: int)
    requires
        0 <= i < files.len(),
        article(files[i]) is None,
    ensures
        batch_run(files, store).0[i] is Rejected,
        batch_run(files.remove(i), store).0 == batch_run(files, store).0.remove(i),
        batch_run(files.remove(i), store).1 == batch_run(files, store).1,
    decreases files.len(),
{
    let rest = files.drop_last();
    lemma_batch_run(files, store);
    lemma_batch_run(rest, store);
    let before = batch_run(rest, store);
    if i == files.len() - 1 {
        lemma_file_run(files.last(), before.1);
        assert(files.remove(i) == rest);
        assert(batch_run(files, store).0.remove(i) == before.0);
    } else {
        lemma_rejected_file_is_isolated(rest, store, i);
        assert(rest[i] == files[i]);
        let without = files.remove(i);
        assert(without.drop_last() == rest.remove(i));
        assert(without.last() == files.last());
        lemma_batch_run(rest.remove(i), store);
        assert(batch_run(without, store).0 == batch_run(files, store).0.remove(i));
    }
}

/// An article is published wherever its file stands in the run, as long as
/// the store does not hold its identifier at the start and no file before
/// it describes an article with the same identifier: the other files,
/// malformed or not, do not matter.
pub proof fn lemma_fresh_article_is_published(files: Seq<FileText>, store: Store, i: int)
    requires
        0 <= i < files.len(),
        article_id(files[i]) is Some,
        !store.dom().contains(article_id(files[i])->0),
        forall|j: int| 0 <= j < i ==> #[trigger] article_id(files[j]) != article_id(files[i]),
    ensures
        batch_run(files, store).0[i] == Outcome::Published(article_id(files[i])->0 as i32),
{
    let id = article_id(files[i])->0;
    lemma_outcome_in_batch(files, store, i);
    lemma_store_holds_only_what_came(files.take(i), store, id);
    lemma_file_run(files[i], batch_run(files.take(i), store).1);
}

/// The store holds after a run only what it held before and the articles
/// that the files describe.
pub proof fn lemma_store_holds_only_what_came(files: Seq<FileText>, store: Store, id: int)
    requires
        !store.dom().contains(id),
        forall|j: int| 0 <= j < files.len() ==> #[trigger] article_id(files[j]) != Some(id),
    ensures
        !batch_run(files, store).1.dom().contains(id),
    decreases files.len(),
{
    if files.len() > 0 {
        let rest = files.drop_last();
        assert forall|j: int| 0 <= j < rest.len() implies #[trigger] article_id(rest[j]) != Some(
            id,
        ) by {
            assert(rest[j] == files[j]);
        }
        lemma_store_holds_only_what_came(rest, store, id);
        assert(article_id(files[files.len() - 1]) != Some(id));
        lemma_file_run(files.last(), batch_run(rest, store).1);
    }
}

} // verus!
