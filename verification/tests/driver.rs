use blog_core::blog::Blog;
use blog_core::error::IngestError;
use blog_core::ingest::{
    begin, blog_exists, publish_gate, read, step, Action, Event, FileState, Gate, Lookup, Outcome,
};
use blog_core::run::Report;
use blog_core::subscriber::{
    Subscribe, SubscribeAction, SubscribeAction as A, SubscribeEvent, SubscribeEvent as E,
    SubscribeState, SubscribeState as S, Subscriber, Subscription,
};

/// A store that keeps what it is given, the first article of each identifier.
struct Store {
    blogs: Vec<Blog>,
    refuse_writes: bool,
}

impl Store {
    fn new() -> Store {
        Store { blogs: Vec::new(), refuse_writes: false }
    }

    fn lookup(&self, id: i32) -> Lookup {
        if self.blogs.iter().any(|b| b.id == id) {
            Lookup::Found
        } else {
            Lookup::NotFound
        }
    }

    fn insert(&mut self, blog: Blog) -> Event {
        if self.refuse_writes {
            return Event::StoreFailed;
        }
        if self.lookup(blog.id) == Lookup::NotFound {
            self.blogs.push(blog);
        }
        Event::Stored
    }

    fn ids(&self) -> Vec<i32> {
        self.blogs.iter().map(|b| b.id).collect()
    }
}

/// Runs the driver over one file.
fn ingest(file: Option<&str>, store: &mut Store) -> Outcome {
    let (mut state, mut action) = begin();
    loop {
        let event = match action {
            Action::ReadFile => match file {
                Some(text) => Event::Content(text.to_string()),
                None => Event::Unreadable,
            },
            Action::LookUp(id) => Event::Looked(store.lookup(id)),
            Action::Insert(blog) => store.insert(blog),
            Action::Report(outcome) => {
                assert_eq!(state, FileState::Done(outcome));
                return outcome;
            }
            Action::Idle => panic!("the driver was handed an event it did not await"),
        };
        (state, action) = step(state, event);
    }
}

/// Runs the driver over a directory.
fn run(files: &[Option<&str>], store: &mut Store) -> Report {
    let mut report = Report::open(true).unwrap();
    for file in files {
        report.record(ingest(*file, store));
    }
    report
}

fn article(id: &str) -> String {
    format!("% id: {id}\n% title: Article {id}\n% date: 2024-01-01\n% tags: a, b\nBody of {id}\n")
}

#[test]
fn a_second_run_over_the_same_files_writes_nothing() {
    let one = article("1");
    let two = article("2");
    let draft = "% title: no identifier yet\n\n\n\ntext";
    let files = [Some(one.as_str()), Some(draft), Some(two.as_str()), None];
    let mut store = Store::new();
    let first = run(&files, &mut store);
    assert_eq!(
        first.outcomes,
        vec![
            Outcome::Published(1),
            Outcome::Rejected(IngestError::IncompleteMetadata),
            Outcome::Published(2),
            Outcome::Rejected(IngestError::FileUnreadable),
        ]
    );
    assert_eq!(store.ids(), vec![1, 2]);
    let second = run(&files, &mut store);
    assert_eq!(
        second.outcomes,
        vec![
            Outcome::AlreadyPublished(1),
            Outcome::Rejected(IngestError::IncompleteMetadata),
            Outcome::AlreadyPublished(2),
            Outcome::Rejected(IngestError::FileUnreadable),
        ]
    );
    assert_eq!(store.ids(), vec![1, 2]);
    assert_eq!(second.published(), 0);
    assert_eq!(second.skipped(), 2);
    assert_eq!(second.rejected(), 2);
    assert_eq!(first.published(), 2);
    assert_eq!(first.skipped(), 0);
    assert_eq!(first.rejected(), 2);
    assert_eq!(first.files(), 4);
}

#[test]
fn incomplete_metadata_never_reaches_the_store() {
    let lacking = [
        "% title: T\n% date: 2024-01-01\n% tags: a\n\nbody",
        "% id: 1\n% date: 2024-01-01\n% tags: a\n\nbody",
        "% id: 1\n% title: T\n% tags: a\n\nbody",
        "% id: 1\n% title: T\n% date: 2024-01-01\n\nbody",
        "",
        "just text\nand more\nand more\nand more\nand more",
    ];
    for text in lacking {
        let (state, action) = step(FileState::Read, Event::Content(text.to_string()));
        assert_eq!(state, FileState::Done(Outcome::Rejected(IngestError::IncompleteMetadata)));
        assert_eq!(action, Action::Report(Outcome::Rejected(IngestError::IncompleteMetadata)));
        let mut store = Store::new();
        assert_eq!(
            ingest(Some(text), &mut store),
            Outcome::Rejected(IngestError::IncompleteMetadata)
        );
        assert!(store.blogs.is_empty());
    }
}

#[test]
fn a_malformed_date_stops_one_file_only() {
    let good = article("1");
    let bad = "% id: 2\n% title: T\n% date: 2024-13-40\n% tags: a\nbody";
    let other = article("3");
    let mut store = Store::new();
    let report = run(&[Some(good.as_str()), Some(bad), Some(other.as_str())], &mut store);
    assert_eq!(
        report.outcomes,
        vec![
            Outcome::Published(1),
            Outcome::Rejected(IngestError::MalformedDate),
            Outcome::Published(3),
        ]
    );
    assert_eq!(store.ids(), vec![1, 3]);
}

#[test]
fn a_malformed_file_is_isolated_in_any_order() {
    let one = article("1");
    let bad = article("two");
    let three = article("3");
    let files = [one.as_str(), bad.as_str(), three.as_str()];
    let orders: [[usize; 3]; 6] =
        [[0, 1, 2], [0, 2, 1], [1, 0, 2], [1, 2, 0], [2, 0, 1], [2, 1, 0]];
    for order in orders {
        let mut store = Store::new();
        let batch: Vec<Option<&str>> = order.iter().map(|&i| Some(files[i])).collect();
        let report = run(&batch, &mut store);
        for (place, &i) in order.iter().enumerate() {
            let expected = match i {
                0 => Outcome::Published(1),
                1 => Outcome::Rejected(IngestError::MalformedId),
                _ => Outcome::Published(3),
            };
            assert_eq!(report.outcomes[place], expected, "{order:?}");
        }
        let mut held = store.ids();
        held.sort();
        assert_eq!(held, vec![1, 3], "{order:?}");
        assert_eq!(report.published(), 2);
        assert_eq!(report.rejected(), 1);
    }
}

#[test]
fn taking_a_rejected_file_out_changes_nothing_else() {
    let one = article("1");
    let again = article("1");
    let bad = article("x");
    let mut with = Store::new();
    let mut without = Store::new();
    let all = run(&[Some(one.as_str()), Some(bad.as_str()), Some(again.as_str())], &mut with);
    let rest = run(&[Some(one.as_str()), Some(again.as_str())], &mut without);
    assert_eq!(all.outcomes[0], rest.outcomes[0]);
    assert_eq!(all.outcomes[2], rest.outcomes[1]);
    assert_eq!(all.outcomes[2], Outcome::AlreadyPublished(1));
    assert_eq!(with.ids(), without.ids());
}

#[test]
fn no_identifier_is_published_twice_in_a_run() {
    let first = "% id: 4\n% title: first\n% date: 2024-01-01\n% tags: a\nfirst body";
    let second = "% id: 4\n% title: second\n% date: 2024-02-02\n% tags: b\nsecond body";
    let mut store = Store::new();
    let report = run(&[Some(first), Some(second), Some(first)], &mut store);
    assert_eq!(
        report.outcomes,
        vec![Outcome::Published(4), Outcome::AlreadyPublished(4), Outcome::AlreadyPublished(4)]
    );
    assert_eq!(store.blogs.len(), 1);
    assert_eq!(store.blogs[0].title, "first");
}

#[test]
fn the_written_article_is_the_assembled_one() {
    let mut store = Store::new();
    let text = "% id: 420\n% title: T\n% date: 2024-01-01\n% tags: a, b, c\nHello";
    assert_eq!(ingest(Some(text), &mut store), Outcome::Published(420));
    assert_eq!(store.blogs.len(), 1);
    assert_eq!(store.blogs[0].id, 420);
    assert_eq!(store.blogs[0].title, "T");
    assert_eq!(store.blogs[0].body, "Hello");
    assert_eq!(store.blogs[0].tags, vec!["a", "b", "c"]);
}

#[test]
fn tags_of_white_space_stop_one_file_only() {
    let good = article("1");
    let bad = "% id: 2\n% title: T\n% date: 2024-01-01\n% tags:  \nbody";
    let mut store = Store::new();
    let report = run(&[Some(bad), Some(good.as_str())], &mut store);
    assert_eq!(
        report.outcomes,
        vec![Outcome::Rejected(IngestError::MalformedTags), Outcome::Published(1)]
    );
    assert_eq!(store.ids(), vec![1]);
}

#[test]
fn a_refused_write_is_a_failure_of_that_file() {
    let mut store = Store::new();
    store.refuse_writes = true;
    let text = article("5");
    assert_eq!(
        ingest(Some(text.as_str()), &mut store),
        Outcome::Rejected(IngestError::StoreWriteFailure)
    );
    store.refuse_writes = false;
    assert_eq!(ingest(Some(text.as_str()), &mut store), Outcome::Published(5));
}

#[test]
fn a_short_file_is_incomplete() {
    let (state, _) = read("% id: 1\n% title: T\n% date: 2024-01-01");
    assert_eq!(state, FileState::Done(Outcome::Rejected(IngestError::IncompleteMetadata)));
}

#[test]
fn a_failed_lookup_counts_as_absent() {
    assert_eq!(publish_gate(Lookup::Found), Gate::Skip);
    assert_eq!(publish_gate(Lookup::NotFound), Gate::Proceed);
    assert_eq!(publish_gate(Lookup::Failed), Gate::Proceed);
    let (state, action) = read(article("8").as_str());
    assert_eq!(action, Action::LookUp(8));
    let (state, action) = step(state, Event::Looked(Lookup::Failed));
    assert_eq!(state, FileState::Write(8));
    assert!(matches!(action, Action::Insert(ref blog) if blog.id == 8));
}

#[test]
fn test_if_nonexistent_blog_exists() {
    let (_, action) = read(article("6969").as_str());
    let id = match action {
        Action::LookUp(id) => id,
        other => panic!("{other:?}"),
    };
    assert_eq!(id, 6969);
    let store = Store::new();
    let exists = blog_exists(store.lookup(id));
    assert_eq!(exists, false)
}

#[test]
fn blog_exists_only_when_found() {
    assert!(blog_exists(Lookup::Found));
    assert!(!blog_exists(Lookup::NotFound));
    assert!(!blog_exists(Lookup::Failed));
}

#[test]
fn an_event_that_is_not_awaited_changes_nothing() {
    let (state, action) = step(FileState::Read, Event::Stored);
    assert_eq!((state, action), (FileState::Read, Action::Idle));
    let (state, action) = step(FileState::Write(3), Event::Looked(Lookup::Found));
    assert_eq!((state, action), (FileState::Write(3), Action::Idle));
    let done = FileState::Done(Outcome::Published(3));
    let (state, action) = step(done.clone(), Event::Content(article("4")));
    assert_eq!((state, action), (done, Action::Idle));
    let (gate, _) = read(article("4").as_str());
    let (state, action) = step(gate.clone(), Event::Unreadable);
    assert_eq!((state, action), (gate, Action::Idle));
}

#[test]
fn a_directory_that_cannot_be_listed_stops_the_run() {
    assert_eq!(Report::open(false), Err(IngestError::DirectoryUnavailable));
    assert_eq!(Report::open(true), Ok(Report { outcomes: vec![] }));
    assert!(IngestError::DirectoryUnavailable.stops_run());
    for e in [
        IngestError::FileUnreadable,
        IngestError::IncompleteMetadata,
        IngestError::MalformedId,
        IngestError::MalformedDate,
        IngestError::MalformedTags,
        IngestError::TruncatedDocument,
        IngestError::StoreWriteFailure,
    ] {
        assert!(!e.stops_run());
    }
}

/// Runs a subscription against a list of addresses.
fn subscribe(form: Subscribe, list: &mut Vec<Subscriber>) -> Subscription {
    let (mut state, mut action) = form.begin();
    let subscriber = form.subscriber();
    loop {
        let event = match action {
            SubscribeAction::Check => SubscribeEvent::Known(list.contains(&subscriber)),
            SubscribeAction::Insert => {
                list.push(subscriber.clone());
                SubscribeEvent::Inserted(1)
            }
            SubscribeAction::Finish(result) => {
                assert_eq!(state, SubscribeState::Done(result));
                return result;
            }
            SubscribeAction::Idle => panic!("unexpected event"),
        };
        (state, action) = Subscriber::step(state, event);
    }
}

#[test]
fn test_subscriber() {
    let mut list: Vec<Subscriber> = Vec::new();
    let email = "hoi@hoi.hoi";
    let created = subscribe(Subscribe { email: email.to_string() }, &mut list);
    assert_eq!(created, Subscription::Created);
    let res = list[0].clone();
    assert_eq!(res.email, email);
    let again = subscribe(Subscribe { email: email.to_string() }, &mut list);
    assert_eq!(again, Subscription::AlreadySubscribed);
    assert_eq!(list.len(), 1);
    assert!(created.is_success() && again.is_success());
}

#[test]
fn an_insertion_that_writes_no_row_creates_nothing() {
    assert_eq!(Subscriber::step(S::Checking, E::Known(false)), (S::Inserting, A::Insert));
    for rows in [0, 2, u64::MAX] {
        assert_eq!(
            Subscriber::step(S::Inserting, E::Inserted(rows)),
            (S::Done(Subscription::NotCreated), A::Finish(Subscription::NotCreated))
        );
    }
    assert_eq!(
        Subscriber::step(S::Inserting, E::Inserted(1)),
        (S::Done(Subscription::Created), A::Finish(Subscription::Created))
    );
    for state in [S::Checking, S::Inserting] {
        assert_eq!(
            Subscriber::step(state, E::Failed),
            (S::Done(Subscription::StoreFailure), A::Finish(Subscription::StoreFailure))
        );
    }
    assert_eq!(Subscriber::step(S::Checking, E::Inserted(1)), (S::Checking, A::Idle));
    assert_eq!(Subscriber::step(S::Inserting, E::Known(true)), (S::Inserting, A::Idle));
    let done = S::Done(Subscription::Created);
    assert_eq!(Subscriber::step(done, E::Failed), (done, A::Idle));
    assert!(!Subscription::NotCreated.is_success());
    assert!(!Subscription::StoreFailure.is_success());
}
