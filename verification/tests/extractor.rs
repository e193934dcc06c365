use blog_core::error::IngestError;
use blog_core::blog::metadata_to_blog;
use blog_core::metadata::{get_id, get_metadata, key_and_value, scan, shows_field, Metadata};

const ARTICLE: &str = "% id: 420\n% title: T\n% date: 2024-01-01\n% tags: a, b, c\nHello";

#[test]
fn reads_the_four_fields_and_the_body() {
    let metadata = get_metadata(ARTICLE);
    assert_eq!(metadata.id.as_deref(), Some("420"));
    assert_eq!(metadata.title.as_deref(), Some("T"));
    assert_eq!(metadata.date.as_deref(), Some("2024-01-01"));
    assert_eq!(metadata.tags.as_deref(), Some("a, b, c"));
    assert_eq!(metadata.body.as_deref(), Some("Hello"));
    assert!(metadata.is_complete());
}

#[test]
fn the_body_is_every_line_after_the_fourth() {
    let text = "% id: 1\n% title: T\n% date: 2024-01-01\n% tags: a\n\n# Heading\n\nText\n";
    let metadata = get_metadata(text);
    assert_eq!(metadata.body.as_deref(), Some("\n# Heading\n\nText"));
}

#[test]
fn a_document_of_four_lines_has_an_empty_body() {
    let text = "% id: 1\n% title: T\n% date: 2024-01-01\n% tags: a\n";
    let metadata = get_metadata(text);
    assert_eq!(metadata.body.as_deref(), Some(""));
    assert!(metadata.is_complete());
}

#[test]
fn a_document_of_three_lines_has_no_body() {
    let text = "% id: 1\n% title: T\n% date: 2024-01-01";
    let metadata = get_metadata(text);
    assert_eq!(metadata.body, None);
    assert_eq!(metadata.tags, None);
    assert!(!metadata.is_complete());
}

#[test]
fn the_empty_document_gives_the_empty_record() {
    assert_eq!(get_metadata(""), Metadata::new());
}

#[test]
fn lines_that_are_no_fields_still_count_toward_the_body_offset() {
    let text = "% id: 7\nnot a field\n% title: T\nanother\nbody starts here\n% tags: late";
    let metadata = get_metadata(text);
    assert_eq!(metadata.id.as_deref(), Some("7"));
    assert_eq!(metadata.title.as_deref(), Some("T"));
    assert_eq!(metadata.tags.as_deref(), Some("late"));
    assert_eq!(metadata.date, None);
    assert_eq!(metadata.body.as_deref(), Some("body starts here\n% tags: late"));
}

#[test]
fn the_last_occurrence_of_a_key_wins() {
    let text = "% id: 1\n% id: 2\n% title: first\n% title: second\n% id: 3";
    let metadata = get_metadata(text);
    assert_eq!(metadata.id.as_deref(), Some("3"));
    assert_eq!(metadata.title.as_deref(), Some("second"));
}

#[test]
fn unknown_keys_are_ignored() {
    let text = "% author: someone\n% id: 5\n% draft: yes\n% body: no\n";
    let metadata = get_metadata(text);
    assert_eq!(metadata.id.as_deref(), Some("5"));
    assert_eq!(metadata.title, None);
    assert_eq!(metadata.date, None);
    assert_eq!(metadata.tags, None);
    assert_eq!(metadata.body.as_deref(), Some(""));
}

#[test]
fn a_field_needs_a_value() {
    let metadata = get_metadata("% id: \n% title:\n% date:2024-01-01\n%tags: a\n");
    assert_eq!(metadata.id, None);
    assert_eq!(metadata.title, None);
    assert_eq!(metadata.date, None);
    assert_eq!(metadata.tags, None);
}

#[test]
fn a_field_may_stand_anywhere_in_its_line() {
    let metadata = get_metadata("<!-- % id: 12 -->\n");
    assert_eq!(metadata.id.as_deref(), Some("12 -->"));
}

#[test]
fn carriage_returns_before_line_feeds_are_dropped() {
    let text = "% id: 9\r\n% title: T\r\n% date: 2024-01-01\r\n% tags: a\r\nbody\r\nmore\r";
    let metadata = get_metadata(text);
    assert_eq!(metadata.id.as_deref(), Some("9"));
    assert_eq!(metadata.tags.as_deref(), Some("a"));
    assert_eq!(metadata.body.as_deref(), Some("body\nmore\r"));
}

#[test]
fn key_and_value_wants_exactly_two_groups() {
    let line = "% id: 1";
    let two = Some(vec![Some("id".to_string()), Some("1".to_string())]);
    assert_eq!(key_and_value(line, two), Some(("id".to_string(), "1".to_string())));
    let one = Some(vec![Some("id".to_string())]);
    assert_eq!(key_and_value(line, one), None);
    let three = Some(vec![Some("id".to_string()), Some("1".to_string()), None]);
    assert_eq!(key_and_value(line, three), None);
    let hole = Some(vec![Some("id".to_string()), None]);
    assert_eq!(key_and_value(line, hole), None);
    assert_eq!(key_and_value(line, None), None);
}

#[test]
fn key_and_value_wants_them_to_stand_in_the_line() {
    let groups = || Some(vec![Some("id".to_string()), Some("1".to_string())]);
    assert!(key_and_value("see % id: 1", groups()).is_some());
    assert_eq!(key_and_value("% id: 12", groups()), None);
    assert_eq!(key_and_value("% id: 1 ", groups()), None);
    assert_eq!(key_and_value("% title: 1", groups()), None);
    assert_eq!(key_and_value("", groups()), None);
}

#[test]
fn a_field_is_shown_at_the_end_of_a_line() {
    assert!(shows_field("% id: 420", "id", "420"));
    assert!(shows_field("<!-- % tags: a, b", "tags", "a, b"));
    assert!(shows_field("% a: % b: c", "b", "c"));
    assert!(shows_field("% a: % b: c", "a", "% b: c"));
    assert!(!shows_field("% id: 420", "id", "42"));
    assert!(!shows_field("% id: 420", "d", "420"));
    assert!(!shows_field("%  id: 420", "id", "420"));
    assert!(!shows_field("% id:420", "id", "420"));
    assert!(!shows_field("% id : 420", "id", "420"));
    assert!(!shows_field("% id: ", "id", ""));
    assert!(!shows_field("% : x", "", "x"));
    assert!(!shows_field("id: 420", "id", "420"));
    assert!(!shows_field("", "id", "420"));
    assert!(!shows_field("%", "id", "420"));
}

#[test]
fn set_field_knows_four_keys() {
    let mut metadata = Metadata::new();
    metadata.set_field("id", "1".to_string());
    metadata.set_field("title", "2".to_string());
    metadata.set_field("date", "3".to_string());
    metadata.set_field("tags", "4".to_string());
    metadata.set_field("body", "5".to_string());
    metadata.set_field("Id", "6".to_string());
    assert_eq!(metadata.id.as_deref(), Some("1"));
    assert_eq!(metadata.title.as_deref(), Some("2"));
    assert_eq!(metadata.date.as_deref(), Some("3"));
    assert_eq!(metadata.tags.as_deref(), Some("4"));
    assert_eq!(metadata.body, None);
    assert!(metadata.is_complete());
}

#[test]
fn is_complete_wants_all_four() {
    let full = get_metadata(ARTICLE);
    assert!(full.is_complete());
    let mut m = full.clone();
    m.id = None;
    assert!(!m.is_complete());
    let mut m = full.clone();
    m.title = None;
    assert!(!m.is_complete());
    let mut m = full.clone();
    m.date = None;
    assert!(!m.is_complete());
    let mut m = full.clone();
    m.tags = None;
    assert!(!m.is_complete());
    let mut m = full.clone();
    m.body = None;
    assert!(m.is_complete());
}

#[test]
fn test_get_id() {
    let id = get_id(ARTICLE).unwrap().expect("Couldn't find id in markdown file");
    assert_eq!(id, 420)
}

#[test]
fn get_id_takes_the_last_identifier_line() {
    assert_eq!(get_id("% id: 1\n% id: 2\n% title: T\n% date: 2024-01-01\n% tags: a"), Ok(Some(2)));
    assert_eq!(get_id("text\n% id: 3\n% id: 4\n"), Ok(Some(4)));
    assert_eq!(get_id("% id: -17"), Ok(Some(-17)));
    assert_eq!(get_id("% id: abc\n% id: 4\n"), Ok(Some(4)));
}

#[test]
fn get_id_names_the_identifier_of_the_article() {
    let text = "% id: 1\n% id: 2\n% title: T\n% date: 2024-01-01\n% tags: a";
    let blog = metadata_to_blog(get_metadata(text)).unwrap();
    assert_eq!(get_id(text), Ok(Some(blog.id)));
    assert_eq!(blog.id, 2);
}

#[test]
fn get_id_finds_nothing_without_an_identifier_line() {
    assert_eq!(get_id(""), Ok(None));
    assert_eq!(get_id("% title: T\n% idd: 3\n"), Ok(None));
}

#[test]
fn get_id_rejects_an_identifier_that_is_no_number() {
    assert_eq!(get_id("% id: 4\n% id: abc\n"), Err(IngestError::MalformedId));
    assert_eq!(get_id("% id: 12 "), Err(IngestError::MalformedId));
    assert_eq!(get_id("% id: 99999999999"), Err(IngestError::MalformedId));
}

#[test]
fn scanning_reads_fields_and_no_body() {
    let all: Vec<String> = vec!["% id: 1".into(), "x".into(), "% tags: a".into(), "".into(), "b".into()];
    let metadata = scan(&all);
    assert_eq!(metadata.id.as_deref(), Some("1"));
    assert_eq!(metadata.tags.as_deref(), Some("a"));
    assert_eq!(metadata.body, None);
}
