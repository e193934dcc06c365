use blog_core::blog::Blog;
use blog_core::date::{Date, Month};
use blog_core::text::{join_from, lines, matches_at, substring, to_chars};

#[test]
fn lines_agree_with_the_standard_library() {
    for text in ["", "a", "a\n", "a\nb", "a\n\nb\n", "\n", "\n\n", "a\r\nb\r\n", "a\rb", "a\r",
        "\r\n", "\r", "a\n\r\nb", "foo\r\nbar\n\nbaz\r", "x\r\r\ny", "é\nü\n"] {
        let expected: Vec<String> = text.lines().map(String::from).collect();
        assert_eq!(lines(text), expected, "{text:?}");
    }
}

#[test]
fn joining_puts_a_line_feed_between_lines() {
    let all: Vec<String> = vec!["a".into(), "b".into(), "".into(), "c".into()];
    assert_eq!(join_from(&all, 0), "a\nb\n\nc");
    assert_eq!(join_from(&all, 1), "b\n\nc");
    assert_eq!(join_from(&all, 3), "c");
    assert_eq!(join_from(&all, 4), "");
    assert_eq!(join_from(&Vec::new(), 0), "");
}

#[test]
fn characters_and_substrings() {
    let chars = to_chars("héllo");
    assert_eq!(chars, vec!['h', 'é', 'l', 'l', 'o']);
    assert_eq!(substring(&chars, 1, 3), "él");
    assert_eq!(substring(&chars, 2, 2), "");
    assert_eq!(substring(&chars, 0, 5), "héllo");
}

#[test]
fn markdown_becomes_html() {
    assert_eq!(Blog::text_to_html("# Hi".to_string()), "<h1>Hi</h1>");
    assert_eq!(Blog::text_to_html("~gone~".to_string()), "<p><del>gone</del></p>");
    assert_eq!(Blog::text_to_html("<b>raw</b>".to_string()), "<p><b>raw</b></p>");
    assert_eq!(Blog::text_to_html(String::new()), "");
}

#[test]
fn rendering_touches_the_body_only() {
    let blog = Blog {
        id: 3,
        title: "*T*".to_string(),
        summary: "_s_".to_string(),
        body: "*b*".to_string(),
        date: Date::from_calendar_date(2019, Month::January, 1).unwrap(),
        tags: vec!["hoi".to_string()],
    };
    let shown = blog.clone().rendered();
    assert_eq!(shown.body, "<p><em>b</em></p>");
    assert_eq!(shown, Blog { body: shown.body.clone(), ..blog });
}

#[test]
fn a_preview_shows_the_draft_under_fixed_headings() {
    let shown = Blog::preview(12, "# Draft".to_string());
    assert_eq!(
        shown,
        Blog {
            id: 12,
            title: "test".to_string(),
            summary: "test".to_string(),
            body: "<h1>Draft</h1>".to_string(),
            date: Date::from_calendar_date(2019, Month::January, 1).unwrap(),
            tags: vec!["hoi".to_string()],
        }
    );
}

#[test]
fn matching_at_a_position() {
    let hay = to_chars("% id: 1");
    assert!(matches_at(&hay, 0, &to_chars("% ")));
    assert!(matches_at(&hay, 2, &to_chars("id")));
    assert!(matches_at(&hay, 6, &to_chars("1")));
    assert!(matches_at(&hay, 7, &to_chars("")));
    assert!(matches_at(&hay, 0, &hay));
    assert!(!matches_at(&hay, 1, &to_chars("% ")));
    assert!(!matches_at(&hay, 6, &to_chars("12")));
    assert!(!matches_at(&hay, 8, &to_chars("")));
    assert!(!matches_at(&hay, usize::MAX, &to_chars("1")));
}
