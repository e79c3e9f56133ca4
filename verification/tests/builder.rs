use curator::date::Date;
use curator::history::{Record, RecordBuilder, RecordError};
use curator::template;

fn day(year: u32, month: u32, d: u32) -> Date {
    Date::checked(year, month, d).expect("a valid date")
}

#[test]
fn serialize_builder() {
    let builder = RecordBuilder::new("https://www.seachess.net").with_date(day(2020, 9, 28));
    let actual = template::serialize(&builder);
    let expected = "url = \"https://www.seachess.net\"\ndate = \"2020-09-28\"\ntags = []\n";

    assert_eq!(actual, expected);
}

#[test]
fn deserialize_builder() {
    let builder = RecordBuilder::new("https://www.seachess.net").with_date(day(2020, 9, 28));
    let expected = r#"
            url = "https://www.seachess.net"
            date = "2020-09-28"
            tags = []
            "#;
    let actual: RecordBuilder = template::deserialize(expected).expect("a parsed builder");

    assert_eq!(actual, builder);
}

#[test]
fn serde_builder() {
    let builder = RecordBuilder::new("https://www.seachess.net");
    let actual: RecordBuilder =
        template::deserialize(&template::serialize(&builder)).expect("a parsed builder");

    assert_eq!(actual, builder);
}

#[test]
fn builder_chain() {
    let builder = RecordBuilder::new("https://www.seachess.net")
        .with_date(day(2020, 9, 20))
        .with_title("Seachess".to_string());

    assert_eq!(builder.title(), Some("Seachess".to_string()));
}

#[test]
fn build_returns_exactly_what_was_set() {
    let record = RecordBuilder::new("https://example.com")
        .with_title("Example".to_string())
        .with_summary("A site".to_string())
        .build()
        .expect("a record with title and summary set builds");

    assert_eq!(record.url(), "https://example.com");
    assert_eq!(record.title(), "Example");
    assert_eq!(record.summary(), "A site");
    assert_eq!(record.tags(), Vec::<String>::new());
    assert_eq!(record.origin(), None);
}

#[test]
fn build_without_title_is_missing_title() {
    let r = RecordBuilder::new("https://example.com")
        .with_summary("A site".to_string())
        .build();
    assert!(matches!(r, Err(RecordError::MissingTitle)));
}

#[test]
fn build_without_summary_is_missing_summary() {
    let r = RecordBuilder::new("https://example.com")
        .with_title("Example".to_string())
        .build();
    assert!(matches!(r, Err(RecordError::MissingSummary)));
}

#[test]
fn build_without_either_reports_title_first() {
    let r = RecordBuilder::new("https://example.com").build();
    assert!(matches!(r, Err(RecordError::MissingTitle)));
}

#[test]
fn record_new_starts_a_builder() {
    let b = Record::new("https://example.com");
    assert_eq!(b.url(), "https://example.com");
    assert_eq!(b.title(), None);
    assert_eq!(b.summary(), None);
    assert_eq!(b.origin(), None);
    assert_eq!(b.tags(), Vec::<String>::new());
}

#[test]
fn builder_collects_tags_and_origin() {
    let b = RecordBuilder::new("https://example.com")
        .with_tag("a".to_string())
        .with_tag("b".to_string())
        .with_origin("weekly".to_string());
    assert_eq!(b.tags(), vec!["a".to_string(), "b".to_string()]);
    assert_eq!(b.origin(), Some("weekly".to_string()));

    let b2 = b.with_tags(vec!["x".to_string()]);
    assert_eq!(b2.tags(), vec!["x".to_string()]);
}

#[test]
fn set_origin_overwrites() {
    let mut b = RecordBuilder::new("https://example.com");
    b.set_origin("letter".to_string());
    assert_eq!(b.origin(), Some("letter".to_string()));
}

#[test]
fn template_round_trip_with_all_fields() {
    let builder = RecordBuilder::new("https://www.seachess.net")
        .with_date(day(2021, 1, 2))
        .with_title("Seachess".to_string())
        .with_summary("Sketches".to_string())
        .with_tags(vec!["art".to_string(), "sea".to_string()])
        .with_origin("weekly".to_string());
    let text = template::serialize(&builder);
    let parsed = template::deserialize(&text).expect("a parsed builder");
    assert_eq!(parsed, builder);
}

#[test]
fn template_whitespace_only_optional_fields_parse_to_absent() {
    let text = "url = \"u\"\ndate = \"2020-01-01\"\ntitle = \"  \"\ntags = []\n";
    let parsed = template::deserialize(text).expect("a parsed builder");
    assert_eq!(parsed.title(), None);
}

#[test]
fn template_comment_lines_are_ignored() {
    let text = "# edited by hand\nurl = \"u\"\ndate = \"2020-01-01\"\ntags = []\n";
    let parsed = template::deserialize(text).expect("a parsed builder");
    assert_eq!(parsed.url(), "u");
}

#[test]
fn template_escapes_embedded_quotes_and_newlines() {
    let builder = RecordBuilder::new("https://example.com/?q=\"x\"")
        .with_date(day(2020, 1, 1))
        .with_title("a \"quoted\" word".to_string())
        .with_summary("line one\nline two".to_string());
    let text = template::serialize(&builder);
    assert!(text.contains("title = \"a \\qquoted\\q word\""));
    assert!(text.contains("summary = \"line one\\nline two\""));
    let parsed = template::deserialize(&text).expect("a parsed builder");
    assert_eq!(parsed, builder);
}

#[test]
fn template_escapes_commas_and_backslashes_in_tags() {
    let builder = RecordBuilder::new("https://example.com")
        .with_date(day(2020, 1, 1))
        .with_tag("one,two".to_string())
        .with_tag("back\\slash".to_string());
    let text = template::serialize(&builder);
    assert!(text.contains("tags = [\"one\\ctwo\",\"back\\\\slash\"]"));
    let parsed = template::deserialize(&text).expect("a parsed builder");
    assert_eq!(parsed, builder);
}

#[test]
fn template_rejects_an_unknown_escape_code() {
    let text = "url = \"a\\zb\"\ndate = \"2020-01-01\"\ntags = []\n";
    assert!(template::deserialize(text).is_err());
}

#[test]
fn template_accepts_a_trailing_comment_after_a_value() {
    let text = "url = \"u\" # the link\ndate = \"2020-01-01\"\ntags = []\n";
    let parsed = template::deserialize(text).expect("a parsed builder");
    assert_eq!(parsed.url(), "u");
}

#[test]
fn template_missing_url_is_an_error() {
    let text = "date = \"2020-01-01\"\ntags = []\n";
    assert!(template::deserialize(text).is_err());
}

#[test]
fn template_malformed_line_is_an_error() {
    let text = "url = \"u\"\ndate\ntags = []\n";
    assert!(template::deserialize(text).is_err());
}
