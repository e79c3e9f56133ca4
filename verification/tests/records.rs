use curator::date::Date;
use curator::history::{
    decode_origin, decode_records, decode_tags, encode_origin, encode_tags, RecordBuilder,
};

fn day(year: u32, month: u32, d: u32) -> Date {
    Date::checked(year, month, d).expect("a valid date")
}

#[test]
fn tags_round_trip() {
    let tags = vec!["x".to_string(), "y".to_string()];
    let encoded = encode_tags(&tags);
    assert_eq!(encoded, "x;y");
    assert_eq!(decode_tags(&encoded), tags);
}

#[test]
fn tags_keep_their_order() {
    let tags = vec!["c".to_string(), "a".to_string(), "b".to_string()];
    assert_eq!(decode_tags(&encode_tags(&tags)), tags);
}

#[test]
fn origin_absent_round_trips_to_absent() {
    assert_eq!(decode_origin(&encode_origin(&None)), None);
    assert_eq!(decode_origin(&encode_origin(&Some("".to_string()))), None);
    assert_eq!(decode_origin(&encode_origin(&Some("  ".to_string()))), None);
}

#[test]
fn origin_unicode_whitespace_decodes_to_absent() {
    assert_eq!(decode_origin("\u{00A0}\u{2003}"), None);
    assert_eq!(decode_origin(" \u{3000}weekly\u{2009} "), Some("weekly".to_string()));
}

#[test]
fn origin_present_survives() {
    let o = Some("weekly".to_string());
    assert_eq!(decode_origin(&encode_origin(&o)), o);
}

#[test]
fn record_row_encodes_and_decodes() {
    let record = RecordBuilder::new("https://example.com")
        .with_date(day(2020, 9, 28))
        .with_title("Example".to_string())
        .with_summary("A site".to_string())
        .with_tags(vec!["x".to_string(), "y".to_string()])
        .build()
        .expect("a complete builder builds");

    let line = record.encode().expect("an in-memory row encodes");
    assert_eq!(line, "2020-09-28,https://example.com,Example,A site,x;y,\n");

    let decoded = decode_records(&line).expect("the encoded row parses");
    assert_eq!(decoded.len(), 1);
    assert_eq!(decoded[0].url(), "https://example.com");
    assert_eq!(decoded[0].title(), "Example");
    assert_eq!(decoded[0].summary(), "A site");
    assert_eq!(decoded[0].tags(), vec!["x".to_string(), "y".to_string()]);
    assert_eq!(decoded[0].origin(), None);
    assert_eq!(decoded[0].date(), day(2020, 9, 28));
}

#[test]
fn record_row_quotes_embedded_commas() {
    let record = RecordBuilder::new("https://example.com")
        .with_date(day(2020, 9, 28))
        .with_title("One, two".to_string())
        .with_summary("A site".to_string())
        .build()
        .expect("a complete builder builds");

    let line = record.encode().expect("an in-memory row encodes");
    let decoded = decode_records(&line).expect("the encoded row parses");
    assert_eq!(decoded[0].title(), "One, two");
}

#[test]
fn short_rows_are_rejected() {
    assert!(decode_records("a,b,c\n").is_err());
}
