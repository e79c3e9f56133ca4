use curator::source::{from_reader, SourceError};

#[test]
fn sources_parse_in_file_order() {
    let text = "id,type,url,comment\n\
                seachess,site,https://www.seachess.net,sketches\n\
                letter,newsletter,https://example.com/letter,weekly\n";
    let sources = from_reader(text).expect("a well-formed sources file parses");
    assert_eq!(sources.len(), 2);
    assert_eq!(sources[0].id(), "seachess");
    assert_eq!(sources[0].type_(), "site");
    assert_eq!(sources[0].url(), "https://www.seachess.net");
    assert_eq!(sources[1].id(), "letter");
}

#[test]
fn sources_malformed_row_fails() {
    let text = "id,type,url,comment\nonly,three,fields\n";
    assert!(from_reader(text).is_err());
}

#[test]
fn sources_wrong_header_fails() {
    let text = "id,kind,url,comment\na,b,c,d\n";
    assert!(from_reader(text).is_err());
}

#[test]
fn sources_empty_input_is_empty() {
    let sources = from_reader("").expect("an empty sources file parses");
    assert_eq!(sources.len(), 0);
}

#[test]
fn source_error_carries_its_message() {
    let e = SourceError::new("boom");
    assert_eq!(e.message(), "boom");
    assert_eq!(e, SourceError::new("boom"));
}
