use curator::ideas::{
    first_line, format_idea_line, format_ideas_header, ideas_from_csv, reminder_from_selection,
    Idea,
};

#[test]
fn idea_add_then_list_round_trip() {
    // The manifest points at an ideas file; adding to an empty file writes
    // the header first, and listing decodes the row back.
    let idea = Idea::new(
        "2020-09-28".to_string(),
        Some("P1D".to_string()),
        "Buy milk".to_string(),
    );
    let text = idea.encode(true).expect("an in-memory row encodes");
    assert_eq!(text, "date,reminder,content\n2020-09-28,P1D,Buy milk\n");

    let ideas = ideas_from_csv(&text).expect("the encoded file parses");
    assert_eq!(ideas.len(), 1);
    assert_eq!(ideas[0].content(), "Buy milk");
    assert_eq!(ideas[0].reminder(), &Some("P1D".to_string()));
    assert_eq!(ideas[0].date(), "2020-09-28");

    // Listing in CSV mode re-emits the same row.
    let row = ideas[0].encode(false).expect("an in-memory row encodes");
    assert_eq!(row, "2020-09-28,P1D,Buy milk\n");
}

#[test]
fn appending_to_a_non_empty_file_writes_no_header() {
    let idea = Idea::new("2020-09-28".to_string(), None, "note".to_string());
    let text = idea.encode(false).expect("an in-memory row encodes");
    assert_eq!(text, "2020-09-28,,note\n");
}

#[test]
fn absent_reminder_round_trips_to_absent() {
    let idea = Idea::new("2020-09-28".to_string(), None, "note".to_string());
    let mut text = "date,reminder,content\n".to_string();
    text.push_str(&idea.encode(false).expect("an in-memory row encodes"));
    let ideas = ideas_from_csv(&text).expect("the encoded file parses");
    assert_eq!(ideas[0].reminder(), &None);
}

#[test]
fn multi_line_content_survives_and_summarizes() {
    let idea = Idea::new(
        "2020-09-28".to_string(),
        None,
        "first line\nsecond line".to_string(),
    );
    let mut text = "date,reminder,content\n".to_string();
    text.push_str(&idea.encode(false).expect("an in-memory row encodes"));
    let ideas = ideas_from_csv(&text).expect("the encoded file parses");
    assert_eq!(ideas[0].content(), "first line\nsecond line");
    assert_eq!(ideas[0].summarized().content(), "first line");
}

#[test]
fn reminder_presets() {
    assert_eq!(reminder_from_selection(Some(0), None), Some("P1D".to_string()));
    assert_eq!(reminder_from_selection(Some(1), None), Some("P7D".to_string()));
    assert_eq!(reminder_from_selection(Some(2), None), Some("PT1H".to_string()));
    assert_eq!(
        reminder_from_selection(Some(3), Some("P3D".to_string())),
        Some("P3D".to_string())
    );
    assert_eq!(reminder_from_selection(Some(3), Some("".to_string())), None);
    assert_eq!(reminder_from_selection(None, None), None);
    assert_eq!(reminder_from_selection(Some(9), None), None);
}

#[test]
fn first_line_cuts_at_the_newline() {
    assert_eq!(first_line("a\nb"), "a");
    assert_eq!(first_line("plain"), "plain");
    assert_eq!(first_line(""), "");
}

#[test]
fn table_lines_are_fixed_width() {
    let idea = Idea::new(
        "2020-09-28".to_string(),
        Some("P1D".to_string()),
        "Buy milk\nand eggs".to_string(),
    );
    let line = format_idea_line(0, &idea, 40);
    assert_eq!(line, "  0  2020-09-28  P1D         Buy milk   ");
    assert_eq!(line.chars().count(), 40);

    let header = format_ideas_header(40);
    assert_eq!(header, "###  date        reminder    content    ");
    assert_eq!(header.chars().count(), 40);
}

#[test]
fn wrong_width_rows_are_rejected() {
    assert!(ideas_from_csv("date,reminder,content\na,b\n").is_err());
}
