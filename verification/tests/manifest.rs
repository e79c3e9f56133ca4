use curator::manifest::Manifest;

#[test]
fn manifest_resolves_paths_against_its_directory() {
    let text = "[activity]\n\
                history = \"history.csv\"\n\
                events  = \"events.csv\"\n\
                sources = \"sources.csv\"\n\
                ideas   = \"ideas.csv\"\n";
    let m = Manifest::new(text, "/home/someone/cellar").expect("a full manifest loads");
    assert_eq!(m.history_path(), "/home/someone/cellar/history.csv");
    assert_eq!(m.events_path(), "/home/someone/cellar/events.csv");
    assert_eq!(m.sources_path(), "/home/someone/cellar/sources.csv");
    assert_eq!(m.ideas_path(), "/home/someone/cellar/ideas.csv");
}

#[test]
fn manifest_keeps_absolute_paths() {
    let text = "[activity]\n\
                history = \"/var/data/history.csv\"\n\
                events = \"e\"\n\
                sources = \"s\"\n\
                ideas = \"i\"\n";
    let m = Manifest::new(text, "/home/someone").expect("a full manifest loads");
    assert_eq!(m.history_path(), "/var/data/history.csv");
}

#[test]
fn manifest_comment_lines_are_ignored() {
    let text = "# data files\n[activity]\nhistory = \"h\"\nevents = \"e\"\n# see notes\nsources = \"s\"\nideas = \"i\"\n";
    let m = Manifest::new(text, "/base").expect("a commented manifest loads");
    assert_eq!(m.sources_path(), "/base/s");
}

#[test]
fn manifest_trailing_comments_are_ignored() {
    let text = "[activity] # the data files\n\
                history = \"h\" # appended to\n\
                events = \"e\"\n\
                sources = \"s\"\n\
                ideas = \"i\"\n";
    let m = Manifest::new(text, "/base").expect("a commented manifest loads");
    assert_eq!(m.history_path(), "/base/h");
}

#[test]
fn manifest_missing_key_fails() {
    let text = "[activity]\nhistory = \"h\"\nevents = \"e\"\nsources = \"s\"\n";
    assert!(Manifest::new(text, "/base").is_err());
}

#[test]
fn manifest_keys_outside_activity_do_not_count() {
    let text = "history = \"h\"\n\
                [activity]\n\
                events = \"e\"\n\
                sources = \"s\"\n\
                ideas = \"i\"\n";
    assert!(Manifest::new(text, "/base").is_err());
}

#[test]
fn manifest_malformed_line_fails() {
    let text = "[activity]\nhistory\n";
    assert!(Manifest::new(text, "/base").is_err());
}
