use nn::{format_identifier, journal_note, journal_note_now, week_title, Note};

#[test]
fn timestamp_formatting() {
    assert_eq!(format_identifier(2024, 3, 18, 0, 0, 0), "20240318T000000");
    assert_eq!(format_identifier(2024, 12, 31, 23, 59, 9), "20241231T235909");
    assert_eq!(format_identifier(987, 1, 2, 3, 4, 5), "09870102T030405");
    assert_eq!(format_identifier(0, 1, 1, 0, 0, 0), "00000101T000000");
}

#[test]
fn week_title_formatting() {
    assert_eq!(week_title(12, 2024), "Week 12 of 2024");
    assert_eq!(week_title(1, 2025), "Week 1 of 2025");
    assert_eq!(week_title(53, 2020), "Week 53 of 2020");
}

#[test]
fn journal_scenario_fixed_week() {
    // A fixed "now" of Wednesday 2024-03-20 anchors to Monday 2024-03-18,
    // ISO week 12 of 2024.
    let identifier = format_identifier(2024, 3, 18, 0, 0, 0);
    let title = week_title(12, 2024);
    let name = Note::new(identifier, title, None, vec![], "md".to_string()).format_file_name();
    assert_eq!(name, "20240318T000000--week-12-of-2024.md");
}

#[test]
fn journal_note_carries_journal_keyword() {
    let name = journal_note(2024, 3, 18, 12, 2024).format_file_name();
    assert_eq!(name, "20240318T000000--week-12-of-2024__journal.md");
}

#[test]
fn note_now_has_timestamp_shaped_identifier() {
    let n = Note::new_now("A note".to_string(), None, vec![], "md".to_string());
    let id = n.identifier.clone();
    assert_eq!(id.len(), 15);
    let chars: Vec<char> = id.chars().collect();
    for (i, c) in chars.iter().enumerate() {
        if i == 8 {
            assert_eq!(*c, 'T');
        } else {
            assert!(c.is_ascii_digit(), "unexpected {c:?} in {id:?}");
        }
    }
    let name = n.format_file_name();
    assert!(name.ends_with("--a-note.md"), "{name:?}");
}

#[test]
fn journal_note_now_shape() {
    let name = journal_note_now().format_file_name();
    assert!(name.contains("--week-"), "{name:?}");
    assert!(name.contains("-of-"), "{name:?}");
    assert!(name.ends_with("__journal.md"), "{name:?}");
}
