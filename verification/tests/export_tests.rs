use transcrever::export::choose_export_text;

#[test]
fn prefers_edited_text_over_segments_and_raw() {
    let segments = vec!["segment one".to_string(), "segment two".to_string()];

    let chosen = choose_export_text(Some("  reviewed text  "), &segments, "raw text");

    assert_eq!(chosen, "  reviewed text  ");
}

#[test]
fn falls_back_to_segments_before_raw() {
    let segments = vec![
        " first segment ".to_string(),
        "   ".to_string(),
        "second segment".to_string(),
    ];

    let chosen = choose_export_text(Some("   "), &segments, "raw text");

    assert_eq!(chosen, "first segment\nsecond segment");
}

#[test]
fn falls_back_to_raw_text_when_edits_are_empty() {
    let segments = vec!["   ".to_string()];

    let chosen = choose_export_text(Some("   "), &segments, "raw text");

    assert_eq!(chosen, "raw text");
}

use transcrever::export::temporary_export_file_name;

#[test]
fn blank_export_only_comes_from_raw_text() {
    let segments = vec!["  ".to_string(), "\t".to_string()];
    assert_eq!(choose_export_text(None, &segments, " "), " ");
    assert_eq!(choose_export_text(None, &[], "raw"), "raw");
}

#[test]
fn names_temporary_export_files() {
    assert_eq!(temporary_export_file_name(Some("review.txt"), 42), ".review.txt.42.tmp");
    assert_eq!(temporary_export_file_name(None, 0), ".export.txt.0.tmp");
}
