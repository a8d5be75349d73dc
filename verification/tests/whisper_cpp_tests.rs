use transcrever::backend::whisper_cpp::process_diagnostic;

#[test]
fn process_diagnostic_falls_back_to_stdout() {
    let diagnostic = process_diagnostic(b"", b"stdout message");

    assert_eq!(diagnostic, "stdout message");
}

#[test]
fn process_diagnostic_truncates_on_utf8_boundary() {
    let long = "ação ".repeat(400);
    let diagnostic = process_diagnostic(long.as_bytes(), b"");

    assert!(diagnostic.ends_with("..."));
    assert!(diagnostic.is_char_boundary(diagnostic.len()));
}

#[test]
fn process_diagnostic_prefers_stderr_and_trims() {
    assert_eq!(process_diagnostic(b"  boom \n", b"ignored"), "boom");
}

#[test]
fn process_diagnostic_has_fixed_text_when_silent() {
    assert_eq!(
        process_diagnostic(b" \n", b"\t"),
        "process produced no diagnostic output"
    );
}

#[test]
fn process_diagnostic_keeps_exactly_one_thousand_characters() {
    let exact = "é".repeat(1000);
    assert_eq!(process_diagnostic(exact.as_bytes(), b""), exact);
    let longer = "é".repeat(1001);
    let cut = process_diagnostic(longer.as_bytes(), b"");
    assert_eq!(cut.chars().count(), 1003);
    assert_eq!(cut, format!("{}...", "é".repeat(1000)));
}

#[test]
fn process_diagnostic_replaces_invalid_utf8() {
    assert_eq!(process_diagnostic(&[0x61, 0xff, 0x62], b""), "a\u{fffd}b");
}

#[test]
fn names_whisper_output_files() {
    assert_eq!(
        transcrever::backend::whisper_cpp::whisper_output_name(1_700_000_000_123),
        "transcrever-whisper-1700000000123"
    );
}
