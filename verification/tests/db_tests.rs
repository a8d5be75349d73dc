use transcrever::backend::whisper_cpp::WhisperCppBackend;
use transcrever::db::{
    default_profile, export_text_for_view, transcription_profile_for, SegmentView,
    TranscriptionView,
};
use transcrever::models::JobStatus;

fn segment(raw: &str, edited: Option<&str>) -> SegmentView {
    SegmentView {
        id: 1,
        segment_index: 0,
        start_ms: 0,
        end_ms: 10,
        raw_text: raw.to_string(),
        edited_text: edited.map(str::to_string),
        confidence_bits: None,
    }
}

fn view(edited: Option<&str>, segments: Vec<SegmentView>) -> TranscriptionView {
    TranscriptionView {
        transcription_id: 1,
        media_file_id: 2,
        job_id: 3,
        file_name: "a.mp3".to_string(),
        absolute_path: "/m/a.mp3".to_string(),
        raw_text: "raw text".to_string(),
        edited_text: edited.map(str::to_string),
        segments,
    }
}

#[test]
fn default_profile_uses_bundled_whisper_cpp_model() {
    let p = default_profile("models/base.pt");
    assert_eq!(p.id, 0);
    assert_eq!(p.name, "Padrao (base.pt)");
    assert_eq!(p.backend, "whisper_cpp");
    assert_eq!(p.model_path, "models/base.pt");
    assert_eq!(p.device, "cpu");
    assert_eq!(p.precision, "auto");
    assert_eq!(p.threads, 4);
    assert_eq!(p.language.as_deref(), Some("pt"));
    assert_eq!(p.task, "transcribe");
    assert_eq!(p.advanced_json, "{}");
}

#[test]
fn default_profile_runs_on_whisper_cpp() {
    let row = default_profile("models/base.pt");
    let profile = transcription_profile_for(&row, row.model_path.clone());
    let args = WhisperCppBackend::new("whisper-cli".to_string())
        .build_args("a.wav", &profile, "out")
        .expect("default profile should be accepted");
    assert_eq!(
        args,
        vec!["-m", "models/base.pt", "-f", "a.wav", "-t", "4", "-oj", "-of", "out", "-np", "-l", "pt", "-ng"]
    );
}

#[test]
fn export_uses_segment_edits_over_raw_segments() {
    let v = view(
        None,
        vec![segment(" one ", None), segment("two", Some(" TWO ")), segment("x", Some("  "))],
    );
    assert_eq!(export_text_for_view(&v), "one\nTWO");
    let v = view(Some("final"), vec![segment("one", None)]);
    assert_eq!(export_text_for_view(&v), "final");
    let v = view(None, vec![]);
    assert_eq!(export_text_for_view(&v), "raw text");
}

#[test]
fn job_statuses_have_snake_case_names() {
    let all = [
        (JobStatus::Pending, "pending"),
        (JobStatus::Processing, "processing"),
        (JobStatus::Completed, "completed"),
        (JobStatus::Error, "error"),
        (JobStatus::Reviewed, "reviewed"),
        (JobStatus::Exported, "exported"),
    ];
    for (status, name) in all {
        assert_eq!(status.as_str(), name);
    }
}

#[test]
fn negative_thread_counts_convert_like_as_casts() {
    let mut row = default_profile("m");
    row.threads = -1;
    let profile = transcription_profile_for(&row, "m".to_string());
    assert_eq!(profile.threads, usize::MAX);
}
