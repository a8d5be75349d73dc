use transcrever::commands::{
    activates_saved_profile, audio_data_url, base64_encode, clamp_concurrency,
    clears_active_profile, effective_concurrency, engine_label, install_report, job_update_for,
    mime_type, model_path_for_backend, needs_wav_conversion,
    parse_gpu_query, pip_install_args, profile_for_job, project_name_for_folder, stored_edit,
    JobOutcome, ScanResponse,
};
use transcrever::commands::{claim_failure_message, next_worker_action, WorkerAction, WorkerEvent};
use transcrever::db::default_profile;
use transcrever::models::JobStatus;

#[test]
fn mime_types_follow_extension() {
    assert_eq!(mime_type("a/b.MP3"), "audio/mpeg");
    assert_eq!(mime_type("x.mpga"), "audio/mpeg");
    assert_eq!(mime_type("x.wav"), "audio/wav");
    assert_eq!(mime_type("x.Opus"), "audio/ogg");
    assert_eq!(mime_type("x.flac"), "audio/flac");
    assert_eq!(mime_type("x.aac"), "audio/mp4");
    assert_eq!(mime_type("x.wma"), "audio/x-ms-wma");
    assert_eq!(mime_type("x.webm"), "audio/webm");
    assert_eq!(mime_type("x.mkv"), "audio/mpeg");
    assert_eq!(mime_type("noext"), "audio/mpeg");
}

#[test]
fn base64_matches_standard_vectors() {
    assert_eq!(base64_encode(b""), "");
    assert_eq!(base64_encode(b"M"), "TQ==");
    assert_eq!(base64_encode(b"Ma"), "TWE=");
    assert_eq!(base64_encode(b"Man"), "TWFu");
    assert_eq!(base64_encode(b"hello world"), "aGVsbG8gd29ybGQ=");
    assert_eq!(base64_encode(&[0xfb, 0xff, 0xbf]), "+/+/");
    let bytes: Vec<u8> = (0..=255u8).collect();
    assert_eq!(base64_encode(&bytes).len(), 4 * ((256 + 2) / 3));
}

#[test]
fn builds_audio_data_url() {
    assert_eq!(audio_data_url("song.wav", b"hi"), "data:audio/wav;base64,aGk=");
}

#[test]
fn concurrency_is_kept_in_range() {
    assert_eq!(clamp_concurrency(0), 1);
    assert_eq!(clamp_concurrency(4), 4);
    assert_eq!(clamp_concurrency(99), 16);
    assert_eq!(effective_concurrency(0), 1);
    assert_eq!(effective_concurrency(clamp_concurrency(7)), 7);
}

#[test]
fn active_profile_bookkeeping() {
    let mut p = default_profile("m.bin");
    p.id = 3;
    assert!(activates_saved_profile(&None, 5));
    assert!(activates_saved_profile(&Some(p.clone()), 3));
    assert!(!activates_saved_profile(&Some(p.clone()), 5));
    assert!(clears_active_profile(&Some(p.clone()), 3));
    assert!(!clears_active_profile(&Some(p.clone()), 4));
    assert!(!clears_active_profile(&None, 3));
}

#[test]
fn blank_edits_are_not_stored() {
    assert_eq!(stored_edit(Some("  \n".to_string())), None);
    assert_eq!(stored_edit(Some(" keep ".to_string())), Some(" keep ".to_string()));
    assert_eq!(stored_edit(None), None);
}

#[test]
fn project_is_named_after_folder() {
    assert_eq!(project_name_for_folder("/home/u/Music"), "Music");
    assert_eq!(project_name_for_folder("/home/u/Music/"), "Music");
    assert_eq!(project_name_for_folder("/"), "/");
}

#[test]
fn model_path_for_faster_whisper_uses_folder_of_file() {
    assert_eq!(
        model_path_for_backend("m/model.bin", "faster_whisper", true, Some("m")),
        "m"
    );
    assert_eq!(
        model_path_for_backend("m/model.bin", "whisper_cpp", true, Some("m")),
        "m/model.bin"
    );
    assert_eq!(model_path_for_backend("m", "faster_whisper", false, Some("")), "m");
}

#[test]
fn only_non_native_formats_are_converted() {
    assert!(!needs_wav_conversion("a.WAV"));
    assert!(!needs_wav_conversion("a.mp3"));
    assert!(!needs_wav_conversion("a.flac"));
    assert!(!needs_wav_conversion("a.ogg"));
    assert!(needs_wav_conversion("a.opus"));
    assert!(needs_wav_conversion("video.mp4"));
    assert!(needs_wav_conversion("noext"));
}

#[test]
fn engine_label_prefers_reported_device() {
    assert_eq!(
        engine_label("faster_whisper", &Some("cuda".to_string()), "auto"),
        "faster-whisper · cuda"
    );
    assert_eq!(engine_label("whisper_cpp", &None, "cpu"), "whisper.cpp · cpu");
}

#[test]
fn worker_choices() {
    let mut project = default_profile("p.bin");
    project.id = 1;
    let mut active = default_profile("a.bin");
    active.id = 2;
    assert_eq!(profile_for_job(Some(project), Some(active.clone())).map(|p| p.id), Some(1));
    assert_eq!(profile_for_job(None, Some(active)).map(|p| p.id), Some(2));
    assert!(profile_for_job(None, None).is_none());
}

#[test]
fn job_updates_after_work() {
    assert!(matches!(job_update_for(&JobOutcome::Saved), (JobStatus::Completed, None)));
    let (status, message) = job_update_for(&JobOutcome::SaveFailed("disk".to_string()));
    assert_eq!(status, JobStatus::Error);
    assert_eq!(message.as_deref(), Some("erro ao salvar transcricao: disk"));
    let (_, message) = job_update_for(&JobOutcome::WorkerFailed("panic".to_string()));
    assert_eq!(message.as_deref(), Some("worker falhou: panic"));
    let (_, message) = job_update_for(&JobOutcome::TranscriptionFailed("bad".to_string()));
    assert_eq!(message.as_deref(), Some("bad"));
    let (status, message) = job_update_for(&JobOutcome::NoProfile);
    assert_eq!(status, JobStatus::Error);
    assert_eq!(
        message.as_deref(),
        Some("Nenhum perfil ativo nem perfil padrao do projeto definido.")
    );
}

#[test]
fn reads_gpu_query_output() {
    let (name, cap) = parse_gpu_query(b"Quadro M4000, 5.2\nTesla T4, 7.5\n");
    assert_eq!(name.as_deref(), Some("Quadro M4000"));
    assert_eq!(cap.as_deref(), Some("5.2"));
    let (name, cap) = parse_gpu_query(b"");
    assert!(name.is_none() && cap.is_none());
    let (name, cap) = parse_gpu_query(b"GeForce GTX 1080\r\n");
    assert_eq!(name.as_deref(), Some("GeForce GTX 1080"));
    assert!(cap.is_none());
    let (name, cap) = parse_gpu_query(b" , 8.6");
    assert!(name.is_none());
    assert_eq!(cap.as_deref(), Some("8.6"));
}

#[test]
fn pip_command_and_report() {
    assert_eq!(
        pip_install_args(false),
        vec!["-m", "pip", "install", "--upgrade", "faster-whisper"]
    );
    assert_eq!(
        pip_install_args(true),
        vec![
            "-m",
            "pip",
            "install",
            "--upgrade",
            "faster-whisper",
            "nvidia-cublas-cu12",
            "nvidia-cudnn-cu12"
        ]
    );
    assert_eq!(install_report(b"done\n", b""), "done");
    assert_eq!(install_report(b"out", b"err"), "out\nerr");
}

#[test]
fn scan_response_counts() {
    let r = ScanResponse { discovered_count: 2, queued_count: 1 };
    assert_eq!(r, ScanResponse { discovered_count: 2, queued_count: 1 });
}

#[test]
fn worker_steps() {
    assert_eq!(next_worker_action(WorkerEvent::Turn { cancelled: true }), WorkerAction::Exit);
    assert_eq!(next_worker_action(WorkerEvent::Turn { cancelled: false }), WorkerAction::Claim);
    assert_eq!(
        next_worker_action(WorkerEvent::Claimed(7, 3, "/m/a.mp3".to_string())),
        WorkerAction::Process(7, 3, "/m/a.mp3".to_string())
    );
    assert_eq!(next_worker_action(WorkerEvent::NothingClaimed), WorkerAction::CountPending);
    assert_eq!(next_worker_action(WorkerEvent::Counted(Some(2))), WorkerAction::NextTurn);
    assert_eq!(next_worker_action(WorkerEvent::Counted(Some(0))), WorkerAction::Exit);
    assert_eq!(next_worker_action(WorkerEvent::Counted(None)), WorkerAction::Exit);
    assert_eq!(next_worker_action(WorkerEvent::JobDone), WorkerAction::NextTurn);
    assert_eq!(
        next_worker_action(WorkerEvent::ClaimFailed("locked".to_string())),
        WorkerAction::ReportAndExit("locked".to_string())
    );
    assert_eq!(
        claim_failure_message(&"locked".to_string()),
        "erro ao reservar proximo job: locked"
    );
}
