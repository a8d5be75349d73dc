use transcrever::backend::faster_whisper::{
    precision_to_compute_type, transcription_from_output, FasterWhisperBackend,
    FasterWhisperOutput,
};
use transcrever::backend::whisper_cpp::{
    assemble_whisper_transcription, gpu_device_index, select_whisper_entries, WhisperCppBackend,
    WhisperEntries, WhisperItem,
};
use transcrever::backend::{
    has_no_advanced_options, BackendError, BackendSegment, TranscriptionProfile,
};

fn profile(device: &str, precision: &str) -> TranscriptionProfile {
    TranscriptionProfile {
        model_path: "models/base.bin".to_string(),
        device: device.to_string(),
        precision: precision.to_string(),
        threads: 8,
        language: None,
        task: "transcribe".to_string(),
        advanced_json: "{}".to_string(),
    }
}

fn item(text: &str) -> WhisperItem {
    WhisperItem {
        text: Some(text.to_string()),
        offset_from_ms: None,
        offset_to_ms: None,
        start_ms: None,
        end_ms: None,
        stamp_from_ms: None,
        stamp_to_ms: None,
        stamp_start_ms: None,
        stamp_end_ms: None,
        confidence_bits: None,
    }
}

#[test]
fn gpu_selector_reads_index_and_plain_devices() {
    assert!(matches!(gpu_device_index(&" GPU:3 ".to_string()), Ok(Some(3))));
    assert!(matches!(gpu_device_index(&"gpu:0".to_string()), Ok(Some(0))));
    assert!(matches!(gpu_device_index(&"Auto".to_string()), Ok(None)));
    assert!(matches!(gpu_device_index(&"cpu".to_string()), Ok(None)));
    assert!(matches!(gpu_device_index(&"gpu".to_string()), Ok(None)));
}

#[test]
fn gpu_selector_errors_name_the_setting() {
    let bad = gpu_device_index(&"gpu:x".to_string()).unwrap_err();
    assert!(matches!(bad, BackendError::InvalidGpuSelector(_)));
    assert_eq!(bad.message(), "invalid GPU device selector 'gpu:x'");
    let unknown = gpu_device_index(&"tpu".to_string()).unwrap_err();
    assert_eq!(
        unknown.message(),
        "unsupported device 'tpu'; use cpu, gpu, auto, or gpu:<index>"
    );
}

#[test]
fn whisper_cpp_selects_gpu_device_by_index() {
    let backend = WhisperCppBackend::new("whisper-cli".to_string());
    let args = backend
        .build_args("a.wav", &profile("gpu:1", "model"), "out")
        .expect("args");
    assert_eq!(
        args,
        vec!["-m", "models/base.bin", "-f", "a.wav", "-t", "8", "-oj", "-of", "out", "-np", "-dev", "1"]
    );
}

#[test]
fn whisper_cpp_cpu_flag_ignores_case_but_not_padding() {
    let backend = WhisperCppBackend::new("whisper-cli".to_string());
    let upper = backend.build_args("a.wav", &profile("CPU", "auto"), "out").expect("args");
    assert_eq!(upper.last().map(String::as_str), Some("-ng"));
    let padded = backend.build_args("a.wav", &profile(" cpu ", "auto"), "out").expect("args");
    assert_eq!(padded.last().map(String::as_str), Some("-np"));
}

#[test]
fn whisper_cpp_language_is_trimmed_and_blank_is_skipped() {
    let backend = WhisperCppBackend::new("whisper-cli".to_string());
    let mut p = profile("auto", "auto");
    p.language = Some("  en ".to_string());
    let args = backend.build_args("a.wav", &p, "out").expect("args");
    assert!(args.windows(2).any(|pair| pair == ["-l", "en"]));
    p.language = Some("   ".to_string());
    let args = backend.build_args("a.wav", &p, "out").expect("args");
    assert!(!args.iter().any(|a| a == "-l"));
}

#[test]
fn whisper_cpp_rejects_bad_profiles_in_order() {
    let backend = WhisperCppBackend::new("whisper-cli".to_string());
    let mut p = profile("cpu", "auto");
    p.threads = 0;
    p.task = "summarize".to_string();
    let err = backend.build_args("a.wav", &p, "out").unwrap_err();
    assert_eq!(err.message(), "threads must be greater than zero");
    p.threads = 2;
    let err = backend.build_args("a.wav", &p, "out").unwrap_err();
    assert_eq!(err.message(), "unsupported whisper.cpp task 'summarize'");
    p.task = "translate".to_string();
    p.advanced_json = "{\"beam\": 5}".to_string();
    let err = backend.build_args("a.wav", &p, "out").unwrap_err();
    assert!(matches!(err, BackendError::WhisperCppAdvancedOptions));
    assert_eq!(
        err.message(),
        "advanced_json options are not supported by the whisper.cpp backend yet"
    );
}

#[test]
fn advanced_options_must_be_an_empty_json_object() {
    let mut p = profile("cpu", "auto");
    assert!(has_no_advanced_options(&p));
    p.advanced_json = " { } ".to_string();
    assert!(has_no_advanced_options(&p));
    p.advanced_json = "{\"a\": 1}".to_string();
    assert!(!has_no_advanced_options(&p));
    p.advanced_json = "[]".to_string();
    assert!(!has_no_advanced_options(&p));
    p.advanced_json = "not json".to_string();
    assert!(!has_no_advanced_options(&p));
}

#[test]
fn faster_whisper_args_follow_profile() {
    let backend = FasterWhisperBackend::new("scripts/fw.py".to_string());
    assert_eq!(backend.script_path(), "scripts/fw.py");
    let mut p = profile("CUDA", "FP16");
    p.language = Some(" pt ".to_string());
    let args = backend.build_args("audio.mp3", &p).expect("args");
    assert_eq!(
        args,
        vec![
            "scripts/fw.py",
            "--model",
            "models/base.bin",
            "--audio",
            "audio.mp3",
            "--device",
            "CUDA",
            "--compute-type",
            "float16",
            "--threads",
            "8",
            "--task",
            "transcribe",
            "--language",
            "pt",
        ]
    );
}

#[test]
fn faster_whisper_precisions_map_to_compute_types() {
    let cases = [
        ("fp32", "float32"),
        ("Float32", "float32"),
        ("fp16", "float16"),
        ("int8", "int8"),
        ("INT8_FLOAT16", "int8_float16"),
        ("int8_bfloat16", "int8_bfloat16"),
        ("auto", "auto"),
        ("default", "auto"),
    ];
    for (precision, compute) in cases {
        assert_eq!(precision_to_compute_type(&precision.to_string()).expect("known"), compute);
    }
    let err = precision_to_compute_type(&"FP8".to_string()).unwrap_err();
    assert_eq!(
        err.message(),
        "unsupported precision 'fp8' for faster-whisper; use auto, float32, float16, int8, int8_float16, or int8_bfloat16"
    );
}

#[test]
fn faster_whisper_rejects_unknown_device() {
    let backend = FasterWhisperBackend::new("fw.py".to_string());
    let err = backend.build_args("a.mp3", &profile("gpu", "auto")).unwrap_err();
    assert_eq!(err.message(), "unsupported device 'gpu'; use cpu, cuda, or auto");
    let mut p = profile("cpu", "auto");
    p.task = "x".to_string();
    let err = backend.build_args("a.mp3", &p).unwrap_err();
    assert_eq!(err.message(), "unsupported faster-whisper task 'x'");
}

#[test]
fn parses_error_response_from_helper() {
    let output = FasterWhisperOutput {
        raw_text: String::new(),
        segments: vec![],
        error: Some("model not found".to_string()),
        device_used: None,
    };
    let err = transcription_from_output(output).unwrap_err();
    assert!(err.message().contains("model not found"));
    assert_eq!(err.message(), "faster-whisper error: model not found");
}

#[test]
fn keeps_helper_segments_and_device() {
    let output = FasterWhisperOutput {
        raw_text: "primeiro\nsegundo".to_string(),
        segments: vec![BackendSegment {
            start_ms: 1000,
            end_ms: 2500,
            text: "primeiro".to_string(),
            confidence_bits: Some((-0.23f32).to_bits()),
        }],
        error: None,
        device_used: Some("cuda".to_string()),
    };
    let t = transcription_from_output(output).expect("ok");
    assert_eq!(t.raw_text, "primeiro\nsegundo");
    assert_eq!(t.segments.len(), 1);
    assert_eq!(t.segments[0].start_ms, 1000);
    assert_eq!(t.device_used.as_deref(), Some("cuda"));
}

#[test]
fn assembles_whisper_segments_and_joined_text() {
    let mut first = item(" primeiro ");
    first.stamp_from_ms = Some(1000);
    first.stamp_to_ms = Some(2500);
    let mut blank = item("   ");
    blank.offset_from_ms = Some(2500);
    let mut second = item("segundo");
    second.stamp_from_ms = Some(2500);
    second.stamp_to_ms = Some(4000);
    second.confidence_bits = Some(0.75f32.to_bits());

    let t = assemble_whisper_transcription(&vec![first, blank, second]);

    assert_eq!(t.raw_text, "primeiro\nsegundo");
    assert_eq!(t.segments.len(), 3);
    assert_eq!(t.segments[0].text, "primeiro");
    assert_eq!(t.segments[0].start_ms, 1000);
    assert_eq!(t.segments[0].end_ms, 2500);
    assert_eq!(t.segments[1].text, "");
    assert_eq!(t.segments[1].end_ms, 2500);
    assert_eq!(t.segments[2].confidence_bits.map(f32::from_bits), Some(0.75));
    assert!(t.device_used.is_none());
}

#[test]
fn whisper_offsets_take_precedence_over_timestamps() {
    let mut a = item("ola");
    a.offset_from_ms = Some(0);
    a.offset_to_ms = Some(2500);
    a.stamp_from_ms = Some(10);
    a.stamp_to_ms = Some(20);
    let mut b = item("mundo");
    b.start_ms = Some(2500);
    b.stamp_start_ms = Some(9);
    let mut c = item("fim");
    c.stamp_start_ms = Some(70_000);
    c.stamp_end_ms = Some(71_000);
    let mut d = item("x");
    d.text = None;

    let t = assemble_whisper_transcription(&vec![a, b, c, d]);

    assert_eq!((t.segments[0].start_ms, t.segments[0].end_ms), (0, 2500));
    assert_eq!((t.segments[1].start_ms, t.segments[1].end_ms), (2500, 2500));
    assert_eq!((t.segments[2].start_ms, t.segments[2].end_ms), (70_000, 71_000));
    assert_eq!((t.segments[3].start_ms, t.segments[3].end_ms), (0, 0));
    assert_eq!(t.raw_text, "ola\nmundo\nfim");
}

#[test]
fn whisper_entries_prefer_transcription_key() {
    let chosen = select_whisper_entries(
        WhisperEntries::Entries(vec![item("a")]),
        WhisperEntries::Entries(vec![item("b"), item("c")]),
    )
    .expect("entries");
    assert_eq!(chosen.len(), 1);
    let fallback = select_whisper_entries(
        WhisperEntries::Missing,
        WhisperEntries::Entries(vec![item("b"), item("c")]),
    )
    .expect("entries");
    assert_eq!(fallback.len(), 2);
    let empty = select_whisper_entries(WhisperEntries::Entries(vec![]), WhisperEntries::Missing)
        .expect("entries");
    assert!(empty.is_empty());
}

#[test]
fn whisper_entries_missing_or_not_array_is_an_error() {
    let not_array = select_whisper_entries(
        WhisperEntries::NotArray,
        WhisperEntries::Entries(vec![item("b")]),
    )
    .unwrap_err();
    assert_eq!(
        not_array.message(),
        "whisper.cpp JSON did not contain transcription segments"
    );
    let none = select_whisper_entries(WhisperEntries::Missing, WhisperEntries::Missing).unwrap_err();
    assert!(matches!(none, BackendError::MissingWhisperSegments));
    let segments_not_array =
        select_whisper_entries(WhisperEntries::Missing, WhisperEntries::NotArray).unwrap_err();
    assert!(matches!(segments_not_array, BackendError::MissingWhisperSegments));
}
