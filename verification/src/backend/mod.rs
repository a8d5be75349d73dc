//! Transcription engines: the profile they run with, what they return, and
//! the errors a profile or an engine's answer can raise.
use vstd::prelude::*;
use crate::text::{
    chars_of, lower_chars, lower_seq, push_all, push_str, str_eq, string_of, string_views, trim,
    trim_seq,
};

pub mod faster_whisper;
pub mod whisper_cpp;

verus! {

/// The settings one transcription runs with.
///
/// `advanced_json` holds the JSON text of the engine-specific options;
/// neither engine accepts any yet, so it must be an empty JSON object.
#[derive(Debug, Clone)]
pub struct TranscriptionProfile {
    pub model_path: String,
    pub device: String,
    pub precision: String,
    pub threads: usize,
    pub language: Option<String>,
    pub task: String,
    pub advanced_json: String,
}

/// One timed piece of a transcription. `confidence_bits` holds the bit
/// pattern of the engine's `f32` confidence, when it gave one.
#[derive(Debug, Clone)]
pub struct BackendSegment {
    pub start_ms: i64,
    pub end_ms: i64,
    pub text: String,
    pub confidence_bits: Option<u32>,
}

/// The outcome of a transcription: the whole text, its segments and, when
/// the engine reports it, the device it ran on.
#[derive(Debug, Clone)]
pub struct BackendTranscription {
    pub raw_text: String,
    pub segments: Vec<BackendSegment>,
    pub device_used: Option<String>,
}

/// Why a profile cannot run, or why an engine's answer is a failure.
#[derive(Debug, Clone)]
pub enum BackendError {
    ThreadsZero,
    UnsupportedWhisperCppTask(String),
    UnsupportedFasterWhisperTask(String),
    /// whisper.cpp takes its precision from the model file.
    PrecisionControlledByModel(String),
    /// The precision as given; the message shows it lowered.
    UnsupportedFasterWhisperPrecision(String),
    UnsupportedFasterWhisperDevice(String),
    UnsupportedWhisperCppDevice(String),
    InvalidGpuSelector(String),
    WhisperCppAdvancedOptions,
    FasterWhisperAdvancedOptions,
    /// The faster-whisper helper reported this error.
    FasterWhisperReported(String),
    /// whisper.cpp's JSON holds no array of segments where it is looked for.
    MissingWhisperSegments,
}

/// The text of each error, as the engines word it.
pub open spec fn error_message(e: BackendError) -> Seq<char> {
    match e {
        BackendError::ThreadsZero => "threads must be greater than zero"@,
        BackendError::UnsupportedWhisperCppTask(t) => "unsupported whisper.cpp task '"@ + t@ + "'"@,
        BackendError::UnsupportedFasterWhisperTask(t) => "unsupported faster-whisper task '"@ + t@
            + "'"@,
        BackendError::PrecisionControlledByModel(p) => "precision '"@ + p@
            + "' is controlled by the whisper.cpp model file; use 'auto' or 'model'"@,
        BackendError::UnsupportedFasterWhisperPrecision(p) => "unsupported precision '"@ + lower_seq(
            p@,
        )
            + "' for faster-whisper; use auto, float32, float16, int8, int8_float16, or int8_bfloat16"@,
        BackendError::UnsupportedFasterWhisperDevice(d) => "unsupported device '"@ + d@
            + "'; use cpu, cuda, or auto"@,
        BackendError::UnsupportedWhisperCppDevice(d) => "unsupported device '"@ + d@
            + "'; use cpu, gpu, auto, or gpu:<index>"@,
        BackendError::InvalidGpuSelector(d) => "invalid GPU device selector '"@ + d@ + "'"@,
        BackendError::WhisperCppAdvancedOptions =>
            "advanced_json options are not supported by the whisper.cpp backend yet"@,
        BackendError::FasterWhisperAdvancedOptions =>
            "advanced_json options are not supported by the faster-whisper backend yet"@,
        BackendError::FasterWhisperReported(m) => "faster-whisper error: "@ + m@,
        BackendError::MissingWhisperSegments =>
            "whisper.cpp JSON did not contain transcription segments"@,
    }
}

/// `literal` + `middle` + `tail`, as characters.
fn framed(literal: &str, middle: &Vec<char>, tail: &str) -> (r: String)
    ensures
        r@ == literal@ + middle@ + tail@,
{
    let mut v: Vec<char> = Vec::new();
    push_str(&mut v, literal);
    push_all(&mut v, middle);
    push_str(&mut v, tail);
    string_of(&v)
}

/// `literal` + `rest`, as characters.
fn prefixed(literal: &str, rest: &Vec<char>) -> (r: String)
    ensures
        r@ == literal@ + rest@,
{
    let mut v: Vec<char> = Vec::new();
    push_str(&mut v, literal);
    push_all(&mut v, rest);
    string_of(&v)
}

impl BackendError {
    /// The human-readable text of the error.
    pub fn message(&self) -> (m: String)
        ensures
            m@ == error_message(*self),
    {
        match self {
            BackendError::ThreadsZero => "threads must be greater than zero".to_owned(),
            BackendError::UnsupportedWhisperCppTask(t) => framed(
                "unsupported whisper.cpp task '",
                &chars_of(t.as_str()),
                "'",
            ),
            BackendError::UnsupportedFasterWhisperTask(t) => framed(
                "unsupported faster-whisper task '",
                &chars_of(t.as_str()),
                "'",
            ),
            BackendError::PrecisionControlledByModel(p) => framed(
                "precision '",
                &chars_of(p.as_str()),
                "' is controlled by the whisper.cpp model file; use 'auto' or 'model'",
            ),
            BackendError::UnsupportedFasterWhisperPrecision(p) => framed(
                "unsupported precision '",
                &lower_chars(&chars_of(p.as_str())),
                "' for faster-whisper; use auto, float32, float16, int8, int8_float16, or int8_bfloat16",
            ),
            BackendError::UnsupportedFasterWhisperDevice(d) => framed(
                "unsupported device '",
                &chars_of(d.as_str()),
                "'; use cpu, cuda, or auto",
            ),
            BackendError::UnsupportedWhisperCppDevice(d) => framed(
                "unsupported device '",
                &chars_of(d.as_str()),
                "'; use cpu, gpu, auto, or gpu:<index>",
            ),
            BackendError::InvalidGpuSelector(d) => framed(
                "invalid GPU device selector '",
                &chars_of(d.as_str()),
                "'",
            ),
            BackendError::WhisperCppAdvancedOptions =>
                "advanced_json options are not supported by the whisper.cpp backend yet".to_owned(),
            BackendError::FasterWhisperAdvancedOptions =>
                "advanced_json options are not supported by the faster-whisper backend yet".to_owned(),
            BackendError::FasterWhisperReported(m) => prefixed(
                "faster-whisper error: ",
                &chars_of(m.as_str()),
            ),
            BackendError::MissingWhisperSegments =>
                "whisper.cpp JSON did not contain transcription segments".to_owned(),
        }
    }
}

/// What `serde_json` makes of a JSON text: the number of entries when it is
/// an object, nothing when it is another value or not JSON at all.
pub uninterp spec fn json_object_size(text: Seq<char>) -> Option<usize>;

/// Parses `text` with `serde_json::from_str` into a `serde_json::Value` and
/// reports the entry count of the object it holds. Claimed: the result
/// depends on the text alone, and the text `{}` is an empty object.
#[verifier::external_body]
fn json_object_entry_count(text: &str) -> (r: Option<usize>)
    ensures
        r == json_object_size(text@),
        text@ == "{}"@ ==> r == Some(0usize),
{
    match serde_json::from_str::<serde_json::Value>(text) {
        Ok(serde_json::Value::Object(map)) => Some(map.len()),
        _ => None,
    }
}

/// Whether the advanced options are an empty JSON object, the only value
/// the engines accept for now.
pub open spec fn advanced_options_empty(advanced_json: Seq<char>) -> bool {
    json_object_size(advanced_json) == Some(0usize)
}

/// Tests that the profile's advanced options are an empty JSON object; the
/// text `{}` always is.
pub fn has_no_advanced_options(profile: &TranscriptionProfile) -> (r: bool)
    ensures
        r == advanced_options_empty(profile.advanced_json@),
        profile.advanced_json@ == "{}"@ ==> r,
{
    match json_object_entry_count(profile.advanced_json.as_str()) {
        Some(n) => n == 0,
        None => false,
    }
}

/// The language argument a profile asks for: its language, trimmed, unless
/// that is blank.
pub open spec fn chosen_language(language: Option<String>) -> Option<Seq<char>> {
    match language {
        Some(l) => if trim_seq(l@).len() > 0 {
            Some(trim_seq(l@))
        } else {
            None
        },
        None => None,
    }
}

/// The trimmed language of a profile, when it is not blank.
pub fn language_argument(language: &Option<String>) -> (r: Option<String>)
    ensures
        match r {
            Some(l) => chosen_language(*language) == Some(l@),
            None => chosen_language(*language) is None,
        },
{
    match language {
        Some(l) => {
            let t = trim(l.as_str());
            if t.as_str().is_empty() {
                None
            } else {
                Some(t)
            }
        },
        None => None,
    }
}

/// Whether the task is one the engines know: transcribe or translate.
pub open spec fn known_task(task: Seq<char>) -> bool {
    task == "transcribe"@ || task == "translate"@
}

/// Tests a task name against the two the engines know.
pub fn is_known_task(task: &String) -> (r: bool)
    ensures
        r == known_task(task@),
{
    str_eq(task.as_str(), "transcribe") || str_eq(task.as_str(), "translate")
}

/// Appends a copy of `s` to a list of arguments.
pub fn push_arg(args: &mut Vec<String>, s: &str)
    ensures
        string_views(final(args)@) == string_views(old(args)@).push(s@),
{
    args.push(s.to_owned());
    assert(string_views(args@) =~= string_views(old(args)@).push(s@));
}

/// Appends an owned argument to a list of arguments.
pub fn push_owned_arg(args: &mut Vec<String>, s: String)
    ensures
        string_views(final(args)@) == string_views(old(args)@).push(s@),
{
    let ghost v = s@;
    args.push(s);
    assert(string_views(args@) =~= string_views(old(args)@).push(v));
}

} // verus!
