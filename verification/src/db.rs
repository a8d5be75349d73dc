//! Records the database holds, as the rest of the application sees them,
//! and the values derived from them.
use vstd::prelude::*;
use crate::backend::whisper_cpp::{gpu_selection, whisper_cpp_problem};
use crate::backend::{json_object_size, TranscriptionProfile};
use crate::text::{lower_seq, trim_seq, trim_start, trim_end};
use crate::export::{choose_export_text, export_text};

verus! {

/// A stored transcription profile.
#[derive(Debug, Clone)]
pub struct ProfileRow {
    pub id: i64,
    pub name: String,
    pub backend: String,
    pub model_path: String,
    pub device: String,
    pub precision: String,
    pub threads: i64,
    pub language: Option<String>,
    pub task: String,
    pub advanced_json: String,
}

/// Whether a row is the profile created on first run for a model path: the
/// bundled whisper.cpp model on the CPU, four threads, Portuguese,
/// transcription, no advanced options, not yet stored.
pub open spec fn is_default_profile(p: ProfileRow, model_path: Seq<char>) -> bool {
    &&& p.id == 0
    &&& p.name@ == "Padrao (base.pt)"@
    &&& p.backend@ == "whisper_cpp"@
    &&& p.model_path@ == model_path
    &&& p.device@ == "cpu"@
    &&& p.precision@ == "auto"@
    &&& p.threads == 4
    &&& p.language matches Some(l) && l@ == "pt"@
    &&& p.task@ == "transcribe"@
    &&& p.advanced_json@ == "{}"@
}

/// The profile created on first run, before it is stored.
pub fn default_profile(model_path: &str) -> (p: ProfileRow)
    ensures
        is_default_profile(p, model_path@),
{
    ProfileRow {
        id: 0,
        name: "Padrao (base.pt)".to_owned(),
        backend: "whisper_cpp".to_owned(),
        model_path: model_path.to_owned(),
        device: "cpu".to_owned(),
        precision: "auto".to_owned(),
        threads: 4,
        language: Some("pt".to_owned()),
        task: "transcribe".to_owned(),
        advanced_json: "{}".to_owned(),
    }
}

/// The profile created on first run passes every check of whisper.cpp, its
/// default engine, once its advanced options, `{}`, read as an empty object.
pub proof fn lemma_default_profile_suits_whisper_cpp(
    row: ProfileRow,
    model_path: Seq<char>,
    profile: TranscriptionProfile,
)
    requires
        is_default_profile(row, model_path),
        profile.device == row.device,
        profile.precision == row.precision,
        profile.threads == row.threads as usize,
        profile.task == row.task,
        profile.advanced_json == row.advanced_json,
        json_object_size("{}"@) == Some(0usize),
    ensures
        whisper_cpp_problem(profile) is None,
{
    reveal_strlit("cpu");
    let s = profile.device@;
    assert(s.len() == 3);
    assert(trim_start(s) == 0);
    assert(trim_end(s) == 3);
    assert(trim_seq(s) =~= s);
    assert(lower_seq(s) =~= s);
    assert(gpu_selection(profile.device) == Ok::<Option<u32>, crate::backend::BackendError>(None));
}

/// The engine settings a stored profile runs with, for the model path the
/// caller resolved. The thread count is converted as `as usize` does.
pub fn transcription_profile_for(row: &ProfileRow, model_path: String) -> (p: TranscriptionProfile)
    ensures
        p.model_path == model_path,
        p.device == row.device,
        p.precision == row.precision,
        p.threads == row.threads as usize,
        p.language == row.language,
        p.task == row.task,
        p.advanced_json == row.advanced_json,
{
    let language = match &row.language {
        Some(l) => Some(l.clone()),
        None => None,
    };
    TranscriptionProfile {
        model_path,
        device: row.device.clone(),
        precision: row.precision.clone(),
        threads: row.threads as usize,
        language,
        task: row.task.clone(),
        advanced_json: row.advanced_json.clone(),
    }
}

/// One stored segment of a transcription, with its reviewed text if any.
/// `confidence_bits` holds the bit pattern of the stored `f32` confidence.
#[derive(Debug, Clone)]
pub struct SegmentView {
    pub id: i64,
    pub segment_index: i64,
    pub start_ms: i64,
    pub end_ms: i64,
    pub raw_text: String,
    pub edited_text: Option<String>,
    pub confidence_bits: Option<u32>,
}

/// A stored transcription with the file it belongs to and its segments.
#[derive(Debug, Clone)]
pub struct TranscriptionView {
    pub transcription_id: i64,
    pub media_file_id: i64,
    pub job_id: i64,
    pub file_name: String,
    pub absolute_path: String,
    pub raw_text: String,
    pub edited_text: Option<String>,
    pub segments: Vec<SegmentView>,
}

/// The text of a segment for an export: its reviewed text, else its raw text.
pub open spec fn segment_export_text(s: SegmentView) -> String {
    match s.edited_text {
        Some(t) => t,
        None => s.raw_text,
    }
}

/// The text exported for a stored transcription.
pub open spec fn view_export_text(v: TranscriptionView) -> Seq<char> {
    export_text(
        match v.edited_text {
            Some(t) => Some(t@),
            None => None,
        },
        v.segments@.map_values(|s: SegmentView| segment_export_text(s)),
        v.raw_text@,
    )
}

/// Computes the text exported for a stored transcription.
pub fn export_text_for_view(view: &TranscriptionView) -> (text: String)
    ensures
        text@ == view_export_text(*view),
{
    let mut segments: Vec<String> = Vec::new();
    let mut i: usize = 0;
    while i < view.segments.len()
        invariant
            i <= view.segments.len(),
            segments@ == view.segments@.take(i as int).map_values(
                |s: SegmentView| segment_export_text(s),
            ),
        decreases view.segments.len() - i,
    {
        let s = &view.segments[i];
        let t = match &s.edited_text {
            Some(e) => e.clone(),
            None => s.raw_text.clone(),
        };
        segments.push(t);
        i = i + 1;
        assert(segments@ =~= view.segments@.take(i as int).map_values(
            |s: SegmentView| segment_export_text(s),
        ));
    }
    assert(view.segments@.take(view.segments.len() as int) =~= view.segments@);
    let edited = match &view.edited_text {
        Some(t) => Some(t.as_str()),
        None => None,
    };
    choose_export_text(edited, segments.as_slice(), view.raw_text.as_str())
}

} // verus!
