//! The whisper.cpp engine: profile checks, the command line of `whisper-cli`,
//! the assembly of its JSON segments and the diagnostic shown on failure.
use vstd::prelude::*;
use crate::backend::{
    advanced_options_empty, chosen_language, has_no_advanced_options, is_known_task, known_task,
    language_argument, push_arg, push_owned_arg, BackendError, BackendSegment,
    BackendTranscription, TranscriptionProfile,
};
use crate::text::{
    char_views, chars_eq, chars_of, decimal_string, decimal_text, eq_ignore_ascii_case,
    join_non_empty, join_with, lower_chars, lower_seq, non_empty_parts, parse_u32_chars,
    parse_u32_spec, prefix_of, push_str, starts_with_chars, str_eq, string_of, string_views,
    suffix_from, trim_chars, trim_seq, decode_lossy, utf8_lossy, ascii_lower, is_digit,
    lemma_decimal_text_digits, lemma_parse_decimal_round_trip, trim_end, trim_start, is_white_space,
};

verus! {

/// Runs the `whisper-cli` executable found at `executable_path`.
#[derive(Debug, Clone)]
pub struct WhisperCppBackend {
    pub executable_path: String,
}

/// How a device setting selects hardware: `Ok(None)` for cpu, gpu and auto,
/// `Ok(Some(i))` for `gpu:<i>`, an error for anything else. The setting is
/// read trimmed and ignoring ASCII case.
pub open spec fn gpu_selection(device: String) -> Result<Option<u32>, BackendError> {
    let n = lower_seq(trim_seq(device@));
    if n == "cpu"@ || n == "gpu"@ || n == "auto"@ {
        Ok(None)
    } else if n.len() >= "gpu:"@.len() && n.take("gpu:"@.len() as int) == "gpu:"@ {
        match parse_u32_spec(n.skip("gpu:"@.len() as int)) {
            Some(i) => Ok(Some(i)),
            None => Err(BackendError::InvalidGpuSelector(device)),
        }
    } else {
        Err(BackendError::UnsupportedWhisperCppDevice(device))
    }
}

/// Reads the GPU index out of a device setting.
pub fn gpu_device_index(device: &String) -> (r: Result<Option<u32>, BackendError>)
    ensures
        r == gpu_selection(*device),
{
    let trimmed = trim_chars(&chars_of(device.as_str()));
    let n = lower_chars(&trimmed);
    let cpu = chars_of("cpu");
    let gpu = chars_of("gpu");
    let auto = chars_of("auto");
    if chars_eq(&n, &cpu) || chars_eq(&n, &gpu)
        || chars_eq(&n, &auto) {
        return Ok(None);
    }
    let prefix = chars_of("gpu:");
    if starts_with_chars(&n, &prefix) {
        let rest = suffix_from(&n, prefix.len());
        match parse_u32_chars(&rest) {
            Some(i) => Ok(Some(i)),
            None => Err(BackendError::InvalidGpuSelector(device.clone())),
        }
    } else {
        Err(BackendError::UnsupportedWhisperCppDevice(device.clone()))
    }
}

/// A device setting `gpu:<n>`, with `n` written in decimal, selects GPU `n`.
pub proof fn lemma_gpu_setting_selects_index(device: String, n: u32)
    requires
        device@ == "gpu:"@ + decimal_text(n as nat),
    ensures
        gpu_selection(device) == Ok::<Option<u32>, BackendError>(Some(n)),
{
    reveal_strlit("gpu:");
    reveal_strlit("cpu");
    reveal_strlit("gpu");
    reveal_strlit("auto");
    lemma_decimal_text_digits(n as nat);
    lemma_parse_decimal_round_trip(n);
    let s = device@;
    let d = decimal_text(n as nat);
    assert(s[0] == 'g');
    assert(s[s.len() - 1] == d[d.len() - 1]);
    assert(is_digit(d[d.len() - 1]));
    assert(trim_start(s) == 0);
    assert(trim_end(s) == s.len());
    assert(trim_seq(s) =~= s);
    assert forall|i: int| 0 <= i < s.len() implies ascii_lower(#[trigger] s[i]) == s[i] by {
        if i >= 4 {
            assert(s[i] == d[i - 4]);
            assert(is_digit(d[i - 4]));
        }
    }
    assert(lower_seq(s) =~= s);
    assert(s.take(4) =~= "gpu:"@);
    assert(s.skip(4) =~= d);
}

/// The first reason, if any, why whisper.cpp cannot run with a profile.
pub open spec fn whisper_cpp_problem(p: TranscriptionProfile) -> Option<BackendError> {
    if p.threads == 0 {
        Some(BackendError::ThreadsZero)
    } else if !known_task(p.task@) {
        Some(BackendError::UnsupportedWhisperCppTask(p.task))
    } else if p.precision@ != "auto"@ && p.precision@ != "model"@ {
        Some(BackendError::PrecisionControlledByModel(p.precision))
    } else if !advanced_options_empty(p.advanced_json@) {
        Some(BackendError::WhisperCppAdvancedOptions)
    } else {
        match gpu_selection(p.device) {
            Err(e) => Some(e),
            Ok(_) => None,
        }
    }
}

/// Checks a profile against what whisper.cpp supports.
pub fn validate_profile(profile: &TranscriptionProfile) -> (r: Result<(), BackendError>)
    ensures
        match r {
            Ok(()) => whisper_cpp_problem(*profile) is None,
            Err(e) => whisper_cpp_problem(*profile) == Some(e),
        },
        profile.advanced_json@ == "{}"@ ==> advanced_options_empty(profile.advanced_json@),
{
    let advanced_ok = has_no_advanced_options(profile);
    if profile.threads == 0 {
        return Err(BackendError::ThreadsZero);
    }
    if !is_known_task(&profile.task) {
        return Err(BackendError::UnsupportedWhisperCppTask(profile.task.clone()));
    }
    if !str_eq(profile.precision.as_str(), "auto") && !str_eq(profile.precision.as_str(), "model") {
        return Err(BackendError::PrecisionControlledByModel(profile.precision.clone()));
    }
    if !advanced_ok {
        return Err(BackendError::WhisperCppAdvancedOptions);
    }
    match gpu_device_index(&profile.device) {
        Err(e) => Err(e),
        Ok(_) => Ok(()),
    }
}

/// The arguments of `whisper-cli` for a media file, a profile and the base
/// name of the JSON output: model, input, threads, JSON output, no progress;
/// then the language if one is set, `-tr` to translate, and the device.
pub open spec fn whisper_cpp_args(
    media: Seq<char>,
    p: TranscriptionProfile,
    output_base: Seq<char>,
) -> Seq<Seq<char>> {
    let base = seq![
        "-m"@,
        p.model_path@,
        "-f"@,
        media,
        "-t"@,
        decimal_text(p.threads as nat),
        "-oj"@,
        "-of"@,
        output_base,
        "-np"@,
    ];
    let with_language = match chosen_language(p.language) {
        Some(l) => base.push("-l"@).push(l),
        None => base,
    };
    let with_task = if p.task@ == "translate"@ {
        with_language.push("-tr"@)
    } else {
        with_language
    };
    match gpu_selection(p.device) {
        Ok(Some(i)) => with_task.push("-dev"@).push(decimal_text(i as nat)),
        _ => if lower_seq(p.device@) == lower_seq("cpu"@) {
            with_task.push("-ng"@)
        } else {
            with_task
        },
    }
}

/// A device of exactly three characters that reads `cpu` ignoring ASCII case
/// holds no white space, so trimming leaves it as it is.
proof fn lemma_cpu_device_untrimmed(d: Seq<char>)
    requires
        lower_seq(d) == "cpu"@,
    ensures
        trim_seq(d) == d,
{
    reveal_strlit("cpu");
    assert(lower_seq(d).len() == d.len());
    assert(d.len() == 3);
    assert(lower_seq(d)[0] == ascii_lower(d[0]));
    assert(lower_seq(d)[2] == ascii_lower(d[2]));
    assert(ascii_lower(d[0]) == 'c');
    assert(ascii_lower(d[2]) == 'u');
    assert(!is_white_space(d[0]));
    assert(!is_white_space(d[2]));
    assert(trim_start(d) == 0);
    assert(trim_end(d) == 3);
    assert(trim_seq(d) =~= d);
}

/// Only the CPU device turns the GPU off. For two profiles that differ only
/// in the device, one set to `cpu` in any ASCII case and the other to `gpu`
/// or `auto` (trimmed, any case), the CPU profile's arguments are the other
/// profile's with `-ng` appended, and the other profile's arguments end with
/// the language and task options, with no device option at all.
pub proof fn lemma_only_cpu_disables_gpu(
    media: Seq<char>,
    cpu: TranscriptionProfile,
    gpu: TranscriptionProfile,
    output_base: Seq<char>,
)
    requires
        cpu.model_path == gpu.model_path,
        cpu.threads == gpu.threads,
        cpu.language == gpu.language,
        cpu.task == gpu.task,
        lower_seq(cpu.device@) == "cpu"@,
        lower_seq(trim_seq(gpu.device@)) == "gpu"@ || lower_seq(trim_seq(gpu.device@)) == "auto"@,
    ensures
        whisper_cpp_args(media, cpu, output_base) == whisper_cpp_args(media, gpu, output_base).push(
            "-ng"@,
        ),
        whisper_cpp_args(media, gpu, output_base).len() == 10 + (if chosen_language(
            gpu.language,
        ) is Some {
            2int
        } else {
            0int
        }) + (if gpu.task@ == "translate"@ {
            1int
        } else {
            0int
        }),
{
    reveal_strlit("cpu");
    reveal_strlit("gpu");
    reveal_strlit("auto");
    lemma_cpu_device_untrimmed(cpu.device@);
    assert(gpu_selection(cpu.device) == Ok::<Option<u32>, BackendError>(None));
    assert(gpu_selection(gpu.device) == Ok::<Option<u32>, BackendError>(None));
    assert(lower_seq("cpu"@) =~= "cpu"@);
    if lower_seq(gpu.device@) == "cpu"@ {
        lemma_cpu_device_untrimmed(gpu.device@);
        assert(lower_seq(trim_seq(gpu.device@))[0] == 'c');
        assert(false);
    }
}

/// A device `gpu:<n>` selects GPU `n` and never turns the GPU off: compared
/// with the same profile on `gpu`, the arguments end with `-dev` and `n`
/// in decimal, and with no `-ng`.
pub proof fn lemma_gpu_index_selects_device(
    media: Seq<char>,
    indexed: TranscriptionProfile,
    gpu: TranscriptionProfile,
    output_base: Seq<char>,
    n: u32,
)
    requires
        indexed.model_path == gpu.model_path,
        indexed.threads == gpu.threads,
        indexed.language == gpu.language,
        indexed.task == gpu.task,
        indexed.device@ == "gpu:"@ + decimal_text(n as nat),
        lower_seq(trim_seq(gpu.device@)) == "gpu"@,
    ensures
        whisper_cpp_args(media, indexed, output_base) == whisper_cpp_args(
            media,
            gpu,
            output_base,
        ).push("-dev"@).push(decimal_text(n as nat)),
{
    reveal_strlit("cpu");
    reveal_strlit("gpu");
    lemma_gpu_setting_selects_index(indexed.device, n);
    assert(lower_seq("cpu"@) =~= "cpu"@);
    if lower_seq(gpu.device@) == "cpu"@ {
        lemma_cpu_device_untrimmed(gpu.device@);
        assert(lower_seq(trim_seq(gpu.device@))[0] == 'c');
        assert(false);
    }
}

impl WhisperCppBackend {
    /// A backend running the given executable.
    pub fn new(executable_path: String) -> (b: Self)
        ensures
            b.executable_path == executable_path,
    {
        WhisperCppBackend { executable_path }
    }

    /// The command line for one transcription, or why the profile cannot run.
    pub fn build_args(
        &self,
        media_path: &str,
        profile: &TranscriptionProfile,
        output_base: &str,
    ) -> (r: Result<Vec<String>, BackendError>)
        ensures
            match r {
                Ok(args) => whisper_cpp_problem(*profile) is None && string_views(args@)
                    == whisper_cpp_args(media_path@, *profile, output_base@),
                Err(e) => whisper_cpp_problem(*profile) == Some(e),
            },
            profile.advanced_json@ == "{}"@ ==> advanced_options_empty(profile.advanced_json@),
    {
        match validate_profile(profile) {
            Err(e) => {
                return Err(e);
            },
            Ok(()) => {},
        }
        let mut args: Vec<String> = Vec::new();
        push_arg(&mut args, "-m");
        push_arg(&mut args, profile.model_path.as_str());
        push_arg(&mut args, "-f");
        push_arg(&mut args, media_path);
        push_arg(&mut args, "-t");
        push_owned_arg(&mut args, decimal_string(profile.threads as u128));
        push_arg(&mut args, "-oj");
        push_arg(&mut args, "-of");
        push_arg(&mut args, output_base);
        push_arg(&mut args, "-np");
        match language_argument(&profile.language) {
            Some(l) => {
                push_arg(&mut args, "-l");
                push_owned_arg(&mut args, l);
            },
            None => {},
        }
        if str_eq(profile.task.as_str(), "translate") {
            push_arg(&mut args, "-tr");
        }
        match gpu_device_index(&profile.device) {
            Ok(Some(i)) => {
                push_arg(&mut args, "-dev");
                push_owned_arg(&mut args, decimal_string(i as u128));
            },
            _ => {
                if eq_ignore_ascii_case(profile.device.as_str(), "cpu") {
                    push_arg(&mut args, "-ng");
                }
            },
        }
        Ok(args)
    }
}

/// What one entry of whisper.cpp's JSON output holds, as the caller read it:
/// the `text` string, the integer `offsets`, the scalar `start`/`end`
/// seconds converted to milliseconds, the `timestamps` strings converted to
/// milliseconds, and the bit pattern of the `f32` confidence.
#[derive(Debug, Clone)]
pub struct WhisperItem {
    pub text: Option<String>,
    pub offset_from_ms: Option<i64>,
    pub offset_to_ms: Option<i64>,
    pub start_ms: Option<i64>,
    pub end_ms: Option<i64>,
    pub stamp_from_ms: Option<i64>,
    pub stamp_to_ms: Option<i64>,
    pub stamp_start_ms: Option<i64>,
    pub stamp_end_ms: Option<i64>,
    pub confidence_bits: Option<u32>,
}

/// What a top-level key of whisper.cpp's JSON holds: nothing, a value that
/// is not an array, or an array of entries.
#[derive(Debug, Clone)]
pub enum WhisperEntries {
    Missing,
    NotArray,
    Entries(Vec<WhisperItem>),
}

/// The entries whisper.cpp's JSON holds: those under `transcription`, or,
/// only when that key is missing, those under `segments`; none when the key
/// chosen does not hold an array.
pub open spec fn chosen_entries(transcription: WhisperEntries, segments: WhisperEntries) -> Option<
    Vec<WhisperItem>,
> {
    let chosen = match transcription {
        WhisperEntries::Missing => segments,
        other => other,
    };
    match chosen {
        WhisperEntries::Entries(v) => Some(v),
        _ => None,
    }
}

/// Picks the entries of whisper.cpp's JSON, or the error when it has none.
pub fn select_whisper_entries(transcription: WhisperEntries, segments: WhisperEntries) -> (r: Result<
    Vec<WhisperItem>,
    BackendError,
>)
    ensures
        match chosen_entries(transcription, segments) {
            Some(v) => r == Ok::<Vec<WhisperItem>, BackendError>(v),
            None => r == Err::<Vec<WhisperItem>, BackendError>(BackendError::MissingWhisperSegments),
        },
{
    let chosen = match transcription {
        WhisperEntries::Missing => segments,
        other => other,
    };
    match chosen {
        WhisperEntries::Entries(v) => Ok(v),
        _ => Err(BackendError::MissingWhisperSegments),
    }
}

/// `a.or(b)`.
pub open spec fn or_else(a: Option<i64>, b: Option<i64>) -> Option<i64> {
    match a {
        Some(x) => Some(x),
        None => b,
    }
}

/// Start of an entry: its offset, else its scalar start, else its
/// `from` timestamp, else its `start` timestamp, else zero.
pub open spec fn item_start_ms(it: WhisperItem) -> i64 {
    match or_else(or_else(or_else(it.offset_from_ms, it.start_ms), it.stamp_from_ms), it.stamp_start_ms) {
        Some(v) => v,
        None => 0,
    }
}

/// End of an entry, found the same way; an entry without one ends where it starts.
pub open spec fn item_end_ms(it: WhisperItem) -> i64 {
    match or_else(or_else(or_else(it.offset_to_ms, it.end_ms), it.stamp_to_ms), it.stamp_end_ms) {
        Some(v) => v,
        None => item_start_ms(it),
    }
}

/// Text of an entry, trimmed; empty when it has none.
pub open spec fn item_text(it: WhisperItem) -> Seq<char> {
    match it.text {
        Some(t) => trim_seq(t@),
        None => Seq::empty(),
    }
}

/// The texts of all entries.
pub open spec fn item_texts(items: Seq<WhisperItem>) -> Seq<Seq<char>> {
    items.map_values(|it: WhisperItem| item_text(it))
}

fn first_of(a: Option<i64>, b: Option<i64>) -> (r: Option<i64>)
    ensures
        r == or_else(a, b),
{
    match a {
        Some(x) => Some(x),
        None => b,
    }
}

/// The segment for one entry of whisper.cpp's output.
pub fn segment_from_item(it: &WhisperItem) -> (seg: BackendSegment)
    ensures
        seg.start_ms == item_start_ms(*it),
        seg.end_ms == item_end_ms(*it),
        seg.text@ == item_text(*it),
        seg.confidence_bits == it.confidence_bits,
{
    let start_ms = match first_of(
        first_of(first_of(it.offset_from_ms, it.start_ms), it.stamp_from_ms),
        it.stamp_start_ms,
    ) {
        Some(v) => v,
        None => 0,
    };
    let end_ms = match first_of(
        first_of(first_of(it.offset_to_ms, it.end_ms), it.stamp_to_ms),
        it.stamp_end_ms,
    ) {
        Some(v) => v,
        None => start_ms,
    };
    let text = match &it.text {
        Some(t) => string_of(&trim_chars(&chars_of(t.as_str()))),
        None => String::new(),
    };
    BackendSegment { start_ms, end_ms, text, confidence_bits: it.confidence_bits }
}

/// The transcription for the entries of whisper.cpp's output: one segment
/// per entry, and as whole text the segment texts that are not empty, one
/// per line.
pub fn assemble_whisper_transcription(items: &Vec<WhisperItem>) -> (t: BackendTranscription)
    ensures
        t.segments.len() == items.len(),
        forall|i: int|
            0 <= i < items.len() ==> {
                &&& (#[trigger] t.segments[i]).start_ms == item_start_ms(items[i])
                &&& t.segments[i].end_ms == item_end_ms(items[i])
                &&& t.segments[i].text@ == item_text(items[i])
                &&& t.segments[i].confidence_bits == items[i].confidence_bits
            },
        t.raw_text@ == join_with(non_empty_parts(item_texts(items@)), "\n"@),
        t.device_used is None,
{
    let mut segments: Vec<BackendSegment> = Vec::new();
    let mut texts: Vec<Vec<char>> = Vec::new();
    let mut i: usize = 0;
    while i < items.len()
        invariant
            i <= items.len(),
            segments.len() == i,
            char_views(texts@) == item_texts(items@).take(i as int),
            forall|k: int|
                0 <= k < i ==> {
                    &&& (#[trigger] segments[k]).start_ms == item_start_ms(items[k])
                    &&& segments[k].end_ms == item_end_ms(items[k])
                    &&& segments[k].text@ == item_text(items[k])
                    &&& segments[k].confidence_bits == items[k].confidence_bits
                },
        decreases items.len() - i,
    {
        let seg = segment_from_item(&items[i]);
        let ghost before = texts@;
        let tv = chars_of(seg.text.as_str());
        assert(tv@ == item_text(items@[i as int]));
        texts.push(tv);
        segments.push(seg);
        assert(texts@ == before.push(tv));
        assert(item_texts(items@).take(i + 1) =~= item_texts(items@).take(i as int).push(
            item_text(items@[i as int]),
        ));
        assert(char_views(texts@) =~= char_views(before).push(tv@));
        i = i + 1;
    }
    assert(item_texts(items@).take(items.len() as int) =~= item_texts(items@));
    let raw = join_non_empty(&texts, "\n");
    BackendTranscription { raw_text: string_of(&raw), segments, device_used: None }
}

/// The base name of the JSON file whisper.cpp writes for one run, made
/// unique by the given suffix (the caller's clock reading in nanoseconds).
pub open spec fn output_base_name(suffix: u128) -> Seq<char> {
    "transcrever-whisper-"@ + decimal_text(suffix as nat)
}

/// Names the JSON output of one whisper.cpp run.
pub fn whisper_output_name(suffix: u128) -> (name: String)
    ensures
        name@ == output_base_name(suffix),
{
    let mut v: Vec<char> = Vec::new();
    push_str(&mut v, "transcrever-whisper-");
    let digits = decimal_string(suffix);
    push_str(&mut v, digits.as_str());
    string_of(&v)
}

/// How many characters of a process's output a diagnostic keeps.
pub open spec fn diagnostic_limit() -> nat {
    1000
}

/// The diagnostic for a failed process: its standard error, trimmed, or its
/// standard output when the error stream is blank; a fixed sentence when
/// both are blank; cut to the first thousand characters, marked with `...`.
pub open spec fn diagnostic_text(stderr: Seq<u8>, stdout: Seq<u8>) -> Seq<char> {
    let err = trim_seq(utf8_lossy(stderr));
    let out = trim_seq(utf8_lossy(stdout));
    let text = if err.len() == 0 {
        out
    } else {
        err
    };
    if text.len() == 0 {
        "process produced no diagnostic output"@
    } else if text.len() > diagnostic_limit() {
        text.take(diagnostic_limit() as int) + "..."@
    } else {
        text
    }
}

/// Builds the diagnostic shown when whisper.cpp fails; it is never empty
/// and never longer than the limit and the ellipsis.
pub fn process_diagnostic(stderr: &[u8], stdout: &[u8]) -> (d: String)
    ensures
        d@ == diagnostic_text(stderr@, stdout@),
        0 < d@.len() <= diagnostic_limit() + 3,
{
    proof {
        reveal_strlit("process produced no diagnostic output");
        reveal_strlit("...");
    }
    let err_text = decode_lossy(stderr);
    let out_text = decode_lossy(stdout);
    let err = trim_chars(&chars_of(err_text.as_str()));
    let out = trim_chars(&chars_of(out_text.as_str()));
    let text = if err.len() == 0 {
        out
    } else {
        err
    };
    if text.len() == 0 {
        return "process produced no diagnostic output".to_owned();
    }
    if text.len() > 1000 {
        let mut cut = prefix_of(&text, 1000);
        push_str(&mut cut, "...");
        string_of(&cut)
    } else {
        string_of(&text)
    }
}

} // verus!
