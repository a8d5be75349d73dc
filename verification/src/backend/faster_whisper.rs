//! The faster-whisper engine: profile checks, the command line of the Python
//! helper script, and the reading of the helper's answer.
use vstd::prelude::*;
use crate::backend::{
    advanced_options_empty, chosen_language, has_no_advanced_options, is_known_task, known_task,
    language_argument, push_arg, push_owned_arg, BackendError, BackendSegment,
    BackendTranscription, TranscriptionProfile,
};
use crate::text::{
    chars_eq, chars_of, decimal_string, decimal_text, eq_ignore_ascii_case, lower_chars, lower_seq,
    string_views,
};

verus! {

/// Runs faster-whisper through the Python helper script at `script_path`.
#[derive(Debug, Clone)]
pub struct FasterWhisperBackend {
    script_path: String,
}

/// The faster-whisper compute type for a precision setting, read ignoring
/// ASCII case, or the error naming the setting.
pub open spec fn compute_type_for(precision: String) -> Result<Seq<char>, BackendError> {
    let l = lower_seq(precision@);
    if l == "fp32"@ || l == "float32"@ {
        Ok("float32"@)
    } else if l == "fp16"@ || l == "float16"@ {
        Ok("float16"@)
    } else if l == "int8"@ {
        Ok("int8"@)
    } else if l == "int8_float16"@ {
        Ok("int8_float16"@)
    } else if l == "int8_bfloat16"@ {
        Ok("int8_bfloat16"@)
    } else if l == "auto"@ || l == "default"@ {
        Ok("auto"@)
    } else {
        Err(BackendError::UnsupportedFasterWhisperPrecision(precision))
    }
}

/// The compute types faster-whisper takes are auto, float32, float16, int8,
/// int8_float16 and int8_bfloat16: each of them, in any ASCII case, is
/// accepted and names itself; `fp32` and `fp16` are short for float32 and
/// float16, and `default` for auto. Nothing else is accepted, and what is
/// accepted always names one of those six compute types.
pub proof fn lemma_precision_names(precision: String)
    ensures
        ({
            let l = lower_seq(precision@);
            l == "auto"@ || l == "float32"@ || l == "float16"@ || l == "int8"@ || l
                == "int8_float16"@ || l == "int8_bfloat16"@
        }) ==> compute_type_for(precision) == Ok::<Seq<char>, BackendError>(lower_seq(precision@)),
        lower_seq(precision@) == "fp32"@ ==> compute_type_for(precision) == Ok::<
            Seq<char>,
            BackendError,
        >("float32"@),
        lower_seq(precision@) == "fp16"@ ==> compute_type_for(precision) == Ok::<
            Seq<char>,
            BackendError,
        >("float16"@),
        lower_seq(precision@) == "default"@ ==> compute_type_for(precision) == Ok::<
            Seq<char>,
            BackendError,
        >("auto"@),
        (compute_type_for(precision) is Ok) <==> ({
            let l = lower_seq(precision@);
            l == "fp32"@ || l == "float32"@ || l == "fp16"@ || l == "float16"@ || l == "int8"@ || l
                == "int8_float16"@ || l == "int8_bfloat16"@ || l == "auto"@ || l == "default"@
        }),
        compute_type_for(precision) matches Ok(t) ==> (t == "auto"@ || t == "float32"@ || t
            == "float16"@ || t == "int8"@ || t == "int8_float16"@ || t == "int8_bfloat16"@),
{
    reveal_strlit("fp32");
    reveal_strlit("float32");
    reveal_strlit("fp16");
    reveal_strlit("float16");
    reveal_strlit("int8");
    reveal_strlit("int8_float16");
    reveal_strlit("int8_bfloat16");
    reveal_strlit("auto");
    reveal_strlit("default");
    let l = lower_seq(precision@);
    if l == "fp32"@ {
        assert(l.len() == 4 && l[0] == 'f' && l[1] == 'p' && l[2] == '3' && l[3] == '2');
    }
    if l == "float32"@ {
        assert(l.len() == 7 && l[0] == 'f' && l[1] == 'l' && l[2] == 'o' && l[3] == 'a' && l[4] == 't' && l[5] == '3' && l[6] == '2');
    }
    if l == "fp16"@ {
        assert(l.len() == 4 && l[0] == 'f' && l[1] == 'p' && l[2] == '1' && l[3] == '6');
    }
    if l == "float16"@ {
        assert(l.len() == 7 && l[0] == 'f' && l[1] == 'l' && l[2] == 'o' && l[3] == 'a' && l[4] == 't' && l[5] == '1' && l[6] == '6');
    }
    if l == "int8"@ {
        assert(l.len() == 4 && l[0] == 'i' && l[1] == 'n' && l[2] == 't' && l[3] == '8');
    }
    if l == "int8_float16"@ {
        assert(l.len() == 12 && l[0] == 'i' && l[1] == 'n' && l[2] == 't' && l[3] == '8' && l[4] == '_' && l[5] == 'f' && l[6] == 'l' && l[7] == 'o' && l[8] == 'a' && l[9] == 't' && l[10] == '1' && l[11] == '6');
    }
    if l == "int8_bfloat16"@ {
        assert(l.len() == 13 && l[0] == 'i' && l[1] == 'n' && l[2] == 't' && l[3] == '8' && l[4] == '_' && l[5] == 'b' && l[6] == 'f' && l[7] == 'l' && l[8] == 'o' && l[9] == 'a' && l[10] == 't' && l[11] == '1' && l[12] == '6');
    }
    if l == "auto"@ {
        assert(l.len() == 4 && l[0] == 'a' && l[1] == 'u' && l[2] == 't' && l[3] == 'o');
    }
    if l == "default"@ {
        assert(l.len() == 7 && l[0] == 'd' && l[1] == 'e' && l[2] == 'f' && l[3] == 'a' && l[4] == 'u' && l[5] == 'l' && l[6] == 't');
    }
}

/// Maps a precision setting to the compute type faster-whisper expects.
pub fn precision_to_compute_type(precision: &String) -> (r: Result<&'static str, BackendError>)
    ensures
        match r {
            Ok(t) => compute_type_for(*precision) == Ok::<Seq<char>, BackendError>(t@),
            Err(e) => compute_type_for(*precision) == Err::<Seq<char>, BackendError>(e),
        },
{
    let l = lower_chars(&chars_of(precision.as_str()));
    if chars_eq(&l, &chars_of("fp32")) || chars_eq(&l, &chars_of("float32")) {
        Ok("float32")
    } else if chars_eq(&l, &chars_of("fp16")) || chars_eq(&l, &chars_of("float16")) {
        Ok("float16")
    } else if chars_eq(&l, &chars_of("int8")) {
        Ok("int8")
    } else if chars_eq(&l, &chars_of("int8_float16")) {
        Ok("int8_float16")
    } else if chars_eq(&l, &chars_of("int8_bfloat16")) {
        Ok("int8_bfloat16")
    } else if chars_eq(&l, &chars_of("auto")) || chars_eq(&l, &chars_of("default")) {
        Ok("auto")
    } else {
        Err(BackendError::UnsupportedFasterWhisperPrecision(precision.clone()))
    }
}

/// Whether faster-whisper accepts a device: cpu, cuda or auto, ignoring ASCII case.
pub open spec fn faster_whisper_device(device: Seq<char>) -> bool {
    ||| lower_seq(device) == lower_seq("cpu"@)
    ||| lower_seq(device) == lower_seq("cuda"@)
    ||| lower_seq(device) == lower_seq("auto"@)
}

/// The first reason, if any, why faster-whisper cannot run with a profile.
pub open spec fn faster_whisper_problem(p: TranscriptionProfile) -> Option<BackendError> {
    if p.threads == 0 {
        Some(BackendError::ThreadsZero)
    } else if !known_task(p.task@) {
        Some(BackendError::UnsupportedFasterWhisperTask(p.task))
    } else if compute_type_for(p.precision) is Err {
        Some(compute_type_for(p.precision)->Err_0)
    } else if !faster_whisper_device(p.device@) {
        Some(BackendError::UnsupportedFasterWhisperDevice(p.device))
    } else if !advanced_options_empty(p.advanced_json@) {
        Some(BackendError::FasterWhisperAdvancedOptions)
    } else {
        None
    }
}

/// Checks a profile against what faster-whisper supports.
pub fn validate_profile(profile: &TranscriptionProfile) -> (r: Result<(), BackendError>)
    ensures
        match r {
            Ok(()) => faster_whisper_problem(*profile) is None,
            Err(e) => faster_whisper_problem(*profile) == Some(e),
        },
        profile.advanced_json@ == "{}"@ ==> advanced_options_empty(profile.advanced_json@),
{
    let advanced_ok = has_no_advanced_options(profile);
    if profile.threads == 0 {
        return Err(BackendError::ThreadsZero);
    }
    if !is_known_task(&profile.task) {
        return Err(BackendError::UnsupportedFasterWhisperTask(profile.task.clone()));
    }
    match precision_to_compute_type(&profile.precision) {
        Err(e) => {
            return Err(e);
        },
        Ok(_) => {},
    }
    if !eq_ignore_ascii_case(profile.device.as_str(), "cpu") && !eq_ignore_ascii_case(
        profile.device.as_str(),
        "cuda",
    ) && !eq_ignore_ascii_case(profile.device.as_str(), "auto") {
        return Err(BackendError::UnsupportedFasterWhisperDevice(profile.device.clone()));
    }
    if !advanced_ok {
        return Err(BackendError::FasterWhisperAdvancedOptions);
    }
    Ok(())
}

/// The arguments given to Python: the helper script, model, audio, device,
/// compute type, threads and task, then the language if one is set.
pub open spec fn faster_whisper_args(
    script: Seq<char>,
    media: Seq<char>,
    p: TranscriptionProfile,
) -> Seq<Seq<char>> {
    let base = seq![
        script,
        "--model"@,
        p.model_path@,
        "--audio"@,
        media,
        "--device"@,
        p.device@,
        "--compute-type"@,
        compute_type_for(p.precision)->Ok_0,
        "--threads"@,
        decimal_text(p.threads as nat),
        "--task"@,
        p.task@,
    ];
    match chosen_language(p.language) {
        Some(l) => base.push("--language"@).push(l),
        None => base,
    }
}

impl FasterWhisperBackend {
    /// The path of the helper script this backend runs.
    pub closed spec fn script(&self) -> Seq<char> {
        self.script_path@
    }

    /// A backend running the helper script at `script_path`.
    pub fn new(script_path: String) -> (b: Self)
        ensures
            b.script() == script_path@,
    {
        Self { script_path }
    }

    /// The helper script's path.
    pub fn script_path(&self) -> (p: &String)
        ensures
            p@ == self.script(),
    {
        &self.script_path
    }

    /// The arguments for one transcription, or why the profile cannot run.
    pub fn build_args(&self, media_path: &str, profile: &TranscriptionProfile) -> (r: Result<
        Vec<String>,
        BackendError,
    >)
        ensures
            match r {
                Ok(args) => faster_whisper_problem(*profile) is None && string_views(args@)
                    == faster_whisper_args(self.script(), media_path@, *profile),
                Err(e) => faster_whisper_problem(*profile) == Some(e),
            },
            profile.advanced_json@ == "{}"@ ==> advanced_options_empty(profile.advanced_json@),
    {
        match validate_profile(profile) {
            Err(e) => {
                return Err(e);
            },
            Ok(()) => {},
        }
        let compute_type = match precision_to_compute_type(&profile.precision) {
            Ok(t) => t,
            Err(e) => {
                return Err(e);
            },
        };
        let mut args: Vec<String> = Vec::new();
        push_arg(&mut args, self.script_path.as_str());
        push_arg(&mut args, "--model");
        push_arg(&mut args, profile.model_path.as_str());
        push_arg(&mut args, "--audio");
        push_arg(&mut args, media_path);
        push_arg(&mut args, "--device");
        push_arg(&mut args, profile.device.as_str());
        push_arg(&mut args, "--compute-type");
        push_arg(&mut args, compute_type);
        push_arg(&mut args, "--threads");
        push_owned_arg(&mut args, decimal_string(profile.threads as u128));
        push_arg(&mut args, "--task");
        push_arg(&mut args, profile.task.as_str());
        match language_argument(&profile.language) {
            Some(l) => {
                push_arg(&mut args, "--language");
                push_owned_arg(&mut args, l);
            },
            None => {},
        }
        Ok(args)
    }
}

/// The helper script's JSON answer, as the caller decoded it.
#[derive(Debug, Clone)]
pub struct FasterWhisperOutput {
    pub raw_text: String,
    pub segments: Vec<BackendSegment>,
    pub error: Option<String>,
    pub device_used: Option<String>,
}

/// Turns the helper's answer into a transcription: an answer that carries an
/// error is that error; otherwise its text, segments and device are kept.
pub fn transcription_from_output(output: FasterWhisperOutput) -> (r: Result<
    BackendTranscription,
    BackendError,
>)
    ensures
        match output.error {
            Some(e) => r == Err::<BackendTranscription, BackendError>(
                BackendError::FasterWhisperReported(e),
            ),
            None => r matches Ok(t) && t.raw_text == output.raw_text && t.segments
                == output.segments && t.device_used == output.device_used,
        },
{
    match output.error {
        Some(e) => Err(BackendError::FasterWhisperReported(e)),
        None => Ok(
            BackendTranscription {
                raw_text: output.raw_text,
                segments: output.segments,
                device_used: output.device_used,
            },
        ),
    }
}

} // verus!
