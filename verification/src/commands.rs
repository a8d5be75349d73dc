//! The decisions and text the command layer computes around its I/O: scan
//! and environment reports, audio data URLs, the worker's choices, the
//! settings it clamps and the paths it picks. Paths whose components are
//! read are in the portable form described in `scanner`.
use vstd::prelude::*;
use crate::db::ProfileRow;
use crate::models::JobStatus;
use crate::scanner::{
    file_name_chars, file_name_of, is_supported_extension,
    lemma_supported_extensions_are_the_media_formats, path_extension, path_extension_chars,
};
use crate::text::{
    chars_eq, chars_of, decode_lossy, is_blank, lower_chars, lower_seq, push_str,
    string_of, string_views, trim_chars, trim_seq, utf8_lossy,
};
use crate::backend::push_arg;

verus! {

/// What a folder scan found and how many of those files were newly queued.
#[derive(Debug, PartialEq, Eq, Structural)]
pub struct ScanResponse {
    pub discovered_count: usize,
    pub queued_count: usize,
}

/// What the faster-whisper environment check found: the Python command,
/// whether the faster-whisper and CUDA packages import, and the first NVIDIA
/// GPU with its compute capability.
#[derive(Debug, Clone)]
pub struct DependencyStatus {
    pub python: Option<String>,
    pub faster_whisper: bool,
    pub cuda: bool,
    pub gpu: Option<String>,
    pub compute_cap: Option<String>,
}

// ---------------------------------------------------------------------------
// Audio for the review player
// ---------------------------------------------------------------------------

/// The MIME type the review player is given for a media file, by extension.
pub open spec fn mime_type_for(path: Seq<char>) -> Seq<char> {
    let e = match path_extension(path) {
        Some(x) => lower_seq(x),
        None => Seq::empty(),
    };
    if e == "mp3"@ || e == "mpga"@ {
        "audio/mpeg"@
    } else if e == "wav"@ {
        "audio/wav"@
    } else if e == "ogg"@ || e == "opus"@ {
        "audio/ogg"@
    } else if e == "flac"@ {
        "audio/flac"@
    } else if e == "m4a"@ || e == "aac"@ {
        "audio/mp4"@
    } else if e == "wma"@ {
        "audio/x-ms-wma"@
    } else if e == "webm"@ {
        "audio/webm"@
    } else {
        "audio/mpeg"@
    }
}

/// Whether the characters spell the given text.
fn is_text(e: &Vec<char>, lit: &str) -> (r: bool)
    ensures
        r == (e@ == lit@),
{
    chars_eq(e, &chars_of(lit))
}

/// Picks the MIME type of a media file from its extension.
pub fn mime_type(path: &str) -> (m: &'static str)
    ensures
        m@ == mime_type_for(path@),
{
    let e = match path_extension_chars(path) {
        Some(x) => lower_chars(&x),
        None => Vec::new(),
    };
    if is_text(&e, "mp3") || is_text(&e, "mpga") {
        "audio/mpeg"
    } else if is_text(&e, "wav") {
        "audio/wav"
    } else if is_text(&e, "ogg") || is_text(&e, "opus") {
        "audio/ogg"
    } else if is_text(&e, "flac") {
        "audio/flac"
    } else if is_text(&e, "m4a") || is_text(&e, "aac") {
        "audio/mp4"
    } else if is_text(&e, "wma") {
        "audio/x-ms-wma"
    } else if is_text(&e, "webm") {
        "audio/webm"
    } else {
        "audio/mpeg"
    }
}

/// The review player's MIME type is fixed by the extension, ignoring ASCII
/// case: mp3 and mpga give audio/mpeg, wav audio/wav, ogg and opus
/// audio/ogg, flac audio/flac, m4a and aac audio/mp4, wma audio/x-ms-wma and
/// webm audio/webm; any other extension, or none, falls back to audio/mpeg.
pub proof fn lemma_mime_types_by_extension(path: Seq<char>)
    ensures
        path_extension(path) is None ==> mime_type_for(path) == "audio/mpeg"@,
        path_extension(path) matches Some(e) ==> {
            &&& (lower_seq(e) == "mp3"@
                || lower_seq(e) == "mpga"@) ==> mime_type_for(path) == "audio/mpeg"@
            &&& lower_seq(e) == "wav"@ ==> mime_type_for(path) == "audio/wav"@
            &&& (lower_seq(e) == "ogg"@
                || lower_seq(e) == "opus"@) ==> mime_type_for(path) == "audio/ogg"@
            &&& lower_seq(e) == "flac"@ ==> mime_type_for(path) == "audio/flac"@
            &&& (lower_seq(e) == "m4a"@
                || lower_seq(e) == "aac"@) ==> mime_type_for(path) == "audio/mp4"@
            &&& lower_seq(e) == "wma"@ ==> mime_type_for(path) == "audio/x-ms-wma"@
            &&& lower_seq(e) == "webm"@ ==> mime_type_for(path) == "audio/webm"@
            &&& !(lower_seq(e) == "mp3"@ || lower_seq(e) == "mpga"@ || lower_seq(e) == "wav"@
                || lower_seq(e) == "ogg"@ || lower_seq(e) == "opus"@ || lower_seq(e) == "flac"@
                || lower_seq(e) == "m4a"@ || lower_seq(e) == "aac"@ || lower_seq(e) == "wma"@
                || lower_seq(e) == "webm"@) ==> mime_type_for(path) == "audio/mpeg"@
        },
{
    reveal_strlit("mp3");
    reveal_strlit("mpga");
    reveal_strlit("wav");
    reveal_strlit("ogg");
    reveal_strlit("opus");
    reveal_strlit("flac");
    reveal_strlit("m4a");
    reveal_strlit("aac");
    reveal_strlit("wma");
    reveal_strlit("webm");
    match path_extension(path) {
        Some(e) => {
            let l = lower_seq(e);
            if l == "mp3"@ {
                assert(l.len() == 3 && l[0] == 'm' && l[1] == 'p' && l[2] == '3');
            }
            if l == "mpga"@ {
                assert(l.len() == 4 && l[0] == 'm' && l[1] == 'p' && l[2] == 'g' && l[3] == 'a');
            }
            if l == "wav"@ {
                assert(l.len() == 3 && l[0] == 'w' && l[1] == 'a' && l[2] == 'v');
            }
            if l == "ogg"@ {
                assert(l.len() == 3 && l[0] == 'o' && l[1] == 'g' && l[2] == 'g');
            }
            if l == "opus"@ {
                assert(l.len() == 4 && l[0] == 'o' && l[1] == 'p' && l[2] == 'u' && l[3] == 's');
            }
            if l == "flac"@ {
                assert(l.len() == 4 && l[0] == 'f' && l[1] == 'l' && l[2] == 'a' && l[3] == 'c');
            }
            if l == "m4a"@ {
                assert(l.len() == 3 && l[0] == 'm' && l[1] == '4' && l[2] == 'a');
            }
            if l == "aac"@ {
                assert(l.len() == 3 && l[0] == 'a' && l[1] == 'a' && l[2] == 'c');
            }
            if l == "wma"@ {
                assert(l.len() == 3 && l[0] == 'w' && l[1] == 'm' && l[2] == 'a');
            }
            if l == "webm"@ {
                assert(l.len() == 4 && l[0] == 'w' && l[1] == 'e' && l[2] == 'b' && l[3] == 'm');
            }
        },
        None => {
            assert(Seq::<char>::empty().len() < "mp3"@.len());
            assert(Seq::<char>::empty().len() < "mpga"@.len());
            assert(Seq::<char>::empty().len() < "wav"@.len());
            assert(Seq::<char>::empty().len() < "ogg"@.len());
            assert(Seq::<char>::empty().len() < "opus"@.len());
            assert(Seq::<char>::empty().len() < "flac"@.len());
            assert(Seq::<char>::empty().len() < "m4a"@.len());
            assert(Seq::<char>::empty().len() < "aac"@.len());
            assert(Seq::<char>::empty().len() < "wma"@.len());
            assert(Seq::<char>::empty().len() < "webm"@.len());
        },
    }
}

/// The character of the standard base64 alphabet for a six-bit value.
pub open spec fn base64_char(v: nat) -> char {
    if v < 26 {
        (65 + v) as char
    } else if v < 52 {
        (97 + v - 26) as char
    } else if v < 62 {
        (48 + v - 52) as char
    } else if v == 62 {
        '+'
    } else {
        '/'
    }
}

/// Standard base64 with `=` padding: every three bytes become four
/// characters; a last group of one or two bytes is padded.
pub open spec fn base64_text(d: Seq<u8>) -> Seq<char>
    decreases d.len(),
{
    if d.len() == 0 {
        Seq::empty()
    } else if d.len() == 1 {
        seq![base64_char(d[0] as nat / 4), base64_char((d[0] as nat % 4) * 16), '=', '=']
    } else if d.len() == 2 {
        seq![
            base64_char(d[0] as nat / 4),
            base64_char((d[0] as nat % 4) * 16 + d[1] as nat / 16),
            base64_char((d[1] as nat % 16) * 4),
            '=',
        ]
    } else {
        seq![
            base64_char(d[0] as nat / 4),
            base64_char((d[0] as nat % 4) * 16 + d[1] as nat / 16),
            base64_char((d[1] as nat % 16) * 4 + d[2] as nat / 64),
            base64_char(d[2] as nat % 64),
        ] + base64_text(d.skip(3))
    }
}

/// Base64 turns every started group of three bytes into four characters.
pub proof fn lemma_base64_length(d: Seq<u8>)
    ensures
        base64_text(d).len() == 4 * ((d.len() + 2) / 3),
    decreases d.len(),
{
    if d.len() > 2 {
        lemma_base64_length(d.skip(3));
    }
}

/// The six-bit value of a character of the standard base64 alphabet.
pub open spec fn base64_value(c: char) -> nat {
    let u = c as u32;
    if 65 <= u <= 90 {
        (u - 65) as nat
    } else if 97 <= u <= 122 {
        (u - 97 + 26) as nat
    } else if 48 <= u <= 57 {
        (u - 48 + 52) as nat
    } else if c == '+' {
        62
    } else {
        63
    }
}

/// Standard base64 decoding of a padded text: every four characters give
/// three bytes; a group ending in `==` gives one byte, one ending in `=` two,
/// and ends the text.
pub open spec fn base64_decode(t: Seq<char>) -> Seq<u8>
    decreases t.len(),
{
    if t.len() < 4 {
        Seq::empty()
    } else {
        let v0 = base64_value(t[0]);
        let v1 = base64_value(t[1]);
        let v2 = base64_value(t[2]);
        let v3 = base64_value(t[3]);
        let b0 = (v0 * 4 + v1 / 16) as u8;
        if t[2] == '=' {
            seq![b0]
        } else if t[3] == '=' {
            seq![b0, ((v1 % 16) * 16 + v2 / 4) as u8]
        } else {
            seq![b0, ((v1 % 16) * 16 + v2 / 4) as u8, ((v2 % 4) * 64 + v3) as u8] + base64_decode(
                t.skip(4),
            )
        }
    }
}

proof fn lemma_base64_char_value(v: nat)
    requires
        v < 64,
    ensures
        base64_value(base64_char(v)) == v,
        base64_char(v) != '=',
{
}

proof fn lemma_base64_group_bytes(d0: nat, d1: nat, d2: nat)
    requires
        d0 < 256,
        d1 < 256,
        d2 < 256,
    ensures
        (d0 / 4) * 4 + ((d0 % 4) * 16 + d1 / 16) / 16 == d0,
        (((d0 % 4) * 16 + d1 / 16) % 16) * 16 + ((d1 % 16) * 4 + d2 / 64) / 4 == d1,
        (((d1 % 16) * 4 + d2 / 64) % 4) * 64 + d2 % 64 == d2,
        (((d0 % 4) * 16 + d1 / 16) % 16) * 16 + ((d1 % 16) * 4) / 4 == d1,
        (d0 / 4) * 4 + ((d0 % 4) * 16) / 16 == d0,
        (d0 % 4) * 16 + d1 / 16 < 64,
        (d1 % 16) * 4 + d2 / 64 < 64,
        (d0 % 4) * 16 < 64,
        (d1 % 16) * 4 < 64,
        d0 / 4 < 64,
{
    assert((d0 / 4) * 4 + ((d0 % 4) * 16 + d1 / 16) / 16 == d0) by (nonlinear_arith)
        requires
            d0 < 256,
            d1 < 256,
    ;
    assert((((d0 % 4) * 16 + d1 / 16) % 16) * 16 + ((d1 % 16) * 4 + d2 / 64) / 4 == d1)
        by (nonlinear_arith)
        requires
            d0 < 256,
            d1 < 256,
            d2 < 256,
    ;
    assert((((d1 % 16) * 4 + d2 / 64) % 4) * 64 + d2 % 64 == d2) by (nonlinear_arith)
        requires
            d1 < 256,
            d2 < 256,
    ;
    assert((((d0 % 4) * 16 + d1 / 16) % 16) * 16 + ((d1 % 16) * 4) / 4 == d1) by (nonlinear_arith)
        requires
            d0 < 256,
            d1 < 256,
    ;
    assert((d0 / 4) * 4 + ((d0 % 4) * 16) / 16 == d0) by (nonlinear_arith)
        requires
            d0 < 256,
    ;
}

/// Decoding the base64 text of any bytes gives the bytes back.
pub proof fn lemma_base64_round_trip(d: Seq<u8>)
    ensures
        base64_decode(base64_text(d)) == d,
    decreases d.len(),
{
    if d.len() == 0 {
        assert(base64_decode(base64_text(d)) =~= d);
    } else if d.len() == 1 {
        let d0 = d[0] as nat;
        lemma_base64_group_bytes(d0, 0, 0);
        lemma_base64_char_value(d0 / 4);
        lemma_base64_char_value((d0 % 4) * 16);
        assert(base64_decode(base64_text(d)) =~= d);
    } else if d.len() == 2 {
        let d0 = d[0] as nat;
        let d1 = d[1] as nat;
        lemma_base64_group_bytes(d0, d1, 0);
        lemma_base64_char_value(d0 / 4);
        lemma_base64_char_value((d0 % 4) * 16 + d1 / 16);
        lemma_base64_char_value((d1 % 16) * 4);
        assert(base64_decode(base64_text(d)) =~= d);
    } else {
        let d0 = d[0] as nat;
        let d1 = d[1] as nat;
        let d2 = d[2] as nat;
        lemma_base64_group_bytes(d0, d1, d2);
        lemma_base64_char_value(d0 / 4);
        lemma_base64_char_value((d0 % 4) * 16 + d1 / 16);
        lemma_base64_char_value((d1 % 16) * 4 + d2 / 64);
        lemma_base64_char_value(d2 % 64);
        lemma_base64_round_trip(d.skip(3));
        let t = base64_text(d);
        let quad = seq![
            base64_char(d0 / 4),
            base64_char((d0 % 4) * 16 + d1 / 16),
            base64_char((d1 % 16) * 4 + d2 / 64),
            base64_char(d2 % 64),
        ];
        assert(t == quad + base64_text(d.skip(3)));
        assert(t.skip(4) =~= base64_text(d.skip(3)));
        assert(t[0] == quad[0] && t[1] == quad[1] && t[2] == quad[2] && t[3] == quad[3]);
        assert(d =~= seq![d[0], d[1], d[2]] + d.skip(3));
        assert(base64_decode(t) =~= d);
    }
}

fn base64_digit(v: u32) -> (c: char)
    requires
        v < 64,
    ensures
        c == base64_char(v as nat),
{
    if v < 26 {
        (65 + v as u8) as char
    } else if v < 52 {
        (97 + (v - 26) as u8) as char
    } else if v < 62 {
        (48 + (v - 52) as u8) as char
    } else if v == 62 {
        '+'
    } else {
        '/'
    }
}

/// Encodes bytes in standard base64, as the audio data URL carries them.
pub fn base64_encode(data: &[u8]) -> (out: String)
    ensures
        out@ == base64_text(data@),
        out@.len() == 4 * ((data@.len() + 2) / 3),
{
    proof {
        lemma_base64_length(data@);
    }
    let n = data.len();
    let mut out: Vec<char> = Vec::new();
    let mut i: usize = 0;
    assert(data@.skip(0) =~= data@);
    while n - i >= 3
        invariant
            n == data@.len(),
            i <= n,
            base64_text(data@) == out@ + base64_text(data@.skip(i as int)),
        decreases n - i,
    {
        let b0 = data[i] as u32;
        let b1 = data[i + 1] as u32;
        let b2 = data[i + 2] as u32;
        let ghost rest = data@.skip(i as int);
        assert(rest[0] == b0 && rest[1] == b1 && rest[2] == b2);
        assert(rest.skip(3) =~= data@.skip(i + 3));
        let ghost before = out@;
        out.push(base64_digit(b0 / 4));
        out.push(base64_digit((b0 % 4) * 16 + b1 / 16));
        out.push(base64_digit((b1 % 16) * 4 + b2 / 64));
        out.push(base64_digit(b2 % 64));
        assert(out@ =~= before + seq![
            base64_char(b0 as nat / 4),
            base64_char((b0 as nat % 4) * 16 + b1 as nat / 16),
            base64_char((b1 as nat % 16) * 4 + b2 as nat / 64),
            base64_char(b2 as nat % 64),
        ]);
        i = i + 3;
    }
    let ghost rest = data@.skip(i as int);
    if n - i == 2 {
        let b0 = data[i] as u32;
        let b1 = data[i + 1] as u32;
        assert(rest[0] == b0 && rest[1] == b1);
        out.push(base64_digit(b0 / 4));
        out.push(base64_digit((b0 % 4) * 16 + b1 / 16));
        out.push(base64_digit((b1 % 16) * 4));
        out.push('=');
    } else if n - i == 1 {
        let b0 = data[i] as u32;
        assert(rest[0] == b0);
        out.push(base64_digit(b0 / 4));
        out.push(base64_digit((b0 % 4) * 16));
        out.push('=');
        out.push('=');
    }
    string_of(&out)
}

/// The data URL the review player plays a media file from.
pub open spec fn audio_data_url_text(path: Seq<char>, data: Seq<u8>) -> Seq<char> {
    "data:"@ + mime_type_for(path) + ";base64,"@ + base64_text(data)
}

/// Builds the data URL for a media file's bytes.
pub fn audio_data_url(path: &str, data: &[u8]) -> (url: String)
    ensures
        url@ == audio_data_url_text(path@, data@),
{
    let mut v: Vec<char> = Vec::new();
    push_str(&mut v, "data:");
    push_str(&mut v, mime_type(path));
    push_str(&mut v, ";base64,");
    let encoded = base64_encode(data);
    push_str(&mut v, encoded.as_str());
    string_of(&v)
}

// ---------------------------------------------------------------------------
// Settings and profile bookkeeping
// ---------------------------------------------------------------------------

/// A requested number of simultaneous transcriptions, kept between 1 and 16.
pub open spec fn clamped_concurrency(value: usize) -> usize {
    if value < 1 {
        1
    } else if value > 16 {
        16
    } else {
        value
    }
}

/// The number of workers started for a stored setting: at least one.
pub open spec fn workers_for(stored: usize) -> usize {
    if stored < 1 {
        1
    } else {
        stored
    }
}

/// Clamps a requested number of simultaneous transcriptions.
pub fn clamp_concurrency(value: usize) -> (r: usize)
    ensures
        r == clamped_concurrency(value),
{
    if value < 1 {
        1
    } else if value > 16 {
        16
    } else {
        value
    }
}

/// The number of workers for a stored setting.
pub fn effective_concurrency(stored: usize) -> (r: usize)
    ensures
        r == workers_for(stored),
{
    if stored < 1 {
        1
    } else {
        stored
    }
}

/// A setting, once stored, is the number of workers started and the number
/// reported back: between 1 and 16, and the requested number when it was in
/// that range.
pub proof fn lemma_stored_concurrency_is_used(value: usize)
    ensures
        1 <= clamped_concurrency(value) <= 16,
        workers_for(clamped_concurrency(value)) == clamped_concurrency(value),
        1 <= value <= 16 ==> clamped_concurrency(value) == value,
{
}

/// After a profile is saved it becomes the active one when none is active
/// or when it is the active one.
pub fn activates_saved_profile(active: &Option<ProfileRow>, saved_id: i64) -> (r: bool)
    ensures
        r == match active {
            None => true,
            Some(p) => p.id == saved_id,
        },
{
    match active {
        None => true,
        Some(p) => p.id == saved_id,
    }
}

/// After a profile is deleted the active profile is cleared when it is the
/// deleted one.
pub fn clears_active_profile(active: &Option<ProfileRow>, deleted_id: i64) -> (r: bool)
    ensures
        r == match active {
            None => false,
            Some(p) => p.id == deleted_id,
        },
{
    match active {
        None => false,
        Some(p) => p.id == deleted_id,
    }
}

/// The reviewed text to store: none when the edit is blank.
pub fn stored_edit(edited_text: Option<String>) -> (r: Option<String>)
    ensures
        r == match edited_text {
            Some(t) => if is_blank(t@) {
                None
            } else {
                Some(t)
            },
            None => None,
        },
{
    match edited_text {
        Some(t) => {
            let trimmed = trim_chars(&chars_of(t.as_str()));
            if trimmed.len() == 0 {
                None
            } else {
                Some(t)
            }
        },
        None => None,
    }
}

/// The project a scanned folder is filed under when none is named: the
/// folder's own name, or the whole path when it has none.
pub open spec fn project_name_text(folder: Seq<char>) -> Seq<char> {
    match file_name_of(folder) {
        Some(n) => n,
        None => folder,
    }
}

/// Names the project of a scanned folder.
pub fn project_name_for_folder(folder: &str) -> (name: String)
    ensures
        name@ == project_name_text(folder@),
{
    match file_name_chars(&chars_of(folder)) {
        Some(n) => string_of(&n),
        None => folder.to_owned(),
    }
}

// ---------------------------------------------------------------------------
// Engines and media paths
// ---------------------------------------------------------------------------

/// The model path handed to an engine. faster-whisper wants the model's
/// folder: a path that is a file is replaced by its parent, when it has one.
/// whisper.cpp takes the path as it is. The caller tells whether the path is
/// a file and what its parent is.
pub open spec fn model_path_text(
    raw: Seq<char>,
    backend: Seq<char>,
    is_file: bool,
    parent: Option<Seq<char>>,
) -> Seq<char> {
    if backend != "faster_whisper"@ {
        raw
    } else if is_file && parent is Some {
        parent->0
    } else {
        raw
    }
}

/// Resolves the model path for an engine.
pub fn model_path_for_backend(raw: &str, backend: &str, is_file: bool, parent: Option<&str>) -> (r:
    String)
    ensures
        r@ == model_path_text(
            raw@,
            backend@,
            is_file,
            match parent {
                Some(p) => Some(p@),
                None => None,
            },
        ),
{
    if !chars_eq(&chars_of(backend), &chars_of("faster_whisper")) {
        return raw.to_owned();
    }
    if is_file {
        if let Some(p) = parent {
            return p.to_owned();
        }
    }
    raw.to_owned()
}

/// Whether whisper.cpp needs a media file converted to WAV first: only wav,
/// mp3, flac and ogg (ignoring ASCII case) are read directly.
pub open spec fn needs_wav_text(path: Seq<char>) -> bool {
    let e = match path_extension(path) {
        Some(x) => lower_seq(x),
        None => Seq::empty(),
    };
    !(e == "wav"@ || e == "mp3"@ || e == "flac"@ || e == "ogg"@)
}

/// Decides whether a media file must be converted to WAV for whisper.cpp.
pub fn needs_wav_conversion(path: &str) -> (r: bool)
    ensures
        r == needs_wav_text(path@),
{
    let e = match path_extension_chars(path) {
        Some(x) => lower_chars(&x),
        None => Vec::new(),
    };
    !(is_text(&e, "wav") || is_text(&e, "mp3") || is_text(&e, "flac") || is_text(&e, "ogg"))
}

/// whisper.cpp reads wav, mp3, flac and ogg directly (ignoring ASCII case);
/// every other file, one without an extension too, is converted to WAV
/// first. Among the media the scan finds, the converted ones are exactly
/// m4a, opus, aac, wma, mp4, mkv, mov, avi and webm.
pub proof fn lemma_wav_conversion_by_extension(path: Seq<char>)
    ensures
        path_extension(path) is None ==> needs_wav_text(path),
        path_extension(path) matches Some(e) ==> (needs_wav_text(path) <==> !(lower_seq(e) == "wav"@
            || lower_seq(e) == "mp3"@ || lower_seq(e) == "flac"@ || lower_seq(e) == "ogg"@)),
        path_extension(path) matches Some(e) ==> ((is_supported_extension(e) && needs_wav_text(
            path,
        )) <==> (lower_seq(e) == "m4a"@ || lower_seq(e) == "opus"@ || lower_seq(e) == "aac"@
            || lower_seq(e) == "wma"@ || lower_seq(e) == "mp4"@ || lower_seq(e) == "mkv"@
            || lower_seq(e) == "mov"@ || lower_seq(e) == "avi"@ || lower_seq(e) == "webm"@)),
{
    reveal_strlit("mp3");
    reveal_strlit("wav");
    reveal_strlit("m4a");
    reveal_strlit("flac");
    reveal_strlit("ogg");
    reveal_strlit("opus");
    reveal_strlit("aac");
    reveal_strlit("wma");
    reveal_strlit("mp4");
    reveal_strlit("mkv");
    reveal_strlit("mov");
    reveal_strlit("avi");
    reveal_strlit("webm");
    match path_extension(path) {
        Some(e) => {
            lemma_supported_extensions_are_the_media_formats(e);
            let l = lower_seq(e);
            if l == "mp3"@ {
                assert(l.len() == 3 && l[0] == 'm' && l[1] == 'p' && l[2] == '3');
            }
            if l == "wav"@ {
                assert(l.len() == 3 && l[0] == 'w' && l[1] == 'a' && l[2] == 'v');
            }
            if l == "m4a"@ {
                assert(l.len() == 3 && l[0] == 'm' && l[1] == '4' && l[2] == 'a');
            }
            if l == "flac"@ {
                assert(l.len() == 4 && l[0] == 'f' && l[1] == 'l' && l[2] == 'a' && l[3] == 'c');
            }
            if l == "ogg"@ {
                assert(l.len() == 3 && l[0] == 'o' && l[1] == 'g' && l[2] == 'g');
            }
            if l == "opus"@ {
                assert(l.len() == 4 && l[0] == 'o' && l[1] == 'p' && l[2] == 'u' && l[3] == 's');
            }
            if l == "aac"@ {
                assert(l.len() == 3 && l[0] == 'a' && l[1] == 'a' && l[2] == 'c');
            }
            if l == "wma"@ {
                assert(l.len() == 3 && l[0] == 'w' && l[1] == 'm' && l[2] == 'a');
            }
            if l == "mp4"@ {
                assert(l.len() == 3 && l[0] == 'm' && l[1] == 'p' && l[2] == '4');
            }
            if l == "mkv"@ {
                assert(l.len() == 3 && l[0] == 'm' && l[1] == 'k' && l[2] == 'v');
            }
            if l == "mov"@ {
                assert(l.len() == 3 && l[0] == 'm' && l[1] == 'o' && l[2] == 'v');
            }
            if l == "avi"@ {
                assert(l.len() == 3 && l[0] == 'a' && l[1] == 'v' && l[2] == 'i');
            }
            if l == "webm"@ {
                assert(l.len() == 4 && l[0] == 'w' && l[1] == 'e' && l[2] == 'b' && l[3] == 'm');
            }
        },
        None => {
            assert(Seq::<char>::empty().len() < "mp3"@.len());
            assert(Seq::<char>::empty().len() < "wav"@.len());
            assert(Seq::<char>::empty().len() < "m4a"@.len());
            assert(Seq::<char>::empty().len() < "flac"@.len());
            assert(Seq::<char>::empty().len() < "ogg"@.len());
            assert(Seq::<char>::empty().len() < "opus"@.len());
            assert(Seq::<char>::empty().len() < "aac"@.len());
            assert(Seq::<char>::empty().len() < "wma"@.len());
            assert(Seq::<char>::empty().len() < "mp4"@.len());
            assert(Seq::<char>::empty().len() < "mkv"@.len());
            assert(Seq::<char>::empty().len() < "mov"@.len());
            assert(Seq::<char>::empty().len() < "avi"@.len());
            assert(Seq::<char>::empty().len() < "webm"@.len());
        },
    }
}

/// The label of the engine a profile names.
pub open spec fn backend_label_text(backend: Seq<char>) -> Seq<char> {
    if backend == "faster_whisper"@ {
        "faster-whisper"@
    } else {
        "whisper.cpp"@
    }
}

/// Names the engine and the device a transcription ran on: the device the
/// engine reported, else the configured one.
pub open spec fn engine_label_text(
    backend: Seq<char>,
    device_used: Option<Seq<char>>,
    configured: Seq<char>,
) -> Seq<char> {
    let device = match device_used {
        Some(d) => d,
        None => configured,
    };
    backend_label_text(backend) + " · "@ + device
}

/// Builds the engine label stored with a transcription.
pub fn engine_label(backend: &str, device_used: &Option<String>, configured: &str) -> (r: String)
    ensures
        r@ == engine_label_text(
            backend@,
            match device_used {
                Some(d) => Some(d@),
                None => None,
            },
            configured@,
        ),
{
    let mut v: Vec<char> = Vec::new();
    if chars_eq(&chars_of(backend), &chars_of("faster_whisper")) {
        push_str(&mut v, "faster-whisper");
    } else {
        push_str(&mut v, "whisper.cpp");
    }
    push_str(&mut v, " · ");
    match device_used {
        Some(d) => push_str(&mut v, d.as_str()),
        None => push_str(&mut v, configured),
    }
    string_of(&v)
}

// ---------------------------------------------------------------------------
// The transcription workers
// ---------------------------------------------------------------------------

/// What a transcription worker learns as it runs.
#[derive(Debug, Clone)]
pub enum WorkerEvent {
    /// The worker is at the top of its loop; `cancelled` tells whether the
    /// queue was stopped.
    Turn { cancelled: bool },
    /// A pending job was claimed: the job, its media file and the file's path.
    Claimed(i64, i64, String),
    /// No job could be claimed.
    NothingClaimed,
    /// Claiming failed, for this reason.
    ClaimFailed(String),
    /// The pending jobs were counted; nothing when counting failed.
    Counted(Option<i64>),
    /// The claimed job's work ended and its status was recorded.
    JobDone,
}

/// What a transcription worker does next.
#[derive(Debug, Clone, PartialEq, Eq)]
pub enum WorkerAction {
    /// Claim the next pending job.
    Claim,
    /// Count the pending jobs.
    CountPending,
    /// Transcribe this job: its id, its media file and the file's path.
    Process(i64, i64, String),
    /// Go back to the top of the loop.
    NextTurn,
    /// Stop.
    Exit,
    /// Report that claiming failed, for this reason, and stop.
    ReportAndExit(String),
}

/// The worker's rule. At the top of its loop it stops when the queue was
/// stopped and claims a job otherwise. A claimed job is processed, then the
/// loop turns again. When nothing was claimed it counts the pending jobs: it
/// turns again while some remain (another worker won the race) and stops
/// when none remain or the count failed. A failed claim is reported and
/// stops the worker.
pub open spec fn worker_action(event: WorkerEvent) -> WorkerAction {
    match event {
        WorkerEvent::Turn { cancelled } => if cancelled {
            WorkerAction::Exit
        } else {
            WorkerAction::Claim
        },
        WorkerEvent::Claimed(job, media, path) => WorkerAction::Process(job, media, path),
        WorkerEvent::NothingClaimed => WorkerAction::CountPending,
        WorkerEvent::ClaimFailed(e) => WorkerAction::ReportAndExit(e),
        WorkerEvent::Counted(pending) => if pending matches Some(n) && n != 0 {
            WorkerAction::NextTurn
        } else {
            WorkerAction::Exit
        },
        WorkerEvent::JobDone => WorkerAction::NextTurn,
    }
}

/// Decides a worker's next step from what it just learned.
pub fn next_worker_action(event: WorkerEvent) -> (a: WorkerAction)
    ensures
        a == worker_action(event),
{
    match event {
        WorkerEvent::Turn { cancelled } => if cancelled {
            WorkerAction::Exit
        } else {
            WorkerAction::Claim
        },
        WorkerEvent::Claimed(job, media, path) => WorkerAction::Process(job, media, path),
        WorkerEvent::NothingClaimed => WorkerAction::CountPending,
        WorkerEvent::ClaimFailed(e) => WorkerAction::ReportAndExit(e),
        WorkerEvent::Counted(pending) => match pending {
            Some(n) => if n != 0 {
                WorkerAction::NextTurn
            } else {
                WorkerAction::Exit
            },
            None => WorkerAction::Exit,
        },
        WorkerEvent::JobDone => WorkerAction::NextTurn,
    }
}

/// A worker stops exactly when the queue was stopped, a claim failed, or no
/// pending job remains (or they could not be counted); every claimed job is
/// processed, and nothing else is.
pub proof fn lemma_worker_stops_only_when_done(event: WorkerEvent)
    ensures
        (worker_action(event) is Exit || worker_action(event) is ReportAndExit) <==> (
        (event matches WorkerEvent::Turn { cancelled } && cancelled) || (event is ClaimFailed) || (
        event matches WorkerEvent::Counted(p) && !(p matches Some(n) && n != 0))),
        worker_action(event) is Process <==> event is Claimed,
{
}

/// The line logged when a worker could not claim a job.
pub open spec fn claim_failure_text(reason: Seq<char>) -> Seq<char> {
    "erro ao reservar proximo job: "@ + reason
}

/// Builds the line logged when a worker could not claim a job.
pub fn claim_failure_message(reason: &String) -> (m: String)
    ensures
        m@ == claim_failure_text(reason@),
{
    prefixed_message("erro ao reservar proximo job: ", reason)
}

/// The profile a claimed job runs with: its project's default profile, else
/// the active one.
pub fn profile_for_job(project_profile: Option<ProfileRow>, active: Option<ProfileRow>) -> (r:
    Option<ProfileRow>)
    ensures
        r == match project_profile {
            Some(p) => Some(p),
            None => active,
        },
{
    match project_profile {
        Some(p) => Some(p),
        None => active,
    }
}

/// How a claimed job's work ended.
#[derive(Debug, Clone)]
pub enum JobOutcome {
    /// Neither the project nor the application has a profile.
    NoProfile,
    /// The transcription was stored.
    Saved,
    /// The transcription could not be stored, for this reason.
    SaveFailed(String),
    /// The engine failed with this message.
    TranscriptionFailed(String),
    /// The worker thread failed, for this reason.
    WorkerFailed(String),
}

/// The status a job is left in after its work ended.
pub open spec fn outcome_status(o: JobOutcome) -> JobStatus {
    match o {
        JobOutcome::Saved => JobStatus::Completed,
        _ => JobStatus::Error,
    }
}

/// The error message a job is left with after its work ended.
pub open spec fn outcome_message(o: JobOutcome) -> Option<Seq<char>> {
    match o {
        JobOutcome::NoProfile => Some("Nenhum perfil ativo nem perfil padrao do projeto definido."@),
        JobOutcome::Saved => None,
        JobOutcome::SaveFailed(e) => Some("erro ao salvar transcricao: "@ + e@),
        JobOutcome::TranscriptionFailed(e) => Some(e@),
        JobOutcome::WorkerFailed(e) => Some("worker falhou: "@ + e@),
    }
}

fn prefixed_message(literal: &str, rest: &String) -> (r: String)
    ensures
        r@ == literal@ + rest@,
{
    let mut v: Vec<char> = Vec::new();
    push_str(&mut v, literal);
    push_str(&mut v, rest.as_str());
    string_of(&v)
}

/// The status and error message recorded for a job once its work ended;
/// a job is completed exactly when its transcription was stored.
pub fn job_update_for(outcome: &JobOutcome) -> (r: (JobStatus, Option<String>))
    ensures
        r.0 == outcome_status(*outcome),
        match r.1 {
            Some(m) => outcome_message(*outcome) == Some(m@),
            None => outcome_message(*outcome) is None,
        },
        (r.0 == JobStatus::Completed) <==> (*outcome matches JobOutcome::Saved),
{
    match outcome {
        JobOutcome::NoProfile => (
            JobStatus::Error,
            Some("Nenhum perfil ativo nem perfil padrao do projeto definido.".to_owned()),
        ),
        JobOutcome::Saved => (JobStatus::Completed, None),
        JobOutcome::SaveFailed(e) => (
            JobStatus::Error,
            Some(prefixed_message("erro ao salvar transcricao: ", e)),
        ),
        JobOutcome::TranscriptionFailed(e) => (JobStatus::Error, Some(e.clone())),
        JobOutcome::WorkerFailed(e) => (JobStatus::Error, Some(prefixed_message("worker falhou: ", e))),
    }
}

// ---------------------------------------------------------------------------
// Environment checks and installation
// ---------------------------------------------------------------------------

/// The characters of `s` before the first `sep`; all of `s` when it has none.
pub open spec fn first_piece(s: Seq<char>, sep: char) -> Seq<char>
    decreases s.len(),
{
    if s.len() == 0 {
        s
    } else if s[0] == sep {
        Seq::empty()
    } else {
        seq![s[0]] + first_piece(s.drop_first(), sep)
    }
}

/// What follows the first `sep` of `s`, when it has one.
pub open spec fn after_first(s: Seq<char>, sep: char) -> Option<Seq<char>>
    decreases s.len(),
{
    if s.len() == 0 {
        None
    } else if s[0] == sep {
        Some(s.drop_first())
    } else {
        after_first(s.drop_first(), sep)
    }
}

/// Splits `v` at its first `sep`.
fn split_first(v: &Vec<char>, sep: char) -> (r: (Vec<char>, Option<Vec<char>>))
    ensures
        r.0@ == first_piece(v@, sep),
        match r.1 {
            Some(a) => after_first(v@, sep) == Some(a@),
            None => after_first(v@, sep) is None,
        },
{
    let mut i: usize = 0;
    assert(v@.skip(0) =~= v@);
    assert(v@.take(0) + first_piece(v@, sep) =~= first_piece(v@, sep));
    while i < v.len() && v[i] != sep
        invariant
            i <= v.len(),
            first_piece(v@, sep) == v@.take(i as int) + first_piece(v@.skip(i as int), sep),
            after_first(v@, sep) == after_first(v@.skip(i as int), sep),
        decreases v.len() - i,
    {
        let ghost s = v@.skip(i as int);
        assert(s.drop_first() =~= v@.skip(i + 1));
        assert(v@.take(i + 1) =~= v@.take(i as int) + seq![s[0]]);
        i = i + 1;
    }
    let mut head: Vec<char> = Vec::new();
    let mut k: usize = 0;
    while k < i
        invariant
            k <= i <= v.len(),
            head@ == v@.take(k as int),
        decreases i - k,
    {
        head.push(v[k]);
        k = k + 1;
        assert(head@ =~= v@.take(k as int));
    }
    if i == v.len() {
        assert(v@.skip(i as int).len() == 0);
        assert(first_piece(v@, sep) =~= v@.take(i as int));
        (head, None)
    } else {
        let ghost s = v@.skip(i as int);
        assert(s[0] == sep);
        assert(first_piece(v@, sep) =~= v@.take(i as int));
        let mut rest: Vec<char> = Vec::new();
        let mut j: usize = i + 1;
        while j < v.len()
            invariant
                i < j <= v.len(),
                rest@ == v@.subrange(i + 1, j as int),
            decreases v.len() - j,
        {
            rest.push(v[j]);
            j = j + 1;
            assert(rest@ =~= v@.subrange(i + 1, j as int));
        }
        assert(s.drop_first() =~= v@.subrange(i + 1, v.len() as int));
        (head, Some(rest))
    }
}

/// Keeps a text unless it is empty.
pub open spec fn unless_empty(s: Seq<char>) -> Option<Seq<char>> {
    if s.len() == 0 {
        None
    } else {
        Some(s)
    }
}

/// What `nvidia-smi --query-gpu=name,compute_cap` printed: the first line,
/// trimmed, split at commas; its first two fields, trimmed, are the GPU name
/// and compute capability, each kept only when not empty.
pub open spec fn gpu_query_fields(stdout: Seq<u8>) -> (Option<Seq<char>>, Option<Seq<char>>) {
    let line = trim_seq(first_piece(utf8_lossy(stdout), '\n'));
    if line.len() == 0 {
        (None, None)
    } else {
        (
            unless_empty(trim_seq(first_piece(line, ','))),
            match after_first(line, ',') {
                Some(rest) => unless_empty(trim_seq(first_piece(rest, ','))),
                None => None,
            },
        )
    }
}

fn kept_unless_empty(v: Vec<char>) -> (r: Option<String>)
    ensures
        match r {
            Some(s) => unless_empty(v@) == Some(s@),
            None => unless_empty(v@) is None,
        },
{
    if v.len() == 0 {
        None
    } else {
        Some(string_of(&v))
    }
}

/// Reads the GPU name and compute capability out of `nvidia-smi`'s output.
pub fn parse_gpu_query(stdout: &[u8]) -> (r: (Option<String>, Option<String>))
    ensures
        match r.0 {
            Some(n) => gpu_query_fields(stdout@).0 == Some(n@),
            None => gpu_query_fields(stdout@).0 is None,
        },
        match r.1 {
            Some(c) => gpu_query_fields(stdout@).1 == Some(c@),
            None => gpu_query_fields(stdout@).1 is None,
        },
{
    let text = decode_lossy(stdout);
    let (first_line, _) = split_first(&chars_of(text.as_str()), '\n');
    let line = trim_chars(&first_line);
    if line.len() == 0 {
        return (None, None);
    }
    let (name_field, rest) = split_first(&line, ',');
    let name = kept_unless_empty(trim_chars(&name_field));
    let cap = match rest {
        Some(r) => {
            let (cap_field, _) = split_first(&r, ',');
            kept_unless_empty(trim_chars(&cap_field))
        },
        None => None,
    };
    (name, cap)
}

/// The arguments given to Python to install faster-whisper, with the CUDA
/// libraries when a GPU install is asked for.
pub open spec fn pip_install_args_text(gpu: bool) -> Seq<Seq<char>> {
    let base = seq!["-m"@, "pip"@, "install"@, "--upgrade"@, "faster-whisper"@];
    if gpu {
        base.push("nvidia-cublas-cu12"@).push("nvidia-cudnn-cu12"@)
    } else {
        base
    }
}

/// Builds the pip command line for installing faster-whisper.
pub fn pip_install_args(gpu: bool) -> (args: Vec<String>)
    ensures
        string_views(args@) == pip_install_args_text(gpu),
{
    let mut args: Vec<String> = Vec::new();
    push_arg(&mut args, "-m");
    push_arg(&mut args, "pip");
    push_arg(&mut args, "install");
    push_arg(&mut args, "--upgrade");
    push_arg(&mut args, "faster-whisper");
    if gpu {
        push_arg(&mut args, "nvidia-cublas-cu12");
        push_arg(&mut args, "nvidia-cudnn-cu12");
    }
    args
}

/// The report of an install: standard output, a line break and standard
/// error, trimmed.
pub open spec fn install_report_text(stdout: Seq<u8>, stderr: Seq<u8>) -> Seq<char> {
    trim_seq(utf8_lossy(stdout) + "\n"@ + utf8_lossy(stderr))
}

/// Builds the report shown after running pip.
pub fn install_report(stdout: &[u8], stderr: &[u8]) -> (r: String)
    ensures
        r@ == install_report_text(stdout@, stderr@),
{
    let out = decode_lossy(stdout);
    let err = decode_lossy(stderr);
    let mut v: Vec<char> = Vec::new();
    push_str(&mut v, out.as_str());
    push_str(&mut v, "\n");
    push_str(&mut v, err.as_str());
    string_of(&trim_chars(&v))
}

} // verus!
