//! Which text a `.txt` export holds, and how its temporary file is named.
use vstd::prelude::*;
use crate::text::{
    char_views, chars_of, decimal_string, decimal_text, is_blank, is_white_space, join_non_empty,
    join_with, lemma_blank_iff_all_white, lemma_trim_bounds, non_empty_parts, push_all, push_str,
    string_of, trim_chars, trim_seq,
};

verus! {

/// The edited segments, each trimmed.
pub open spec fn trimmed_segments(segments: Seq<String>) -> Seq<Seq<char>> {
    segments.map_values(|s: String| trim_seq(s@))
}

/// The text an export holds: the edited full text when it is not blank,
/// verbatim; else the edited segments that are not blank, trimmed, one per
/// line; else the raw text of the transcription.
pub open spec fn export_text(
    edited_text: Option<Seq<char>>,
    edited_segments: Seq<String>,
    raw_text: Seq<char>,
) -> Seq<char> {
    let kept = non_empty_parts(trimmed_segments(edited_segments));
    if edited_text is Some && !is_blank(edited_text->0) {
        edited_text->0
    } else if kept.len() > 0 {
        join_with(kept, "\n"@)
    } else {
        raw_text
    }
}

/// Chooses the text to export for a transcription.
pub fn choose_export_text(
    edited_text: Option<&str>,
    edited_segments: &[String],
    raw_text: &str,
) -> (text: String)
    ensures
        text@ == export_text(
            match edited_text {
                Some(t) => Some(t@),
                None => None,
            },
            edited_segments@,
            raw_text@,
        ),
{
    if let Some(t) = edited_text {
        let trimmed = trim_chars(&chars_of(t));
        if trimmed.len() > 0 {
            return t.to_owned();
        }
    }
    let mut parts: Vec<Vec<char>> = Vec::new();
    let mut i: usize = 0;
    while i < edited_segments.len()
        invariant
            i <= edited_segments.len(),
            char_views(parts@) == trimmed_segments(edited_segments@).take(i as int),
        decreases edited_segments.len() - i,
    {
        let ghost before = parts@;
        let p = trim_chars(&chars_of(edited_segments[i].as_str()));
        parts.push(p);
        assert(char_views(parts@) =~= char_views(before).push(p@));
        assert(trimmed_segments(edited_segments@).take(i + 1) =~= trimmed_segments(
            edited_segments@,
        ).take(i as int).push(trim_seq(edited_segments@[i as int]@)));
        i = i + 1;
    }
    assert(trimmed_segments(edited_segments@).take(edited_segments.len() as int)
        =~= trimmed_segments(edited_segments@));
    let joined = join_non_empty(&parts, "\n");
    if joined.len() > 0 {
        string_of(&joined)
    } else {
        proof {
            lemma_non_empty_parts_members(trimmed_segments(edited_segments@));
            lemma_join_empty_only_when_no_parts(
                non_empty_parts(trimmed_segments(edited_segments@)),
                "\n"@,
            );
        }
        raw_text.to_owned()
    }
}

/// Every part kept by `non_empty_parts` is one of the given parts, and not empty.
proof fn lemma_non_empty_parts_members(parts: Seq<Seq<char>>)
    ensures
        forall|k: int|
            0 <= k < non_empty_parts(parts).len() ==> (#[trigger] non_empty_parts(parts)[k]).len() > 0
                && parts.contains(non_empty_parts(parts)[k]),
    decreases parts.len(),
{
    if parts.len() > 0 {
        lemma_non_empty_parts_members(parts.drop_last());
        let rest = non_empty_parts(parts.drop_last());
        assert forall|k: int| 0 <= k < non_empty_parts(parts).len() implies (
        #[trigger] non_empty_parts(parts)[k]).len() > 0 && parts.contains(non_empty_parts(parts)[k]) by {
            if k < rest.len() {
                let j = choose|j: int| 0 <= j < parts.drop_last().len() && parts.drop_last()[j] == rest[k];
                assert(parts[j] == rest[k]);
            } else {
                assert(parts[parts.len() - 1] == parts.last());
            }
        }
    }
}

/// A join of parts starts with its first part.
proof fn lemma_join_starts_with_first(parts: Seq<Seq<char>>, sep: Seq<char>)
    requires
        parts.len() > 0,
    ensures
        join_with(parts, sep).len() >= parts[0].len(),
        join_with(parts, sep).take(parts[0].len() as int) == parts[0],
    decreases parts.len(),
{
    if parts.len() > 1 {
        lemma_join_starts_with_first(parts.drop_last(), sep);
        let j = join_with(parts.drop_last(), sep);
        assert((j + sep + parts.last()).take(parts[0].len() as int) =~= j.take(parts[0].len() as int));
    }
}

/// A join of non-empty parts is empty only when there are no parts.
proof fn lemma_join_empty_only_when_no_parts(parts: Seq<Seq<char>>, sep: Seq<char>)
    requires
        forall|k: int| 0 <= k < parts.len() ==> (#[trigger] parts[k]).len() > 0,
    ensures
        join_with(parts, sep).len() == 0 ==> parts.len() == 0,
{
    if parts.len() > 0 {
        lemma_join_starts_with_first(parts, sep);
    }
}

/// An export is blank only when it is the raw text: a non-blank edit, or any
/// non-blank edited segment, always gives text that is not blank.
pub proof fn lemma_export_blank_only_from_raw(
    edited_text: Option<Seq<char>>,
    edited_segments: Seq<String>,
    raw_text: Seq<char>,
)
    ensures
        is_blank(export_text(edited_text, edited_segments, raw_text)) ==> export_text(
            edited_text,
            edited_segments,
            raw_text,
        ) == raw_text,
{
    let segs = trimmed_segments(edited_segments);
    let kept = non_empty_parts(segs);
    if edited_text is Some && !is_blank(edited_text->0) {
    } else if kept.len() > 0 {
        lemma_non_empty_parts_members(segs);
        let first = kept[0];
        assert(first.len() > 0);
        let j = choose|j: int| 0 <= j < segs.len() && segs[j] == first;
        let src = edited_segments[j]@;
        assert(first == trim_seq(src));
        lemma_trim_bounds(src);
        assert(!is_white_space(first[0]));
        lemma_join_starts_with_first(kept, "\n"@);
        let out = join_with(kept, "\n"@);
        assert(out[0] == first[0]);
        lemma_blank_iff_all_white(out);
    }
}

/// The name of the temporary file an export is first written to, beside the
/// destination: a dot, the destination's file name (`export.txt` when it has
/// none), a dot, the given suffix and `.tmp`.
pub open spec fn temporary_export_name(file_name: Option<Seq<char>>, suffix: u128) -> Seq<char> {
    let name = match file_name {
        Some(n) => n,
        None => "export.txt"@,
    };
    "."@ + name + "."@ + decimal_text(suffix as nat) + ".tmp"@
}

/// Names the temporary file of an export; the suffix is the caller's clock
/// reading in nanoseconds.
pub fn temporary_export_file_name(file_name: Option<&str>, suffix: u128) -> (name: String)
    ensures
        name@ == temporary_export_name(
            match file_name {
                Some(n) => Some(n@),
                None => None,
            },
            suffix,
        ),
{
    let mut v: Vec<char> = Vec::new();
    push_str(&mut v, ".");
    match file_name {
        Some(n) => push_str(&mut v, n),
        None => push_str(&mut v, "export.txt"),
    }
    push_str(&mut v, ".");
    push_all(&mut v, &chars_of(decimal_string(suffix).as_str()));
    push_str(&mut v, ".tmp");
    string_of(&v)
}

} // verus!
