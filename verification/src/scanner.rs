//! Which files count as media, and how a discovered file is described.
//!
//! Paths are taken in a portable form: the names of their components joined
//! by `/`, as `Path::components` yields them (`.` and `..` written as such;
//! a drive prefix and the root carry no name and are left out). Callers
//! build that form from a platform path, so `\` separates components on
//! Windows exactly as `std::path` decides, and nowhere else. On such text
//! the functions here agree with `Path::file_name` and `Path::extension`.
use vstd::prelude::*;
use crate::path_order::{
    compare_components_exec, compare_paths, lemma_compare_paths_basics,
    lemma_compare_paths_transitive,
    path_components, path_components_of, path_le,
};
use crate::text::{
    char_views, chars_eq, chars_of, eq_ignore_ascii_case, lower_chars, lower_seq, string_of,
};

verus! {

/// The characters after the last `sep` in `s`; all of `s` when it has none.
pub open spec fn last_piece(s: Seq<char>, sep: char) -> Seq<char>
    decreases s.len(),
{
    if s.len() == 0 {
        s
    } else if s.last() == sep {
        Seq::empty()
    } else {
        last_piece(s.drop_last(), sep).push(s.last())
    }
}

/// The last piece of a text is no longer than the text.
pub proof fn lemma_last_piece_len(s: Seq<char>, sep: char)
    ensures
        last_piece(s, sep).len() <= s.len(),
        last_piece(s, sep) == s.subrange(s.len() - last_piece(s, sep).len(), s.len() as int),
        last_piece(s, sep).len() < s.len() ==> s[s.len() - last_piece(s, sep).len() - 1] == sep,
        forall|k: int| 0 <= k < last_piece(s, sep).len() ==> #[trigger] last_piece(s, sep)[k] != sep,
    decreases s.len(),
{
    if s.len() > 0 && s.last() != sep {
        lemma_last_piece_len(s.drop_last(), sep);
        let t = last_piece(s.drop_last(), sep);
        assert(t.push(s.last()) =~= s.subrange(s.len() - t.len() - 1, s.len() as int));
        assert forall|k: int| 0 <= k < last_piece(s, sep).len() implies #[trigger] last_piece(s, sep)[k]
            != sep by {
            if k < t.len() {
                assert(last_piece(s, sep)[k] == t[k]);
            }
        }
    }
}

/// `Path::file_name` of a path in portable form: the last component, where
/// empty and `.` components do not count; none when the path ends in `..`
/// or has no component at all.
pub open spec fn file_name_of(p: Seq<char>) -> Option<Seq<char>>
    decreases p.len(),
{
    let tail = last_piece(p, '/');
    if tail.len() == 0 || tail == "."@ {
        if tail.len() < p.len() {
            proof {
                lemma_last_piece_len(p, '/');
            }
            file_name_of(p.take(p.len() - tail.len() - 1))
        } else {
            None
        }
    } else if tail == ".."@ {
        None
    } else {
        Some(tail)
    }
}

/// `Path::extension` of a file name: what follows its last dot, unless the
/// only dot starts the name, the name has no dot, or the name is `..`.
pub open spec fn extension_of_name(name: Seq<char>) -> Option<Seq<char>> {
    let after = last_piece(name, '.');
    if name == ".."@ || after.len() == name.len() || after.len() + 1 == name.len() {
        None
    } else {
        Some(after)
    }
}

/// `Path::extension` of a path in portable form.
pub open spec fn path_extension(p: Seq<char>) -> Option<Seq<char>> {
    match file_name_of(p) {
        Some(name) => extension_of_name(name),
        None => None,
    }
}

/// Where the last piece of `v[..end]` starts.
fn last_piece_start(v: &Vec<char>, end: usize, sep: char) -> (k: usize)
    requires
        end <= v.len(),
    ensures
        k <= end,
        last_piece(v@.take(end as int), sep) == v@.subrange(k as int, end as int),
{
    let ghost s = v@.take(end as int);
    let mut k: usize = end;
    while k > 0 && v[k - 1] != sep
        invariant
            k <= end <= v.len(),
            s == v@.take(end as int),
            last_piece(s, sep) == last_piece(v@.take(k as int), sep) + v@.subrange(
                k as int,
                end as int,
            ),
        decreases k,
    {
        let ghost t = v@.take(k as int);
        assert(t.drop_last() =~= v@.take(k - 1));
        assert(t.last() == v@[k - 1]);
        assert(v@.subrange(k - 1, end as int) =~= seq![v@[k - 1]] + v@.subrange(k as int, end as int));
        assert(last_piece(t, sep) == last_piece(v@.take(k - 1), sep).push(v@[k - 1]));
        assert(last_piece(v@.take(k - 1), sep).push(v@[k - 1]) + v@.subrange(k as int, end as int)
            =~= last_piece(v@.take(k - 1), sep) + v@.subrange(k - 1, end as int));
        k = k - 1;
    }
    if k > 0 {
        assert(v@.take(k as int).last() == sep);
    }
    assert(last_piece(v@.take(k as int), sep).len() == 0);
    assert(last_piece(s, sep) =~= v@.subrange(k as int, end as int));
    k
}

/// The characters of `v` between `from` and `to`.
fn slice_chars(v: &Vec<char>, from: usize, to: usize) -> (r: Vec<char>)
    requires
        from <= to <= v.len(),
    ensures
        r@ == v@.subrange(from as int, to as int),
{
    let mut r: Vec<char> = Vec::new();
    let mut i: usize = from;
    while i < to
        invariant
            from <= i <= to <= v.len(),
            r@ == v@.subrange(from as int, i as int),
        decreases to - i,
    {
        r.push(v[i]);
        i = i + 1;
        assert(r@ == v@.subrange(from as int, i as int));
    }
    r
}

/// The file name of a path given as characters.
pub fn file_name_chars(v: &Vec<char>) -> (r: Option<Vec<char>>)
    ensures
        match r {
            Some(n) => file_name_of(v@) == Some(n@),
            None => file_name_of(v@) is None,
        },
{
    let dot = chars_of(".");
    let dotdot = chars_of("..");
    let mut end: usize = v.len();
    assert(v@.take(end as int) =~= v@);
    loop
        invariant
            end <= v.len(),
            dot@ == "."@,
            dotdot@ == ".."@,
            file_name_of(v@) == file_name_of(v@.take(end as int)),
        decreases end,
    {
        let k = last_piece_start(v, end, '/');
        let piece = slice_chars(v, k, end);
        let ghost p = v@.take(end as int);
        proof {
            lemma_last_piece_len(p, '/');
        }
        if piece.len() == 0 || chars_eq(&piece, &dot) {
            if k > 0 {
                assert(p.take(p.len() - piece@.len() - 1) =~= v@.take(k - 1));
                end = k - 1;
            } else {
                return None;
            }
        } else if chars_eq(&piece, &dotdot) {
            return None;
        } else {
            return Some(piece);
        }
    }
}

/// The extension of a file name given as characters.
pub fn extension_of_name_chars(name: &Vec<char>) -> (r: Option<Vec<char>>)
    ensures
        match r {
            Some(e) => extension_of_name(name@) == Some(e@),
            None => extension_of_name(name@) is None,
        },
{
    let dotdot = chars_of("..");
    let k = last_piece_start(name, name.len(), '.');
    assert(name@.take(name.len() as int) =~= name@);
    if chars_eq(name, &dotdot) || k == 0 || k == 1 {
        None
    } else {
        Some(slice_chars(name, k, name.len()))
    }
}

/// `Path::extension` of a path, as characters.
pub fn path_extension_chars(path: &str) -> (r: Option<Vec<char>>)
    ensures
        match r {
            Some(e) => path_extension(path@) == Some(e@),
            None => path_extension(path@) is None,
        },
{
    match file_name_chars(&chars_of(path)) {
        Some(name) => extension_of_name_chars(&name),
        None => None,
    }
}

/// The extensions of the media files the application transcribes.
pub open spec fn supported_media_extensions() -> Seq<Seq<char>> {
    seq![
        "mp3"@,
        "wav"@,
        "m4a"@,
        "flac"@,
        "ogg"@,
        "opus"@,
        "aac"@,
        "wma"@,
        "mp4"@,
        "mkv"@,
        "mov"@,
        "avi"@,
        "webm"@,
    ]
}

/// Whether an extension is a supported one, ignoring ASCII case.
pub open spec fn is_supported_extension(e: Seq<char>) -> bool {
    exists|i: int|
        0 <= i < supported_media_extensions().len() && lower_seq(e) == lower_seq(
            #[trigger] supported_media_extensions()[i],
        )
}

/// Whether an extension is supported does not depend on the ASCII case of
/// its letters.
pub proof fn lemma_supported_extension_ignores_case(a: Seq<char>, b: Seq<char>)
    requires
        lower_seq(a) == lower_seq(b),
    ensures
        is_supported_extension(a) == is_supported_extension(b),
{
}

/// The media the application scans for are exactly the files whose
/// extension, ignoring ASCII case, is one of mp3, wav, m4a, flac, ogg, opus,
/// aac, wma (audio) or mp4, mkv, mov, avi, webm (video).
pub proof fn lemma_supported_extensions_are_the_media_formats(e: Seq<char>)
    ensures
        is_supported_extension(e) <==> (lower_seq(e) == "mp3"@
            || lower_seq(e) == "wav"@
            || lower_seq(e) == "m4a"@
            || lower_seq(e) == "flac"@
            || lower_seq(e) == "ogg"@
            || lower_seq(e) == "opus"@
            || lower_seq(e) == "aac"@
            || lower_seq(e) == "wma"@
            || lower_seq(e) == "mp4"@
            || lower_seq(e) == "mkv"@
            || lower_seq(e) == "mov"@
            || lower_seq(e) == "avi"@
            || lower_seq(e) == "webm"@),
{
    reveal_strlit("mp3");
    reveal_strlit("wav");
    reveal_strlit("m4a");
    reveal_strlit("flac");
    reveal_strlit("ogg");
    reveal_strlit("opus");
    reveal_strlit("aac");
    reveal_strlit("wma");
    reveal_strlit("mp4");
    reveal_strlit("mkv");
    reveal_strlit("mov");
    reveal_strlit("avi");
    reveal_strlit("webm");
    assert(lower_seq("mp3"@) =~= "mp3"@);
    assert(lower_seq("wav"@) =~= "wav"@);
    assert(lower_seq("m4a"@) =~= "m4a"@);
    assert(lower_seq("flac"@) =~= "flac"@);
    assert(lower_seq("ogg"@) =~= "ogg"@);
    assert(lower_seq("opus"@) =~= "opus"@);
    assert(lower_seq("aac"@) =~= "aac"@);
    assert(lower_seq("wma"@) =~= "wma"@);
    assert(lower_seq("mp4"@) =~= "mp4"@);
    assert(lower_seq("mkv"@) =~= "mkv"@);
    assert(lower_seq("mov"@) =~= "mov"@);
    assert(lower_seq("avi"@) =~= "avi"@);
    assert(lower_seq("webm"@) =~= "webm"@);
    assert(supported_media_extensions()[0] == "mp3"@);
    assert(supported_media_extensions()[1] == "wav"@);
    assert(supported_media_extensions()[2] == "m4a"@);
    assert(supported_media_extensions()[3] == "flac"@);
    assert(supported_media_extensions()[4] == "ogg"@);
    assert(supported_media_extensions()[5] == "opus"@);
    assert(supported_media_extensions()[6] == "aac"@);
    assert(supported_media_extensions()[7] == "wma"@);
    assert(supported_media_extensions()[8] == "mp4"@);
    assert(supported_media_extensions()[9] == "mkv"@);
    assert(supported_media_extensions()[10] == "mov"@);
    assert(supported_media_extensions()[11] == "avi"@);
    assert(supported_media_extensions()[12] == "webm"@);
    assert(supported_media_extensions().len() == 13);
}

/// A path is taken as media exactly when it has an extension that is one of
/// those formats, ignoring ASCII case.
pub proof fn lemma_media_paths(path: Seq<char>)
    ensures
        (match path_extension(path) {
            Some(e) => is_supported_extension(e),
            None => false,
        }) <==> (path_extension(path) matches Some(e) && (lower_seq(e) == "mp3"@
            || lower_seq(e) == "wav"@
            || lower_seq(e) == "m4a"@
            || lower_seq(e) == "flac"@
            || lower_seq(e) == "ogg"@
            || lower_seq(e) == "opus"@
            || lower_seq(e) == "aac"@
            || lower_seq(e) == "wma"@
            || lower_seq(e) == "mp4"@
            || lower_seq(e) == "mkv"@
            || lower_seq(e) == "mov"@
            || lower_seq(e) == "avi"@
            || lower_seq(e) == "webm"@)),
{
    match path_extension(path) {
        Some(e) => lemma_supported_extensions_are_the_media_formats(e),
        None => {},
    }
}

/// The supported extensions, in the order the application lists them.
pub fn supported_extensions() -> (v: Vec<&'static str>)
    ensures
        v@.map_values(|s: &str| s@) == supported_media_extensions(),
{
    let mut v: Vec<&'static str> = Vec::new();
    v.push("mp3");
    v.push("wav");
    v.push("m4a");
    v.push("flac");
    v.push("ogg");
    v.push("opus");
    v.push("aac");
    v.push("wma");
    v.push("mp4");
    v.push("mkv");
    v.push("mov");
    v.push("avi");
    v.push("webm");
    assert(v@.map_values(|s: &str| s@) =~= supported_media_extensions());
    v
}

/// Whether a path (in portable form) names a supported media file, judged
/// by its extension.
pub fn is_supported_media(path: &str) -> (r: bool)
    ensures
        r == match path_extension(path@) {
            Some(e) => is_supported_extension(e),
            None => false,
        },
{
    let ext = match path_extension_chars(path) {
        Some(e) => string_of(&e),
        None => {
            return false;
        },
    };
    let list = supported_extensions();
    let ghost views = list@.map_values(|s: &str| s@);
    let mut i: usize = 0;
    while i < list.len()
        invariant
            i <= list.len(),
            views == list@.map_values(|s: &str| s@),
            views == supported_media_extensions(),
            path_extension(path@) == Some(ext@),
            forall|k: int| 0 <= k < i ==> lower_seq(ext@) != lower_seq(#[trigger] views[k]),
        decreases list.len() - i,
    {
        assert(views[i as int] == list@[i as int]@);
        if eq_ignore_ascii_case(ext.as_str(), list[i]) {
            return true;
        }
        i = i + 1;
    }
    false
}

/// The extension recorded for a discovered file: its path's extension,
/// lowered, or nothing.
pub open spec fn media_extension_text(path: Seq<char>) -> Seq<char> {
    match path_extension(path) {
        Some(e) => lower_seq(e),
        None => Seq::empty(),
    }
}

/// Computes the extension recorded for a discovered file.
pub fn media_extension(path: &str) -> (r: String)
    ensures
        r@ == media_extension_text(path@),
{
    match path_extension_chars(path) {
        Some(e) => string_of(&lower_chars(&e)),
        None => String::new(),
    }
}

/// A media file found under a scanned folder. `relative_path` is in portable
/// form; the other paths are the text of the canonical paths, which nothing
/// here reads; `modified_at_secs` and `modified_at_nanos` give the
/// modification time as seconds and nanoseconds since the Unix epoch.
#[derive(Debug, Clone, PartialEq, Eq)]
pub struct DiscoveredMedia {
    pub source_root: String,
    pub absolute_path: String,
    pub relative_path: String,
    pub file_name: String,
    pub extension: String,
    pub size_bytes: u64,
    pub modified_at_secs: i64,
    pub modified_at_nanos: u32,
}

/// Whether `x` sorts no later than `y`: by relative path.
pub open spec fn media_le(x: DiscoveredMedia, y: DiscoveredMedia) -> bool {
    path_le(x.relative_path@, y.relative_path@)
}

/// The components of a discovered file's relative path, by which files are ordered.
pub open spec fn media_key(m: DiscoveredMedia) -> Seq<Seq<char>> {
    path_components(m.relative_path@)
}

/// The files whose relative path has the components `k`, in their order.
pub open spec fn with_key(s: Seq<DiscoveredMedia>, k: Seq<Seq<char>>) -> Seq<DiscoveredMedia>
    decreases s.len(),
{
    if s.len() == 0 {
        Seq::empty()
    } else {
        let r = with_key(s.drop_last(), k);
        if media_key(s.last()) == k {
            r.push(s.last())
        } else {
            r
        }
    }
}

proof fn lemma_with_key_append(a: Seq<DiscoveredMedia>, b: Seq<DiscoveredMedia>, k: Seq<Seq<char>>)
    ensures
        with_key(a + b, k) == with_key(a, k) + with_key(b, k),
    decreases b.len(),
{
    if b.len() == 0 {
        assert(a + b =~= a);
        assert(with_key(a, k) + with_key(b, k) =~= with_key(a, k));
    } else {
        lemma_with_key_append(a, b.drop_last(), k);
        assert((a + b).drop_last() =~= a + b.drop_last());
        assert((a + b).last() == b.last());
        if media_key(b.last()) == k {
            assert(with_key(a, k) + with_key(b.drop_last(), k).push(b.last()) =~= (with_key(a, k)
                + with_key(b.drop_last(), k)).push(b.last()));
        }
    }
}

proof fn lemma_with_key_none(s: Seq<DiscoveredMedia>, k: Seq<Seq<char>>)
    requires
        forall|t: int| 0 <= t < s.len() ==> media_key(#[trigger] s[t]) != k,
    ensures
        with_key(s, k) == Seq::<DiscoveredMedia>::empty(),
    decreases s.len(),
{
    if s.len() > 0 {
        lemma_with_key_none(s.drop_last(), k);
        assert(media_key(s[s.len() - 1]) != k);
    }
}

/// Orders discovered files by relative path, as a stable sort does: the
/// result is sorted by the order of relative paths, and the files sharing a
/// relative path come out in the order they came in. It holds the same
/// files, each as often as before.
pub fn sort_by_relative_path(media: Vec<DiscoveredMedia>) -> (r: Vec<DiscoveredMedia>)
    ensures
        r@.to_multiset() == media@.to_multiset(),
        forall|i: int, j: int| 0 <= i < j < r.len() ==> media_le(#[trigger] r[i], #[trigger] r[j]),
        forall|k: Seq<Seq<char>>| #[trigger] with_key(r@, k) == with_key(media@, k),
{
    broadcast use vstd::seq_lib::group_to_multiset_ensures;

    let mut remaining = media;
    let mut keys: Vec<Vec<Vec<char>>> = Vec::new();
    let mut k: usize = 0;
    while k < remaining.len()
        invariant
            k <= remaining.len(),
            keys.len() == k,
            forall|j: int|
                0 <= j < k ==> char_views(#[trigger] keys[j]@) == media_key(remaining[j]),
        decreases remaining.len() - k,
    {
        keys.push(path_components_of(remaining[k].relative_path.as_str()));
        k = k + 1;
    }
    let mut result: Vec<DiscoveredMedia> = Vec::new();
    proof {
        assert forall|k: Seq<Seq<char>>| #[trigger] with_key(media@, k) == with_key(result@, k)
            + with_key(remaining@, k) by {
            assert(with_key(result@, k) =~= Seq::<DiscoveredMedia>::empty());
            assert(with_key(result@, k) + with_key(remaining@, k) =~= with_key(remaining@, k));
        }
    }
    while remaining.len() > 0
        invariant
            keys.len() == remaining.len(),
            forall|j: int|
                0 <= j < keys.len() ==> char_views(#[trigger] keys[j]@) == media_key(remaining[j]),
            result@.to_multiset().add(remaining@.to_multiset()) == media@.to_multiset(),
            forall|i: int, j: int|
                0 <= i < j < result.len() ==> media_le(#[trigger] result[i], #[trigger] result[j]),
            forall|i: int, j: int|
                0 <= i < result.len() && 0 <= j < remaining.len() ==> media_le(
                    #[trigger] result[i],
                    #[trigger] remaining[j],
                ),
            forall|k: Seq<Seq<char>>| #[trigger] with_key(media@, k) == with_key(result@, k)
                + with_key(remaining@, k),
        decreases remaining.len(),
    {
        let mut best: usize = 0;
        let mut j: usize = 1;
        proof {
            lemma_compare_paths_basics(media_key(remaining[0]), media_key(remaining[0]));
        }
        while j < remaining.len()
            invariant
                best < j <= remaining.len(),
                keys.len() == remaining.len(),
                forall|t: int|
                    0 <= t < keys.len() ==> char_views(#[trigger] keys[t]@) == media_key(
                        remaining[t],
                    ),
                forall|t: int| 0 <= t < j ==> media_le(remaining[best as int], #[trigger] remaining[t]),
                forall|t: int|
                    0 <= t < best ==> compare_paths(
                        media_key(#[trigger] remaining[t]),
                        media_key(remaining[best as int]),
                    ) > 0,
            decreases remaining.len() - j,
        {
            let c = compare_components_exec(&keys[j], &keys[best]);
            let ghost kj = media_key(remaining[j as int]);
            let ghost kb = media_key(remaining[best as int]);
            proof {
                lemma_compare_paths_basics(kj, kb);
                lemma_compare_paths_basics(kj, kj);
            }
            if c < 0 {
                proof {
                    assert forall|t: int| 0 <= t < j + 1 implies media_le(
                        remaining[j as int],
                        #[trigger] remaining[t],
                    ) by {
                        if t < j {
                            lemma_compare_paths_transitive(kj, kb, media_key(remaining[t]));
                        }
                    }
                    assert forall|t: int| 0 <= t < j implies compare_paths(
                        media_key(#[trigger] remaining[t]),
                        kj,
                    ) > 0 by {
                        let kt = media_key(remaining[t]);
                        lemma_compare_paths_basics(kt, kj);
                        lemma_compare_paths_basics(kt, kb);
                        lemma_compare_paths_basics(kj, kt);
                        if t < best {
                            lemma_compare_paths_transitive(kj, kb, kt);
                        } else if t > best {
                            lemma_compare_paths_transitive(kj, kb, kt);
                        }
                    }
                }
                best = j;
            }
            j = j + 1;
        }
        let ghost before_remaining = remaining@;
        let ghost before_result = result@;
        let x = remaining.remove(best);
        let _ = keys.remove(best);
        proof {
            assert forall|t: int| 0 <= t < remaining.len() implies media_le(x, #[trigger] remaining[t]) by {
                if t < best {
                    assert(remaining[t] == before_remaining[t]);
                } else {
                    assert(remaining[t] == before_remaining[t + 1]);
                }
            }
            assert forall|i: int, t: int|
                0 <= i < before_result.len() && 0 <= t < remaining.len() implies media_le(
                #[trigger] before_result[i],
                #[trigger] remaining[t],
            ) by {
                if t < best {
                    assert(remaining[t] == before_remaining[t]);
                } else {
                    assert(remaining[t] == before_remaining[t + 1]);
                }
            }
            before_result.to_multiset_ensures();
            before_remaining.to_multiset_ensures();
            assert(before_remaining.remove(best as int) == remaining@);
            assert(before_remaining[best as int] == x);
            assert(before_result.push(x).to_multiset() =~= before_result.to_multiset().insert(x));
            assert(remaining@.to_multiset() =~= before_remaining.to_multiset().remove(x));
            assert(before_remaining.to_multiset().count(x) > 0);
            let front = before_remaining.take(best as int);
            let back = before_remaining.skip(best + 1);
            assert(before_remaining =~= front + seq![x] + back);
            assert(remaining@ =~= front + back);
            assert forall|t: int| 0 <= t < front.len() implies media_key(#[trigger] front[t])
                != media_key(x) by {
                lemma_compare_paths_basics(media_key(front[t]), media_key(x));
            }
            assert forall|k: Seq<Seq<char>>| #[trigger] with_key(media@, k) == with_key(
                before_result.push(x),
                k,
            ) + with_key(remaining@, k) by {
                lemma_with_key_append(front + seq![x], back, k);
                lemma_with_key_append(front, seq![x], k);
                lemma_with_key_append(front, back, k);
                assert(before_result.push(x).drop_last() =~= before_result);
                assert(seq![x].drop_last() =~= Seq::<DiscoveredMedia>::empty());
                assert(seq![x].last() == x);
                assert(with_key(Seq::<DiscoveredMedia>::empty(), k) == Seq::<DiscoveredMedia>::empty());
                if k == media_key(x) {
                    lemma_with_key_none(front, k);
                    assert(with_key(seq![x], k) =~= seq![x]);
                    assert(with_key(before_result.push(x), k) == with_key(before_result, k).push(x));
                    assert(with_key(before_result, k).push(x) + with_key(back, k) =~= with_key(
                        before_result,
                        k,
                    ) + (seq![x] + with_key(back, k)));
                    assert(with_key(front, k) + with_key(back, k) =~= with_key(back, k));
                    assert(with_key(front, k) + seq![x] =~= seq![x]);
                } else {
                    assert(with_key(seq![x], k) =~= Seq::<DiscoveredMedia>::empty());
                    assert(with_key(front, k) + with_key(seq![x], k) =~= with_key(front, k));
                }
            }
        }
        result.push(x);
        proof {
            assert(result@.to_multiset().add(remaining@.to_multiset()) =~= before_result.to_multiset().add(
                before_remaining.to_multiset(),
            ));
        }
    }
    proof {
        assert(remaining@.to_multiset() =~= vstd::multiset::Multiset::empty());
        assert(result@.to_multiset().add(remaining@.to_multiset()) =~= result@.to_multiset());
        assert forall|k: Seq<Seq<char>>| #[trigger] with_key(result@, k) == with_key(media@, k) by {
            assert(with_key(remaining@, k) =~= Seq::<DiscoveredMedia>::empty());
            assert(with_key(result@, k) + with_key(remaining@, k) =~= with_key(result@, k));
        }
    }
    result
}

} // verus!
