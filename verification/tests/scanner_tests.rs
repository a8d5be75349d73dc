use transcrever::scanner::is_supported_media;

#[test]
fn rejects_unsupported_extension_and_accepts_supported_wav() {
    assert!(!is_supported_media("recording.txt"));
    assert!(is_supported_media("recording.wav"));
}

use transcrever::scanner::{media_extension, sort_by_relative_path, DiscoveredMedia};

fn media(relative: &str) -> DiscoveredMedia {
    DiscoveredMedia {
        source_root: "/media".to_string(),
        absolute_path: format!("/media/{relative}"),
        relative_path: relative.to_string(),
        file_name: relative.rsplit('/').next().unwrap_or(relative).to_string(),
        extension: "mp3".to_string(),
        size_bytes: 10,
        modified_at_secs: 1_782_086_400,
        modified_at_nanos: 0,
    }
}

#[test]
fn extension_matching_ignores_case_and_follows_path_rules() {
    assert!(is_supported_media("nested/UPPER.WAV"));
    assert!(is_supported_media("/a/b/clip.WebM"));
    assert!(is_supported_media("folder.mp3/"));
    assert!(!is_supported_media(".mp3"));
    assert!(!is_supported_media("archive.mp3.zip"));
    assert!(!is_supported_media("noext"));
    assert!(!is_supported_media("a/.."));
    assert!(!is_supported_media(""));
}

#[test]
fn media_extension_is_lowered() {
    assert_eq!(media_extension("x/Song.FLAC"), "flac");
    assert_eq!(media_extension("x/noext"), "");
    assert_eq!(media_extension("x/.hidden"), "");
    assert_eq!(media_extension("x/trailing."), "");
}

#[test]
fn sorts_by_path_components_not_plain_text() {
    let input = vec![
        media("root.mp3"),
        media("nested/UPPER.WAV"),
        media("a-b.mp3"),
        media("a/b.mp3"),
    ];
    let sorted = sort_by_relative_path(input);
    let order: Vec<&str> = sorted.iter().map(|m| m.relative_path.as_str()).collect();
    assert_eq!(order, vec!["a/b.mp3", "a-b.mp3", "nested/UPPER.WAV", "root.mp3"]);
}

#[test]
fn sorting_keeps_every_file() {
    let input = vec![media("b.mp3"), media("a.mp3"), media("b.mp3"), media("c/d.mp3")];
    let sorted = sort_by_relative_path(input.clone());
    assert_eq!(sorted.len(), input.len());
    let order: Vec<&str> = sorted.iter().map(|m| m.relative_path.as_str()).collect();
    assert_eq!(order, vec!["a.mp3", "b.mp3", "b.mp3", "c/d.mp3"]);
}

#[test]
fn files_sharing_a_path_keep_their_order() {
    let mut first = media("same.mp3");
    first.size_bytes = 1;
    let mut second = media("same.mp3");
    second.size_bytes = 2;
    let sorted = sort_by_relative_path(vec![media("z.mp3"), first, media("a.mp3"), second]);
    let sizes: Vec<(String, u64)> = sorted
        .iter()
        .map(|m| (m.relative_path.clone(), m.size_bytes))
        .collect();
    assert_eq!(
        sizes,
        vec![
            ("a.mp3".to_string(), 10),
            ("same.mp3".to_string(), 1),
            ("same.mp3".to_string(), 2),
            ("z.mp3".to_string(), 10),
        ]
    );
}
