use muco::paths::{extension_str, is_excluded, is_hidden, last_index_of, replace_extension_str};

#[test]
fn extension_of_simple_paths() {
    assert_eq!(extension_str("track.mp3"), Some("mp3"));
    assert_eq!(extension_str("album/track.flac"), Some("flac"));
    assert_eq!(extension_str("archive.tar.gz"), Some("gz"));
    assert_eq!(extension_str("noext"), None);
    assert_eq!(extension_str(".hidden"), None);
    assert_eq!(extension_str("dir/.hidden"), None);
    assert_eq!(extension_str(".hidden.mp3"), Some("mp3"));
    assert_eq!(extension_str("trailing."), Some(""));
}

#[test]
fn replace_extension_rewrites_the_last_extension() {
    assert_eq!(replace_extension_str("sub/track.flac", "mp3"), "sub/track.mp3");
    assert_eq!(replace_extension_str("track.flac", "mp3"), "track.mp3");
    assert_eq!(replace_extension_str("a.b.c", "mp3"), "a.b.mp3");
}

#[test]
fn replace_extension_adds_one_when_missing() {
    assert_eq!(replace_extension_str("noext", "mp3"), "noext.mp3");
}

#[test]
fn hidden_paths_are_detected() {
    assert!(is_hidden(".hidden.mp3"));
    assert!(is_hidden("sub/.hidden.mp3"));
    assert!(is_hidden(".config/track.mp3"));
    assert!(!is_hidden("track.mp3"));
    assert!(!is_hidden("sub/track.mp3"));
    assert!(!is_hidden("a.b/track.mp3"));
}

#[test]
fn excluded_components_are_detected() {
    let ex = vec![String::from("tmp"), String::from("cache")];
    assert!(is_excluded("tmp/track.mp3", &ex));
    assert!(is_excluded("a/tmp/track.mp3", &ex));
    assert!(is_excluded("a/b/cache", &ex));
    assert!(!is_excluded("tmpx/track.mp3", &ex));
    assert!(!is_excluded("a/xtmp/track.mp3", &ex));
    assert!(!is_excluded("track.mp3", &ex));
    assert!(!is_excluded("track.mp3", &Vec::new()));
}

#[test]
fn last_index_of_finds_the_last_occurrence() {
    assert_eq!(last_index_of("a/b/c", '/'), Some(3));
    assert_eq!(last_index_of("abc", '/'), None);
    assert_eq!(last_index_of("a.b.c", '.'), Some(3));
}
