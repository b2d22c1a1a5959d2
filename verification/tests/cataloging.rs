use muco::catalog::Catalog;
use muco::media::Container;

fn strings(items: &[&str]) -> Vec<String> {
    items.iter().map(|s| String::from(*s)).collect()
}

#[test]
fn build_classifies_by_extension() {
    let files = strings(&["a.flac", "b.mp3", "c.webm"]);
    let c = Catalog::build(&files, &Vec::new());
    assert_eq!(c.len(), 3);
    assert_eq!(c.asset(0).path, "a.flac");
    assert_eq!(c.asset(0).container, Container::Flac);
    assert_eq!(c.asset(1).path, "b.mp3");
    assert_eq!(c.asset(1).container, Container::Mp3);
    assert_eq!(c.asset(2).path, "c.webm");
    assert_eq!(c.asset(2).container, Container::Webm);
}

#[test]
fn build_skips_hidden_unknown_and_extensionless() {
    let files = strings(&["a.flac", ".hidden.mp3", "sub/c.ogg", "noext", "sub/.h.mp3"]);
    let c = Catalog::build(&files, &Vec::new());
    assert_eq!(c.len(), 1);
    assert_eq!(c.asset(0).path, "a.flac");
}

#[test]
fn build_skips_excluded_components() {
    let files = strings(&["keep/a.mp3", "skipme/b.mp3", "a/skipme/c.mp3", "skipmenot/d.mp3"]);
    let exclusions = strings(&["skipme"]);
    let c = Catalog::build(&files, &exclusions);
    assert_eq!(c.len(), 2);
    assert_eq!(c.asset(0).path, "keep/a.mp3");
    assert_eq!(c.asset(1).path, "skipmenot/d.mp3");
}

#[test]
fn build_keeps_first_seen_order() {
    let files = strings(&["z.mp3", "a.mp3", "m/q.flac"]);
    let c = Catalog::build(&files, &Vec::new());
    assert_eq!(c.len(), 3);
    assert_eq!(c.asset(0).path, "z.mp3");
    assert_eq!(c.asset(1).path, "a.mp3");
    assert_eq!(c.asset(2).path, "m/q.flac");
}

#[test]
fn build_uppercase_extensions_classify() {
    let files = strings(&["loud.MP3", "quiet.Flac"]);
    let c = Catalog::build(&files, &Vec::new());
    assert_eq!(c.len(), 2);
    assert_eq!(c.asset(0).container, Container::Mp3);
    assert_eq!(c.asset(1).container, Container::Flac);
}

#[test]
fn empty_catalog() {
    let c = Catalog::build(&Vec::new(), &Vec::new());
    assert_eq!(c.len(), 0);
    let c2 = Catalog::new();
    assert_eq!(c2.len(), 0);
}
