use muco::manifest::Manifest;

fn strings(items: &[&str]) -> Vec<String> {
    items.iter().map(|s| String::from(*s)).collect()
}

#[test]
fn insert_and_contains() {
    let mut m = Manifest::new();
    assert_eq!(m.len(), 0);
    assert!(!m.contains(&String::from("a.mp3")));
    m.insert(String::from("a.mp3"));
    assert!(m.contains(&String::from("a.mp3")));
    assert_eq!(m.len(), 1);
}

#[test]
fn insert_of_present_path_changes_nothing() {
    let mut m = Manifest::new();
    m.insert(String::from("a.mp3"));
    m.insert(String::from("a.mp3"));
    assert_eq!(m.len(), 1);
}

#[test]
fn prune_drops_vanished_entries() {
    let mut m = Manifest::new();
    m.insert(String::from("a.mp3"));
    m.insert(String::from("b.mp3"));
    m.insert(String::from("sub/c.mp3"));
    let existing = strings(&["b.mp3"]);
    m.prune(&existing);
    assert_eq!(m.len(), 1);
    assert!(!m.contains(&String::from("a.mp3")));
    assert!(m.contains(&String::from("b.mp3")));
    assert!(!m.contains(&String::from("sub/c.mp3")));
}

#[test]
fn prune_against_nothing_empties_the_manifest() {
    let mut m = Manifest::new();
    m.insert(String::from("a.mp3"));
    m.prune(&Vec::new());
    assert_eq!(m.len(), 0);
}

#[test]
fn persisted_form_round_trips() {
    let mut m = Manifest::new();
    m.insert(String::from("a.mp3"));
    m.insert(String::from("sub/b.mp3"));
    let lines = m.to_lines();
    assert_eq!(lines[0], "muco-manifest v1");
    assert_eq!(lines[1], "f a.mp3");
    assert_eq!(lines[2], "f sub/b.mp3");
    let back = Manifest::from_lines(&lines);
    assert_eq!(back.len(), 2);
    assert!(back.contains(&String::from("a.mp3")));
    assert!(back.contains(&String::from("sub/b.mp3")));
    assert_eq!(back.paths()[0], "a.mp3");
    assert_eq!(back.paths()[1], "sub/b.mp3");
}

#[test]
fn reading_ignores_unknown_lines() {
    let lines = strings(&[
        "muco-manifest v1",
        "# a comment some later version might write",
        "f a.mp3",
        "x some-unknown-record",
        "f b.mp3",
        "",
    ]);
    let m = Manifest::from_lines(&lines);
    assert_eq!(m.len(), 2);
    assert!(m.contains(&String::from("a.mp3")));
    assert!(m.contains(&String::from("b.mp3")));
}

#[test]
fn reading_drops_duplicates() {
    let lines = strings(&["f a.mp3", "f a.mp3", "f b.mp3"]);
    let m = Manifest::from_lines(&lines);
    assert_eq!(m.len(), 2);
}

#[test]
fn empty_manifest_round_trips() {
    let m = Manifest::new();
    let lines = m.to_lines();
    assert_eq!(lines.len(), 1);
    let back = Manifest::from_lines(&lines);
    assert_eq!(back.len(), 0);
}
