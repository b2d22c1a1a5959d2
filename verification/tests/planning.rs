use muco::catalog::Catalog;
use muco::manifest::Manifest;
use muco::media::Container;
use muco::plan::{plan, SyncAction};

fn strings(items: &[&str]) -> Vec<String> {
    items.iter().map(|s| String::from(*s)).collect()
}

#[test]
fn accepted_container_is_copied_verbatim() {
    let c = Catalog::build(&strings(&["b.mp3"]), &Vec::new());
    let p = plan(&c, &vec![Container::Mp3], &Manifest::new());
    assert_eq!(p.len(), 1);
    assert_eq!(p.entry(0).action, SyncAction::CopyVerbatim);
    assert_eq!(p.entry(0).dest, "b.mp3");
}

#[test]
fn unaccepted_container_is_transcoded_to_the_first_accepted() {
    let c = Catalog::build(&strings(&["a.flac"]), &Vec::new());
    let p = plan(&c, &vec![Container::Mp3, Container::Webm], &Manifest::new());
    assert_eq!(p.len(), 1);
    assert_eq!(p.entry(0).action, SyncAction::Transcode(Container::Mp3));
    assert_eq!(p.entry(0).dest, "a.mp3");
}

#[test]
fn transcode_destination_rewrites_the_extension() {
    let c = Catalog::build(&strings(&["sub/song.webm"]), &Vec::new());
    let p = plan(&c, &vec![Container::Flac], &Manifest::new());
    assert_eq!(p.entry(0).action, SyncAction::Transcode(Container::Flac));
    assert_eq!(p.entry(0).dest, "sub/song.flac");
}

#[test]
fn manifested_destination_is_skipped() {
    let c = Catalog::build(&strings(&["a.flac", "b.mp3"]), &Vec::new());
    let mut m = Manifest::new();
    m.insert(String::from("a.mp3"));
    let p = plan(&c, &vec![Container::Mp3], &m);
    assert_eq!(p.len(), 2);
    assert_eq!(p.entry(0).action, SyncAction::Skip);
    assert_eq!(p.entry(1).action, SyncAction::CopyVerbatim);
}

#[test]
fn device_accepting_nothing_skips_everything() {
    let c = Catalog::build(&strings(&["a.flac", "b.mp3"]), &Vec::new());
    let p = plan(&c, &Vec::new(), &Manifest::new());
    assert_eq!(p.len(), 2);
    assert_eq!(p.entry(0).action, SyncAction::Skip);
    assert_eq!(p.entry(1).action, SyncAction::Skip);
}

#[test]
fn plan_keeps_catalog_order_and_sources() {
    let c = Catalog::build(&strings(&["x.webm", "y.flac"]), &Vec::new());
    let p = plan(&c, &vec![Container::Flac], &Manifest::new());
    assert_eq!(p.len(), 2);
    assert_eq!(p.entry(0).path, "x.webm");
    assert_eq!(p.entry(0).container, Container::Webm);
    assert_eq!(p.entry(1).path, "y.flac");
    assert_eq!(p.entry(1).container, Container::Flac);
    assert_eq!(p.entry(1).action, SyncAction::CopyVerbatim);
}

#[test]
fn pruned_manifest_makes_the_planner_repropose() {
    // A destination recorded in the manifest whose file vanished from the
    // device: after pruning, the planner proposes the transfer again.
    let c = Catalog::build(&strings(&["a.flac"]), &Vec::new());
    let mut m = Manifest::new();
    m.insert(String::from("a.mp3"));
    let p_before = plan(&c, &vec![Container::Mp3], &m);
    assert_eq!(p_before.entry(0).action, SyncAction::Skip);
    m.prune(&Vec::new());
    let p_after = plan(&c, &vec![Container::Mp3], &m);
    assert_eq!(p_after.entry(0).action, SyncAction::Transcode(Container::Mp3));
    assert_eq!(p_after.entry(0).dest, "a.mp3");
}
