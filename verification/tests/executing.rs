use muco::catalog::Catalog;
use muco::executor::{entry_directive, execute, Directive, FailureKind, Outcome};
use muco::manifest::Manifest;
use muco::media::Container;
use muco::plan::{plan, SyncAction};

fn strings(items: &[&str]) -> Vec<String> {
    items.iter().map(|s| String::from(*s)).collect()
}

#[test]
fn directives_follow_the_action() {
    let c = Catalog::build(&strings(&["s.mp3", "t.flac", "u.webm"]), &Vec::new());
    let mut m = Manifest::new();
    m.insert(String::from("s.mp3"));
    let p = plan(&c, &vec![Container::Mp3], &m);
    assert_eq!(p.entry(0).action, SyncAction::Skip);
    assert_eq!(entry_directive(p.entry(0)), Directive::Nothing);
    assert_eq!(p.entry(1).action, SyncAction::Transcode(Container::Mp3));
    assert_eq!(entry_directive(p.entry(1)), Directive::Encode(Container::Mp3));
    assert_eq!(p.entry(2).action, SyncAction::Transcode(Container::Mp3));
}

#[test]
fn copy_directive_for_accepted_containers() {
    let c = Catalog::build(&strings(&["s.mp3"]), &Vec::new());
    let p = plan(&c, &vec![Container::Mp3], &Manifest::new());
    assert_eq!(entry_directive(p.entry(0)), Directive::CopyFile);
}

#[test]
fn unsupported_target_gets_no_directive_and_fails() {
    // A device that prefers webm asks for a transcode the encoder cannot
    // produce: the step is reported failed without invoking anything.
    let c = Catalog::build(&strings(&["s.mp3"]), &Vec::new());
    let p = plan(&c, &vec![Container::Webm], &Manifest::new());
    assert_eq!(p.entry(0).action, SyncAction::Transcode(Container::Webm));
    assert_eq!(entry_directive(p.entry(0)), Directive::Nothing);
    let mut m = Manifest::new();
    let report = execute(&p, &vec![Outcome::Completed], &mut m);
    assert_eq!(report.failed(), 1);
    assert_eq!(report.failures[0].kind, FailureKind::TranscodeUnsupported);
    assert_eq!(report.failures[0].path, "s.mp3");
    assert_eq!(m.len(), 0);
}

#[test]
fn successful_outcomes_mark_the_manifest() {
    let c = Catalog::build(&strings(&["a.flac", "b.mp3"]), &Vec::new());
    let p = plan(&c, &vec![Container::Mp3], &Manifest::new());
    let mut m = Manifest::new();
    let report = execute(&p, &vec![Outcome::Completed, Outcome::Completed], &mut m);
    assert_eq!(report.skipped, 0);
    assert_eq!(report.copied, 1);
    assert_eq!(report.transcoded, 1);
    assert_eq!(report.failed(), 0);
    assert!(report.is_clean());
    assert!(m.contains(&String::from("a.mp3")));
    assert!(m.contains(&String::from("b.mp3")));
}

#[test]
fn failure_of_one_asset_does_not_block_another() {
    // Asset a.flac fails to transcode; asset b.mp3 still lands in the
    // manifest, and only the failed one is reported.
    let c = Catalog::build(&strings(&["a.flac", "b.mp3"]), &Vec::new());
    let p = plan(&c, &vec![Container::Mp3], &Manifest::new());
    let mut m = Manifest::new();
    let outcomes = vec![
        Outcome::Failed(String::from("encoder exited with status 1")),
        Outcome::Completed,
    ];
    let report = execute(&p, &outcomes, &mut m);
    assert_eq!(report.copied, 1);
    assert_eq!(report.transcoded, 0);
    assert_eq!(report.failed(), 1);
    assert_eq!(report.failures[0].path, "a.flac");
    assert_eq!(report.failures[0].kind, FailureKind::EncodeFailed);
    assert_eq!(report.failures[0].detail, "encoder exited with status 1");
    assert!(!m.contains(&String::from("a.mp3")));
    assert!(m.contains(&String::from("b.mp3")));
}

#[test]
fn failed_copy_is_recorded_and_not_marked() {
    let c = Catalog::build(&strings(&["b.mp3"]), &Vec::new());
    let p = plan(&c, &vec![Container::Mp3], &Manifest::new());
    let mut m = Manifest::new();
    let report = execute(&p, &vec![Outcome::Failed(String::from("read-only filesystem"))], &mut m);
    assert_eq!(report.copied, 0);
    assert_eq!(report.failed(), 1);
    assert_eq!(report.failures[0].kind, FailureKind::CopyFailed);
    assert_eq!(m.len(), 0);
}

#[test]
fn already_present_destination_counts_as_materialized() {
    // The destination file exists on disk though the manifest forgot it:
    // the driver reports it present and the executor marks it without
    // re-encoding.
    let c = Catalog::build(&strings(&["a.flac"]), &Vec::new());
    let p = plan(&c, &vec![Container::Mp3], &Manifest::new());
    let mut m = Manifest::new();
    let report = execute(&p, &vec![Outcome::AlreadyPresent], &mut m);
    assert_eq!(report.transcoded, 1);
    assert_eq!(report.failed(), 0);
    assert!(m.contains(&String::from("a.mp3")));
}

#[test]
fn skipped_steps_leave_the_manifest_alone() {
    let c = Catalog::build(&strings(&["b.mp3"]), &Vec::new());
    let mut m = Manifest::new();
    m.insert(String::from("b.mp3"));
    let p = plan(&c, &vec![Container::Mp3], &m);
    let report = execute(&p, &vec![Outcome::Completed], &mut m);
    assert_eq!(report.skipped, 1);
    assert_eq!(report.copied, 0);
    assert_eq!(m.len(), 1);
}
