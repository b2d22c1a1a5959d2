use muco::catalog::Catalog;
use muco::device::Device;
use muco::executor::Outcome;
use muco::manifest::Manifest;
use muco::media::Container;
use muco::orchestrator::OrchestrationReport;
use muco::plan::SyncAction;

fn strings(items: &[&str]) -> Vec<String> {
    items.iter().map(|s| String::from(*s)).collect()
}

#[test]
fn end_to_end_sync_of_a_small_library() {
    // Library holds a.flac, b.mp3, .hidden.mp3 and sub/c.ogg; the device
    // accepts mp3 only and starts with an empty manifest.
    let files = strings(&["a.flac", "b.mp3", ".hidden.mp3", "sub/c.ogg"]);
    let catalog = Catalog::build(&files, &Vec::new());
    assert_eq!(catalog.len(), 2);

    let mut device = Device::new(
        String::from("stick"),
        String::from("/mnt/stick"),
        None,
        vec![Container::Mp3],
        Manifest::new(),
    );

    let plan = device.plan(&catalog);
    assert_eq!(plan.len(), 2);
    assert_eq!(plan.entry(0).path, "a.flac");
    assert_eq!(plan.entry(0).action, SyncAction::Transcode(Container::Mp3));
    assert_eq!(plan.entry(0).dest, "a.mp3");
    assert_eq!(plan.entry(1).path, "b.mp3");
    assert_eq!(plan.entry(1).action, SyncAction::CopyVerbatim);
    assert_eq!(plan.entry(1).dest, "b.mp3");

    let outcomes = vec![Outcome::Completed, Outcome::Completed];
    let report = device.execute(&plan, &outcomes);
    assert_eq!(report.transcoded, 1);
    assert_eq!(report.copied, 1);
    assert_eq!(report.failed(), 0);
    assert_eq!(device.source().len(), 2);
    assert!(device.source().contains(&String::from("a.mp3")));
    assert!(device.source().contains(&String::from("b.mp3")));
}

#[test]
fn second_run_against_unchanged_library_only_skips() {
    let files = strings(&["a.flac", "b.mp3"]);
    let catalog = Catalog::build(&files, &Vec::new());
    let mut device = Device::new(
        String::from("stick"),
        String::from("/mnt/stick"),
        None,
        vec![Container::Mp3],
        Manifest::new(),
    );

    let first = device.plan(&catalog);
    let report = device.execute(&first, &vec![Outcome::Completed, Outcome::Completed]);
    assert!(report.is_clean());
    let manifest_after_first: Vec<String> = device.source().paths().clone();

    let second = device.plan(&catalog);
    assert_eq!(second.len(), 2);
    assert_eq!(second.entry(0).action, SyncAction::Skip);
    assert_eq!(second.entry(1).action, SyncAction::Skip);

    let report2 = device.execute(&second, &vec![Outcome::Completed, Outcome::Completed]);
    assert_eq!(report2.skipped, 2);
    assert_eq!(report2.copied, 0);
    assert_eq!(report2.transcoded, 0);
    assert_eq!(device.source().paths(), &manifest_after_first);
}

#[test]
fn vanished_destination_is_reproposed_and_rematerialized() {
    // Sync once, then delete a.mp3 from the device behind the tool's
    // back: pruning drops it from the manifest, the next plan proposes
    // the transcode again, and a successful run restores it.
    let files = strings(&["a.flac", "b.mp3"]);
    let catalog = Catalog::build(&files, &Vec::new());
    let mut device = Device::new(
        String::from("stick"),
        String::from("/mnt/stick"),
        None,
        vec![Container::Mp3],
        Manifest::new(),
    );
    let first = device.plan(&catalog);
    device.execute(&first, &vec![Outcome::Completed, Outcome::Completed]);

    // b.mp3 still exists on the device; a.mp3 vanished.
    device.prune_manifest(&strings(&["b.mp3"]));
    assert!(!device.source().contains(&String::from("a.mp3")));
    assert!(device.source().contains(&String::from("b.mp3")));

    let second = device.plan(&catalog);
    assert_eq!(second.entry(0).action, SyncAction::Transcode(Container::Mp3));
    assert_eq!(second.entry(1).action, SyncAction::Skip);

    let report = device.execute(&second, &vec![Outcome::Completed, Outcome::Completed]);
    assert_eq!(report.transcoded, 1);
    assert_eq!(report.skipped, 1);
    assert!(device.source().contains(&String::from("a.mp3")));
}

#[test]
fn orchestration_report_aggregates_device_runs() {
    let files = strings(&["a.flac", "b.mp3", "c.webm"]);
    let catalog = Catalog::build(&files, &Vec::new());
    let mut device = Device::new(
        String::from("stick"),
        String::from("/mnt/stick"),
        None,
        vec![Container::Mp3],
        Manifest::new(),
    );
    let plan = device.plan(&catalog);
    let outcomes = vec![
        Outcome::Completed,
        Outcome::Completed,
        Outcome::Failed(String::from("encoder crashed")),
    ];
    let report = device.execute(&plan, &outcomes);

    let mut totals = OrchestrationReport::new();
    totals.record(&report);
    totals.record_device_failure();
    assert_eq!(totals.devices_synced, 1);
    assert_eq!(totals.devices_failed, 1);
    assert_eq!(totals.copied, 1);
    assert_eq!(totals.transcoded, 1);
    assert_eq!(totals.assets_failed, 1);
    assert!(!totals.success());

    let mut clean = OrchestrationReport::new();
    assert!(clean.success());
    let retry_plan = device.plan(&catalog);
    let retry_report = device.execute(
        &retry_plan,
        &vec![Outcome::Completed, Outcome::Completed, Outcome::Completed],
    );
    clean.record(&retry_report);
    assert_eq!(clean.devices_synced, 1);
}
