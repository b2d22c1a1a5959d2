//! Orchestration across libraries and devices: aggregating per-device
//! reports, and the cross-cutting guarantees of repeated runs.

use vstd::prelude::*;

use crate::executor::{
    lemma_all_skip_no_marks, lemma_marks_of_entry, lemma_mark_present_membership,
    lemma_no_failures_all_marked, spec_failures, spec_mark_present, spec_marks, ExecutionReport,
    Outcome,
};
use crate::manifest::{lemma_prune_membership, spec_prune};
use crate::media::Container;
use crate::plan::{spec_action, spec_dest, spec_plan, SyncAction};

verus! {

/// `a + b`, stopping at the largest representable value.
pub open spec fn spec_sat_add(a: u64, b: u64) -> u64 {
    if a + b > u64::MAX {
        u64::MAX
    } else {
        (a + b) as u64
    }
}

/// Adds two counters, stopping at the largest representable value.
pub fn sat_add(a: u64, b: u64) -> (r: u64)
    ensures
        r == spec_sat_add(a, b),
{
    if b > u64::MAX - a {
        u64::MAX
    } else {
        a + b
    }
}

/// The summary of one whole sync invocation, across every processed
/// (library, device) pair.
#[derive(Clone, Copy, Debug)]
pub struct OrchestrationReport {
    /// Devices whose plan was executed and manifest written back.
    pub devices_synced: u64,
    /// Devices abandoned whole: manifest unreadable or root gone.
    pub devices_failed: u64,
    /// Totals over every executed plan.
    pub skipped: u64,
    /// Assets copied verbatim.
    pub copied: u64,
    /// Assets transcoded.
    pub transcoded: u64,
    /// Assets whose copy or transcode failed.
    pub assets_failed: u64,
}

impl OrchestrationReport {
    /// A report with nothing recorded.
    pub fn new() -> (r: OrchestrationReport)
        ensures
            r.devices_synced == 0,
            r.devices_failed == 0,
            r.skipped == 0,
            r.copied == 0,
            r.transcoded == 0,
            r.assets_failed == 0,
    {
        OrchestrationReport {
            devices_synced: 0,
            devices_failed: 0,
            skipped: 0,
            copied: 0,
            transcoded: 0,
            assets_failed: 0,
        }
    }

    /// Folds one device's execution report into the totals.
    pub fn record(&mut self, r: &ExecutionReport)
        ensures
            final(self).devices_synced == spec_sat_add(old(self).devices_synced, 1),
            final(self).devices_failed == old(self).devices_failed,
            final(self).skipped == spec_sat_add(old(self).skipped, r.skipped as u64),
            final(self).copied == spec_sat_add(old(self).copied, r.copied as u64),
            final(self).transcoded == spec_sat_add(old(self).transcoded, r.transcoded as u64),
            final(self).assets_failed == spec_sat_add(
                old(self).assets_failed,
                r.failures@.len() as u64,
            ),
    {
        self.devices_synced = sat_add(self.devices_synced, 1);
        self.skipped = sat_add(self.skipped, r.skipped as u64);
        self.copied = sat_add(self.copied, r.copied as u64);
        self.transcoded = sat_add(self.transcoded, r.transcoded as u64);
        self.assets_failed = sat_add(self.assets_failed, r.failed() as u64);
    }

    /// Records a device abandoned whole.
    pub fn record_device_failure(&mut self)
        ensures
            final(self).devices_failed == spec_sat_add(old(self).devices_failed, 1),
            final(self).devices_synced == old(self).devices_synced,
            final(self).skipped == old(self).skipped,
            final(self).copied == old(self).copied,
            final(self).transcoded == old(self).transcoded,
            final(self).assets_failed == old(self).assets_failed,
    {
        self.devices_failed = sat_add(self.devices_failed, 1);
    }

    /// Whether the whole run finished without any device or asset
    /// failure; the process exit status reflects this.
    pub fn success(&self) -> (r: bool)
        ensures
            r == (self.devices_failed == 0 && self.assets_failed == 0),
    {
        self.devices_failed == 0 && self.assets_failed == 0
    }
}

/// Idempotence: after a run in which every step succeeded, a second run
/// against the unchanged catalog plans nothing but skips, and executing
/// that second plan leaves the manifest unchanged, whatever its
/// outcomes.
pub proof fn lemma_sync_idempotent(
    cat: Seq<(Seq<char>, Container)>,
    accepted: Seq<Container>,
    m0: Seq<Seq<char>>,
    outcomes: Seq<Outcome>,
    outcomes2: Seq<Outcome>,
)
    requires
        outcomes.len() == cat.len(),
        spec_failures(spec_plan(cat, accepted, m0), outcomes).len() == 0,
    ensures
        ({
            let m1 = spec_mark_present(m0, spec_marks(spec_plan(cat, accepted, m0), outcomes));
            &&& forall|k: int|
                0 <= k < cat.len() ==> (#[trigger] spec_plan(cat, accepted, m1)[k]).2
                    == SyncAction::Skip
            &&& spec_mark_present(m1, spec_marks(spec_plan(cat, accepted, m1), outcomes2)) == m1
        }),
{
    let entries = spec_plan(cat, accepted, m0);
    assert(entries.len() == cat.len());
    lemma_no_failures_all_marked(entries, outcomes);
    let marks = spec_marks(entries, outcomes);
    let m1 = spec_mark_present(m0, marks);
    lemma_mark_present_membership(m0, marks);
    assert forall|k: int| 0 <= k < cat.len() implies (#[trigger] spec_plan(cat, accepted, m1)[k]).2
        == SyncAction::Skip by {
        let e = cat[k];
        let d = spec_dest(e.0, e.1, accepted);
        if accepted.len() > 0 {
            if entries[k].2 is Skip {
                assert(m0.contains(d));
            } else {
                lemma_marks_of_entry(entries, outcomes, k);
                assert(marks.contains(d));
            }
            assert(m1.contains(d));
        }
    }
    let entries2 = spec_plan(cat, accepted, m1);
    lemma_all_skip_no_marks(entries2, outcomes2);
    assert(spec_mark_present(m1, spec_marks(entries2, outcomes2)) == m1);
}

/// Manifest self-healing: once the manifest is pruned against the files
/// that still exist on the device, an asset whose destination file
/// vanished is planned again as a copy or a transcode, never skipped.
pub proof fn lemma_self_healing(
    p: Seq<char>,
    c: Container,
    accepted: Seq<Container>,
    m0: Seq<Seq<char>>,
    existing: Seq<Seq<char>>,
)
    requires
        accepted.len() > 0,
        !existing.contains(spec_dest(p, c, accepted)),
    ensures
        !spec_prune(m0, existing).contains(spec_dest(p, c, accepted)),
        accepted.contains(c) ==> spec_action(p, c, accepted, spec_prune(m0, existing))
            == SyncAction::CopyVerbatim,
        !accepted.contains(c) ==> spec_action(p, c, accepted, spec_prune(m0, existing))
            == SyncAction::Transcode(accepted[0]),
{
    lemma_prune_membership(m0, existing);
}

} // verus!
