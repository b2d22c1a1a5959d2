//! The transfer executor's accounting. The surrounding driver performs
//! the filesystem copies and encoder invocations that a plan step asks
//! for and reports one outcome per step; this module decides what each
//! step asks for and folds the outcomes into the manifest and a report.
//! Every step is independent: its effect is a function of its own entry
//! and outcome alone, which is what keeps failures isolated.

use vstd::prelude::*;

use crate::manifest::{spec_insert, Manifest};
use crate::media::Container;
use crate::plan::{PlanEntry, SyncAction, SyncPlan};

verus! {

/// A planned step, in spec form: source path, source container, action,
/// destination path.
pub type PlanStep = (Seq<char>, Container, SyncAction, Seq<char>);

/// Whether the encoder collaborator can produce the container.
pub open spec fn supported_target(t: Container) -> bool {
    t == Container::Mp3 || t == Container::Flac
}

/// Whether the encoder collaborator can produce the container. Only
/// lossy-to-mp3 and lossless-to-flac encodes are available.
pub fn is_supported_target(t: Container) -> (r: bool)
    ensures
        r == supported_target(t),
{
    match t {
        Container::Mp3 => true,
        Container::Flac => true,
        Container::Webm => false,
    }
}

/// What the driver must do for one plan step before reporting its
/// outcome.
#[derive(Copy, Clone, Debug, PartialEq, Eq, Structural)]
pub enum Directive {
    /// Nothing: the step is a skip, or asks for an unsupported target
    /// (which the executor reports as a failure by itself).
    Nothing,
    /// Copy the bytes of the source file to the destination path,
    /// creating parent directories as needed.
    CopyFile,
    /// Ensure parent directories exist, then encode the source into the
    /// given container at the destination path, unless the destination
    /// file already exists.
    Encode(Container),
}

/// The directive a plan step asks for.
pub open spec fn spec_directive(e: PlanStep) -> Directive {
    match e.2 {
        SyncAction::Skip => Directive::Nothing,
        SyncAction::CopyVerbatim => Directive::CopyFile,
        SyncAction::Transcode(t) => if supported_target(t) {
            Directive::Encode(t)
        } else {
            Directive::Nothing
        },
    }
}

/// What the driver must do for this plan step.
pub fn entry_directive(e: &PlanEntry) -> (r: Directive)
    ensures
        r == spec_directive(e@),
{
    match e.action {
        SyncAction::Skip => Directive::Nothing,
        SyncAction::CopyVerbatim => Directive::CopyFile,
        SyncAction::Transcode(t) => if is_supported_target(t) {
            Directive::Encode(t)
        } else {
            Directive::Nothing
        },
    }
}

/// What the driver reports back for one plan step.
#[derive(Clone, Debug)]
pub enum Outcome {
    /// The directive completed.
    Completed,
    /// The destination file already existed, so nothing was done; the
    /// asset counts as materialized.
    AlreadyPresent,
    /// The copy or encode failed; the message says why.
    Failed(String),
}

/// Why one asset failed.
#[derive(Copy, Clone, Debug, PartialEq, Eq, Structural)]
pub enum FailureKind {
    /// The byte-for-byte copy failed.
    CopyFailed,
    /// The encoder invocation failed.
    EncodeFailed,
    /// The plan asked for a transcode target the encoder cannot produce.
    TranscodeUnsupported,
}

/// One asset's recorded failure.
#[derive(Clone, Debug)]
pub struct Failure {
    /// The source path of the asset that failed.
    pub path: String,
    /// Why it failed.
    pub kind: FailureKind,
    /// The driver's message, or a fixed note for an unsupported target.
    pub detail: String,
}

impl View for Failure {
    type V = (Seq<char>, FailureKind, Seq<char>);

    open spec fn view(&self) -> (Seq<char>, FailureKind, Seq<char>) {
        (self.path@, self.kind, self.detail@)
    }
}

impl DeepView for Failure {
    type V = (Seq<char>, FailureKind, Seq<char>);

    open spec fn deep_view(&self) -> (Seq<char>, FailureKind, Seq<char>) {
        self@
    }
}

/// Whether the step leaves its destination materialized: a skip never
/// does (it already was), and any other step does exactly when the
/// target is producible and the outcome is not a failure.
pub open spec fn entry_marks(e: PlanStep, o: Outcome) -> bool {
    match e.2 {
        SyncAction::Skip => false,
        SyncAction::CopyVerbatim => !(o is Failed),
        SyncAction::Transcode(t) => supported_target(t) && !(o is Failed),
    }
}

/// The failure one step records, if any. A step that asks for an
/// unsupported transcode target fails by itself, whatever the driver
/// reports.
pub open spec fn entry_failure(e: PlanStep, o: Outcome) -> Option<
    (Seq<char>, FailureKind, Seq<char>),
> {
    match e.2 {
        SyncAction::Skip => None,
        SyncAction::CopyVerbatim => match o {
            Outcome::Failed(msg) => Some((e.0, FailureKind::CopyFailed, msg@)),
            _ => None,
        },
        SyncAction::Transcode(t) => if !supported_target(t) {
            Some((e.0, FailureKind::TranscodeUnsupported, "unsupported transcode target"@))
        } else {
            match o {
                Outcome::Failed(msg) => Some((e.0, FailureKind::EncodeFailed, msg@)),
                _ => None,
            }
        },
    }
}

/// The destination paths the steps leave materialized, in plan order.
pub open spec fn spec_marks(entries: Seq<PlanStep>, outcomes: Seq<Outcome>) -> Seq<Seq<char>>
    decreases entries.len(),
{
    if entries.len() == 0 {
        Seq::empty()
    } else {
        let rest = spec_marks(entries.drop_last(), outcomes.drop_last());
        if entry_marks(entries.last(), outcomes.last()) {
            rest.push(entries.last().3)
        } else {
            rest
        }
    }
}

/// The failures the steps record, in plan order.
pub open spec fn spec_failures(entries: Seq<PlanStep>, outcomes: Seq<Outcome>) -> Seq<
    (Seq<char>, FailureKind, Seq<char>),
>
    decreases entries.len(),
{
    if entries.len() == 0 {
        Seq::empty()
    } else {
        let rest = spec_failures(entries.drop_last(), outcomes.drop_last());
        match entry_failure(entries.last(), outcomes.last()) {
            Some(f) => rest.push(f),
            None => rest,
        }
    }
}

/// How many steps were skips.
pub open spec fn spec_skipped(entries: Seq<PlanStep>) -> nat
    decreases entries.len(),
{
    if entries.len() == 0 {
        0
    } else {
        spec_skipped(entries.drop_last()) + (if entries.last().2 is Skip {
            1nat
        } else {
            0nat
        })
    }
}

/// How many steps copied their asset.
pub open spec fn spec_copied(entries: Seq<PlanStep>, outcomes: Seq<Outcome>) -> nat
    decreases entries.len(),
{
    if entries.len() == 0 {
        0
    } else {
        spec_copied(entries.drop_last(), outcomes.drop_last()) + (if entries.last().2
            is CopyVerbatim && !(outcomes.last() is Failed) {
            1nat
        } else {
            0nat
        })
    }
}

/// How many steps transcoded their asset (or found it already encoded).
pub open spec fn spec_transcoded(entries: Seq<PlanStep>, outcomes: Seq<Outcome>) -> nat
    decreases entries.len(),
{
    if entries.len() == 0 {
        0
    } else {
        spec_transcoded(entries.drop_last(), outcomes.drop_last()) + (
        if entry_marks(entries.last(), outcomes.last()) && entries.last().2 is Transcode {
            1nat
        } else {
            0nat
        })
    }
}

/// The manifest after recording the marked destinations, in order,
/// ignoring those already present.
pub open spec fn spec_mark_present(m: Seq<Seq<char>>, marks: Seq<Seq<char>>) -> Seq<Seq<char>>
    decreases marks.len(),
{
    if marks.len() == 0 {
        m
    } else {
        spec_insert(spec_mark_present(m, marks.drop_last()), marks.last())
    }
}

/// Recording marks adds exactly the marked paths: a path is present
/// afterwards if and only if it was present before or was marked.
pub proof fn lemma_mark_present_membership(m: Seq<Seq<char>>, marks: Seq<Seq<char>>)
    ensures
        forall|p: Seq<char>|
            #[trigger] spec_mark_present(m, marks).contains(p) <==> m.contains(p)
                || marks.contains(p),
    decreases marks.len(),
{
    broadcast use vstd::seq_lib::group_seq_properties;

    if marks.len() > 0 {
        lemma_mark_present_membership(m, marks.drop_last());
        assert forall|p: Seq<char>| #[trigger] marks.contains(p)
            implies marks.drop_last().contains(p) || p == marks.last() by {
            let i = choose|i: int| 0 <= i < marks.len() && marks[i] == p;
            if i < marks.len() - 1 {
                assert(marks.drop_last()[i] == p);
            }
        }
        assert(marks.contains(marks.last()));
        let rest = spec_mark_present(m, marks.drop_last());
        if !rest.contains(marks.last()) {
            assert forall|p: Seq<char>|
                #[trigger] spec_mark_present(m, marks).contains(p) <==> rest.contains(p) || p
                    == marks.last() by {
                assert(rest.push(marks.last()).contains(p) <==> marks.last() == p || rest.contains(
                    p,
                ));
            }
        }
    }
}

/// A step that marks its destination has it in the marks, wherever it
/// stands in the plan.
pub proof fn lemma_marks_of_entry(entries: Seq<PlanStep>, outcomes: Seq<Outcome>, j: int)
    requires
        outcomes.len() == entries.len(),
        0 <= j < entries.len(),
        entry_marks(entries[j], outcomes[j]),
    ensures
        spec_marks(entries, outcomes).contains(entries[j].3),
    decreases entries.len(),
{
    broadcast use vstd::seq_lib::group_seq_properties;

    if j == entries.len() - 1 {
        let rest = spec_marks(entries.drop_last(), outcomes.drop_last());
        assert(rest.push(entries.last().3)[rest.len() as int] == entries[j].3);
    } else {
        assert(entries.drop_last()[j] == entries[j]);
        assert(outcomes.drop_last()[j] == outcomes[j]);
        lemma_marks_of_entry(entries.drop_last(), outcomes.drop_last(), j);
    }
}

/// Failure isolation: a step that succeeded has its destination in the
/// updated manifest, whatever happened to every other step of the plan.
pub proof fn lemma_failure_isolation(
    entries: Seq<PlanStep>,
    outcomes: Seq<Outcome>,
    m: Seq<Seq<char>>,
    j: int,
)
    requires
        outcomes.len() == entries.len(),
        0 <= j < entries.len(),
        entry_marks(entries[j], outcomes[j]),
    ensures
        spec_mark_present(m, spec_marks(entries, outcomes)).contains(entries[j].3),
{
    lemma_marks_of_entry(entries, outcomes, j);
    lemma_mark_present_membership(m, spec_marks(entries, outcomes));
}

/// A run without recorded failures left no step behind: every non-skip
/// step marked its destination.
pub proof fn lemma_no_failures_all_marked(entries: Seq<PlanStep>, outcomes: Seq<Outcome>)
    requires
        outcomes.len() == entries.len(),
        spec_failures(entries, outcomes).len() == 0,
    ensures
        forall|k: int|
            0 <= k < entries.len() ==> (entries[k].2 is Skip || entry_marks(
                entries[k],
                #[trigger] outcomes[k],
            )),
    decreases entries.len(),
{
    if entries.len() > 0 {
        lemma_no_failures_all_marked(entries.drop_last(), outcomes.drop_last());
        assert forall|k: int| 0 <= k < entries.len() - 1 implies entries.drop_last()[k]
            == entries[k] && outcomes.drop_last()[k] == outcomes[k] by {}
    }
}

/// No step goes unaccounted: each one is a skip, marks its destination,
/// or records a failure.
pub proof fn lemma_every_step_accounted(e: PlanStep, o: Outcome)
    ensures
        e.2 is Skip || entry_marks(e, o) || entry_failure(e, o) is Some,
{
}

/// The report's counters partition the plan: skips, copies, transcodes
/// and failures add up to exactly the number of steps.
pub proof fn lemma_report_accounts_every_step(entries: Seq<PlanStep>, outcomes: Seq<Outcome>)
    requires
        outcomes.len() == entries.len(),
    ensures
        spec_skipped(entries) + spec_copied(entries, outcomes) + spec_transcoded(entries, outcomes)
            + spec_failures(entries, outcomes).len() == entries.len(),
    decreases entries.len(),
{
    if entries.len() > 0 {
        lemma_report_accounts_every_step(entries.drop_last(), outcomes.drop_last());
    }
}

/// A plan of skips marks nothing, whatever the outcomes say.
pub proof fn lemma_all_skip_no_marks(entries: Seq<PlanStep>, outcomes: Seq<Outcome>)
    requires
        forall|k: int| 0 <= k < entries.len() ==> (#[trigger] entries[k]).2 is Skip,
    ensures
        spec_marks(entries, outcomes) == Seq::<Seq<char>>::empty(),
    decreases entries.len(),
{
    if entries.len() > 0 {
        assert(forall|k: int|
            0 <= k < entries.len() - 1 ==> (#[trigger] entries.drop_last()[k]) == entries[k]);
        lemma_all_skip_no_marks(entries.drop_last(), outcomes.drop_last());
        assert(entries[entries.len() - 1].2 is Skip);
    }
}

/// The accumulated result of running one plan against one device.
#[derive(Debug)]
pub struct ExecutionReport {
    /// Steps that were already materialized.
    pub skipped: usize,
    /// Assets copied verbatim (or found already copied).
    pub copied: usize,
    /// Assets transcoded (or found already transcoded).
    pub transcoded: usize,
    /// The per-asset failures, in plan order.
    pub failures: Vec<Failure>,
}

impl ExecutionReport {
    /// How many steps failed.
    pub fn failed(&self) -> (r: usize)
        ensures
            r == self.failures@.len(),
    {
        self.failures.len()
    }

    /// Whether the run completed without a single asset failure.
    pub fn is_clean(&self) -> (r: bool)
        ensures
            r == (self.failures@.len() == 0),
    {
        self.failures.len() == 0
    }
}

/// Folds the driver's outcomes into the manifest and a report. Exactly
/// the non-skip steps with a producible target and a non-failure outcome
/// mark their destination present; every failure is recorded with its
/// cause; nothing else changes.
pub fn execute(plan: &SyncPlan, outcomes: &Vec<Outcome>, manifest: &mut Manifest) -> (r:
    ExecutionReport)
    requires
        outcomes@.len() == plan@.len(),
    ensures
        final(manifest)@ == spec_mark_present(old(manifest)@, spec_marks(plan@, outcomes@)),
        r.failures.deep_view() == spec_failures(plan@, outcomes@),
        r.skipped == spec_skipped(plan@),
        r.copied == spec_copied(plan@, outcomes@),
        r.transcoded == spec_transcoded(plan@, outcomes@),
{
    let ghost m0 = manifest@;
    let ghost pe = plan@;
    let ghost po = outcomes@;
    let mut skipped: usize = 0;
    let mut copied: usize = 0;
    let mut transcoded: usize = 0;
    let mut failures: Vec<Failure> = Vec::new();
    let n = plan.len();
    for i in 0..n
        invariant
            n == pe.len(),
            pe == plan@,
            po == outcomes@,
            po.len() == pe.len(),
            manifest@ == spec_mark_present(m0, spec_marks(pe.take(i as int), po.take(i as int))),
            failures.deep_view() == spec_failures(pe.take(i as int), po.take(i as int)),
            skipped == spec_skipped(pe.take(i as int)),
            copied == spec_copied(pe.take(i as int), po.take(i as int)),
            transcoded == spec_transcoded(pe.take(i as int), po.take(i as int)),
            skipped <= i && copied <= i && transcoded <= i,
    {
        proof {
            assert(pe.take(i + 1).drop_last() =~= pe.take(i as int));
            assert(po.take(i + 1).drop_last() =~= po.take(i as int));
            assert(pe.take(i + 1).last() == pe[i as int]);
            assert(po.take(i + 1).last() == po[i as int]);
        }
        let e = plan.entry(i);
        let ghost failures_before = failures.deep_view();
        match e.action {
            SyncAction::Skip => {
                skipped = skipped + 1;
            },
            SyncAction::CopyVerbatim => {
                match &outcomes[i] {
                    Outcome::Failed(msg) => {
                        failures.push(
                            Failure {
                                path: e.path.clone(),
                                kind: FailureKind::CopyFailed,
                                detail: msg.clone(),
                            },
                        );
                        proof {
                            assert(failures.deep_view() =~= failures_before.push(
                                entry_failure(pe[i as int], po[i as int])->Some_0,
                            ));
                        }
                    },
                    _ => {
                        manifest.insert(e.dest.clone());
                        copied = copied + 1;
                    },
                }
            },
            SyncAction::Transcode(t) => {
                if !is_supported_target(t) {
                    failures.push(
                        Failure {
                            path: e.path.clone(),
                            kind: FailureKind::TranscodeUnsupported,
                            detail: "unsupported transcode target".to_owned(),
                        },
                    );
                    proof {
                        assert(failures.deep_view() =~= failures_before.push(
                            entry_failure(pe[i as int], po[i as int])->Some_0,
                        ));
                    }
                } else {
                    match &outcomes[i] {
                        Outcome::Failed(msg) => {
                            failures.push(
                                Failure {
                                    path: e.path.clone(),
                                    kind: FailureKind::EncodeFailed,
                                    detail: msg.clone(),
                                },
                            );
                            proof {
                                assert(failures.deep_view() =~= failures_before.push(
                                    entry_failure(pe[i as int], po[i as int])->Some_0,
                                ));
                            }
                        },
                        _ => {
                            manifest.insert(e.dest.clone());
                            transcoded = transcoded + 1;
                        },
                    }
                }
            },
        }
        proof {
            if entry_marks(pe[i as int], po[i as int]) {
                let marks1 = spec_marks(pe.take(i + 1), po.take(i + 1));
                assert(marks1.drop_last() =~= spec_marks(pe.take(i as int), po.take(i as int)));
                assert(marks1.last() == pe[i as int].3);
            }
        }
    }
    proof {
        assert(pe.take(n as int) =~= pe);
        assert(po.take(n as int) =~= po);
    }
    ExecutionReport { skipped, copied, transcoded, failures }
}

} // verus!
