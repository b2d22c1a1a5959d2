//! The reconciliation planner: deciding, per asset, whether to skip,
//! copy verbatim or transcode, and to which destination path.

use vstd::prelude::*;

use crate::catalog::Catalog;
use crate::manifest::Manifest;
use crate::media::Container;
use crate::paths::{replace_extension, replace_extension_str};

verus! {

/// What the executor must do for one asset.
#[derive(Copy, Clone, Debug, PartialEq, Eq, Structural)]
pub enum SyncAction {
    /// The asset is already materialized on the device.
    Skip,
    /// The asset's container is accepted by the device: copy the bytes
    /// unchanged.
    CopyVerbatim,
    /// Convert the asset into the given container before placing it.
    Transcode(Container),
}

/// One planned step: the source asset, the action, and the destination
/// path relative to the device root.
#[derive(Clone, Debug)]
pub struct PlanEntry {
    pub path: String,
    pub container: Container,
    pub action: SyncAction,
    pub dest: String,
}

impl View for PlanEntry {
    type V = (Seq<char>, Container, SyncAction, Seq<char>);

    open spec fn view(&self) -> (Seq<char>, Container, SyncAction, Seq<char>) {
        (self.path@, self.container, self.action, self.dest@)
    }
}

/// The destination path of an asset: unchanged when the device accepts
/// its container (or accepts nothing), else the source path with its
/// extension rewritten to the device's preferred container.
pub open spec fn spec_dest(p: Seq<char>, c: Container, accepted: Seq<Container>) -> Seq<char> {
    if accepted.len() == 0 || accepted.contains(c) {
        p
    } else {
        replace_extension(p, accepted[0].spec_extension())
    }
}

/// The action planned for an asset: `Skip` when the device accepts no
/// container at all or the destination is already materialized;
/// otherwise copy when the source container is accepted, else transcode
/// to the first accepted container.
pub open spec fn spec_action(
    p: Seq<char>,
    c: Container,
    accepted: Seq<Container>,
    m: Seq<Seq<char>>,
) -> SyncAction {
    if accepted.len() == 0 {
        SyncAction::Skip
    } else if m.contains(spec_dest(p, c, accepted)) {
        SyncAction::Skip
    } else if accepted.contains(c) {
        SyncAction::CopyVerbatim
    } else {
        SyncAction::Transcode(accepted[0])
    }
}

/// The planned step for one catalog entry.
pub open spec fn spec_plan_entry(
    e: (Seq<char>, Container),
    accepted: Seq<Container>,
    m: Seq<Seq<char>>,
) -> (Seq<char>, Container, SyncAction, Seq<char>) {
    (e.0, e.1, spec_action(e.0, e.1, accepted, m), spec_dest(e.0, e.1, accepted))
}

/// The plan for a whole catalog, in catalog order.
pub open spec fn spec_plan(
    cat: Seq<(Seq<char>, Container)>,
    accepted: Seq<Container>,
    m: Seq<Seq<char>>,
) -> Seq<(Seq<char>, Container, SyncAction, Seq<char>)> {
    cat.map_values(|e: (Seq<char>, Container)| spec_plan_entry(e, accepted, m))
}

/// The ordered steps reconciling one library catalog against one device.
#[derive(Clone, Debug)]
pub struct SyncPlan {
    entries: Vec<PlanEntry>,
}

impl View for SyncPlan {
    type V = Seq<(Seq<char>, Container, SyncAction, Seq<char>)>;

    closed spec fn view(&self) -> Seq<(Seq<char>, Container, SyncAction, Seq<char>)> {
        Seq::new(self.entries@.len(), |i: int| self.entries@[i]@)
    }
}

/// Whether `v` holds the container `c`.
pub fn contains_container(v: &Vec<Container>, c: Container) -> (r: bool)
    ensures
        r == v@.contains(c),
{
    let n = v.len();
    for i in 0..n
        invariant
            n == v@.len(),
            forall|j: int| 0 <= j < i ==> v@[j] != c,
    {
        if v[i] == c {
            return true;
        }
    }
    false
}

impl SyncPlan {
    /// The number of planned steps.
    pub fn len(&self) -> (r: usize)
        ensures
            r == self@.len(),
    {
        self.entries.len()
    }

    /// The planned step at position `i`.
    pub fn entry(&self, i: usize) -> (r: &PlanEntry)
        requires
            i < self@.len(),
        ensures
            r@ == self@[i as int],
    {
        &self.entries[i]
    }
}

/// Reconciles a library catalog against a device's accepted containers
/// and manifest: one step per cataloged asset, in catalog order.
pub fn plan(catalog: &Catalog, accepted: &Vec<Container>, manifest: &Manifest) -> (r: SyncPlan)
    ensures
        r@ == spec_plan(catalog@, accepted@, manifest@),
{
    let mut entries: Vec<PlanEntry> = Vec::new();
    let n = catalog.len();
    for i in 0..n
        invariant
            n == catalog@.len(),
            Seq::new(entries@.len(), |j: int| entries@[j]@) == spec_plan(
                catalog@.take(i as int),
                accepted@,
                manifest@,
            ),
    {
        let a = catalog.asset(i);
        let dest: String = if accepted.len() == 0 {
            a.path.clone()
        } else if contains_container(accepted, a.container) {
            a.path.clone()
        } else {
            replace_extension_str(a.path.as_str(), accepted[0].extension())
        };
        let action: SyncAction = if accepted.len() == 0 {
            SyncAction::Skip
        } else if manifest.contains(&dest) {
            SyncAction::Skip
        } else if contains_container(accepted, a.container) {
            SyncAction::CopyVerbatim
        } else {
            SyncAction::Transcode(accepted[0])
        };
        let ghost before = Seq::new(entries@.len(), |j: int| entries@[j]@);
        entries.push(PlanEntry { path: a.path.clone(), container: a.container, action, dest });
        proof {
            assert(Seq::new(entries@.len(), |j: int| entries@[j]@) =~= before.push(
                spec_plan_entry(catalog@[i as int], accepted@, manifest@),
            ));
            assert(catalog@.take(i + 1).map_values(
                |e: (Seq<char>, Container)| spec_plan_entry(e, accepted@, manifest@),
            ) =~= catalog@.take(i as int).map_values(
                |e: (Seq<char>, Container)| spec_plan_entry(e, accepted@, manifest@),
            ).push(spec_plan_entry(catalog@[i as int], accepted@, manifest@)));
        }
    }
    proof {
        assert(catalog@.take(n as int) =~= catalog@);
    }
    SyncPlan { entries }
}

/// Copy-vs-transcode correctness: an asset whose destination is not yet
/// materialized is copied verbatim exactly when the device accepts its
/// container, and otherwise transcoded to the first accepted container.
pub proof fn lemma_copy_vs_transcode(
    p: Seq<char>,
    c: Container,
    accepted: Seq<Container>,
    m: Seq<Seq<char>>,
)
    requires
        accepted.len() > 0,
        !m.contains(spec_dest(p, c, accepted)),
    ensures
        accepted.contains(c) ==> spec_action(p, c, accepted, m) == SyncAction::CopyVerbatim,
        !accepted.contains(c) ==> spec_action(p, c, accepted, m) == SyncAction::Transcode(
            accepted[0],
        ),
{
}

/// Destination path correctness: a copied asset keeps its relative path
/// exactly; a transcoded asset keeps it with the extension rewritten to
/// the target container's canonical extension.
pub proof fn lemma_destination_path(
    p: Seq<char>,
    c: Container,
    accepted: Seq<Container>,
    m: Seq<Seq<char>>,
)
    ensures
        spec_action(p, c, accepted, m) == SyncAction::CopyVerbatim ==> spec_dest(p, c, accepted)
            == p,
        forall|t: Container|
            spec_action(p, c, accepted, m) == SyncAction::Transcode(t) ==> spec_dest(p, c, accepted)
                == replace_extension(p, t.spec_extension()),
{
}

} // verus!
