//! Device handling: a storage target with its accepted containers and
//! its transfer manifest.

use vstd::prelude::*;

use crate::catalog::Catalog;
use crate::config::{copy_containers, Config, DeviceEntry};
use crate::error::{MucoErrorKind, MucoResult};
use crate::manifest::Manifest;
use crate::media::Container;
use crate::plan::{plan, spec_plan, SyncPlan};

verus! {

/// Whether position `i` holds the first device entry named `n`.
pub open spec fn first_device_named(
    devs: Seq<(Seq<char>, Seq<char>, Option<Seq<char>>, Seq<Container>)>,
    n: Seq<char>,
    i: int,
) -> bool {
    &&& 0 <= i < devs.len()
    &&& devs[i].0 == n
    &&& forall|j: int| 0 <= j < i ==> (#[trigger] devs[j]).0 != n
}

/// The position of the first device entry named `n`, when one exists.
fn find_device_index(devs: &Vec<DeviceEntry>, n: &String) -> (r: Option<usize>)
    ensures
        match r {
            Some(i) => i < devs@.len() && devs@[i as int]@.0 == n@ && (forall|j: int|
                0 <= j < i ==> (#[trigger] devs@[j])@.0 != n@),
            None => forall|j: int| 0 <= j < devs@.len() ==> (#[trigger] devs@[j])@.0 != n@,
        },
{
    let count = devs.len();
    for i in 0..count
        invariant
            count == devs@.len(),
            forall|j: int| 0 <= j < i ==> (#[trigger] devs@[j])@.0 != n@,
    {
        if devs[i].name == *n {
            return Some(i);
        }
    }
    None
}

/// One storage target: its name, root location, an optional excluded
/// path component, the containers it accepts in preference order, and
/// its manifest. The manifest starts empty; the caller attaches what the
/// manifest store loaded.
#[derive(Debug)]
pub struct Device {
    name: String,
    location: String,
    excludes: Option<String>,
    accepted: Vec<Container>,
    manifest: Manifest,
}

impl View for Device {
    type V = (Seq<char>, Seq<char>, Option<Seq<char>>, Seq<Container>, Seq<Seq<char>>);

    closed spec fn view(&self) -> (
        Seq<char>,
        Seq<char>,
        Option<Seq<char>>,
        Seq<Container>,
        Seq<Seq<char>>,
    ) {
        (
            self.name@,
            self.location@,
            match self.excludes {
                Some(ref s) => Some(s@),
                None => None,
            },
            self.accepted@,
            self.manifest@,
        )
    }
}

/// Registers a device in the configuration and hands the updated
/// configuration back; the caller persists it. `format` names the one
/// container the device accepts; an unrecognized name is refused.
pub fn add(
    conf: Config,
    name: String,
    location: String,
    exclude: Option<String>,
    format: String,
    location_exists: bool,
) -> (r: MucoResult<Config>)
    ensures
        match r {
            Ok(c) => {
                &&& Container::spec_classify(format@) is Some
                &&& c@.0 == conf@.0
                &&& c@.1.len() == conf@.1.len() + 1
                &&& c@.1.drop_last() == conf@.1
                &&& c@.1.last().0 == name@
                &&& c@.1.last().1 == location@
                &&& c@.1.last().3 == seq![Container::spec_classify(format@)->Some_0]
            },
            Err(e) => {
                &&& e == MucoErrorKind::Unknown <==> Container::spec_classify(format@) is None
                &&& e == MucoErrorKind::Unknown || e == MucoErrorKind::DuplicateDevice || e
                    == MucoErrorKind::Nonexistant
            },
        },
{
    let container = match Container::try_from(format.as_str()) {
        Ok(c) => c,
        Err(e) => {
            return Err(e);
        },
    };
    let mut accepted: Vec<Container> = Vec::new();
    accepted.push(container);
    proof {
        assert(accepted@ =~= seq![Container::spec_classify(format@)->Some_0]);
    }
    let mut conf = conf;
    match conf.add_device(name, location, exclude, accepted, location_exists) {
        Ok(()) => Ok(conf),
        Err(e) => Err(e),
    }
}

impl Device {
    /// A device with the given accepted containers and manifest.
    pub fn new(
        name: String,
        location: String,
        excludes: Option<String>,
        accepted: Vec<Container>,
        manifest: Manifest,
    ) -> (r: Device)
        ensures
            r@.0 == name@,
            r@.1 == location@,
            r@.2 == match excludes {
                Some(s) => Some(s@),
                None => None::<Seq<char>>,
            },
            r@.3 == accepted@,
            r@.4 == manifest@,
    {
        Device { name, location, excludes, accepted, manifest }
    }

    /// The device's name.
    pub fn name(&self) -> (r: &String)
        ensures
            r@ == self@.0,
    {
        &self.name
    }

    /// The device's root location.
    pub fn location(&self) -> (r: &String)
        ensures
            r@ == self@.1,
    {
        &self.location
    }

    /// The device's manifest: which destination paths are already
    /// materialized on it.
    pub fn source(&self) -> (r: &Manifest)
        ensures
            r@ == self@.4,
    {
        &self.manifest
    }

    /// The device's preferred container: the first it accepts. A device
    /// that accepts nothing has none.
    pub fn format(&self) -> (r: Option<Container>)
        ensures
            r == (if self@.3.len() > 0 {
                Some(self@.3[0])
            } else {
                None::<Container>
            }),
    {
        if self.accepted.len() > 0 {
            Some(self.accepted[0])
        } else {
            None
        }
    }

    /// The containers the device accepts, in preference order.
    pub fn accepted_containers(&self) -> (r: &Vec<Container>)
        ensures
            r@ == self@.3,
    {
        &self.accepted
    }

    /// The same device with the given manifest attached.
    pub fn with_manifest(self, manifest: Manifest) -> (r: Device)
        ensures
            r@ == (self@.0, self@.1, self@.2, self@.3, manifest@),
    {
        Device {
            name: self.name,
            location: self.location,
            excludes: self.excludes,
            accepted: self.accepted,
            manifest,
        }
    }

    /// Prunes the device's manifest against the destination files that
    /// still exist under its root: the self-healing step before
    /// planning.
    pub fn prune_manifest(&mut self, existing: &Vec<String>)
        ensures
            final(self)@.4 == crate::manifest::spec_prune(old(self)@.4, existing.deep_view()),
            final(self)@.0 == old(self)@.0,
            final(self)@.1 == old(self)@.1,
            final(self)@.2 == old(self)@.2,
            final(self)@.3 == old(self)@.3,
    {
        self.manifest.prune(existing);
    }

    /// Reconciles a library catalog against this device.
    pub fn plan(&self, catalog: &Catalog) -> (r: SyncPlan)
        ensures
            r@ == spec_plan(catalog@, self@.3, self@.4),
    {
        plan(catalog, &self.accepted, &self.manifest)
    }

    /// Folds the driver's outcomes for a plan into the device's manifest
    /// and reports what happened.
    pub fn execute(&mut self, plan: &SyncPlan, outcomes: &Vec<crate::executor::Outcome>) -> (r:
        crate::executor::ExecutionReport)
        requires
            outcomes@.len() == plan@.len(),
        ensures
            final(self)@.4 == crate::executor::spec_mark_present(
                old(self)@.4,
                crate::executor::spec_marks(plan@, outcomes@),
            ),
            final(self)@.0 == old(self)@.0,
            final(self)@.1 == old(self)@.1,
            final(self)@.2 == old(self)@.2,
            final(self)@.3 == old(self)@.3,
            r.failures.deep_view() == crate::executor::spec_failures(plan@, outcomes@),
            r.skipped == crate::executor::spec_skipped(plan@),
            r.copied == crate::executor::spec_copied(plan@, outcomes@),
            r.transcoded == crate::executor::spec_transcoded(plan@, outcomes@),
    {
        crate::executor::execute(plan, outcomes, &mut self.manifest)
    }

    /// The selected devices, each with an empty manifest: the one named
    /// `name`, or every registered device when no name is given. An
    /// unregistered name is an error.
    pub fn get(conf: &Config, name: Option<String>) -> (r: MucoResult<Vec<Device>>)
        ensures
            match r {
                Ok(v) => match name {
                    Some(n) => {
                        &&& v@.len() == 1
                        &&& exists|i: int|
                            first_device_named(conf@.1, n@, i) && v@[0]@ == (
                                (#[trigger] conf@.1[i]).0,
                                conf@.1[i].1,
                                conf@.1[i].2,
                                conf@.1[i].3,
                                Seq::<Seq<char>>::empty(),
                            )
                    },
                    None => {
                        &&& v@.len() == conf@.1.len()
                        &&& forall|i: int|
                            0 <= i < v@.len() ==> (#[trigger] v@[i])@ == (
                                conf@.1[i].0,
                                conf@.1[i].1,
                                conf@.1[i].2,
                                conf@.1[i].3,
                                Seq::<Seq<char>>::empty(),
                            )
                    },
                },
                Err(e) => {
                    &&& e == MucoErrorKind::Nonexistant
                    &&& name matches Some(n) && (forall|i: int|
                        0 <= i < conf@.1.len() ==> (#[trigger] conf@.1[i]).0 != n@)
                },
            },
    {
        let devs = conf.get_devices();
        match name {
            Some(n) => {
                match find_device_index(devs, &n) {
                    Some(i) => {
                        proof {
                            assert(devs@[i as int]@ == conf@.1[i as int]);
                            assert(forall|j: int|
                                0 <= j < i ==> (#[trigger] conf@.1[j]).0 == devs@[j]@.0);
                        }
                        let found = Device {
                            name: devs[i].name.clone(),
                            location: devs[i].location.clone(),
                            excludes: match &devs[i].excludes {
                                Some(s) => Some(s.clone()),
                                None => None,
                            },
                            accepted: copy_containers(&devs[i].accepted),
                            manifest: Manifest::new(),
                        };
                        let mut v: Vec<Device> = Vec::new();
                        v.push(found);
                        proof {
                            assert(first_device_named(conf@.1, n@, i as int));
                            assert(v@[0]@ == (
                                conf@.1[i as int].0,
                                conf@.1[i as int].1,
                                conf@.1[i as int].2,
                                conf@.1[i as int].3,
                                Seq::<Seq<char>>::empty(),
                            ));
                        }
                        Ok(v)
                    },
                    None => {
                        proof {
                            assert(forall|j: int|
                                0 <= j < conf@.1.len() ==> (#[trigger] conf@.1[j]).0 == devs@[j]@.0);
                        }
                        Err(MucoErrorKind::Nonexistant)
                    },
                }
            },
            None => {
                let mut v: Vec<Device> = Vec::new();
                let count = devs.len();
                for i in 0..count
                    invariant
                        count == devs@.len(),
                        count == conf@.1.len(),
                        forall|k: int| 0 <= k < devs@.len() ==> (#[trigger] devs@[k])@ == conf@.1[k],
                        v@.len() == i,
                        forall|k: int|
                            0 <= k < i ==> (#[trigger] v@[k])@ == (
                                conf@.1[k].0,
                                conf@.1[k].1,
                                conf@.1[k].2,
                                conf@.1[k].3,
                                Seq::<Seq<char>>::empty(),
                            ),
                {
                    v.push(
                        Device {
                            name: devs[i].name.clone(),
                            location: devs[i].location.clone(),
                            excludes: match &devs[i].excludes {
                                Some(s) => Some(s.clone()),
                                None => None,
                            },
                            accepted: copy_containers(&devs[i].accepted),
                            manifest: Manifest::new(),
                        },
                    );
                }
                Ok(v)
            },
        }
    }
}

} // verus!
