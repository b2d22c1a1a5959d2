//! The registered libraries and devices. Reading and writing the
//! on-disk configuration belongs to the surrounding binary; this module
//! holds the registration rules: no two libraries and no two devices may
//! share a name or a location, and only reachable locations register.

use vstd::prelude::*;

use crate::error::{MucoErrorKind, MucoResult};
use crate::media::Container;
use crate::paths::vec_contains_string;

verus! {

/// One registered library: a name and a root location.
#[derive(Clone, Debug)]
pub struct LibraryEntry {
    pub name: String,
    pub location: String,
}

impl View for LibraryEntry {
    type V = (Seq<char>, Seq<char>);

    open spec fn view(&self) -> (Seq<char>, Seq<char>) {
        (self.name@, self.location@)
    }
}

/// One registered device: a name, a root location, an optional excluded
/// path component, and the containers the device accepts, in preference
/// order.
#[derive(Clone, Debug)]
pub struct DeviceEntry {
    pub name: String,
    pub location: String,
    pub excludes: Option<String>,
    pub accepted: Vec<Container>,
}

impl View for DeviceEntry {
    type V = (Seq<char>, Seq<char>, Option<Seq<char>>, Seq<Container>);

    open spec fn view(&self) -> (Seq<char>, Seq<char>, Option<Seq<char>>, Seq<Container>) {
        (
            self.name@,
            self.location@,
            match self.excludes {
                Some(ref s) => Some(s@),
                None => None,
            },
            self.accepted@,
        )
    }
}

/// Whether a registration under this name or location already exists.
pub open spec fn lib_conflict(libs: Seq<(Seq<char>, Seq<char>)>, name: Seq<char>, location: Seq<char>) -> bool {
    exists|i: int| 0 <= i < libs.len() && ((#[trigger] libs[i]).0 == name || libs[i].1 == location)
}

/// Whether a device under this name or location already exists.
pub open spec fn dev_conflict(
    devs: Seq<(Seq<char>, Seq<char>, Option<Seq<char>>, Seq<Container>)>,
    name: Seq<char>,
    location: Seq<char>,
) -> bool {
    exists|i: int| 0 <= i < devs.len() && ((#[trigger] devs[i]).0 == name || devs[i].1 == location)
}

/// The registered libraries and devices of one user.
#[derive(Clone, Debug)]
pub struct Config {
    libraries: Vec<LibraryEntry>,
    devices: Vec<DeviceEntry>,
}

impl View for Config {
    type V = (Seq<(Seq<char>, Seq<char>)>, Seq<(Seq<char>, Seq<char>, Option<Seq<char>>, Seq<Container>)>);

    closed spec fn view(&self) -> (
        Seq<(Seq<char>, Seq<char>)>,
        Seq<(Seq<char>, Seq<char>, Option<Seq<char>>, Seq<Container>)>,
    ) {
        (
            Seq::new(self.libraries@.len(), |i: int| self.libraries@[i]@),
            Seq::new(self.devices@.len(), |i: int| self.devices@[i]@),
        )
    }
}

impl Config {
    /// A configuration with nothing registered.
    pub fn new() -> (r: Config)
        ensures
            r@.0 == Seq::<(Seq<char>, Seq<char>)>::empty(),
            r@.1 == Seq::<(Seq<char>, Seq<char>, Option<Seq<char>>, Seq<Container>)>::empty(),
    {
        let r = Config { libraries: Vec::new(), devices: Vec::new() };
        proof {
            assert(r@.0 =~= Seq::<(Seq<char>, Seq<char>)>::empty());
            assert(r@.1 =~= Seq::<
                (Seq<char>, Seq<char>, Option<Seq<char>>, Seq<Container>),
            >::empty());
        }
        r
    }

    /// The registered libraries, in registration order.
    pub fn get_libraries(&self) -> (r: &Vec<LibraryEntry>)
        ensures
            r@.len() == self@.0.len(),
            forall|i: int| 0 <= i < r@.len() ==> (#[trigger] r@[i])@ == self@.0[i],
    {
        &self.libraries
    }

    /// The registered devices, in registration order.
    pub fn get_devices(&self) -> (r: &Vec<DeviceEntry>)
        ensures
            r@.len() == self@.1.len(),
            forall|i: int| 0 <= i < r@.len() ==> (#[trigger] r@[i])@ == self@.1[i],
    {
        &self.devices
    }

    /// Registers a library. A second library under an already registered
    /// name or location is refused, as is a location that does not
    /// currently exist (`location_exists` is the caller's answer from
    /// the filesystem).
    pub fn add_library(&mut self, name: String, location: String, location_exists: bool) -> (r:
        MucoResult<()>)
        ensures
            final(self)@.1 == old(self)@.1,
            match r {
                Ok(()) => {
                    &&& !lib_conflict(old(self)@.0, name@, location@)
                    &&& location_exists
                    &&& final(self)@.0 == old(self)@.0.push((name@, location@))
                },
                Err(e) => {
                    &&& final(self)@.0 == old(self)@.0
                    &&& e == MucoErrorKind::DuplicateLibrary <==> lib_conflict(
                        old(self)@.0,
                        name@,
                        location@,
                    )
                    &&& e == MucoErrorKind::Nonexistant <==> !lib_conflict(
                        old(self)@.0,
                        name@,
                        location@,
                    ) && !location_exists
                    &&& e == MucoErrorKind::DuplicateLibrary || e == MucoErrorKind::Nonexistant
                },
            },
    {
        let n = self.libraries.len();
        for i in 0..n
            invariant
                n == self.libraries@.len(),
                forall|j: int|
                    0 <= j < i ==> (#[trigger] self@.0[j]).0 != name@ && self@.0[j].1 != location@,
        {
            if self.libraries[i].name == name || self.libraries[i].location == location {
                proof {
                    assert((self@.0[i as int]).0 == self.libraries@[i as int].name@);
                }
                return Err(MucoErrorKind::DuplicateLibrary);
            }
        }
        if !location_exists {
            return Err(MucoErrorKind::Nonexistant);
        }
        let ghost before = self@.0;
        self.libraries.push(LibraryEntry { name, location });
        proof {
            assert(self@.0 =~= before.push((name@, location@)));
        }
        Ok(())
    }

    /// Registers a device. A second device under an already registered
    /// name or location is refused, as is a location that does not
    /// currently exist.
    pub fn add_device(
        &mut self,
        name: String,
        location: String,
        excludes: Option<String>,
        accepted: Vec<Container>,
        location_exists: bool,
    ) -> (r: MucoResult<()>)
        ensures
            final(self)@.0 == old(self)@.0,
            match r {
                Ok(()) => {
                    &&& !dev_conflict(old(self)@.1, name@, location@)
                    &&& location_exists
                    &&& final(self)@.1.len() == old(self)@.1.len() + 1
                    &&& final(self)@.1.drop_last() == old(self)@.1
                    &&& final(self)@.1.last().0 == name@
                    &&& final(self)@.1.last().1 == location@
                    &&& final(self)@.1.last().2 == match excludes {
                        Some(s) => Some(s@),
                        None => None::<Seq<char>>,
                    }
                    &&& final(self)@.1.last().3 == accepted@
                },
                Err(e) => {
                    &&& final(self)@.1 == old(self)@.1
                    &&& e == MucoErrorKind::DuplicateDevice <==> dev_conflict(
                        old(self)@.1,
                        name@,
                        location@,
                    )
                    &&& e == MucoErrorKind::Nonexistant <==> !dev_conflict(
                        old(self)@.1,
                        name@,
                        location@,
                    ) && !location_exists
                    &&& e == MucoErrorKind::DuplicateDevice || e == MucoErrorKind::Nonexistant
                },
            },
    {
        let n = self.devices.len();
        for i in 0..n
            invariant
                n == self.devices@.len(),
                forall|j: int|
                    0 <= j < i ==> (#[trigger] self@.1[j]).0 != name@ && self@.1[j].1 != location@,
        {
            if self.devices[i].name == name || self.devices[i].location == location {
                proof {
                    assert((self@.1[i as int]).0 == self.devices@[i as int].name@);
                }
                return Err(MucoErrorKind::DuplicateDevice);
            }
        }
        if !location_exists {
            return Err(MucoErrorKind::Nonexistant);
        }
        let ghost before = self@.1;
        self.devices.push(DeviceEntry { name, location, excludes, accepted });
        proof {
            assert(self@.1.drop_last() =~= before);
        }
        Ok(())
    }

    /// Keeps only the libraries and devices whose location is currently
    /// reachable; `existing` is the caller's answer from the filesystem.
    pub fn get_online(self, existing: &Vec<String>) -> (r: Config)
        ensures
            r@.0 == spec_online_libraries(self@.0, existing.deep_view()),
            r@.1 == spec_online_devices(self@.1, existing.deep_view()),
    {
        let ghost exd = existing.deep_view();
        let ghost libs0 = self@.0;
        let ghost devs0 = self@.1;
        let mut libraries: Vec<LibraryEntry> = Vec::new();
        let mut devices: Vec<DeviceEntry> = Vec::new();
        let Config { libraries: my_libs, devices: my_devs } = self;
        let nl = my_libs.len();
        for i in 0..nl
            invariant
                nl == my_libs@.len(),
                libs0 == Seq::new(my_libs@.len(), |j: int| my_libs@[j]@),
                exd == existing.deep_view(),
                Seq::new(libraries@.len(), |j: int| libraries@[j]@) == spec_online_libraries(
                    libs0.take(i as int),
                    exd,
                ),
        {
            proof {
                assert(libs0.take(i + 1).drop_last() =~= libs0.take(i as int));
                assert(libs0.take(i + 1).last() == libs0[i as int]);
            }
            if vec_contains_string(existing, &my_libs[i].location) {
                let ghost before = Seq::new(libraries@.len(), |j: int| libraries@[j]@);
                let kept = LibraryEntry {
                    name: my_libs[i].name.clone(),
                    location: my_libs[i].location.clone(),
                };
                libraries.push(kept);
                proof {
                    assert(Seq::new(libraries@.len(), |j: int| libraries@[j]@) =~= before.push(
                        libs0[i as int],
                    ));
                }
            }
        }
        let nd = my_devs.len();
        for i in 0..nd
            invariant
                nd == my_devs@.len(),
                devs0 == Seq::new(my_devs@.len(), |j: int| my_devs@[j]@),
                exd == existing.deep_view(),
                Seq::new(devices@.len(), |j: int| devices@[j]@) == spec_online_devices(
                    devs0.take(i as int),
                    exd,
                ),
        {
            proof {
                assert(devs0.take(i + 1).drop_last() =~= devs0.take(i as int));
                assert(devs0.take(i + 1).last() == devs0[i as int]);
            }
            if vec_contains_string(existing, &my_devs[i].location) {
                let ghost before = Seq::new(devices@.len(), |j: int| devices@[j]@);
                let kept = DeviceEntry {
                    name: my_devs[i].name.clone(),
                    location: my_devs[i].location.clone(),
                    excludes: match &my_devs[i].excludes {
                        Some(s) => Some(s.clone()),
                        None => None,
                    },
                    accepted: copy_containers(&my_devs[i].accepted),
                };
                devices.push(kept);
                proof {
                    assert(Seq::new(devices@.len(), |j: int| devices@[j]@) =~= before.push(
                        devs0[i as int],
                    ));
                }
            }
        }
        proof {
            assert(libs0.take(nl as int) =~= libs0);
            assert(devs0.take(nd as int) =~= devs0);
        }
        Config { libraries, devices }
    }
}

/// The libraries whose location is in `existing`, in order.
pub open spec fn spec_online_libraries(
    libs: Seq<(Seq<char>, Seq<char>)>,
    existing: Seq<Seq<char>>,
) -> Seq<(Seq<char>, Seq<char>)>
    decreases libs.len(),
{
    if libs.len() == 0 {
        Seq::empty()
    } else {
        let rest = spec_online_libraries(libs.drop_last(), existing);
        if existing.contains(libs.last().1) {
            rest.push(libs.last())
        } else {
            rest
        }
    }
}

/// The devices whose location is in `existing`, in order.
pub open spec fn spec_online_devices(
    devs: Seq<(Seq<char>, Seq<char>, Option<Seq<char>>, Seq<Container>)>,
    existing: Seq<Seq<char>>,
) -> Seq<(Seq<char>, Seq<char>, Option<Seq<char>>, Seq<Container>)>
    decreases devs.len(),
{
    if devs.len() == 0 {
        Seq::empty()
    } else {
        let rest = spec_online_devices(devs.drop_last(), existing);
        if existing.contains(devs.last().1) {
            rest.push(devs.last())
        } else {
            rest
        }
    }
}

/// A copy of a container list.
pub fn copy_containers(v: &Vec<Container>) -> (r: Vec<Container>)
    ensures
        r@ == v@,
{
    let mut out: Vec<Container> = Vec::new();
    let n = v.len();
    for i in 0..n
        invariant
            n == v@.len(),
            out@ == v@.take(i as int),
    {
        out.push(v[i]);
        proof {
            assert(out@ =~= v@.take(i + 1));
        }
    }
    proof {
        assert(v@.take(n as int) =~= v@);
    }
    out
}

} // verus!
