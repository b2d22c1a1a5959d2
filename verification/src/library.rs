//! Library handling: a named media collection rooted at one location.

use vstd::prelude::*;

use crate::catalog::Catalog;
use crate::config::Config;
use crate::error::{MucoErrorKind, MucoResult};
use crate::media::Container;

verus! {

/// Whether position `i` holds the first library entry named `n`.
pub open spec fn first_library_named(
    libs: Seq<(Seq<char>, Seq<char>)>,
    n: Seq<char>,
    i: int,
) -> bool {
    &&& 0 <= i < libs.len()
    &&& libs[i].0 == n
    &&& forall|j: int| 0 <= j < i ==> (#[trigger] libs[j]).0 != n
}

/// The position of the first library entry named `n`, when one exists.
fn find_library_index(libs: &Vec<crate::config::LibraryEntry>, n: &String) -> (r: Option<usize>)
    ensures
        match r {
            Some(i) => i < libs@.len() && libs@[i as int]@.0 == n@ && (forall|j: int|
                0 <= j < i ==> (#[trigger] libs@[j])@.0 != n@),
            None => forall|j: int| 0 <= j < libs@.len() ==> (#[trigger] libs@[j])@.0 != n@,
        },
{
    let count = libs.len();
    for i in 0..count
        invariant
            count == libs@.len(),
            forall|j: int| 0 <= j < i ==> (#[trigger] libs@[j])@.0 != n@,
    {
        if libs[i].name == *n {
            return Some(i);
        }
    }
    None
}

/// One media collection: its name, its root location and its catalog.
/// The catalog starts empty; the caller attaches what a walk of the
/// location found.
#[derive(Debug)]
pub struct Library {
    name: String,
    location: String,
    sources: Catalog,
}

impl View for Library {
    type V = (Seq<char>, Seq<char>, Seq<(Seq<char>, Container)>);

    closed spec fn view(&self) -> (Seq<char>, Seq<char>, Seq<(Seq<char>, Container)>) {
        (self.name@, self.location@, self.sources@)
    }
}

/// Registers a library in the configuration and hands the updated
/// configuration back; the caller persists it.
pub fn add(conf: Config, name: String, location: String, location_exists: bool) -> (r: MucoResult<
    Config,
>)
    ensures
        match r {
            Ok(c) => c@.0 == conf@.0.push((name@, location@)) && c@.1 == conf@.1,
            Err(e) => e == MucoErrorKind::DuplicateLibrary || e == MucoErrorKind::Nonexistant,
        },
{
    let mut conf = conf;
    match conf.add_library(name, location, location_exists) {
        Ok(()) => Ok(conf),
        Err(e) => Err(e),
    }
}

impl Library {
    /// A library with the given catalog.
    pub fn new(name: String, location: String, sources: Catalog) -> (r: Library)
        ensures
            r@ == (name@, location@, sources@),
    {
        Library { name, location, sources }
    }

    /// The library's name.
    pub fn name(&self) -> (r: &String)
        ensures
            r@ == self@.0,
    {
        &self.name
    }

    /// The library's root location.
    pub fn location(&self) -> (r: &String)
        ensures
            r@ == self@.1,
    {
        &self.location
    }

    /// The library's catalog.
    pub fn source(&self) -> (r: &Catalog)
        ensures
            r@ == self@.2,
    {
        &self.sources
    }

    /// The same library with the given catalog attached.
    pub fn with_sources(self, sources: Catalog) -> (r: Library)
        ensures
            r@ == (self@.0, self@.1, sources@),
    {
        Library { name: self.name, location: self.location, sources }
    }

    /// The selected libraries, each with an empty catalog: the one named
    /// `name`, or every registered library when no name is given. An
    /// unregistered name is an error.
    pub fn get(conf: &Config, name: Option<String>) -> (r: MucoResult<Vec<Library>>)
        ensures
            match r {
                Ok(v) => match name {
                    Some(n) => {
                        &&& v@.len() == 1
                        &&& exists|i: int|
                            first_library_named(conf@.0, n@, i) && v@[0]@ == (
                                (#[trigger] conf@.0[i]).0,
                                conf@.0[i].1,
                                Seq::<(Seq<char>, Container)>::empty(),
                            )
                    },
                    None => {
                        &&& v@.len() == conf@.0.len()
                        &&& forall|i: int|
                            0 <= i < v@.len() ==> (#[trigger] v@[i])@ == (
                                conf@.0[i].0,
                                conf@.0[i].1,
                                Seq::<(Seq<char>, Container)>::empty(),
                            )
                    },
                },
                Err(e) => {
                    &&& e == MucoErrorKind::Nonexistant
                    &&& name matches Some(n) && (forall|i: int|
                        0 <= i < conf@.0.len() ==> (#[trigger] conf@.0[i]).0 != n@)
                },
            },
{
        let libs = conf.get_libraries();
        match name {
            Some(n) => {
                match find_library_index(libs, &n) {
                    Some(i) => {
                        proof {
                            assert(libs@[i as int]@ == conf@.0[i as int]);
                            assert(forall|j: int|
                                0 <= j < i ==> (#[trigger] conf@.0[j]).0 == libs@[j]@.0);
                        }
                        let found = Library {
                            name: libs[i].name.clone(),
                            location: libs[i].location.clone(),
                            sources: Catalog::new(),
                        };
                        let mut v: Vec<Library> = Vec::new();
                        v.push(found);
                        proof {
                            assert(first_library_named(conf@.0, n@, i as int));
                            assert(v@[0]@ == (
                                conf@.0[i as int].0,
                                conf@.0[i as int].1,
                                Seq::<(Seq<char>, Container)>::empty(),
                            ));
                        }
                        Ok(v)
                    },
                    None => {
                        proof {
                            assert(forall|j: int|
                                0 <= j < conf@.0.len() ==> (#[trigger] conf@.0[j]).0 == libs@[j]@.0);
                        }
                        Err(MucoErrorKind::Nonexistant)
                    },
                }
            },
            None => {
                let mut v: Vec<Library> = Vec::new();
                let count = libs.len();
                for i in 0..count
                    invariant
                        count == libs@.len(),
                        count == conf@.0.len(),
                        forall|k: int| 0 <= k < libs@.len() ==> (#[trigger] libs@[k])@ == conf@.0[k],
                        v@.len() == i,
                        forall|k: int|
                            0 <= k < i ==> (#[trigger] v@[k])@ == (
                                conf@.0[k].0,
                                conf@.0[k].1,
                                Seq::<(Seq<char>, Container)>::empty(),
                            ),
                {
                    v.push(
                        Library {
                            name: libs[i].name.clone(),
                            location: libs[i].location.clone(),
                            sources: Catalog::new(),
                        },
                    );
                }
                Ok(v)
            },
        }
    }
}

} // verus!
