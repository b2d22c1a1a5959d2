//! The asset catalog: classifying the files found under one root.

use vstd::prelude::*;

use crate::media::Container;
use crate::paths::{excluded, extension_of, extension_str, hidden, is_excluded, is_hidden};

verus! {

/// One cataloged file: a relative path and the container its extension
/// names.
#[derive(Clone, Debug)]
pub struct MediaAsset {
    pub path: String,
    pub container: Container,
}

impl View for MediaAsset {
    type V = (Seq<char>, Container);

    open spec fn view(&self) -> (Seq<char>, Container) {
        (self.path@, self.container)
    }
}

/// The container a path's extension names, if any.
pub open spec fn path_container(p: Seq<char>) -> Option<Container> {
    match extension_of(p) {
        Some(e) => Container::spec_classify(e),
        None => None,
    }
}

/// The catalog entry one walked file contributes: nothing when the file
/// is hidden, has an excluded component or names no known container.
pub open spec fn catalog_entry(p: Seq<char>, ex: Seq<Seq<char>>) -> Option<
    (Seq<char>, Container),
> {
    if hidden(p) || excluded(p, ex) {
        None
    } else {
        match path_container(p) {
            Some(c) => Some((p, c)),
            None => None,
        }
    }
}

/// The catalog the walked files produce, in first-seen order.
pub open spec fn spec_catalog(files: Seq<Seq<char>>, ex: Seq<Seq<char>>) -> Seq<
    (Seq<char>, Container),
>
    decreases files.len(),
{
    if files.len() == 0 {
        Seq::empty()
    } else {
        let rest = spec_catalog(files.drop_last(), ex);
        match catalog_entry(files.last(), ex) {
            Some(e) => rest.push(e),
            None => rest,
        }
    }
}

/// Every cataloged entry is visible (not hidden, not excluded) and its
/// container is the one its path names.
pub proof fn lemma_catalog_entries(files: Seq<Seq<char>>, ex: Seq<Seq<char>>)
    ensures
        forall|i: int|
            0 <= i < spec_catalog(files, ex).len() ==> {
                let e = #[trigger] spec_catalog(files, ex)[i];
                &&& !hidden(e.0)
                &&& !excluded(e.0, ex)
                &&& path_container(e.0) == Some(e.1)
                &&& files.contains(e.0)
            },
    decreases files.len(),
{
    if files.len() > 0 {
        lemma_catalog_entries(files.drop_last(), ex);
        assert(forall|p: Seq<char>|
            files.drop_last().contains(p) ==> files.contains(p));
    }
}

/// Distinct files give a catalog with distinct paths: the catalog is a
/// mapping from relative path to container.
pub proof fn lemma_catalog_paths_unique(files: Seq<Seq<char>>, ex: Seq<Seq<char>>)
    requires
        files.no_duplicates(),
    ensures
        forall|i: int, j: int|
            0 <= i < j < spec_catalog(files, ex).len() ==> (#[trigger] spec_catalog(files, ex)[i]).0
                != (#[trigger] spec_catalog(files, ex)[j]).0,
    decreases files.len(),
{
    broadcast use vstd::seq_lib::group_seq_properties;

    if files.len() > 0 {
        assert(files.drop_last().no_duplicates());
        lemma_catalog_paths_unique(files.drop_last(), ex);
        lemma_catalog_entries(files.drop_last(), ex);
        let rest = spec_catalog(files.drop_last(), ex);
        match catalog_entry(files.last(), ex) {
            Some(e) => {
                assert(e.0 == files.last());
                assert forall|i: int| 0 <= i < rest.len() implies (#[trigger] rest[i]).0
                    != files.last() by {
                    if rest[i].0 == files.last() {
                        assert(files.drop_last().contains(rest[i].0));
                        let k = choose|k: int|
                            0 <= k < files.drop_last().len() && files.drop_last()[k] == rest[i].0;
                        assert(files[k] == files[files.len() - 1]);
                    }
                }
                assert(forall|i: int|
                    0 <= i < rest.len() ==> #[trigger] rest.push(e)[i] == rest[i]);
            },
            None => {},
        }
    }
}

/// The in-memory index of the media files under one root. Ephemeral:
/// rebuilt for every operation, never persisted.
#[derive(Clone, Debug)]
pub struct Catalog {
    assets: Vec<MediaAsset>,
}

impl View for Catalog {
    type V = Seq<(Seq<char>, Container)>;

    closed spec fn view(&self) -> Seq<(Seq<char>, Container)> {
        Seq::new(self.assets@.len(), |i: int| self.assets@[i]@)
    }
}

impl Catalog {
    /// Classifies the relative paths of the regular files found under a
    /// root. Hidden entries, paths with a component from `exclusions`
    /// and files whose extension names no known container are omitted.
    pub fn build(files: &Vec<String>, exclusions: &Vec<String>) -> (r: Catalog)
        ensures
            r@ == spec_catalog(files.deep_view(), exclusions.deep_view()),
    {
        let ghost fd = files.deep_view();
        let ghost exd = exclusions.deep_view();
        let mut assets: Vec<MediaAsset> = Vec::new();
        let n = files.len();
        for idx in 0..n
            invariant
                n == files@.len(),
                fd == files.deep_view(),
                exd == exclusions.deep_view(),
                Seq::new(assets@.len(), |i: int| assets@[i]@) == spec_catalog(
                    fd.take(idx as int),
                    exd,
                ),
        {
            let p: &String = &files[idx];
            proof {
                assert(fd.take(idx + 1).drop_last() =~= fd.take(idx as int));
                assert(fd.take(idx + 1).last() == p@);
            }
            if !is_hidden(p.as_str()) && !is_excluded(p.as_str(), exclusions) {
                match extension_str(p.as_str()) {
                    Some(e) => match Container::try_from(e) {
                        Ok(c) => {
                            let ghost before = Seq::new(assets@.len(), |i: int| assets@[i]@);
                            assets.push(MediaAsset { path: p.clone(), container: c });
                            proof {
                                assert(Seq::new(assets@.len(), |i: int| assets@[i]@) =~= before.push(
                                    (p@, c),
                                ));
                            }
                        },
                        Err(_) => {},
                    },
                    None => {},
                }
            }
            proof {
                assert(Seq::new(assets@.len(), |i: int| assets@[i]@) =~= spec_catalog(
                    fd.take(idx + 1),
                    exd,
                ));
            }
        }
        proof {
            assert(fd.take(n as int) =~= fd);
        }
        Catalog { assets }
    }

    /// An empty catalog.
    pub fn new() -> (r: Catalog)
        ensures
            r@ == Seq::<(Seq<char>, Container)>::empty(),
    {
        let r = Catalog { assets: Vec::new() };
        proof {
            assert(r@ =~= Seq::<(Seq<char>, Container)>::empty());
        }
        r
    }

    /// The number of cataloged assets.
    pub fn len(&self) -> (r: usize)
        ensures
            r == self@.len(),
    {
        self.assets.len()
    }

    /// The asset at position `i`.
    pub fn asset(&self, i: usize) -> (r: &MediaAsset)
        requires
            i < self@.len(),
        ensures
            r@ == self@[i as int],
    {
        &self.assets[i]
    }
}

} // verus!
