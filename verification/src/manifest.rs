//! The per-device manifest: which assets are already materialized on a
//! device, keyed by their final destination path. The manifest is the
//! only state that survives one sync invocation.

use vstd::prelude::*;

use crate::paths::vec_contains_string;

verus! {

/// Inserts a path unless it is already present.
pub open spec fn spec_insert(m: Seq<Seq<char>>, p: Seq<char>) -> Seq<Seq<char>> {
    if m.contains(p) {
        m
    } else {
        m.push(p)
    }
}

/// Drops every entry that is not in `keep`, keeping order.
pub open spec fn spec_prune(m: Seq<Seq<char>>, keep: Seq<Seq<char>>) -> Seq<Seq<char>>
    decreases m.len(),
{
    if m.len() == 0 {
        Seq::empty()
    } else {
        let rest = spec_prune(m.drop_last(), keep);
        if keep.contains(m.last()) {
            rest.push(m.last())
        } else {
            rest
        }
    }
}

/// Pruning keeps exactly the entries whose file still exists: a path is
/// in the pruned manifest if and only if it was present before and is in
/// `keep`.
pub proof fn lemma_prune_membership(m: Seq<Seq<char>>, keep: Seq<Seq<char>>)
    ensures
        forall|p: Seq<char>|
            #[trigger] spec_prune(m, keep).contains(p) <==> m.contains(p) && keep.contains(p),
    decreases m.len(),
{
    broadcast use vstd::seq_lib::group_seq_properties;

    if m.len() > 0 {
        lemma_prune_membership(m.drop_last(), keep);
        assert forall|p: Seq<char>| #[trigger] m.contains(p) implies m.drop_last().contains(p)
            || p == m.last() by {
            let i = choose|i: int| 0 <= i < m.len() && m[i] == p;
            if i < m.len() - 1 {
                assert(m.drop_last()[i] == p);
            }
        }
        assert(m.contains(m.last()));
        let rest = spec_prune(m.drop_last(), keep);
        if keep.contains(m.last()) {
            assert forall|p: Seq<char>|
                #[trigger] spec_prune(m, keep).contains(p) <==> rest.contains(p) || p == m.last()
                by {
                assert(rest.push(m.last()).contains(p) <==> m.last() == p || rest.contains(p));
            }
        }
    }
}

/// Pruning never introduces a duplicate.
pub proof fn lemma_prune_no_duplicates(m: Seq<Seq<char>>, keep: Seq<Seq<char>>)
    requires
        m.no_duplicates(),
    ensures
        spec_prune(m, keep).no_duplicates(),
    decreases m.len(),
{
    broadcast use vstd::seq_lib::group_seq_properties;

    if m.len() > 0 {
        assert(m.drop_last().no_duplicates());
        lemma_prune_no_duplicates(m.drop_last(), keep);
        if keep.contains(m.last()) {
            lemma_prune_membership(m.drop_last(), keep);
            if m.drop_last().contains(m.last()) {
                let i = choose|i: int|
                    0 <= i < m.drop_last().len() && m.drop_last()[i] == m.last();
                assert(m[i] == m[m.len() - 1]);
                assert(false);
            }
            let rest = spec_prune(m.drop_last(), keep);
            assert(!rest.contains(m.last()));
            assert forall|a: int, b: int|
                0 <= a < rest.push(m.last()).len() && 0 <= b < rest.push(m.last()).len() && a != b
                implies rest.push(m.last())[a] != rest.push(m.last())[b] by {
                if a < rest.len() && b < rest.len() {
                    assert(rest[a] == rest.push(m.last())[a]);
                    assert(rest[b] == rest.push(m.last())[b]);
                } else if b == rest.len() {
                    if rest.push(m.last())[a] == m.last() {
                        assert(rest[a] == m.last());
                        assert(rest.contains(m.last()));
                    }
                } else {
                    if rest.push(m.last())[b] == m.last() {
                        assert(rest[b] == m.last());
                        assert(rest.contains(m.last()));
                    }
                }
            }
        }
    }
}

/// The line a manifest entry is written as.
pub open spec fn spec_entry_line(p: Seq<char>) -> Seq<char> {
    "f "@ + p
}

/// The persisted form of a manifest: a header line, then one line per
/// entry.
pub open spec fn spec_manifest_lines(m: Seq<Seq<char>>) -> Seq<Seq<char>> {
    seq!["muco-manifest v1"@] + m.map_values(|p: Seq<char>| spec_entry_line(p))
}

/// The entry a persisted line carries: lines that do not open with the
/// entry marker carry none and are ignored, which keeps the format
/// forward-compatible.
pub open spec fn spec_line_path(l: Seq<char>) -> Option<Seq<char>> {
    if l.len() >= 2 && l.subrange(0, 2) == "f "@ {
        Some(l.subrange(2, l.len() as int))
    } else {
        None
    }
}

/// The manifest a sequence of persisted lines describes, duplicates
/// dropped.
pub open spec fn spec_from_lines(lines: Seq<Seq<char>>) -> Seq<Seq<char>>
    decreases lines.len(),
{
    if lines.len() == 0 {
        Seq::empty()
    } else {
        let rest = spec_from_lines(lines.drop_last());
        match spec_line_path(lines.last()) {
            Some(p) => spec_insert(rest, p),
            None => rest,
        }
    }
}

/// The record of which destination paths are already materialized on one
/// device.
#[derive(Debug)]
pub struct Manifest {
    entries: Vec<String>,
}

impl View for Manifest {
    type V = Seq<Seq<char>>;

    closed spec fn view(&self) -> Seq<Seq<char>> {
        self.entries.deep_view()
    }
}

impl Manifest {
    #[verifier::type_invariant]
    spec fn wf(self) -> bool {
        self@.no_duplicates()
    }

    /// An empty manifest.
    pub fn new() -> (r: Manifest)
        ensures
            r@ == Seq::<Seq<char>>::empty(),
    {
        let r = Manifest { entries: Vec::new() };
        proof {
            assert(r@ =~= Seq::<Seq<char>>::empty());
        }
        r
    }

    /// The number of recorded paths.
    pub fn len(&self) -> (r: usize)
        ensures
            r == self@.len(),
    {
        self.entries.len()
    }

    /// The recorded paths, in insertion order.
    pub fn paths(&self) -> (r: &Vec<String>)
        ensures
            r.deep_view() == self@,
    {
        &self.entries
    }

    /// Whether `path` is recorded as materialized.
    pub fn contains(&self, path: &String) -> (r: bool)
        ensures
            r == self@.contains(path@),
    {
        vec_contains_string(&self.entries, path)
    }

    /// Records `path` as materialized; recording a present path changes
    /// nothing.
    pub fn insert(&mut self, path: String)
        ensures
            final(self)@ == spec_insert(old(self)@, path@),
    {
        proof {
            use_type_invariant(&*self);
        }
        if !self.contains(&path) {
            let mut entries: Vec<String> = Vec::new();
            std::mem::swap(&mut entries, &mut self.entries);
            let ghost before = entries.deep_view();
            entries.push(path);
            proof {
                broadcast use vstd::seq_lib::group_seq_properties;

                assert(entries.deep_view() =~= before.push(path@));
                let pv = before.push(path@);
                assert forall|a: int, b: int|
                    0 <= a < pv.len() && 0 <= b < pv.len() && a != b implies pv[a] != pv[b] by {
                    if a < before.len() && b < before.len() {
                        assert(before[a] == pv[a] && before[b] == pv[b]);
                    } else if b == before.len() {
                        if pv[a] == path@ {
                            assert(before[a] == path@);
                            assert(before.contains(path@));
                        }
                    } else {
                        if pv[b] == path@ {
                            assert(before[b] == path@);
                            assert(before.contains(path@));
                        }
                    }
                }
                assert(pv.no_duplicates());
            }
            std::mem::swap(&mut entries, &mut self.entries);
        }
    }

    /// Drops every entry whose path is not in `existing`: the self-healing
    /// step after a device was altered outside the tool's control.
    pub fn prune(&mut self, existing: &Vec<String>)
        ensures
            final(self)@ == spec_prune(old(self)@, existing.deep_view()),
    {
        proof {
            use_type_invariant(&*self);
        }
        let ghost exd = existing.deep_view();
        let ghost m0 = self@;
        let mut kept: Vec<String> = Vec::new();
        let n = self.entries.len();
        for i in 0..n
            invariant
                n == self.entries@.len(),
                m0 == self.entries.deep_view(),
                exd == existing.deep_view(),
                kept.deep_view() == spec_prune(m0.take(i as int), exd),
        {
            proof {
                assert(m0.take(i + 1).drop_last() =~= m0.take(i as int));
                assert(m0.take(i + 1).last() == self.entries@[i as int]@);
            }
            if vec_contains_string(existing, &self.entries[i]) {
                let ghost before = kept.deep_view();
                kept.push(self.entries[i].clone());
                proof {
                    assert(kept.deep_view() =~= before.push(self.entries@[i as int]@));
                }
            }
        }
        proof {
            assert(m0.take(n as int) =~= m0);
            lemma_prune_no_duplicates(m0, exd);
        }
        self.entries = kept;
    }

    /// The persisted form: a header line, then one marked line per entry.
    pub fn to_lines(&self) -> (r: Vec<String>)
        ensures
            r.deep_view() == spec_manifest_lines(self@),
    {
        let mut lines: Vec<String> = Vec::new();
        lines.push("muco-manifest v1".to_owned());
        let n = self.entries.len();
        for i in 0..n
            invariant
                n == self.entries@.len(),
                lines.deep_view() == spec_manifest_lines(self.entries.deep_view().take(i as int)),
        {
            let mut line = "f ".to_owned();
            line.append(self.entries[i].as_str());
            let ghost before = lines.deep_view();
            lines.push(line);
            proof {
                let md = self.entries.deep_view();
                assert(lines.deep_view() =~= before.push(spec_entry_line(md[i as int])));
                assert(md.take(i + 1).map_values(|p: Seq<char>| spec_entry_line(p)) =~= md.take(
                    i as int,
                ).map_values(|p: Seq<char>| spec_entry_line(p)).push(
                    spec_entry_line(md[i as int]),
                ));
                assert(lines.deep_view() =~= spec_manifest_lines(md.take(i + 1)));
            }
        }
        proof {
            assert(self.entries.deep_view().take(n as int) =~= self.entries.deep_view());
        }
        lines
    }

    /// Reads a persisted manifest back: marked lines become entries, any
    /// other line is ignored, duplicates are dropped.
    pub fn from_lines(lines: &Vec<String>) -> (r: Manifest)
        ensures
            r@ == spec_from_lines(lines.deep_view()),
    {
        let ghost ld = lines.deep_view();
        let mut m = Manifest::new();
        let n = lines.len();
        for i in 0..n
            invariant
                n == lines@.len(),
                ld == lines.deep_view(),
                m@ == spec_from_lines(ld.take(i as int)),
        {
            proof {
                assert(ld.take(i + 1).drop_last() =~= ld.take(i as int));
                assert(ld.take(i + 1).last() == lines@[i as int]@);
            }
            let line: &String = &lines[i];
            let ln = line.as_str().unicode_len();
            if ln >= 2 && line.as_str().get_char(0) == 'f' && line.as_str().get_char(1) == ' ' {
                let path = line.as_str().substring_char(2, ln).to_owned();
                proof {
                    reveal_strlit("f ");
                    assert(line@.subrange(0, 2) =~= "f "@);
                    assert(spec_line_path(line@) == Some(path@));
                }
                m.insert(path);
            } else {
                proof {
                    reveal_strlit("f ");
                    if ln >= 2 && line@.subrange(0, 2) == "f "@ {
                        assert(line@.subrange(0, 2)[0] == line@[0]);
                        assert(line@.subrange(0, 2)[1] == line@[1]);
                        assert(("f "@)[0] == 'f' && ("f "@)[1] == ' ');
                        assert(false);
                    }
                    assert(spec_line_path(line@) is None);
                }
            }
        }
        proof {
            assert(ld.take(n as int) =~= ld);
        }
        m
    }
}

/// Writing a manifest out and reading it back yields the same manifest.
pub proof fn lemma_manifest_round_trip(m: Seq<Seq<char>>)
    requires
        m.no_duplicates(),
    ensures
        spec_from_lines(spec_manifest_lines(m)) == m,
    decreases m.len(),
{
    reveal_strlit("muco-manifest v1");
    reveal_strlit("f ");
    let lines = spec_manifest_lines(m);
    assert(spec_line_path("muco-manifest v1"@) is None) by {
        let h = "muco-manifest v1"@;
        if h.len() >= 2 && h.subrange(0, 2) == "f "@ {
            assert(h.subrange(0, 2)[0] == h[0]);
            assert(("f "@)[0] == 'f');
            assert(false);
        }
    }
    if m.len() == 0 {
        assert(m.map_values(|p: Seq<char>| spec_entry_line(p)) =~= Seq::<Seq<char>>::empty());
        assert(lines =~= seq!["muco-manifest v1"@]);
        assert(lines.last() == "muco-manifest v1"@);
        assert(lines.drop_last() =~= Seq::<Seq<char>>::empty());
        assert(spec_from_lines(lines.drop_last()) =~= Seq::<Seq<char>>::empty());
        assert(spec_from_lines(lines) =~= m);
    } else {
        assert(m.drop_last().no_duplicates());
        lemma_manifest_round_trip(m.drop_last());
        assert(lines.drop_last() =~= spec_manifest_lines(m.drop_last()));
        assert(lines.last() == spec_entry_line(m.last()));
        assert(spec_line_path(spec_entry_line(m.last())) == Some(m.last())) by {
            assert(spec_entry_line(m.last()).subrange(0, 2) =~= "f "@);
            assert(spec_entry_line(m.last()).subrange(
                2,
                spec_entry_line(m.last()).len() as int,
            ) =~= m.last());
        }
        if m.drop_last().contains(m.last()) {
            let i = choose|i: int| 0 <= i < m.drop_last().len() && m.drop_last()[i] == m.last();
            assert(m[i] == m[m.len() - 1]);
            assert(false);
        }
        assert(spec_from_lines(lines) =~= m.drop_last().push(m.last()));
        assert(m.drop_last().push(m.last()) =~= m);
    }
}

} // verus!
