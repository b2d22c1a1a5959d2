//! Relative-path reasoning: file-name extensions, hidden entries and
//! excluded components. Paths are strings whose components are separated
//! by `/`.

use vstd::prelude::*;

verus! {

/// The index of the last occurrence of `c` in `s`, or `-1` when `c` does
/// not occur.
pub open spec fn last_index(s: Seq<char>, c: char) -> int
    decreases s.len(),
{
    if s.len() == 0 {
        -1
    } else if s.last() == c {
        s.len() - 1
    } else {
        last_index(s.drop_last(), c)
    }
}

pub proof fn lemma_last_index(s: Seq<char>, c: char)
    ensures
        -1 <= last_index(s, c) < s.len(),
        last_index(s, c) >= 0 ==> s[last_index(s, c)] == c,
        forall|j: int| last_index(s, c) < j < s.len() ==> s[j] != c,
    decreases s.len(),
{
    if s.len() > 0 && s.last() != c {
        lemma_last_index(s.drop_last(), c);
        assert(forall|j: int| 0 <= j < s.len() - 1 ==> s[j] == s.drop_last()[j]);
    }
}

/// The index of the first character of the path's file name: one past the
/// last separator, or `0` when the path has a single component.
pub open spec fn name_start(p: Seq<char>) -> int {
    last_index(p, '/') + 1
}

/// The index of the dot that starts the path's extension, or `-1` when
/// the file name has none. A dot that is the first character of the file
/// name does not start an extension.
pub open spec fn ext_dot(p: Seq<char>) -> int {
    if last_index(p, '.') > name_start(p) {
        last_index(p, '.')
    } else {
        -1
    }
}

/// The path's extension: the characters after the last dot of its file
/// name, when that dot is not the file name's first character.
pub open spec fn extension_of(p: Seq<char>) -> Option<Seq<char>> {
    if ext_dot(p) >= 0 {
        Some(p.subrange(ext_dot(p) + 1, p.len() as int))
    } else {
        None
    }
}

/// The path with its extension replaced by `e`; a path without an
/// extension gains one.
pub open spec fn replace_extension(p: Seq<char>, e: Seq<char>) -> Seq<char> {
    if ext_dot(p) >= 0 {
        p.subrange(0, ext_dot(p) + 1) + e
    } else {
        p + seq!['.'] + e
    }
}

/// Whether position `i` holds a dot that opens a path component.
pub open spec fn dot_at(p: Seq<char>, i: int) -> bool {
    p[i] == '.' && (i == 0 || p[i - 1] == '/')
}

/// Whether the path names a hidden entry: some component begins with a
/// dot.
pub open spec fn hidden(p: Seq<char>) -> bool {
    exists|i: int| 0 <= i < p.len() && dot_at(p, i)
}

/// Whether `p.subrange(i, j)` is a whole component of `p`.
pub open spec fn is_component(p: Seq<char>, i: int, j: int) -> bool {
    &&& 0 <= i <= j <= p.len()
    &&& i == 0 || p[i - 1] == '/'
    &&& j == p.len() || p[j] == '/'
    &&& forall|k: int| i <= k < j ==> p[k] != '/'
}

/// Whether some component of `p` appears in the exclusion list `ex`.
pub open spec fn excluded(p: Seq<char>, ex: Seq<Seq<char>>) -> bool {
    exists|i: int, j: int| is_component(p, i, j) && ex.contains(p.subrange(i, j))
}

/// Whether `v` holds a string whose characters are `s`.
pub fn vec_contains_string(v: &Vec<String>, s: &String) -> (r: bool)
    ensures
        r == v.deep_view().contains(s@),
{
    let n = v.len();
    for i in 0..n
        invariant
            n == v@.len(),
            forall|j: int| 0 <= j < i ==> v.deep_view()[j] != s@,
    {
        if v[i] == *s {
            proof {
                assert(v.deep_view()[i as int] == s@);
            }
            return true;
        }
    }
    false
}

/// The index of the last occurrence of `c` in `s`, when there is one.
pub fn last_index_of(s: &str, c: char) -> (r: Option<usize>)
    ensures
        s@.len() <= usize::MAX,
        match r {
            Some(i) => i < s@.len() && i as int == last_index(s@, c),
            None => last_index(s@, c) == -1,
        },
{
    let n = s.unicode_len();
    let mut i = n;
    while i > 0
        invariant
            i <= n,
            n == s@.len(),
            forall|j: int| i <= j < n ==> s@[j] != c,
        decreases i,
    {
        i = i - 1;
        if s.get_char(i) == c {
            proof {
                lemma_last_index(s@, c);
            }
            return Some(i);
        }
    }
    proof {
        lemma_last_index(s@, c);
    }
    None
}

/// The index of the dot that starts the extension of `p`, when `p` has
/// an extension.
pub fn ext_dot_index(p: &str) -> (r: Option<usize>)
    ensures
        p@.len() <= usize::MAX,
        match r {
            Some(d) => d < p@.len() && d as int == ext_dot(p@),
            None => ext_dot(p@) == -1,
        },
{
    let dot = last_index_of(p, '.');
    let slash = last_index_of(p, '/');
    match dot {
        Some(d) => {
            let ns: usize = match slash {
                Some(s0) => s0 + 1,
                None => 0,
            };
            if d > ns {
                Some(d)
            } else {
                None
            }
        },
        None => None,
    }
}

/// The extension of `p`, when it has one.
pub fn extension_str<'a>(p: &'a str) -> (r: Option<&'a str>)
    ensures
        match r {
            Some(e) => extension_of(p@) == Some(e@),
            None => extension_of(p@) is None,
        },
{
    match ext_dot_index(p) {
        Some(d) => Some(p.substring_char(d + 1, p.unicode_len())),
        None => None,
    }
}

/// `p` with its extension replaced by `e`; a path without an extension
/// gains one.
pub fn replace_extension_str(p: &str, e: &str) -> (r: String)
    ensures
        r@ == replace_extension(p@, e@),
{
    match ext_dot_index(p) {
        Some(d) => {
            let mut out = p.substring_char(0, d + 1).to_owned();
            out.append(e);
            proof {
                assert(out@ =~= replace_extension(p@, e@));
            }
            out
        },
        None => {
            let mut out = p.to_owned();
            out.append(".");
            out.append(e);
            proof {
                reveal_strlit(".");
                assert(out@ =~= replace_extension(p@, e@));
            }
            out
        },
    }
}

/// Whether the path names a hidden entry.
pub fn is_hidden(p: &str) -> (r: bool)
    ensures
        r == hidden(p@),
{
    let n = p.unicode_len();
    for i in 0..n
        invariant
            n == p@.len(),
            forall|j: int| 0 <= j < i ==> !dot_at(p@, j),
    {
        if p.get_char(i) == '.' && (i == 0 || p.get_char(i - 1) == '/') {
            proof {
                assert(dot_at(p@, i as int));
            }
            return true;
        }
        proof {
            assert(!dot_at(p@, i as int));
        }
    }
    false
}

/// Whether some component of `p` appears in the exclusion list.
pub fn is_excluded(p: &str, ex: &Vec<String>) -> (r: bool)
    ensures
        r == excluded(p@, ex.deep_view()),
{
    let ghost exd = ex.deep_view();
    let n = p.unicode_len();
    let mut start: usize = 0;
    let mut i: usize = 0;
    loop
        invariant
            start <= i <= n,
            n == p@.len(),
            start == 0 || p@[start as int - 1] == '/',
            forall|k: int| start <= k < i ==> p@[k] != '/',
            forall|a: int, b: int|
                is_component(p@, a, b) && b < i ==> !exd.contains(p@.subrange(a, b)),
            exd == ex.deep_view(),
        ensures
            forall|a: int, b: int|
                is_component(p@, a, b) ==> !exd.contains(p@.subrange(a, b)),
        decreases n - i,
    {
        let at_boundary = i == n || p.get_char(i) == '/';
        if at_boundary {
            let comp = p.substring_char(start, i).to_owned();
            let mut k: usize = 0;
            while k < ex.len()
                invariant
                    start <= i <= n,
                    n == p@.len(),
                    start == 0 || p@[start as int - 1] == '/',
                    i == n || p@[i as int] == '/',
                    forall|m: int| start <= m < i ==> p@[m] != '/',
                    comp@ == p@.subrange(start as int, i as int),
                    exd == ex.deep_view(),
                    forall|l: int| 0 <= l < k ==> exd[l] != comp@,
                decreases ex.len() - k,
            {
                if comp == ex[k] {
                    proof {
                        assert(exd[k as int] == comp@);
                        assert(is_component(p@, start as int, i as int));
                        assert(exd.contains(comp@));
                    }
                    return true;
                }
                k = k + 1;
            }
            proof {
                assert(!exd.contains(comp@));
                assert forall|a: int| is_component(p@, a, i as int) implies a == start as int by {
                    if a < start as int {
                        assert(p@[start as int - 1] == '/');
                    } else if a > start as int {
                        assert(p@[a - 1] == '/');
                    }
                }
                assert(forall|a: int, b: int|
                    is_component(p@, a, b) && b <= i ==> !exd.contains(p@.subrange(a, b)));
            }
            if i == n {
                proof {
                    assert(forall|a: int, b: int|
                        is_component(p@, a, b) ==> b <= n && !exd.contains(p@.subrange(a, b)));
                }
                break;
            }
            start = i + 1;
            i = i + 1;
        } else {
            i = i + 1;
        }
    }
    false
}

} // verus!
