//! Container classification and the encoder collaborator interface.

use vstd::prelude::*;

use crate::error::{MucoErrorKind, MucoResult};

verus! {

/// The closed set of media container formats the library understands.
/// Files whose extension names no known container never enter a catalog.
#[derive(Copy, Clone, Debug, PartialEq, Eq, Structural)]
pub enum Container {
    Webm,
    Flac,
    Mp3,
}

/// ASCII lower-casing of a single character; characters outside `A`..`Z`
/// are unchanged.
pub open spec fn lower_char(c: char) -> char {
    if 'A' <= c && c <= 'Z' {
        ((c as u32) + 32) as char
    } else {
        c
    }
}

/// ASCII lower-casing of a character sequence.
pub open spec fn lower(s: Seq<char>) -> Seq<char> {
    Seq::new(s.len(), |i: int| lower_char(s[i]))
}

impl Container {
    /// The canonical extension of the container, as a spec value.
    pub open spec fn spec_extension(self) -> Seq<char> {
        match self {
            Container::Webm => "webm"@,
            Container::Flac => "flac"@,
            Container::Mp3 => "mp3"@,
        }
    }

    /// The container named by an extension, compared ASCII
    /// case-insensitively; `None` when the extension is unrecognized.
    pub open spec fn spec_classify(ext: Seq<char>) -> Option<Container> {
        if lower(ext) == "flac"@ {
            Some(Container::Flac)
        } else if lower(ext) == "mp3"@ {
            Some(Container::Mp3)
        } else if lower(ext) == "webm"@ {
            Some(Container::Webm)
        } else {
            None
        }
    }

    /// The canonical file extension for the container.
    pub fn extension(self) -> (r: &'static str)
        ensures
            r@ == self.spec_extension(),
    {
        match self {
            Container::Webm => "webm",
            Container::Flac => "flac",
            Container::Mp3 => "mp3",
        }
    }

    /// Classifies an extension, ASCII case-insensitively.
    pub fn try_from(value: &str) -> (r: MucoResult<Container>)
        ensures
            r is Ok <==> Self::spec_classify(value@) is Some,
            r is Ok ==> Self::spec_classify(value@) == Some(r->Ok_0),
            r is Err ==> r->Err_0 == MucoErrorKind::Unknown,
    {
        if eq_lower(value, "flac") {
            Ok(Container::Flac)
        } else if eq_lower(value, "mp3") {
            Ok(Container::Mp3)
        } else if eq_lower(value, "webm") {
            Ok(Container::Webm)
        } else {
            Err(MucoErrorKind::Unknown)
        }
    }
}

/// Compares the ASCII lower-casing of `s` against `t`.
pub fn eq_lower(s: &str, t: &str) -> (r: bool)
    ensures
        r == (lower(s@) == t@),
{
    let n = s.unicode_len();
    if n != t.unicode_len() {
        proof {
            assert(lower(s@).len() != t@.len());
        }
        return false;
    }
    for i in 0..n
        invariant
            n == s@.len(),
            n == t@.len(),
            forall|j: int| 0 <= j < i ==> lower_char(s@[j]) == t@[j],
    {
        let a = s.get_char(i);
        let b = t.get_char(i);
        let au = a as u32;
        let matches = if 65 <= au && au <= 90 {
            au + 32 == b as u32
        } else {
            a == b
        };
        if !matches {
            proof {
                assert(lower(s@)[i as int] != t@[i as int]);
            }
            return false;
        }
    }
    proof {
        assert(lower(s@) =~= t@);
    }
    true
}

/// The encoder collaborator: implemented outside the library by whatever
/// invokes the real media encoder. `source` names the asset to read,
/// `dest` the file to produce in the `target` container.
pub trait Transcode {
    /// Converts `source` into `target` format at `dest`; `Err` reports an
    /// encoder failure for that one asset.
    fn transcode(
        &self,
        source: &String,
        source_container: Container,
        target: Container,
        dest: &String,
    ) -> MucoResult<()>;
}

} // verus!
