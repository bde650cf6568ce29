//! The loader's decision: what to do with the backend's best-match answer.
//!
//! Loading a font runs in three steps: build the match pattern
//! ([`crate::pattern::load_pattern`]), ask the backend for the single best
//! match, then — decided here — either report absence or name the file to
//! read and the index of the font within it. Reading the file itself is I/O
//! and stays with the caller; a failure there is the caller's to surface,
//! distinct from "no match".

use vstd::prelude::*;

verus! {

/// The attributes the loader reads off the backend's best match: the resolved
/// file path and the font's index within that file (for multi-font
/// containers).
pub struct BestMatch {
    pub file: Option<String>,
    pub index: Option<i32>,
}

/// Mathematical content of a [`BestMatch`].
#[verifier::ext_equal]
pub ghost struct BestMatchV {
    pub file: Option<Seq<char>>,
    pub index: Option<i32>,
}

impl View for BestMatch {
    type V = BestMatchV;

    open spec fn view(&self) -> BestMatchV {
        BestMatchV {
            file: match self.file {
                Some(f) => Some(f@),
                None => None,
            },
            index: self.index,
        }
    }
}

/// Decide the loader's outcome from the best-match answer: `None` exactly
/// when the backend found no match (absence, not an error), otherwise the
/// resolved file to read in full and the in-file font index to hand through.
/// A match is expected to carry both attributes; one without them is outside
/// this function's contract and must be rejected by the caller.
pub fn plan_load(best: Option<BestMatch>) -> (r: Option<(String, i32)>)
    requires
        best matches Some(b) ==> b.file is Some && b.index is Some,
    ensures
        match best {
            None => r is None,
            Some(b) => r == Some((b.file->0, b.index->0)),
        },
{
    match best {
        None => None,
        Some(b) => {
            let f = b.file.unwrap();
            let i = b.index.unwrap();
            Some((f, i))
        },
    }
}

} // verus!
