//! Translation of a font request into a backend search pattern.
//!
//! The backend speaks in numeric codes for weight, slant and spacing; the
//! mapping from the semantic classes to those codes lives here and nowhere
//! else. A [`Pattern`] is the plain-value description of what is submitted:
//! the caller marshals it into the backend's own pattern representation.

use crate::property::{FontProperty, FontPropertyV, SlantClass, SpacingClass, WeightClass};
use crate::property::empty_property;
use vstd::prelude::*;

verus! {

/// A backend search pattern: the family constraint as a string, the class
/// constraints already translated to the backend's numeric scales. An absent
/// field is left unset in the submitted pattern.
pub struct Pattern {
    pub family: Option<String>,
    pub weight: Option<i32>,
    pub slant: Option<i32>,
    pub spacing: Option<i32>,
}

/// Mathematical content of a [`Pattern`].
#[verifier::ext_equal]
pub ghost struct PatternV {
    pub family: Option<Seq<char>>,
    pub weight: Option<i32>,
    pub slant: Option<i32>,
    pub spacing: Option<i32>,
}

impl View for Pattern {
    type V = PatternV;

    open spec fn view(&self) -> PatternV {
        PatternV {
            family: match self.family {
                Some(f) => Some(f@),
                None => None,
            },
            weight: self.weight,
            slant: self.slant,
            spacing: self.spacing,
        }
    }
}

/// The backend's numeric weight scale: 80 is regular, 200 is bold.
pub open spec fn spec_weight_code(w: WeightClass) -> i32 {
    match w {
        WeightClass::Regular => 80,
        WeightClass::Bold => 200,
    }
}

/// The backend's numeric slant scale: 0 is roman, 100 italic, 110 oblique.
pub open spec fn spec_slant_code(s: SlantClass) -> i32 {
    match s {
        SlantClass::Roman => 0,
        SlantClass::Italic => 100,
        SlantClass::Oblique => 110,
    }
}

/// The backend's numeric spacing scale: 0 is proportional, 100 monospace.
pub open spec fn spec_spacing_code(s: SpacingClass) -> i32 {
    match s {
        SpacingClass::Any => 0,
        SpacingClass::Monospace => 100,
    }
}

pub fn weight_code(w: WeightClass) -> (c: i32)
    ensures
        c == spec_weight_code(w),
{
    match w {
        WeightClass::Regular => 80,
        WeightClass::Bold => 200,
    }
}

pub fn slant_code(s: SlantClass) -> (c: i32)
    ensures
        c == spec_slant_code(s),
{
    match s {
        SlantClass::Roman => 0,
        SlantClass::Italic => 100,
        SlantClass::Oblique => 110,
    }
}

pub fn spacing_code(s: SpacingClass) -> (c: i32)
    ensures
        c == spec_spacing_code(s),
{
    match s {
        SpacingClass::Any => 0,
        SpacingClass::Monospace => 100,
    }
}

/// The pattern an enumeration submits: every present constraint of the
/// property carried over, every absent one left unset.
pub open spec fn spec_query_pattern(p: FontPropertyV) -> PatternV {
    PatternV {
        family: p.family,
        weight: match p.weight {
            Some(w) => Some(spec_weight_code(w)),
            None => None,
        },
        slant: match p.slant {
            Some(s) => Some(spec_slant_code(s)),
            None => None,
        },
        spacing: match p.spacing {
            Some(s) => Some(spec_spacing_code(s)),
            None => None,
        },
    }
}

/// The pattern the loader submits for its single best-match lookup: the
/// mandatory family plus any weight and slant constraints. Spacing plays no
/// part in loading.
pub open spec fn spec_load_pattern(p: FontPropertyV) -> PatternV {
    PatternV {
        family: p.family,
        weight: match p.weight {
            Some(w) => Some(spec_weight_code(w)),
            None => None,
        },
        slant: match p.slant {
            Some(s) => Some(spec_slant_code(s)),
            None => None,
        },
        spacing: None,
    }
}

/// Build the backend pattern for an enumeration of the given request.
pub fn query_pattern(p: &FontProperty) -> (pat: Pattern)
    ensures
        pat@ == spec_query_pattern(p@),
{
    Pattern {
        family: match &p.family {
            Some(f) => Some(f.clone()),
            None => None,
        },
        weight: match p.weight {
            Some(w) => Some(weight_code(w)),
            None => None,
        },
        slant: match p.slant {
            Some(s) => Some(slant_code(s)),
            None => None,
        },
        spacing: match p.spacing {
            Some(s) => Some(spacing_code(s)),
            None => None,
        },
    }
}

/// Build the backend pattern for loading the given request's best match.
/// Loading is defined only for family-constrained requests.
pub fn load_pattern(p: &FontProperty) -> (pat: Pattern)
    requires
        p@.family is Some,
    ensures
        pat@ == spec_load_pattern(p@),
{
    Pattern {
        family: match &p.family {
            Some(f) => Some(f.clone()),
            None => None,
        },
        weight: match p.weight {
            Some(w) => Some(weight_code(w)),
            None => None,
        },
        slant: match p.slant {
            Some(s) => Some(slant_code(s)),
            None => None,
        },
        spacing: None,
    }
}

/// The empty request translates to the fully unconstrained pattern, so an
/// enumeration of the empty property asks the backend for all installed
/// fonts — the same query an all-fonts enumeration submits.
pub proof fn lemma_empty_property_unconstrained()
    ensures
        spec_query_pattern(empty_property()) == (PatternV {
            family: None,
            weight: None,
            slant: None,
            spacing: None,
        }),
{
}

/// Patterns are a function of the request's content alone: equally built
/// properties submit identical patterns, to the enumeration and to the loader
/// alike.
pub proof fn lemma_pattern_deterministic(p1: FontPropertyV, p2: FontPropertyV)
    requires
        p1 == p2,
    ensures
        spec_query_pattern(p1) == spec_query_pattern(p2),
        spec_load_pattern(p1) == spec_load_pattern(p2),
{
}

} // verus!
