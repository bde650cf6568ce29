//! The font request model: a partially-specified set of constraints and the
//! fluent builder that accumulates them.

use vstd::prelude::*;

verus! {

/// Weight classes a request may constrain.
#[derive(Clone, Copy, Debug, PartialEq, Eq, Structural)]
pub enum WeightClass {
    Regular,
    Bold,
}

/// Slant classes a request may constrain.
#[derive(Clone, Copy, Debug, PartialEq, Eq, Structural)]
pub enum SlantClass {
    Roman,
    Italic,
    Oblique,
}

/// Spacing classes a request may constrain.
#[derive(Clone, Copy, Debug, PartialEq, Eq, Structural)]
pub enum SpacingClass {
    Any,
    Monospace,
}

/// Mathematical content of a [`FontProperty`]: the family constraint as a
/// character sequence, the class constraints as they stand.
#[verifier::ext_equal]
pub ghost struct FontPropertyV {
    pub family: Option<Seq<char>>,
    pub weight: Option<WeightClass>,
    pub slant: Option<SlantClass>,
    pub spacing: Option<SpacingClass>,
}

/// A finalized font request. Every constraint is optional; an absent field
/// leaves the corresponding attribute to the backend's own matching and
/// default-substitution rules. Once built the value is only read, never
/// changed, so the same request can be queried any number of times.
#[derive(Debug)]
pub struct FontProperty {
    pub family: Option<String>,
    pub weight: Option<WeightClass>,
    pub slant: Option<SlantClass>,
    pub spacing: Option<SpacingClass>,
}

impl View for FontProperty {
    type V = FontPropertyV;

    open spec fn view(&self) -> FontPropertyV {
        FontPropertyV {
            family: match self.family {
                Some(f) => Some(f@),
                None => None,
            },
            weight: self.weight,
            slant: self.slant,
            spacing: self.spacing,
        }
    }
}

/// The property with every constraint absent: it denotes "match the backend's
/// default font" to the loader and "all installed fonts" to an enumeration.
pub open spec fn empty_property() -> FontPropertyV {
    FontPropertyV { family: None, weight: None, slant: None, spacing: None }
}

/// Effect of the `italic` setter: constrain the slant, keep the rest.
pub open spec fn with_italic(p: FontPropertyV) -> FontPropertyV {
    FontPropertyV { slant: Some(SlantClass::Italic), ..p }
}

/// Effect of the `oblique` setter.
pub open spec fn with_oblique(p: FontPropertyV) -> FontPropertyV {
    FontPropertyV { slant: Some(SlantClass::Oblique), ..p }
}

/// Effect of the `bold` setter.
pub open spec fn with_bold(p: FontPropertyV) -> FontPropertyV {
    FontPropertyV { weight: Some(WeightClass::Bold), ..p }
}

/// Effect of the `monospace` setter.
pub open spec fn with_monospace(p: FontPropertyV) -> FontPropertyV {
    FontPropertyV { spacing: Some(SpacingClass::Monospace), ..p }
}

/// Effect of the `family` setter.
pub open spec fn with_family(p: FontPropertyV, name: Seq<char>) -> FontPropertyV {
    FontPropertyV { family: Some(name), ..p }
}

/// Fluent accumulator for [`FontProperty`]: each setter overwrites one field
/// and hands the builder back, so calls chain in any order; `build` yields the
/// finalized property. Building never fails, and an empty builder is valid.
pub struct FontPropertyBuilder {
    property: FontProperty,
}

impl View for FontPropertyBuilder {
    type V = FontPropertyV;

    closed spec fn view(&self) -> FontPropertyV {
        self.property@
    }
}

impl FontPropertyBuilder {
    /// An empty builder: every constraint absent.
    pub fn new() -> (b: FontPropertyBuilder)
        ensures
            b@ == empty_property(),
    {
        FontPropertyBuilder {
            property: FontProperty { family: None, weight: None, slant: None, spacing: None },
        }
    }

    /// Constrain the slant to italic.
    pub fn italic(self) -> (b: FontPropertyBuilder)
        ensures
            b@ == with_italic(self@),
    {
        let mut b = self;
        b.property.slant = Some(SlantClass::Italic);
        b
    }

    /// Constrain the slant to oblique.
    pub fn oblique(self) -> (b: FontPropertyBuilder)
        ensures
            b@ == with_oblique(self@),
    {
        let mut b = self;
        b.property.slant = Some(SlantClass::Oblique);
        b
    }

    /// Constrain the weight to bold.
    pub fn bold(self) -> (b: FontPropertyBuilder)
        ensures
            b@ == with_bold(self@),
    {
        let mut b = self;
        b.property.weight = Some(WeightClass::Bold);
        b
    }

    /// Constrain the spacing to monospace.
    pub fn monospace(self) -> (b: FontPropertyBuilder)
        ensures
            b@ == with_monospace(self@),
    {
        let mut b = self;
        b.property.spacing = Some(SpacingClass::Monospace);
        b
    }

    /// Constrain the family name.
    pub fn family(self, name: &str) -> (b: FontPropertyBuilder)
        ensures
            b@ == with_family(self@, name@),
    {
        let mut b = self;
        b.property.family = Some(name.to_owned());
        b
    }

    /// Finalize the accumulated constraints. Always succeeds; no validation
    /// happens here — unsatisfiable constraints are resolved by the backend.
    pub fn build(self) -> (p: FontProperty)
        ensures
            p@ == self@,
    {
        self.property
    }
}

/// Setters that touch distinct fields commute: applying the weight and slant
/// constraints in either order (and likewise spacing or family with either)
/// yields the same property.
pub proof fn lemma_builder_commutes(p: FontPropertyV, name: Seq<char>)
    ensures
        with_italic(with_bold(p)) == with_bold(with_italic(p)),
        with_monospace(with_bold(p)) == with_bold(with_monospace(p)),
        with_monospace(with_italic(p)) == with_italic(with_monospace(p)),
        with_family(with_bold(p), name) == with_bold(with_family(p, name)),
        with_family(with_italic(p), name) == with_italic(with_family(p, name)),
        with_family(with_monospace(p), name) == with_monospace(with_family(p, name)),
{
}

/// Repeated writes to the same field: the last one wins.
pub proof fn lemma_setter_last_write_wins(p: FontPropertyV, n1: Seq<char>, n2: Seq<char>)
    ensures
        with_bold(with_bold(p)) == with_bold(p),
        with_italic(with_oblique(p)) == with_italic(p),
        with_oblique(with_italic(p)) == with_oblique(p),
        with_monospace(with_monospace(p)) == with_monospace(p),
        with_family(with_family(p, n1), n2) == with_family(p, n2),
{
}

} // verus!
