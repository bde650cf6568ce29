use font_loader::pattern::{load_pattern, query_pattern, slant_code, spacing_code, weight_code};
use font_loader::property::{FontPropertyBuilder, SlantClass, SpacingClass, WeightClass};

#[test]
fn numeric_codes_match_the_backend_scale() {
    assert_eq!(weight_code(WeightClass::Regular), 80);
    assert_eq!(weight_code(WeightClass::Bold), 200);
    assert_eq!(slant_code(SlantClass::Roman), 0);
    assert_eq!(slant_code(SlantClass::Italic), 100);
    assert_eq!(slant_code(SlantClass::Oblique), 110);
    assert_eq!(spacing_code(SpacingClass::Any), 0);
    assert_eq!(spacing_code(SpacingClass::Monospace), 100);
}

#[test]
fn empty_property_gives_unconstrained_pattern() {
    let p = FontPropertyBuilder::new().build();
    let pat = query_pattern(&p);
    assert!(pat.family.is_none());
    assert!(pat.weight.is_none());
    assert!(pat.slant.is_none());
    assert!(pat.spacing.is_none());
}

#[test]
fn monospace_request_constrains_spacing() {
    let p = FontPropertyBuilder::new().monospace().build();
    let pat = query_pattern(&p);
    assert_eq!(pat.spacing, Some(100));
    assert!(pat.family.is_none());
    assert!(pat.weight.is_none());
    assert!(pat.slant.is_none());
}

#[test]
fn query_pattern_carries_every_constraint() {
    let p = FontPropertyBuilder::new().family("Arial").bold().oblique().monospace().build();
    let pat = query_pattern(&p);
    assert_eq!(pat.family.as_deref(), Some("Arial"));
    assert_eq!(pat.weight, Some(200));
    assert_eq!(pat.slant, Some(110));
    assert_eq!(pat.spacing, Some(100));
}

#[test]
fn load_pattern_drops_spacing() {
    let p = FontPropertyBuilder::new().family("DejaVu Sans").bold().italic().monospace().build();
    let pat = load_pattern(&p);
    assert_eq!(pat.family.as_deref(), Some("DejaVu Sans"));
    assert_eq!(pat.weight, Some(200));
    assert_eq!(pat.slant, Some(100));
    assert!(pat.spacing.is_none());
}
