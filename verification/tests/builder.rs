use font_loader::property::{FontPropertyBuilder, SlantClass, SpacingClass, WeightClass};

#[test]
fn empty_builder_has_every_field_absent() {
    let p = FontPropertyBuilder::new().build();
    assert!(p.family.is_none());
    assert!(p.weight.is_none());
    assert!(p.slant.is_none());
    assert!(p.spacing.is_none());
}

#[test]
fn bold_italic_commute() {
    let p1 = FontPropertyBuilder::new().bold().italic().build();
    let p2 = FontPropertyBuilder::new().italic().bold().build();
    assert_eq!(p1.weight, Some(WeightClass::Bold));
    assert_eq!(p1.slant, Some(SlantClass::Italic));
    assert_eq!(p1.weight, p2.weight);
    assert_eq!(p1.slant, p2.slant);
}

#[test]
fn last_write_wins_on_slant() {
    let p = FontPropertyBuilder::new().italic().oblique().build();
    assert_eq!(p.slant, Some(SlantClass::Oblique));
    let q = FontPropertyBuilder::new().oblique().italic().build();
    assert_eq!(q.slant, Some(SlantClass::Italic));
}

#[test]
fn last_write_wins_on_family() {
    let p = FontPropertyBuilder::new().family("Arial").family("Verdana").build();
    assert_eq!(p.family.as_deref(), Some("Verdana"));
}

#[test]
fn setters_fill_their_fields() {
    let p = FontPropertyBuilder::new().family("Arial").bold().italic().monospace().build();
    assert_eq!(p.family.as_deref(), Some("Arial"));
    assert_eq!(p.weight, Some(WeightClass::Bold));
    assert_eq!(p.slant, Some(SlantClass::Italic));
    assert_eq!(p.spacing, Some(SpacingClass::Monospace));
}
