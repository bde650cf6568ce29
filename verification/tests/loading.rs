use font_loader::loader::{plan_load, BestMatch};

#[test]
fn no_match_loads_nothing() {
    assert!(plan_load(None).is_none());
}

#[test]
fn a_match_names_its_file_and_index() {
    let best = BestMatch { file: Some("/fonts/collection.ttc".to_string()), index: Some(2) };
    let plan = plan_load(Some(best));
    let (file, index) = plan.expect("a present match yields a plan");
    assert_eq!(file, "/fonts/collection.ttc");
    assert_eq!(index, 2);
}

#[test]
fn a_plain_file_keeps_index_zero() {
    let best = BestMatch { file: Some("/fonts/arial.ttf".to_string()), index: Some(0) };
    let plan = plan_load(Some(best));
    assert_eq!(plan, Some(("/fonts/arial.ttf".to_string(), 0)));
}
