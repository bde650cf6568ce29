use font_loader::order::str_lex_le;
use font_loader::query::{collect_fonts, query_results, sort_fonts, FontInfo, ResolvedEntry};

fn entry(family: &str, style: &str, file: Option<&str>) -> ResolvedEntry {
    ResolvedEntry {
        family: Some(family.to_string()),
        style: Some(style.to_string()),
        file: file.map(|f| f.to_string()),
    }
}

#[test]
fn order_is_bytewise_and_case_sensitive() {
    assert!(str_lex_le("", "a"));
    assert!(!str_lex_le("a", ""));
    assert!(str_lex_le("Arial", "Arial"));
    assert!(str_lex_le("Arial", "Verdana"));
    assert!(!str_lex_le("Verdana", "Arial"));
    // Upper case sorts before lower case in the byte order.
    assert!(str_lex_le("Zebra", "apple"));
    assert!(str_lex_le("Arial", "arial"));
    // A prefix precedes its extensions.
    assert!(str_lex_le("Arial", "Arial Narrow"));
    assert!(!str_lex_le("Arial Narrow", "Arial"));
}

#[test]
fn font_info_new_keeps_its_arguments() {
    let f = FontInfo::new("Arial".to_string(), "Regular".to_string(), None);
    assert_eq!(f.family, "Arial");
    assert_eq!(f.style, "Regular");
    assert!(f.file.is_none());
}

#[test]
fn collect_skips_entries_without_family_or_style() {
    let entries = vec![
        entry("Arial", "Regular", Some("/fonts/arial.ttf")),
        ResolvedEntry { family: None, style: Some("Bold".to_string()), file: None },
        ResolvedEntry { family: Some("Ghostly".to_string()), style: None, file: None },
    ];
    let fonts = collect_fonts(entries);
    assert_eq!(fonts.len(), 1);
    assert_eq!(fonts[0].family, "Arial");
    assert_eq!(fonts[0].style, "Regular");
    assert_eq!(fonts[0].file.as_deref(), Some("/fonts/arial.ttf"));
}

#[test]
fn sort_orders_by_family() {
    let fonts = vec![
        FontInfo::new("Verdana".to_string(), "Regular".to_string(), None),
        FontInfo::new("Arial".to_string(), "Regular".to_string(), None),
        FontInfo::new("DejaVu Sans".to_string(), "Book".to_string(), None),
    ];
    let sorted = sort_fonts(fonts);
    let families: Vec<&str> = sorted.iter().map(|f| f.family.as_str()).collect();
    assert_eq!(families, vec!["Arial", "DejaVu Sans", "Verdana"]);
}

#[test]
fn sort_keeps_ties_in_input_order() {
    let fonts = vec![
        FontInfo::new("Arial".to_string(), "Bold".to_string(), None),
        FontInfo::new("Arial".to_string(), "Regular".to_string(), None),
        FontInfo::new("Arial".to_string(), "Italic".to_string(), None),
    ];
    let sorted = sort_fonts(fonts);
    let styles: Vec<&str> = sorted.iter().map(|f| f.style.as_str()).collect();
    assert_eq!(styles, vec!["Bold", "Regular", "Italic"]);
}

#[test]
fn query_results_are_sorted_by_family() {
    let entries = vec![
        entry("Verdana", "Regular", None),
        entry("Arial", "Bold", Some("/fonts/arialbd.ttf")),
        entry("DejaVu Sans", "Book", None),
        entry("Arial", "Regular", Some("/fonts/arial.ttf")),
    ];
    let result = query_results(entries);
    let families: Vec<&str> = result.iter().map(|f| f.family.as_str()).collect();
    assert_eq!(families, vec!["Arial", "Arial", "DejaVu Sans", "Verdana"]);
    // The two Arial hits keep the backend's order.
    assert_eq!(result[0].style, "Bold");
    assert_eq!(result[1].style, "Regular");
}

#[test]
fn single_family_request_yields_only_that_family() {
    let entries = vec![
        entry("Arial", "Regular", Some("/fonts/arial.ttf")),
        entry("Arial", "Bold", Some("/fonts/arialbd.ttf")),
    ];
    let result = query_results(entries);
    assert_eq!(result.len(), 2);
    assert!(result.iter().all(|f| f.family == "Arial"));
}

#[test]
fn same_entries_assemble_identically() {
    let make = || {
        vec![
            entry("Verdana", "Regular", None),
            entry("Arial", "Bold", None),
            entry("Arial", "Regular", None),
        ]
    };
    let r1 = query_results(make());
    let r2 = query_results(make());
    assert_eq!(r1.len(), r2.len());
    for (a, b) in r1.iter().zip(r2.iter()) {
        assert_eq!(a.family, b.family);
        assert_eq!(a.style, b.style);
        assert_eq!(a.file, b.file);
    }
}

#[test]
fn empty_answer_gives_empty_result() {
    let result = query_results(Vec::new());
    assert!(result.is_empty());
}
