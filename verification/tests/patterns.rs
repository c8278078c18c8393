use rust_embed::patterns::{is_path_included, is_path_included_unfiltered, path_inclusion, PathFilter};

#[test]
fn no_patterns_include_everything() {
    assert!(is_path_included("index.html", &[], &[]));
    assert!(is_path_included("images/llama.png", &[], &[]));
}

#[test]
fn includes_select_paths() {
    let includes = ["*.html", "images/*"];
    assert!(is_path_included("index.html", &includes, &[]));
    assert!(is_path_included("images/llama.png", &includes, &[]));
    assert!(!is_path_included("main.js", &includes, &[]));
}

#[test]
fn excludes_reject_paths() {
    assert!(!is_path_included("notes.txt", &[], &["*.txt"]));
    assert!(is_path_included("index.html", &[], &["*.txt"]));
}

#[test]
fn exclude_has_priority_over_include() {
    assert!(!is_path_included("images/llama.png", &["images/*"], &["*.png"]));
    assert!(is_path_included("images/flower.jpg", &["images/*"], &["*.png"]));
}

#[test]
fn invalid_pattern_after_a_hit_is_not_reached() {
    assert!(!is_path_included("a.txt", &[], &["*.txt", "a["]));
}

#[test]
fn filter_refuses_invalid_patterns() {
    assert!(PathFilter::new(vec!["a[".to_string()], vec![]).is_none());
    assert!(PathFilter::new(vec![], vec!["{a".to_string()]).is_none());
    assert!(PathFilter::new(vec!["*.html".to_string()], vec!["*.txt".to_string()]).is_some());
}

#[test]
fn filter_answers_like_is_path_included() {
    let filter = PathFilter::new(vec!["*.html".to_string(), "images/*".to_string()], vec!["*.png".to_string()]).unwrap();
    assert!(filter.is_included("index.html"));
    assert!(filter.is_included("images/flower.jpg"));
    assert!(!filter.is_included("images/llama.png"));
    assert!(!filter.is_included("main.js"));
}

#[test]
fn inclusion_reports_unreached_and_reached_bad_patterns() {
    assert_eq!(path_inclusion("a.txt", &[], &["*.txt", "a["]), Some(false));
    assert_eq!(path_inclusion("a.html", &[], &["*.txt", "a["]), None);
    assert_eq!(path_inclusion("a.html", &["*.html"], &[]), Some(true));
    assert_eq!(path_inclusion("a.js", &["*.html"], &[]), Some(false));
}

#[test]
fn deeply_nested_alternates_are_refused_without_panic() {
    let pattern = format!("{}a{}", "{".repeat(300), "}".repeat(300));
    assert_eq!(path_inclusion("a", &[pattern.as_str()], &[]), None);
    assert!(PathFilter::new(vec![pattern], vec![]).is_none());
}

#[test]
fn unfiltered_includes_every_path() {
    assert!(is_path_included_unfiltered("notes.txt", &[], &["*.txt"]));
    assert!(is_path_included_unfiltered("a", &["b"], &[]));
}
