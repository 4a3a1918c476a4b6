use imgsort::resolver::{resolve_bucket, str_eq};

#[test]
fn fresh_prefix_is_created() {
    let listing: Vec<String> = vec!["2020_01_01".to_string(), "notes".to_string()];
    let (name, create) = resolve_bucket(&listing, &"2020_01_02".to_string());
    assert_eq!(name, "2020_01_02");
    assert!(create);
}

#[test]
fn exact_match_is_reused() {
    let listing: Vec<String> = vec!["2020_01_02".to_string()];
    let (name, create) = resolve_bucket(&listing, &"2020_01_02".to_string());
    assert_eq!(name, "2020_01_02");
    assert!(!create);
}

#[test]
fn suffixed_directory_is_reused() {
    let listing: Vec<String> = vec!["2019_12_31".to_string(), "2020_01_02.trip".to_string()];
    let (name, create) = resolve_bucket(&listing, &"2020_01_02".to_string());
    assert_eq!(name, "2020_01_02.trip");
    assert!(!create);
}

#[test]
fn first_match_wins() {
    let listing: Vec<String> =
        vec!["2020_01_02.trip".to_string(), "2020_01_02".to_string(), "2020_01_02.x".to_string()];
    let (name, create) = resolve_bucket(&listing, &"2020_01_02".to_string());
    assert_eq!(name, "2020_01_02.trip");
    assert!(!create);
}

#[test]
fn near_misses_are_not_matches() {
    let listing: Vec<String> = vec![
        "2020_01_0".to_string(),
        "2020_01_02x".to_string(),
        "2020_01_020".to_string(),
        "x2020_01_02".to_string(),
    ];
    let (name, create) = resolve_bucket(&listing, &"2020_01_02".to_string());
    assert_eq!(name, "2020_01_02");
    assert!(create);
}

#[test]
fn str_eq_compares_characters() {
    assert!(str_eq("abc", "abc"));
    assert!(!str_eq("abc", "abd"));
    assert!(!str_eq("abc", "ab"));
    assert!(str_eq("", ""));
}
