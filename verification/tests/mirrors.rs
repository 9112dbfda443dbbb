use invidious_search::FetchError;
use invidious_search::MirrorScan;
use invidious_search::directory::parse_invidious_instance_list;
use invidious_search::directory::ratio_exceeds_threshold;
use invidious_search::trending::static_mirrors;
use invidious_search::trending::trending_url;

#[test]
fn directory_scenario_single_healthy_entry() {
    let data = r#"[["a",{"api":true,"uri":"https://m1","monitor":{"30dRatio":{"ratio":"99.2"}}}]]"#;
    let uris = parse_invidious_instance_list(data).expect("one healthy entry");
    assert_eq!(uris, vec!["https://m1".to_string()]);
}

#[test]
fn directory_filters_unhealthy_and_non_api_entries() {
    let data = r#"[
        ["kept",{"api":true,"uri":"https://keep","monitor":{"30dRatio":{"ratio":"99.2"}}}],
        ["at_threshold",{"api":true,"uri":"https://at","monitor":{"30dRatio":{"ratio":"95.0"}}}],
        ["below",{"api":true,"uri":"https://low","monitor":{"30dRatio":{"ratio":"94.9"}}}],
        ["no_api",{"api":false,"uri":"https://noapi","monitor":{"30dRatio":{"ratio":"99.9"}}}],
        ["bad_ratio",{"api":true,"uri":"https://bad","monitor":{"30dRatio":{"ratio":"down"}}}],
        ["no_monitor",{"api":true,"uri":"https://nomon"}]
    ]"#;
    let uris = parse_invidious_instance_list(data).expect("one healthy entry remains");
    assert_eq!(uris, vec!["https://keep".to_string()]);
}

#[test]
fn directory_with_no_healthy_entry_fails() {
    assert!(parse_invidious_instance_list("[]").is_none());
    assert!(parse_invidious_instance_list("not json").is_none());
    assert!(parse_invidious_instance_list(r#"{"a":1}"#).is_none());
    let all_low = r#"[["a",{"api":true,"uri":"https://m1","monitor":{"30dRatio":{"ratio":"10"}}}]]"#;
    assert!(parse_invidious_instance_list(all_low).is_none());
}

#[test]
fn ratio_threshold_is_strict_and_exact() {
    assert!(ratio_exceeds_threshold("99.2"));
    assert!(ratio_exceeds_threshold("95.01"));
    assert!(ratio_exceeds_threshold("95.000000001"));
    assert!(ratio_exceeds_threshold("100"));
    assert!(ratio_exceeds_threshold("096"));
    assert!(!ratio_exceeds_threshold("95"));
    assert!(!ratio_exceeds_threshold("95.0"));
    assert!(!ratio_exceeds_threshold("95.000"));
    assert!(!ratio_exceeds_threshold("94.999"));
    assert!(!ratio_exceeds_threshold("0.5"));
    assert!(!ratio_exceeds_threshold(".5"));
    assert!(!ratio_exceeds_threshold(""));
    assert!(!ratio_exceeds_threshold("."));
    assert!(!ratio_exceeds_threshold("9 5"));
    assert!(!ratio_exceeds_threshold("95.0.1"));
    assert!(!ratio_exceeds_threshold("-99"));
}

#[test]
fn fallback_scan_attempts_every_static_mirror_before_giving_up() {
    let mut scan = MirrorScan::start(None);
    let mut offered = Vec::new();
    while let Some(uri) = scan.next_candidate() {
        offered.push(uri);
    }
    let mut expected = static_mirrors();
    expected.sort();
    let mut got = offered.clone();
    got.sort();
    assert_eq!(got, expected);
    assert_eq!(scan.attempted_count(), expected.len());
    assert!(scan.next_candidate().is_none());
}

#[test]
fn empty_candidate_pool_offers_nothing_and_fails_as_no_mirror() {
    let mut scan = MirrorScan::start(Some(Vec::new()));
    assert!(scan.next_candidate().is_none());
    assert_eq!(scan.attempted_count(), 0);
    assert_eq!(scan.failure(), Some(FetchError::NoMirrorAvailable));
}

#[test]
fn exhausted_scan_fails_as_no_mirror_and_not_before() {
    let mut scan = MirrorScan::start(Some(vec!["https://m1".to_string()]));
    assert_eq!(scan.failure(), None);
    assert!(scan.next_candidate().is_some());
    assert_eq!(scan.failure(), Some(FetchError::NoMirrorAvailable));
}

#[test]
fn scan_offers_exactly_the_directory_pool() {
    let pool = vec![
        "https://m1".to_string(),
        "https://m2".to_string(),
        "https://m3".to_string(),
    ];
    let mut scan = MirrorScan::start(Some(pool.clone()));
    let mut offered = Vec::new();
    while let Some(uri) = scan.next_candidate() {
        offered.push(uri);
    }
    offered.sort();
    assert_eq!(offered, pool);
}

#[test]
fn trending_url_interpolates_mirror_and_region() {
    assert_eq!(
        trending_url("https://m1", "US"),
        "https://m1/api/v1/trending?type=music&region=US"
    );
}
