use lambda_versions::lister::FunctionRecord;
use lambda_versions::report::{find_function, join_report, str_contains, ReportLine};

fn record(name: &str) -> FunctionRecord {
    FunctionRecord { name: name.to_string(), arn: format!("arn:{}", name), env_vars: vec![("K".to_string(), "v".to_string())] }
}

#[test]
fn join_matches_and_reports_missing() {
    let functions = vec![record("prod-scraper-handler")];
    let versions = vec![
        ("scraper".to_string(), "1.2.0".to_string()),
        ("nonexistent-repo".to_string(), "0.0.1".to_string()),
    ];
    let lines = join_report(&functions, &versions);
    assert_eq!(lines.len(), 2);
    match &lines[0] {
        ReportLine::Matched { repository, function, version } => {
            assert_eq!(repository, "scraper");
            assert_eq!(functions[*function].name, "prod-scraper-handler");
            assert_eq!(version, "1.2.0");
        }
        ReportLine::NotFound { .. } => panic!("expected a match"),
    }
    match &lines[1] {
        ReportLine::NotFound { repository } => assert_eq!(repository, "nonexistent-repo"),
        ReportLine::Matched { .. } => panic!("expected no match"),
    }
}

#[test]
fn first_matching_function_wins() {
    let functions = vec![record("alpha"), record("scraper-dev"), record("scraper-prod")];
    assert_eq!(find_function(&functions, "scraper"), Some(1));
    assert_eq!(find_function(&functions, "prod"), Some(2));
    assert_eq!(find_function(&functions, "gamma"), None);
    assert_eq!(find_function(&Vec::new(), "x"), None);
}

#[test]
fn substring_edges() {
    assert!(str_contains("abc", ""));
    assert!(str_contains("", ""));
    assert!(!str_contains("", "a"));
    assert!(!str_contains("ab", "abc"));
    assert!(str_contains("abc", "abc"));
    assert!(str_contains("xxabcab", "cab"));
    assert!(!str_contains("aab", "abb"));
    assert!(str_contains("grüße-handler", "üße"));
    assert!(!str_contains("Scraper", "scraper"));
}
