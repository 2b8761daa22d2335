use lambda_versions::versions::{
    default_repositories, fetch_packagejson_details, package_version, repository_version, version_from_fields,
    FetchOutcome, RepoFailure,
};

fn items(texts: &[Option<&str>]) -> FetchOutcome {
    FetchOutcome::Items(texts.iter().map(|t| t.map(|s| s.to_string())).collect())
}

#[test]
fn five_repositories_two_versions_three_diagnostics() {
    let fetched = vec![
        ("Scotski".to_string(), items(&[Some(r#"{"name": "scotski"}"#)])),
        ("scraper".to_string(), items(&[Some("{not json")])),
        ("standen-node".to_string(), FetchOutcome::RequestFailed("connection reset".to_string())),
        ("now-github-starter".to_string(), items(&[Some(r#"{"version": "0.3.1"}"#)])),
        ("movies-front".to_string(), items(&[Some(r#"{"name": "movies", "version": "2.0.0"}"#)])),
    ];
    let report = fetch_packagejson_details(fetched);
    assert_eq!(
        report.versions,
        vec![
            ("now-github-starter".to_string(), "0.3.1".to_string()),
            ("movies-front".to_string(), "2.0.0".to_string()),
        ]
    );
    assert_eq!(report.failures.len(), 3);
    assert_eq!(report.failures[0].0, "Scotski");
    assert!(matches!(report.failures[0].1, RepoFailure::NoVersion));
    assert_eq!(report.failures[1].0, "scraper");
    assert!(matches!(report.failures[1].1, RepoFailure::Unparseable));
    assert_eq!(report.failures[2].0, "standen-node");
    assert!(matches!(&report.failures[2].1, RepoFailure::Request(m) if m == "connection reset"));
}

#[test]
fn encoded_version_round_trips() {
    for version in ["1.2.0", "0.0.1-beta.3", "", "with \"quotes\" and \\ slash", "ünïcødé"] {
        let mut object = serde_json::Map::new();
        object.insert("name".to_string(), serde_json::Value::String("pkg".to_string()));
        object.insert("version".to_string(), serde_json::Value::String(version.to_string()));
        let text = serde_json::to_string(&serde_json::Value::Object(object)).unwrap();
        let report = fetch_packagejson_details(vec![("repo".to_string(), items(&[Some(&text)]))]);
        assert_eq!(report.versions, vec![("repo".to_string(), version.to_string())]);
        assert!(report.failures.is_empty());
    }
}

#[test]
fn non_string_version_kept_as_json_text() {
    assert_eq!(package_version(r#"{"version": 3}"#).unwrap(), "3");
    assert_eq!(package_version(r#"{"version": [1, 2]}"#).unwrap(), "[1,2]");
}

#[test]
fn non_object_json_is_unparseable() {
    assert!(matches!(package_version(r#"["version"]"#), Err(RepoFailure::Unparseable)));
    assert!(matches!(package_version(""), Err(RepoFailure::Unparseable)));
}

#[test]
fn missing_or_undecodable_content() {
    assert!(matches!(repository_version(FetchOutcome::Items(vec![])), Err(RepoFailure::ContentMissing)));
    assert!(matches!(repository_version(items(&[None, Some(r#"{"version": "1"}"#)])), Err(RepoFailure::Undecodable)));
    assert_eq!(repository_version(items(&[Some(r#"{"version": "1"}"#), None])).unwrap(), "1");
}

#[test]
fn version_field_found_among_fields() {
    let fields = vec![
        ("name".to_string(), "x".to_string()),
        ("version".to_string(), "4.5.6".to_string()),
        ("version".to_string(), "9.9.9".to_string()),
    ];
    assert_eq!(version_from_fields(fields).unwrap(), "4.5.6");
    let fields = vec![("Version".to_string(), "1.0.0".to_string())];
    assert!(matches!(version_from_fields(fields), Err(RepoFailure::NoVersion)));
}

#[test]
fn default_repository_list() {
    assert_eq!(
        default_repositories(),
        vec!["Scotski", "scraper", "standen-node", "now-github-starter", "movies-front"]
    );
}
