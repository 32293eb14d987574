use commit_tracker::config::{list_repositories, resolve, ConfigError};
use commit_tracker::model::{RepositoryRef, Timestamp};

#[test]
fn one_owner_with_one_repository() {
    let config = resolve(Some(r#"{"acme": ["webapp"]}"#), Some("token")).unwrap();
    assert_eq!(config.repositories, vec![RepositoryRef::new("acme", "webapp")]);
    assert_eq!(config.credential, "token");
}

#[test]
fn author_and_cutoff_are_fixed() {
    let config = resolve(Some("{}"), Some("token")).unwrap();
    assert_eq!(config.author, "cloud303-cholden");
    assert_eq!(config.since, Timestamp { year: 2023, month: 1, day: 1, hour: 0, minute: 0, second: 0 });
    assert!(config.repositories.is_empty());
}

#[test]
fn repositories_keep_the_order_of_the_document() {
    let raw = r#"{"zeta": ["b", "a"], "acme": ["webapp"], "mid": [], "beta": ["x", "y", "z"]}"#;
    let config = resolve(Some(raw), Some("t")).unwrap();
    assert_eq!(
        config.repositories,
        vec![
            RepositoryRef::new("zeta", "b"),
            RepositoryRef::new("zeta", "a"),
            RepositoryRef::new("acme", "webapp"),
            RepositoryRef::new("beta", "x"),
            RepositoryRef::new("beta", "y"),
            RepositoryRef::new("beta", "z"),
        ]
    );
}

#[test]
fn an_owner_named_twice_keeps_its_place_and_its_last_list() {
    let raw = r#"{"acme": ["old"], "zed": ["z"], "acme": ["new", "newer"]}"#;
    let config = resolve(Some(raw), Some("t")).unwrap();
    assert_eq!(
        config.repositories,
        vec![
            RepositoryRef::new("acme", "new"),
            RepositoryRef::new("acme", "newer"),
            RepositoryRef::new("zed", "z"),
        ]
    );
}

#[test]
fn absent_credential_is_an_error() {
    assert_eq!(resolve(Some(r#"{"acme": ["webapp"]}"#), None), Err(ConfigError::MissingCredential));
}

#[test]
fn empty_credential_is_an_error() {
    assert_eq!(resolve(Some(r#"{"acme": ["webapp"]}"#), Some("")), Err(ConfigError::MissingCredential));
}

#[test]
fn credential_is_looked_at_first() {
    assert_eq!(resolve(None, None), Err(ConfigError::MissingCredential));
    assert_eq!(resolve(Some("not json"), Some("")), Err(ConfigError::MissingCredential));
}

#[test]
fn absent_mapping_is_an_error() {
    assert_eq!(resolve(None, Some("token")), Err(ConfigError::MissingConfiguration));
}

#[test]
fn malformed_mapping_is_an_error() {
    for raw in [
        "",
        "not json",
        "[]",
        r#"["acme"]"#,
        r#"{"acme": "webapp"}"#,
        r#"{"acme": [1, 2]}"#,
        r#"{"acme": ["webapp"]"#,
        r#"{"acme": ["webapp"]} trailing"#,
        r#"{"acme": null}"#,
        "null",
        "42",
    ] {
        assert_eq!(resolve(Some(raw), Some("token")), Err(ConfigError::Malformed), "{}", raw);
    }
}

#[test]
fn listing_flattens_owner_by_owner() {
    let owners = vec![
        ("a".to_string(), vec!["1".to_string(), "2".to_string()]),
        ("b".to_string(), vec![]),
        ("c".to_string(), vec!["3".to_string()]),
    ];
    assert_eq!(
        list_repositories(&owners),
        vec![RepositoryRef::new("a", "1"), RepositoryRef::new("a", "2"), RepositoryRef::new("c", "3")]
    );
    assert_eq!(list_repositories(&Vec::new()), Vec::<RepositoryRef>::new());
}
