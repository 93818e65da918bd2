use ttstack::auth::{bearer_ok, unauthorized_reply};
use ttstack::schema::{parse_schema_version, plan_migration, SCHEMA_VERSION};

#[test]
fn schema_versions() {
    assert_eq!(SCHEMA_VERSION, 1);
    assert_eq!(parse_schema_version("1"), Ok(1));
    assert_eq!(parse_schema_version("one"), Err("invalid schema_version: one".to_string()));
    let fresh = plan_migration(0, "database").ok().unwrap();
    assert!(fresh.create_v1 && fresh.announce);
    let current = plan_migration(1, "database").ok().unwrap();
    assert!(!current.create_v1 && !current.announce);
    assert_eq!(
        plan_migration(2, "agent DB").err().unwrap(),
        "agent DB schema v2 is newer than this binary (v1); upgrade TTstack first"
    );
}

#[test]
fn bearer_tokens() {
    assert!(bearer_ok(Some("Bearer s3cret"), "s3cret"));
    assert!(!bearer_ok(Some("Bearer s3cre"), "s3cret"));
    assert!(!bearer_ok(Some("bearer s3cret"), "s3cret"));
    assert!(!bearer_ok(None, "s3cret"));
    assert!(!bearer_ok(Some("Bearer"), ""));
    assert!(bearer_ok(Some("Bearer "), ""));
    let r = unauthorized_reply();
    assert!(!r.ok);
    assert_eq!(r.error.as_deref(), Some("invalid or missing API key"));
}
