use clearglass::scopes::{action_rank, any_satisfies, parse, resource_covers, satisfies};

#[test]
fn exact_match_always_satisfies() {
    assert!(satisfies("identity-api:read", "identity-api:read"));
    // non-grammar scopes match exactly, nothing more
    assert!(satisfies("cfm-read", "cfm-read"));
    assert!(!satisfies("cfm-read", "cfm-write"));
    assert!(!satisfies("read", "identity-api:read"));
}

#[test]
fn action_hierarchy() {
    assert!(satisfies("identity-api:write", "identity-api:read"));
    assert!(satisfies("identity-api:admin", "identity-api:read"));
    assert!(satisfies("identity-api:admin", "identity-api:write"));
    assert!(!satisfies("identity-api:read", "identity-api:write"));
    assert!(!satisfies("identity-api:write", "identity-api:admin"));
}

#[test]
fn api_level_covers_resource_level() {
    assert!(satisfies(
        "identity-api:read",
        "identity-api:participants:read"
    ));
    assert!(satisfies(
        "identity-api:write",
        "identity-api:participants:read"
    ));
    assert!(satisfies(
        "identity-api:admin",
        "identity-api:participants:write"
    ));
}

#[test]
fn wildcard_resource_covers_specific_and_api_level() {
    assert!(satisfies(
        "identity-api:*:read",
        "identity-api:participants:read"
    ));
    assert!(satisfies("identity-api:*:read", "identity-api:read"));
    assert!(satisfies("identity-api:*:write", "identity-api:dids:read"));
}

#[test]
fn resource_level_does_not_widen() {
    assert!(!satisfies(
        "identity-api:participants:read",
        "identity-api:read"
    ));
    assert!(!satisfies(
        "identity-api:participants:read",
        "identity-api:*:read"
    ));
    assert!(!satisfies(
        "identity-api:participants:write",
        "identity-api:dids:write"
    ));
}

#[test]
fn same_resource_action_hierarchy() {
    assert!(satisfies(
        "identity-api:participants:write",
        "identity-api:participants:read"
    ));
    assert!(!satisfies(
        "identity-api:participants:read",
        "identity-api:participants:write"
    ));
}

#[test]
fn apis_do_not_cross() {
    assert!(!satisfies("management-api:admin", "identity-api:read"));
    assert!(!satisfies("identity-api:admin", "issuer-admin-api:read"));
}

#[test]
fn malformed_scopes_never_widen() {
    assert!(!satisfies("identity-api:", "identity-api:read"));
    assert!(!satisfies(":read", "identity-api:read"));
    assert!(!satisfies("identity-api:foo", "identity-api:read"));
    assert!(!satisfies("identity-api:a:b:read", "identity-api:read"));
}

#[test]
fn any_satisfies_over_sets() {
    let required = vec!["identity-api:participants:read".to_string()];
    assert!(any_satisfies(
        ["foo", "identity-api:read"].into_iter(),
        &required
    ));
    assert!(!any_satisfies(["foo", "bar"].into_iter(), &required));
    assert!(!any_satisfies([].into_iter(), &required));
}

#[test]
fn any_of_several_required_scopes_suffices() {
    let required = vec!["a:x:write".to_string(), "b:read".to_string()];
    assert!(any_satisfies("c b:admin".split_whitespace(), &required));
    assert!(any_satisfies("a:*:write".split_whitespace(), &required));
    assert!(!any_satisfies("a:x:read b:y:admin".split_whitespace(), &required));
    assert!(!any_satisfies("a:admin".split_whitespace(), &[]));
}

#[test]
fn wider_scopes_chain() {
    assert!(satisfies("a:admin", "a:*:write"));
    assert!(satisfies("a:*:write", "a:x:read"));
    assert!(satisfies("a:admin", "a:x:read"));
}

#[test]
fn ranks_of_actions() {
    assert_eq!(action_rank("read"), Some(1));
    assert_eq!(action_rank("write"), Some(2));
    assert_eq!(action_rank("admin"), Some(3));
    assert_eq!(action_rank("Read"), None);
    assert_eq!(action_rank(""), None);
}

#[test]
fn scopes_are_taken_apart() {
    let api = parse("a:write").unwrap();
    assert_eq!((api.api, api.resource, api.rank), ("a", None, 2));
    let resource = parse("a:b:admin").unwrap();
    assert_eq!(
        (resource.api, resource.resource, resource.rank),
        ("a", Some("b"), 3)
    );
    assert!(parse("read").is_none());
    assert!(parse("a::read").is_none());
    assert!(parse(":b:read").is_none());
    assert!(parse("a:b:c:read").is_none());
    assert!(parse("a:b:").is_none());
}

#[test]
fn coverage_of_resources() {
    assert!(resource_covers(None, None));
    assert!(resource_covers(None, Some("x")));
    assert!(resource_covers(Some("*"), None));
    assert!(resource_covers(Some("*"), Some("x")));
    assert!(resource_covers(Some("x"), Some("x")));
    assert!(!resource_covers(Some("x"), None));
    assert!(!resource_covers(Some("x"), Some("y")));
    assert!(!resource_covers(Some("x"), Some("*")));
}
