use clearglass::routes::{
    method_matches, path_matches, Decision, DefaultAction, LoadError, Route, RouteConfig,
    RouteError, RouteFault, RoutesFile,
};
use serde_yaml_ng::Value;

fn texts(list: &Value) -> Vec<String> {
    match list.as_sequence() {
        Some(items) => items
            .iter()
            .map(|item| item.as_str().unwrap().to_string())
            .collect(),
        None => Vec::new(),
    }
}

fn parsed(yaml: &str) -> RouteConfig {
    let value: Value = serde_yaml_ng::from_str(yaml).expect("yaml parse failed");
    RouteConfig {
        default: match value.get("default").and_then(|d| d.as_str()) {
            None => DefaultAction::default(),
            Some("deny") => DefaultAction::Deny,
            Some("allow") => DefaultAction::Allow,
            Some(other) => panic!("unknown default: {other}"),
        },
        routes: value["routes"]
            .as_sequence()
            .expect("routes missing")
            .iter()
            .map(|route| Route {
                path: route["path"].as_str().expect("path missing").to_string(),
                methods: texts(route.get("methods").unwrap_or(&Value::Null)),
                any_of: texts(&route["anyOf"]),
            })
            .collect(),
    }
}

fn config(yaml: &str) -> RouteConfig {
    let config = parsed(yaml);
    config.validate().expect("validation failed");
    config
}

const SAMPLE: &str = r#"
default: deny
routes:
  - path: /api/identity/v1beta/participants/*/credentials/**
    methods: [GET]
    anyOf: [identity-api:credentials:read]
  - path: /api/identity/v1beta/participants/*/credentials/**
    methods: [POST]
    anyOf: [identity-api:credentials:write]
  - path: /api/identity/v1beta/participants/**
    methods: [POST, DELETE]
    anyOf: [identity-api:participants:write]
  - path: /api/identity/**
    methods: [GET]
    anyOf: [identity-api:read]
  - path: /public/health
    anyOf: [does-not-matter]
"#;

#[test]
fn path_glob_semantics() {
    assert!(path_matches("/a/b", "/a/b"));
    assert!(path_matches("/a/b/", "/a/b"));
    assert!(!path_matches("/a/b", "/a"));
    assert!(!path_matches("/a", "/a/b"));

    // `*` — exactly one segment
    assert!(path_matches("/a/*/c", "/a/b/c"));
    assert!(!path_matches("/a/*/c", "/a/c"));
    assert!(!path_matches("/a/*/c", "/a/b/d/c"));

    // `**` — any remainder, including nothing
    assert!(path_matches("/a/**", "/a"));
    assert!(path_matches("/a/**", "/a/b/c"));
    assert!(!path_matches("/a/**", "/b"));
}

#[test]
fn first_match_wins_and_methods_filter() {
    let c = config(SAMPLE);
    // GET credentials → credentials:read rule, api-level token satisfies via implication
    assert_eq!(
        c.evaluate(
            "GET",
            "/api/identity/v1beta/participants/p1/credentials",
            "identity-api:read"
        ),
        Decision::Allow
    );
    // narrow token on the exact rule
    assert_eq!(
        c.evaluate(
            "GET",
            "/api/identity/v1beta/participants/p1/credentials/request/r1",
            "identity-api:credentials:read"
        ),
        Decision::Allow
    );
    // POST credentials needs write; read token fails on that rule (not the GET one)
    assert_eq!(
        c.evaluate(
            "POST",
            "/api/identity/v1beta/participants/p1/credentials",
            "identity-api:credentials:read"
        ),
        Decision::InsufficientScope {
            rule_path: "/api/identity/v1beta/participants/*/credentials/**".into(),
            required: vec!["identity-api:credentials:write".into()],
        }
    );
    // POST on participants root → participants:write rule
    assert_eq!(
        c.evaluate(
            "POST",
            "/api/identity/v1beta/participants",
            "identity-api:participants:write"
        ),
        Decision::Allow
    );
    // method case-insensitive
    assert_eq!(
        c.evaluate(
            "post",
            "/api/identity/v1beta/participants",
            "identity-api:admin"
        ),
        Decision::Allow
    );
}

#[test]
fn default_deny_when_no_rule_matches() {
    let c = config(SAMPLE);
    assert_eq!(
        c.evaluate(
            "DELETE",
            "/api/identity/v1beta/keypairs",
            "identity-api:admin"
        ),
        Decision::NoMatchingRule
    );
    assert_eq!(
        c.evaluate("GET", "/api/other", "identity-api:admin"),
        Decision::NoMatchingRule
    );
}

#[test]
fn default_allow_when_configured() {
    let c = config("default: allow\nroutes: []");
    assert_eq!(c.evaluate("GET", "/anything", ""), Decision::Allow);
}

#[test]
fn rule_without_methods_matches_any_method() {
    let c = config(SAMPLE);
    assert_eq!(
        c.evaluate("PATCH", "/public/health", "does-not-matter"),
        Decision::Allow
    );
}

#[test]
fn validation_rejects_bad_rules() {
    let no_slash = parsed("routes:\n  - path: api/x\n    anyOf: [a]");
    assert!(no_slash.validate().is_err());

    let empty_scopes = parsed("routes:\n  - path: /api/x\n    anyOf: []");
    assert!(empty_scopes.validate().is_err());

    let inner_glob = parsed("routes:\n  - path: /api/**/x\n    anyOf: [a]");
    assert!(inner_glob.validate().is_err());
}

#[test]
fn default_is_deny() {
    assert_eq!(DefaultAction::default(), DefaultAction::Deny);
    assert_eq!(
        config("routes: []").evaluate("GET", "/", "a"),
        Decision::NoMatchingRule
    );
}

#[test]
fn faults_are_reported_with_their_place() {
    let report = |yaml: &str| parsed(yaml).validate().unwrap_err().message();
    let good = "  - path: /ok\n    anyOf: [a]\n";
    assert_eq!(
        report(&format!("routes:\n{good}  - path: api/x\n    anyOf: [a]")),
        "route[1] path must start with '/': api/x"
    );
    assert_eq!(
        report("routes:\n  - path: /api/x\n    anyOf: []"),
        "route[0] anyOf must not be empty: /api/x"
    );
    assert_eq!(
        report(&format!("routes:\n{good}{good}  - path: /api/**/x\n    anyOf: [a]")),
        "route[2] '**' is only allowed as the final segment: /api/**/x"
    );
    // the slash is looked at before the scopes, and the scopes before the globs
    assert_eq!(
        report("routes:\n  - path: api/**/x\n    anyOf: []"),
        "route[0] path must start with '/': api/**/x"
    );
    assert_eq!(
        report("routes:\n  - path: /api/**/x\n    anyOf: []"),
        "route[0] anyOf must not be empty: /api/**/x"
    );
    // a second `**` at the end does not make up for an inner one
    assert_eq!(
        report("routes:\n  - path: /a/**/**\n    anyOf: [a]"),
        "route[0] '**' is only allowed as the final segment: /a/**/**"
    );
}

#[test]
fn first_fault_is_the_one_reported() {
    let mut routes: Vec<Route> = Vec::new();
    for _ in 0..12 {
        routes.push(Route {
            path: "/ok/**".to_string(),
            methods: vec![],
            any_of: vec!["a".to_string()],
        });
    }
    routes[11].any_of.clear();
    routes[10].path = "x".to_string();
    let faulty = RouteConfig {
        default: DefaultAction::Deny,
        routes,
    };
    let error = faulty.validate().unwrap_err();
    assert_eq!(
        error,
        RouteError {
            index: 10,
            fault: RouteFault::NoLeadingSlash,
            path: "x".to_string()
        }
    );
    assert_eq!(error.message(), "route[10] path must start with '/': x");
}

#[test]
fn loading_a_route_map() {
    let load = |file| RouteConfig::load("routes.yaml", file);
    assert_eq!(
        load(RoutesFile::Unreadable("No such file".to_string()))
            .unwrap_err()
            .message(),
        "failed to read routes file routes.yaml: No such file"
    );
    assert_eq!(
        load(RoutesFile::Malformed("missing field `routes`".to_string()))
            .unwrap_err()
            .message(),
        "failed to parse routes file routes.yaml: missing field `routes`"
    );
    let invalid = load(RoutesFile::Parsed(parsed(
        "routes:\n  - path: /api/x\n    anyOf: []",
    )))
    .unwrap_err();
    assert!(matches!(invalid, LoadError::Invalid(_)));
    assert_eq!(
        invalid.message(),
        "route[0] anyOf must not be empty: /api/x"
    );
    let loaded = load(RoutesFile::Parsed(parsed(SAMPLE))).unwrap();
    assert_eq!(loaded.routes.len(), 5);
    assert_eq!(loaded.default, DefaultAction::Deny);
}

#[test]
fn methods_are_compared_without_case() {
    let allowed = vec!["GET".to_string(), "Post".to_string()];
    assert!(method_matches(&allowed, "get"));
    assert!(method_matches(&allowed, "POST"));
    assert!(!method_matches(&allowed, "PUT"));
    assert!(!method_matches(&allowed, "GE"));
    assert!(!method_matches(&["\u{e4}".to_string()], "\u{c4}"));
    assert!(method_matches(&[], "ANYTHING"));
}

#[test]
fn corners_of_globs() {
    assert!(path_matches("/**", "/"));
    assert!(path_matches("/**", "/a/b"));
    assert!(path_matches("/", ""));
    assert!(path_matches("/*", "/"));
    assert!(path_matches("/a/*", "/a//"  ) == path_matches("/a/*", "/a"));
    assert!(!path_matches("/a/*", "/a"));
    assert!(path_matches("/a/*/b", "/a//b"));
    assert!(path_matches("//a//", "a"));
    assert!(!path_matches("/a", "/A"));
    assert!(path_matches("/a*", "/a*"));
    assert!(!path_matches("/a*", "/ab"));
}

#[test]
fn earlier_rule_denies_though_a_later_one_would_allow() {
    let c = config(
        "routes:\n  - path: /a/b\n    anyOf: [x:write]\n  - path: /a/**\n    anyOf: [x:read]\n",
    );
    assert_eq!(
        c.evaluate("GET", "/a/b", "x:read"),
        Decision::InsufficientScope {
            rule_path: "/a/b".to_string(),
            required: vec!["x:write".to_string()],
        }
    );
    assert_eq!(c.evaluate("GET", "/a/c", "x:read"), Decision::Allow);
    // added and wider scopes keep what was allowed
    assert_eq!(c.evaluate("GET", "/a/c", "x:read y"), Decision::Allow);
    assert_eq!(c.evaluate("GET", "/a/c", "x:admin"), Decision::Allow);
}
