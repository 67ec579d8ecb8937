use clearglass::access::{authorize, required_scopes, satisfies_query, Forwarded, Outcome, Policy};
use clearglass::reply::{text_response, Status};
use clearglass::routes::{DefaultAction, Route, RouteConfig};

fn map() -> RouteConfig {
    RouteConfig {
        default: DefaultAction::Deny,
        routes: vec![Route {
            path: "/api/**".to_string(),
            methods: vec!["GET".to_string()],
            any_of: vec!["x:y:read".to_string()],
        }],
    }
}

fn request<'a>(query: &'a str, method: &'a str, uri: &'a str) -> Forwarded<'a> {
    Forwarded {
        query,
        method: Some(method),
        uri: Some(uri),
    }
}

fn ok() -> Outcome {
    Outcome {
        response: text_response(Status::Success, "ok"),
        report: None,
    }
}

fn forbidden() -> Outcome {
    Outcome {
        response: text_response(Status::Forbidden, "insufficient scope"),
        report: None,
    }
}

#[test]
fn scopes_of_a_query() {
    assert_eq!(required_scopes(""), Vec::<&str>::new());
    assert_eq!(required_scopes("scope=a&scope=b"), vec!["a", "b"]);
    assert_eq!(required_scopes("x=1&scope=a&y"), vec!["a"]);
    assert_eq!(required_scopes("scope=a=b"), vec!["a=b"]);
    assert_eq!(required_scopes("scope="), vec![""]);
    assert_eq!(required_scopes("scope&Scope=a&scopes=b"), Vec::<&str>::new());
    assert_eq!(required_scopes("&&scope=a&"), vec!["a"]);
}

#[test]
fn query_is_met_letter_for_letter() {
    assert!(satisfies_query("scope=a&scope=b", "x b"));
    assert!(!satisfies_query("scope=a&scope=b", "x ab"));
    assert!(satisfies_query("", ""));
    assert!(satisfies_query("foo=bar", ""));
    assert!(!satisfies_query("scope=", " a  "));
    // no scope stands in for another here
    assert!(!satisfies_query("scope=x:read", "x:admin"));
}

#[test]
fn without_route_map_the_query_decides() {
    for enforce in [false, true] {
        let policy = Policy {
            routes: None,
            enforce,
        };
        assert_eq!(authorize(&policy, request("", "GET", "/other"), ""), ok());
        assert_eq!(
            authorize(&policy, request("scope=a", "GET", "/other"), "a"),
            ok()
        );
        assert_eq!(
            authorize(&policy, request("scope=a", "GET", "/other"), "b"),
            forbidden()
        );
    }
}

#[test]
fn enforced_route_map_refuses() {
    let policy = Policy {
        routes: Some(map()),
        enforce: true,
    };
    assert_eq!(
        authorize(&policy, request("", "GET", "/api/z?a=b/c"), "x:read"),
        ok()
    );
    assert_eq!(
        authorize(&policy, request("", "GET", "/api/z"), "x:z:read"),
        forbidden()
    );
    assert_eq!(
        authorize(&policy, request("", "POST", "/api/z"), "x:read"),
        forbidden()
    );
    assert_eq!(
        authorize(&policy, request("", "GET", "/other?/api/z"), "x:read"),
        forbidden()
    );
    // both have to be met
    assert_eq!(
        authorize(&policy, request("scope=a", "GET", "/api/z"), "x:read"),
        forbidden()
    );
    assert_eq!(
        authorize(&policy, request("scope=a", "GET", "/api/z"), "a x:read"),
        ok()
    );
}

#[test]
fn route_map_that_is_not_enforced_only_reports() {
    let policy = Policy {
        routes: Some(map()),
        enforce: false,
    };
    assert_eq!(
        authorize(&policy, request("", "GET", "/api/z"), "x:read"),
        ok()
    );
    assert_eq!(
        authorize(&policy, request("", "GET", "/api/z?q=1"), "x:z:read"),
        Outcome {
            report: Some(
                "report-only: GET /api/z would be denied with ENFORCE_ROUTES=true".to_string()
            ),
            ..ok()
        }
    );
    assert_eq!(
        authorize(&policy, request("scope=a", "PUT", "/api"), "b"),
        Outcome {
            report: Some(
                "report-only: PUT /api would be denied with ENFORCE_ROUTES=true".to_string()
            ),
            ..forbidden()
        }
    );
}

#[test]
fn added_scopes_keep_a_request_going() {
    for enforce in [false, true] {
        let policy = Policy {
            routes: Some(map()),
            enforce,
        };
        let wanted = request("scope=a&scope=b", "GET", "/api/z");
        assert_eq!(authorize(&policy, wanted, "b x:y:read"), ok());
        assert_eq!(authorize(&policy, wanted, "b x:y:read more :: a"), ok());
    }
}

#[test]
fn request_without_method_and_path_matches_no_rule() {
    let policy = Policy {
        routes: Some(map()),
        enforce: true,
    };
    let bare = Forwarded {
        query: "",
        method: None,
        uri: None,
    };
    assert_eq!(authorize(&policy, bare, "x:admin"), forbidden());
}
