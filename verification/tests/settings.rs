use clearglass::settings::{listen_address, must_env, MissingVariable, Settings, Variables};

fn some(text: &str) -> Option<String> {
    Some(text.to_string())
}

#[test]
fn settings_have_defaults() {
    let settings = Settings::from_env(Variables {
        jwks_url: some("http://issuer/jwks"),
        port: None,
        routes_file: None,
        enforce_routes: None,
    });
    assert_eq!(
        settings,
        Ok(Settings {
            jwks_url: "http://issuer/jwks".to_string(),
            address: "0.0.0.0:8080".to_string(),
            routes_file: None,
            enforce: false,
        })
    );
}

#[test]
fn settings_are_taken_over() {
    let settings = Settings::from_env(Variables {
        jwks_url: some("u"),
        port: some("99"),
        routes_file: some("/etc/routes.yaml"),
        enforce_routes: some("true"),
    });
    assert_eq!(
        settings,
        Ok(Settings {
            jwks_url: "u".to_string(),
            address: "0.0.0.0:99".to_string(),
            routes_file: some("/etc/routes.yaml"),
            enforce: true,
        })
    );
}

#[test]
fn only_true_enforces() {
    for text in ["false", "TRUE", "1", "", " true"] {
        let settings = Settings::from_env(Variables {
            jwks_url: some("u"),
            port: None,
            routes_file: None,
            enforce_routes: some(text),
        });
        assert!(!settings.unwrap().enforce);
    }
}

#[test]
fn jwks_url_has_to_be_set() {
    let error = Settings::from_env(Variables {
        jwks_url: None,
        port: None,
        routes_file: None,
        enforce_routes: None,
    })
    .unwrap_err();
    assert_eq!(
        error,
        MissingVariable {
            name: "JWKS_URL".to_string()
        }
    );
    assert_eq!(
        error.message(),
        "required environment variable not set: JWKS_URL"
    );
}

#[test]
fn single_variables() {
    assert_eq!(must_env("X", some("y")), Ok("y".to_string()));
    assert_eq!(must_env("X", None).unwrap_err().name, "X");
    assert_eq!(listen_address(&None), "0.0.0.0:8080");
    assert_eq!(listen_address(&some("1")), "0.0.0.0:1");
}
