//! What the service is told by its environment.

use vstd::prelude::*;

use crate::text::same;

verus! {

/// The port to listen on where none is given.
pub open spec fn default_port() -> Seq<char> {
    "8080"@
}

/// What the service is told. A variable that is not set is `None`.
#[derive(Debug)]
pub struct Variables {
    /// `JWKS_URL`
    pub jwks_url: Option<String>,
    /// `PORT`
    pub port: Option<String>,
    /// `ROUTES_FILE`
    pub routes_file: Option<String>,
    /// `ENFORCE_ROUTES`
    pub enforce_routes: Option<String>,
}

/// What the service goes by.
#[derive(Debug, PartialEq, Eq)]
pub struct Settings {
    /// Where the issuer's keys are fetched.
    pub jwks_url: String,
    /// Where to listen.
    pub address: String,
    /// Where the route map is, if there is one.
    pub routes_file: Option<String>,
    /// Whether what the route map denies is refused.
    pub enforce: bool,
}

/// A variable that has to be set is not.
#[derive(Debug, PartialEq, Eq)]
pub struct MissingVariable {
    pub name: String,
}

impl MissingVariable {
    /// The report to show.
    pub fn message(&self) -> (r: String)
        ensures
            r@ == "required environment variable not set: "@ + self.name@,
    {
        "required environment variable not set: ".to_owned().concat(self.name.as_str())
    }
}

/// The value of a variable that has to be set.
pub fn must_env(name: &str, value: Option<String>) -> (r: Result<String, MissingVariable>)
    ensures
        match value {
            Some(v) => r == Ok::<String, MissingVariable>(v),
            None => r is Err && r->Err_0.name@ == name@,
        },
{
    match value {
        Some(v) => Ok(v),
        None => Err(MissingVariable { name: name.to_owned() }),
    }
}

/// Where to listen: on all interfaces, on the given port or the default one.
pub fn listen_address(port: &Option<String>) -> (r: String)
    ensures
        r@ == "0.0.0.0:"@ + match *port {
            Some(p) => p@,
            None => default_port(),
        },
{
    let port: &str = match port {
        Some(p) => p.as_str(),
        None => "8080",
    };
    "0.0.0.0:".to_owned().concat(port)
}

impl Settings {
    /// What the service goes by, or the variable that it lacks. Route map denials
    /// are enforced only where `ENFORCE_ROUTES` reads `true`.
    pub fn from_env(variables: Variables) -> (r: Result<Settings, MissingVariable>)
        ensures
            match variables.jwks_url {
                Some(url) => {
                    &&& r matches Ok(settings)
                    &&& settings.jwks_url == url
                    &&& settings.address@ == "0.0.0.0:"@ + match variables.port {
                        Some(p) => p@,
                        None => default_port(),
                    }
                    &&& settings.routes_file == variables.routes_file
                    &&& settings.enforce == (match variables.enforce_routes {
                        Some(text) => text@ == "true"@,
                        None => false,
                    })
                },
                None => r is Err && r->Err_0.name@ == "JWKS_URL"@,
            },
    {
        let address: String = listen_address(&variables.port);
        let enforce: bool = match &variables.enforce_routes {
            Some(text) => same(text.as_str(), "true"),
            None => false,
        };
        match must_env("JWKS_URL", variables.jwks_url) {
            Ok(jwks_url) => Ok(
                Settings { jwks_url, address, routes_file: variables.routes_file, enforce },
            ),
            Err(e) => Err(e),
        }
    }
}

} // verus!
