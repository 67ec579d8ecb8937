//! The logic of clearglass, a small authentication service that stands behind a
//! forwarding proxy: it validates bearer tokens against the issuer's keys and
//! checks that they carry the scopes a request needs.
//!
//! - `text` cuts text into pieces and compares it.
//! - `scopes` says which scopes take the place of which.
//! - `routes` is the map from routes to the scopes they need.
//! - `access` decides by the scopes of a token.
//! - `keys` holds the issuer's keys, and `token` checks tokens against them.
//! - `reply` is what a request is answered, and `proxy` the way to it.
//! - `settings` is what the service is told by its environment.

pub mod access;
pub mod keys;
pub mod proxy;
pub mod reply;
pub mod routes;
pub mod scopes;
pub mod settings;
pub mod text;
pub mod token;
