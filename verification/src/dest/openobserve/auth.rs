//! Authentication of an outgoing bulk request.
//!
//! When `options.token` is set, the request carries a bearer token; otherwise
//! it falls back to HTTP basic auth with the configured username/password.

use crate::dest::openobserve::config::OpenObserveOptions;
use vstd::prelude::*;

verus! {

/// The credentials that a request carries.
pub enum SinkAuth {
    Bearer(String),
    Basic { username: String, password: String },
}

/// Picks the credentials of a request.
pub fn credentials(options: &OpenObserveOptions, username: &str, password: &str) -> (r: SinkAuth)
    ensures
        match options.token {
            Some(t) => r matches SinkAuth::Bearer(b) && b@ == t@,
            None => r matches SinkAuth::Basic { username: u, password: p } && u@ == username@
                && p@ == password@,
        },
{
    match &options.token {
        Some(t) => SinkAuth::Bearer(t.clone()),
        None => SinkAuth::Basic { username: username.to_owned(), password: password.to_owned() },
    }
}

/// A token goes before a username and a password, and each is used as it is given.
pub proof fn tokens_go_before_passwords(
    options: OpenObserveOptions,
    username: &str,
    password: &str,
    r: SinkAuth,
)
    requires
        call_ensures(credentials, (&options, username, password), r),
    ensures
        r is Bearer <==> options.token is Some,
        r matches SinkAuth::Bearer(b) ==> b@ == options.token->0@,
        r matches SinkAuth::Basic { username: u, password: p } ==> u@ == username@ && p@
            == password@,
{
}

} // verus!
