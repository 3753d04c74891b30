//! The authorization gateway: the client handle dependent services keep
//! for the authority's validate endpoint, and the allow/deny decision made
//! from a validation outcome. Every call is a fresh round trip by design —
//! no validation result is cached, so revocation takes effect on the next
//! call.

use vstd::prelude::*;

use vstd::string::StringExecFns;

use crate::errors::Error;
use crate::models::{role_at_least, role_ge, spec_parse_role, AccessLevel};

verus! {

/// A client of the authority's validate endpoint.
pub struct Client {
    pub endpoint: String,
}

impl Client {
    /// Builds a client for the authority reachable at `endpoint`, kept as
    /// an http URL.
    pub fn new(endpoint: &str) -> (r: Result<Client, Error>)
        ensures
            r matches Ok(c) ==> c.endpoint@ == "http://"@ + endpoint@,
            r matches Ok(_),
    {
        let mut url = String::from_str("http://");
        url.append(endpoint);
        Ok(Client { endpoint: url })
    }
}

/// The role a validation outcome grants: none when the token was reported
/// invalid or when the role code names no role.
pub open spec fn spec_granted_role(valid: bool, role_code: int) -> Option<AccessLevel> {
    if valid && (role_code == 0 || role_code == 1) {
        Some(spec_parse_role(role_code))
    } else {
        None
    }
}

/// Interprets the wire form of a validation outcome.
pub fn interpret_validation(valid: bool, role: i32) -> (r: Option<AccessLevel>)
    ensures
        r == spec_granted_role(valid, role as int),
{
    if valid && (role == 0 || role == 1) {
        Some(crate::models::parse_role(role))
    } else {
        None
    }
}

/// Allows exactly when validation granted a role at least `minimum`. An
/// invalid token and an insufficient role fail alike with `Unauthorized`.
pub fn authorize(granted: Option<AccessLevel>, minimum: AccessLevel) -> (r: Result<(), Error>)
    ensures
        (r matches Ok(_)) <==> (granted matches Some(role) && role_ge(role, minimum)),
        r matches Err(e) ==> e == Error::Unauthorized,
{
    match granted {
        Some(role) => {
            if role_at_least(role, minimum) {
                Ok(())
            } else {
                Err(Error::Unauthorized)
            }
        },
        None => Err(Error::Unauthorized),
    }
}

} // verus!
