//! The authority's RPC surface as far as it decides anything: the server
//! handle wiring the authority to its own gateway client, and the
//! extraction of the bearer token from an authorization header.

use vstd::prelude::*;

use vstd::string::StrSliceExecFns;
use vstd::string::StringExecFns;

use crate::errors::Error;
use crate::gateway::Client;
use crate::service::Service;
use crate::text::{is_bearer_prefixed, strip_bearer};

verus! {

/// The authority's server: the service itself and a gateway client used
/// to authorize the administrative calls.
pub struct Server {
    pub auth: Service,
    pub auth_client: Client,
}

impl Server {
    pub fn new(auth: Service, auth_client: Client) -> (r: Server)
        ensures
            r.auth == auth,
            r.auth_client == auth_client,
    {
        Server { auth, auth_client }
    }
}

/// Extracts the bearer token from an authorization header: a missing
/// header is refused, and every leading bearer marker is stripped from a
/// present one.
pub fn parse_token(header: Option<&String>) -> (r: Result<String, Error>)
    ensures
        header matches Some(h) ==> ((r matches Ok(t)) && r->Ok_0@ == strip_bearer(h@)),
        header is None ==> (r matches Err(e) && e == Error::Unauthorized),
{
    let h = match header {
        Some(h) => h,
        None => {
            return Err(Error::Unauthorized);
        },
    };
    let mut cur: &str = h.as_str();
    loop
        invariant
            strip_bearer(h@) == strip_bearer(cur@),
        ensures
            !is_bearer_prefixed(cur@),
            strip_bearer(h@) == strip_bearer(cur@),
        decreases cur@.len(),
    {
        let n = cur.unicode_len();
        let prefixed = n >= 7 && cur.get_char(0) == 'B' && cur.get_char(1) == 'e' && cur.get_char(
            2,
        ) == 'a' && cur.get_char(3) == 'r' && cur.get_char(4) == 'e' && cur.get_char(5) == 'r'
            && cur.get_char(6) == ' ';
        if !prefixed {
            break;
        }
        let rest = cur.substring_char(7, n);
        proof {
            assert(rest@ =~= cur@.skip(7));
        }
        cur = rest;
    }
    Ok(String::from_str(cur))
}

} // verus!
