//! Error taxonomy shared by the authority, the gateway, the catalog and the
//! consumption harness, together with the mapping onto RPC status categories.

use vstd::prelude::*;

verus! {

/// A failure of one of the persistence port operations.
#[derive(Clone, Copy, Debug, PartialEq, Eq, Structural)]
pub enum StoreError {
    /// The requested row does not exist.
    NotFound,
    /// Inserting the row would break a uniqueness constraint.
    UniqueViolation,
    /// Any other infrastructure failure of the store.
    Internal,
}

/// The user-facing error taxonomy.
#[derive(Clone, Copy, Debug, PartialEq, Eq, Structural)]
pub enum Error {
    /// The caller's request is malformed (missing login, empty password,
    /// unparsable user id).
    InvalidInput,
    /// A registration conflicts with a login that is already registered.
    LoginTaken,
    /// A login attempt failed; unknown logins and wrong passwords are
    /// deliberately indistinguishable.
    InvalidCredentials,
    /// The bearer token is missing, invalid or expired, or the role does not
    /// suffice.
    Unauthorized,
    /// A confirmation, session or resource is absent.
    NotFound,
    /// The persistence layer failed.
    StoreInternal,
    /// The transport to a broker or a peer service failed.
    TransportInternal,
}

/// The status category a service boundary reports for an error.
#[derive(Clone, Copy, Debug, PartialEq, Eq, Structural)]
pub enum RpcCode {
    InvalidArgument,
    NotFound,
    Unauthenticated,
    Internal,
}

/// How each error kind maps onto the nearest user-facing status category.
pub open spec fn spec_rpc_code(e: Error) -> RpcCode {
    match e {
        Error::InvalidInput => RpcCode::InvalidArgument,
        Error::LoginTaken => RpcCode::InvalidArgument,
        Error::InvalidCredentials => RpcCode::Unauthenticated,
        Error::Unauthorized => RpcCode::Unauthenticated,
        Error::NotFound => RpcCode::NotFound,
        Error::StoreInternal => RpcCode::Internal,
        Error::TransportInternal => RpcCode::Internal,
    }
}

/// Maps an error to the status category reported at the RPC boundary.
pub fn rpc_code(e: &Error) -> (c: RpcCode)
    ensures
        c == spec_rpc_code(*e),
{
    match e {
        Error::InvalidInput => RpcCode::InvalidArgument,
        Error::LoginTaken => RpcCode::InvalidArgument,
        Error::InvalidCredentials => RpcCode::Unauthenticated,
        Error::Unauthorized => RpcCode::Unauthenticated,
        Error::NotFound => RpcCode::NotFound,
        Error::StoreInternal => RpcCode::Internal,
        Error::TransportInternal => RpcCode::Internal,
    }
}

} // verus!
