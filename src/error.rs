use vstd::prelude::*;

verus! {

/// What can go wrong when talking to a registry.
#[derive(Clone, Debug, PartialEq, Eq)]
pub enum Error {
    /// The transport failed (connection, name lookup, TLS, timeout). The
    /// library passes such failures on and never retries them.
    Transport(String),
    /// The token service refused the credentials or the scope.
    AuthenticationDenied(u16),
    /// A well-formed HTTP answer whose body does not have the expected shape.
    ProtocolViolation,
    /// The registry does not hold the object.
    NotFound,
    /// Any other status, with the body the registry sent along.
    UnexpectedStatus(u16, Vec<u8>),
}

} // verus!
