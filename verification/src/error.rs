//! The failures that a caller of the service is told of.

use vstd::prelude::*;

verus! {

/// Why a request was refused.
#[derive(Clone, Copy, Debug, PartialEq, Eq, Structural)]
pub enum ApiError {
    /// The password does not meet the policy.
    PasswordInsufficient,
    /// A user of that name is registered already.
    UsernameInUse,
    /// No user of that name, or another password.
    IncorrectCredentials,
    /// The request carried no session token.
    MissingSessionToken,
    /// The store failed, the session is not valid, or no free identifier was
    /// found.
    InternalServerError,
}

} // verus!
