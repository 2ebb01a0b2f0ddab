//! The names of the environment variables that tell a component where the Nucleus listens
//! and how to authenticate.

use vstd::prelude::*;

verus! {

/// The environment variable that holds the path of the socket.
pub const SOCKET_PATH_ENV: &'static str = "AWS_GG_NUCLEUS_DOMAIN_SOCKET_FILEPATH_FOR_COMPONENT";

/// The environment variable that holds the authentication token.
pub const AUTH_TOKEN_ENV: &'static str = "SVCUID";

} // verus!
