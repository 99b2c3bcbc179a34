//! The web server: what it answers.

pub mod execute_config;
pub mod validate_check;

use crate::text;
use crate::text::decimal;
use vstd::prelude::*;

verus! {

/// The status of a request that cannot be served as it is.
pub const BAD_REQUEST: u16 = 400;

/// The status of a request that the server failed to serve.
pub const INTERNAL_SERVER_ERROR: u16 = 500;

/// The address that the server listens on.
pub fn listen_address(port: u16) -> (r: String)
    ensures
        r@ == "localhost:"@ + decimal(port as nat),
{
    "localhost:".to_owned().concat(text::decimal_of(port as u128).as_str())
}

} // verus!
