//! A RADIUS access server core: the packet codec, the authentication
//! backend chain and the decisions of the server runtime.
use vstd::prelude::*;

pub mod dictionary;
pub mod protocol;
pub mod codec;
pub mod config;
pub mod auth;
pub mod backends;
pub mod runtime;
pub mod metrics;
pub mod captive_portal;

verus! {

/// Prepare the library for use. Nothing needs preparing: the library holds
/// no global state.
pub fn init() -> (r: Result<(), config::ConfigError>)
    ensures
        r is Ok,
{
    Ok(())
}

} // verus!
