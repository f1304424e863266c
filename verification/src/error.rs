use vstd::prelude::*;

verus! {

/// Error taxonomy of the dispatcher.
///
/// `Transport` covers connect and socket failures, `Rpc` a non-OK RPC
/// status, `Decode` a malformed or unexpected response variant,
/// `Verification` a signature mismatch, `Channel` a gone receiver,
/// `NoService` a query made while no validator is attached, and
/// `GatewayCheck` a liveness check that found the chain block too stale.
#[derive(Clone, Debug)]
pub enum DispatchError {
    Transport,
    Rpc,
    Decode,
    Verification,
    Channel,
    NoService,
    GatewayCheck { block_age: u64, max_age: u64 },
    Custom(String),
}

impl DispatchError {
    /// An error carrying a free-form message.
    pub fn custom(msg: &str) -> (r: DispatchError)
        ensures
            r matches DispatchError::Custom(m) && m@ == msg@,
    {
        DispatchError::Custom(msg.to_owned())
    }
}

} // verus!
