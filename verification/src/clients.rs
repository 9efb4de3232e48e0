//! What is known of a connected client.

use vstd::prelude::*;

verus! {

/// A connected client.
#[derive(Clone, Copy, Debug, PartialEq, Eq, Structural)]
pub struct ClientState {
    /// The client came in over a listener that was made for a sandbox.
    pub security_context: bool,
}

/// Whether a client may use the protocols that reach beyond its own windows: the
/// clipboard of others, the screen, injected keys, the lock. Only sandboxed
/// clients may not.
pub fn client_has_no_security_context(client: Option<&ClientState>) -> (r: bool)
    ensures
        r == trusted(client),
{
    match client {
        Some(c) => !c.security_context,
        None => true,
    }
}

/// Whether a client may use what sandboxed clients may not.
pub open spec fn trusted(client: Option<&ClientState>) -> bool {
    !(client matches Some(c) && c.security_context)
}

/// Only a client that is known to be sandboxed is kept out.
pub proof fn law_only_sandboxed_are_kept_out(client: ClientState)
    ensures
        trusted(None),
        trusted(Some(&client)) <==> !client.security_context,
{
}

} // verus!
