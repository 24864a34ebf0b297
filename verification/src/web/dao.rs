//! What the composition of the system reads from its configuration.

use vstd::prelude::*;
use vstd::string::*;

verus! {

/// The address that the server listens on: host and port with a colon
/// between them.
pub fn bind_addr(host: &str, port: &str) -> (out: String)
    ensures
        out@ == host@ + ":"@ + port@,
{
    let mut out = String::from_str(host);
    out.append(":");
    out.append(port);
    out
}

} // verus!
