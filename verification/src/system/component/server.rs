//! The name a client asked for.

use vstd::prelude::*;

verus! {

/// The server name of a connection.
#[derive(Clone, Debug)]
pub struct ServerName(pub String);

} // verus!
