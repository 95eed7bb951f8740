//! The keys of a connection, one per packet space.

use vstd::prelude::*;

verus! {

/// The key of the Initial packet space.
pub struct Initial<K>(pub K);

/// The key of the Handshake packet space.
pub struct Handshake<K>(pub K);

/// The key of the application data packet space.
pub struct OneRtt<K>(pub K);

} // verus!
