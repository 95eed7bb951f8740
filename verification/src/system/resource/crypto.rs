//! The endpoint's cryptographic providers.

use vstd::prelude::*;

verus! {

/// The provider of Initial keys.
pub struct Initial<K>(pub K);

/// The provider of Handshake keys.
pub struct Handshake<K>(pub K);

} // verus!
