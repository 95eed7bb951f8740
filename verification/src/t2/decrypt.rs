//! The keys that protect Initial packets.

use vstd::prelude::*;

verus! {

/// The packet protection key of a connection's Initial packets.
#[derive(Debug)]
pub struct InitialKey<K>(pub K);

/// The header protection key of a connection's Initial packets.
#[derive(Debug)]
pub struct InitialHeaderKey<K>(pub K);

} // verus!
