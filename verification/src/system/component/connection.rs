//! The components that identify a connection.

use crate::connection as c;
use vstd::prelude::*;

verus! {

/// Marks an entity as a connection.
#[derive(Clone, Copy, Debug, Default, PartialEq, Eq, Ord, PartialOrd, Hash)]
pub struct Connection;

/// A connection id that the endpoint issued to the connection.
#[derive(Clone, Copy, Debug)]
pub struct LocalId(pub c::LocalId);

/// The destination id of the connection's first Initial packets.
#[derive(Clone, Copy, Debug)]
pub struct InitialId(pub c::InitialId);

} // verus!
