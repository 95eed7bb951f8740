//! The addresses of a connection's path.

use crate::inet::IpAddress;
use vstd::prelude::*;

verus! {

/// The peer's IP address.
#[derive(Clone, Copy, Debug, PartialEq, Eq)]
pub struct RemoteAddress(pub IpAddress);

/// The peer's port.
#[derive(Clone, Copy, Debug, Default, PartialEq, Eq, Ord, PartialOrd, Hash)]
pub struct RemotePort(pub u16);

/// The local IP address.
#[derive(Clone, Copy, Debug, PartialEq, Eq)]
pub struct LocalAddress(pub IpAddress);

/// The local port.
#[derive(Clone, Copy, Debug, Default, PartialEq, Eq, Ord, PartialOrd, Hash)]
pub struct LocalPort(pub u16);

} // verus!
