//! Address selection for the resolver capability.
//!
//! The lookup itself is network I/O performed by the surrounding program;
//! this module holds the resolver's one decision: a lookup that yields no
//! address is a failure of its own kind, and of several addresses the first
//! is taken, with no further tie-break.

use vstd::prelude::*;

verus! {

/// Why resolution failed after a lookup completed.
#[derive(Debug, Clone, Copy, PartialEq, Eq)]
pub enum ResolveError {
    /// The lookup completed but yielded no address.
    NoAddress,
}

/// The stateless system-backed resolver capability. One instance is shared
/// by cloning across concurrent handshakes; it holds no mutable state.
#[derive(Debug, Clone)]
pub struct SimpleDnsResolver {}

impl SimpleDnsResolver {
    /// A fresh resolver capability.
    pub fn new() -> (r: SimpleDnsResolver) {
        SimpleDnsResolver {  }
    }

    /// Pick the address a lookup result stands for: the first of the list,
    /// or `NoAddress` when the list is empty.
    pub fn select_address<A>(&self, addrs: Vec<A>) -> (r: Result<A, ResolveError>)
        ensures
            addrs@.len() == 0 ==> r == Err::<A, ResolveError>(ResolveError::NoAddress),
            addrs@.len() > 0 ==> (r matches Ok(a) && a == addrs@[0]),
    {
        let mut addrs = addrs;
        if addrs.len() == 0 {
            Err(ResolveError::NoAddress)
        } else {
            Ok(addrs.remove(0))
        }
    }
}

} // verus!
