//! The keys by which the management library names sockets and processors.
//!
//! A handle is an address-sized value that the library hands out and takes
//! back. Nothing here looks inside one: a handle is copied, compared and
//! passed on. The default handle is the zero handle, which names nothing.

use vstd::prelude::*;

verus! {

/// The key of one socket.
#[derive(Debug, Clone, Copy, PartialEq, Eq, Structural)]
pub struct SocketHandle(pub usize);

/// The key of one processor of a socket.
#[derive(Debug, Clone, Copy, PartialEq, Eq, Structural)]
pub struct ProcessorHandle(pub usize);

impl Default for SocketHandle {
    /// The zero handle.
    fn default() -> (handle: Self)
        ensures
            handle == SocketHandle(0),
    {
        SocketHandle(0)
    }
}

impl Default for ProcessorHandle {
    /// The zero handle.
    fn default() -> (handle: Self)
        ensures
            handle == ProcessorHandle(0),
    {
        ProcessorHandle(0)
    }
}

} // verus!
