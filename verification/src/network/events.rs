//! Readiness interests and events exchanged with the poller.

use vstd::prelude::*;

verus! {

/// What a socket registration asks to be woken for; errors and
/// hangups are always watched.
#[derive(Debug, Clone, Copy, PartialEq, Eq, Structural)]
pub struct Interest {
    pub read: bool,
    pub write: bool,
}

impl Interest {
    /// Read interest only.
    pub fn readable() -> (r: Self)
        ensures
            r.read && !r.write,
    {
        Self { read: true, write: false }
    }

    /// Write interest only.
    pub fn writable() -> (r: Self)
        ensures
            !r.read && r.write,
    {
        Self { read: false, write: true }
    }

    /// Both read and write interest.
    pub fn both() -> (r: Self)
        ensures
            r.read && r.write,
    {
        Self { read: true, write: true }
    }
}

/// One readiness notification for a descriptor.
#[derive(Debug, Clone, Copy, PartialEq, Eq, Structural)]
pub struct SocketEvent {
    pub fd: i32,
    pub can_read: bool,
    pub can_write: bool,
    pub has_error: bool,
    pub hung_up: bool,
}

} // verus!
