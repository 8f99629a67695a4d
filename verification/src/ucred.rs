//! The credentials of a peer.

use vstd::prelude::*;

verus! {

/// The process that set up a connection, by the identifiers the kernel
/// knows it under.
#[derive(Clone, Copy, Debug, PartialEq, Eq)]
pub struct UCred {
    /// The process identifier.
    pub pid: i32,
    /// The user identifier.
    pub uid: u32,
    /// The group identifier.
    pub gid: u32,
}

} // verus!
