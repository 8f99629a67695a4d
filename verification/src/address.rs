//! The address of a Unix socket, read from the form the kernel gives it in.
//!
//! The kernel hands out a family, an array of path bytes, and the number of
//! those bytes that are in use. A socket that was never bound has none in
//! use. A name in the abstract namespace starts with a zero byte, which is
//! not part of the name. Any other address is a path in the file system,
//! followed by one terminating byte.

use vstd::prelude::*;
use vstd::slice::{slice_subrange, slice_to_vec};

verus! {

/// The family of Unix sockets.
pub const AF_UNIX: i32 = 1;

/// `libc::AF_UNIX`. The contract gives the value it has on every Linux
/// target.
#[verifier::external_body]
fn af_unix() -> (family: i32)
    ensures
        family == AF_UNIX,
{
    libc::AF_UNIX
}

/// The address of one end of a Unix socket.
#[derive(Debug, PartialEq, Eq)]
pub enum UnixAddress {
    /// The socket has no name.
    Unnamed,
    /// The socket is bound to this path of the file system.
    Pathname(Vec<u8>),
    /// The socket is bound to this name of the abstract namespace.
    Abstract(Vec<u8>),
}

/// An address, with its bytes as a sequence.
pub enum Address {
    /// No name.
    Unnamed,
    /// A path of the file system, without the terminating byte.
    Pathname(Seq<u8>),
    /// A name of the abstract namespace, without the leading zero byte.
    Abstract(Seq<u8>),
}

impl View for UnixAddress {
    type V = Address;

    open spec fn view(&self) -> Address {
        match self {
            UnixAddress::Unnamed => Address::Unnamed,
            UnixAddress::Pathname(path) => Address::Pathname(path@),
            UnixAddress::Abstract(name) => Address::Abstract(name@),
        }
    }
}

/// The address that a family, the path bytes and the count of those in use
/// stand for. There is none if the family is another or if more bytes are
/// said to be in use than there are.
pub open spec fn address_of(family: i32, path: Seq<u8>, len: nat) -> Option<Address> {
    if family != AF_UNIX || len > path.len() {
        None
    } else if len == 0 {
        Some(Address::Unnamed)
    } else if path[0] == 0 {
        Some(Address::Abstract(path.subrange(1, len as int)))
    } else {
        Some(Address::Pathname(path.subrange(0, len - 1)))
    }
}

/// The address as a sequence, where there is one.
pub open spec fn seen(address: Option<UnixAddress>) -> Option<Address> {
    match address {
        Some(address) => Some(address@),
        None => None,
    }
}

/// Reads the address of a Unix socket from the family, the path bytes and
/// the count of those in use.
pub fn sockaddr_as_unix(family: i32, path: &[u8], len: usize) -> (address: Option<UnixAddress>)
    ensures
        seen(address) == address_of(family, path@, len as nat),
{
    if family != af_unix() || len > path.len() {
        None
    } else if len == 0 {
        Some(UnixAddress::Unnamed)
    } else if path[0] == 0 {
        Some(UnixAddress::Abstract(slice_to_vec(slice_subrange(path, 1, len))))
    } else {
        Some(UnixAddress::Pathname(slice_to_vec(slice_subrange(path, 0, len - 1))))
    }
}

} // verus!
