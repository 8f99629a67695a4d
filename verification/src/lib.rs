//! The decision core of a non-blocking Unix seqpacket socket.
//!
//! Everything here is free of I/O: the caller owns the descriptor and the
//! reactor, performs each system call itself, and asks this crate what to put
//! into the call and what its outcome means. Every function is verified
//! against the contract written above its body.
//!
//! - [`readiness`] holds the rule by which an operation and the reactor deal
//!   with each other.
//! - [`socket`] holds the operations of a socket, each cut in two around its
//!   system call.
//! - [`message`] plans the message header of a call and reads its result.
//! - [`ancillary`] is the control region of a call; [`cmsg`], [`payload`]
//!   and [`wire`] define the bytes in it.
//! - [`address`], [`ucred`] and [`error`] hold the plain values that pass
//!   between the caller and this crate.
//!
//! The byte layouts and constants are those of Linux on little-endian 64-bit
//! targets.

pub mod address;
pub mod ancillary;
pub mod cmsg;
pub mod error;
pub mod message;
pub mod payload;
pub mod readiness;
pub mod socket;
pub mod ucred;
pub mod wire;
