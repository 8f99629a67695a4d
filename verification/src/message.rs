//! What goes into one `sendmsg` or `recvmsg` call, and what its result means.
//!
//! The kernel reads a message header that names an optional address, a vector
//! of data buffers and a control region. A seqpacket socket is connected, so
//! the header never names an address. The caller fills the pointers; this
//! module decides the lengths and the flags, and reads the result.

use vstd::prelude::*;
use crate::ancillary::{ControlRegion, SocketAncillary};
use crate::error::Error;

verus! {

/// Flag of a send: a broken pipe is reported as an error and raises no signal.
pub const MSG_NOSIGNAL: i32 = 0x4000;

/// Flag of a receive: descriptors that arrive are marked close-on-exec at once.
pub const MSG_CMSG_CLOEXEC: i32 = 0x4000_0000;

/// Flag the kernel sets in a received header when control data was cut short.
pub const MSG_CTRUNC: i32 = 0x8;

/// `libc::MSG_NOSIGNAL`. The contract gives the value it has on every
/// Linux target.
#[verifier::external_body]
fn msg_nosignal() -> (flag: i32)
    ensures
        flag == MSG_NOSIGNAL,
{
    libc::MSG_NOSIGNAL
}

/// `libc::MSG_CMSG_CLOEXEC`. The contract gives the value it has on every
/// Linux target.
#[verifier::external_body]
fn msg_cmsg_cloexec() -> (flag: i32)
    ensures
        flag == MSG_CMSG_CLOEXEC,
{
    libc::MSG_CMSG_CLOEXEC
}

/// `libc::MSG_CTRUNC`. The contract gives the value it has on every Linux
/// target.
#[verifier::external_body]
fn msg_ctrunc() -> (flag: i32)
    ensures
        flag == MSG_CTRUNC,
{
    libc::MSG_CTRUNC
}

/// The largest values the two length fields of the platform's message header
/// can hold. The fields are as wide as `usize` on some platforms and narrower
/// on others.
#[derive(Clone, Copy, Debug, PartialEq, Eq)]
pub struct HeaderLimits {
    /// The largest number of data buffers one header can name.
    pub max_iov_len: usize,
    /// The largest control region one header can name, in bytes.
    pub max_control_len: usize,
}

/// The plain fields of a message header, as they stand before the call.
#[derive(Clone, Copy, Debug, PartialEq, Eq)]
pub struct MessageHeader {
    /// The length of the address: always zero, the socket is connected.
    pub name_len: u32,
    /// The number of data buffers.
    pub iov_len: usize,
    /// Whether the header points at a control region at all.
    pub control: bool,
    /// The length of the control region, in bytes.
    pub control_len: usize,
    /// The flags field, which only the kernel writes: zero going in.
    pub msg_flags: i32,
}

/// The header for `iov_len` data buffers and `control_len` bytes of control
/// region, or the failure if one of the two does not fit its field.
pub open spec fn header_for(limits: HeaderLimits, iov_len: usize, control_len: usize) -> Result<
    MessageHeader,
    Error,
> {
    if iov_len > limits.max_iov_len || control_len > limits.max_control_len {
        Err(Error::spec_invalid_input())
    } else {
        Ok(
            MessageHeader {
                name_len: 0,
                iov_len,
                control: control_len != 0,
                control_len,
                msg_flags: 0,
            },
        )
    }
}

/// Whether a received header's flags say that control data was cut short.
pub open spec fn control_truncated(msg_flags: i32) -> bool {
    msg_flags & MSG_CTRUNC != 0
}

/// A control region after a receive that left `msg_flags` and `control_len`
/// in the header: that many bytes are in use, and the region is marked
/// truncated exactly if the flags say so, whatever it was marked before.
pub open spec fn received(
    region: ControlRegion,
    msg_flags: i32,
    control_len: usize,
) -> ControlRegion {
    ControlRegion { len: control_len as nat, truncated: control_truncated(msg_flags), ..region }
}

/// Truncation is a fact of one receive and does not stick: whatever the
/// region was marked before, after a receive it is marked truncated if and
/// only if the kernel set the flag, and as many bytes are in use as the
/// kernel said. A receive with too little room is followed by one with
/// enough that is not truncated.
pub proof fn lemma_truncation_does_not_stick(
    region: ControlRegion,
    cut: i32,
    fitting: i32,
    first_len: usize,
    second_len: usize,
)
    requires
        control_truncated(cut),
        !control_truncated(fitting),
    ensures
        received(region, cut, first_len).truncated,
        received(region, cut, first_len).len == first_len,
        !received(received(region, cut, first_len), fitting, second_len).truncated,
        received(received(region, cut, first_len), fitting, second_len).len == second_len,
        received(received(region, cut, first_len), fitting, second_len).bytes == region.bytes,
{
}

fn header(limits: &HeaderLimits, iov_len: usize, control_len: usize) -> (planned: Result<
    MessageHeader,
    Error,
>)
    ensures
        planned == header_for(*limits, iov_len, control_len),
{
    if iov_len > limits.max_iov_len {
        return Err(Error::invalid_input());
    }
    if control_len > limits.max_control_len {
        return Err(Error::invalid_input());
    }
    Ok(MessageHeader { name_len: 0, iov_len, control: control_len != 0, control_len, msg_flags: 0 })
}

/// The flags of every send.
pub fn send_flags() -> (flags: i32)
    ensures
        flags == MSG_NOSIGNAL,
{
    msg_nosignal()
}

/// The flags of every receive.
pub fn recv_flags() -> (flags: i32)
    ensures
        flags == MSG_NOSIGNAL | MSG_CMSG_CLOEXEC,
        flags == 0x4000_4000,
{
    assert(0x4000i32 | 0x4000_0000i32 == 0x4000_4000i32) by (bit_vector);
    msg_nosignal() | msg_cmsg_cloexec()
}

/// Prepares a send of `iov_len` data buffers with the control data in
/// `ancillary`. The truncation mark is cleared whether or not the lengths
/// fit; the header names the bytes in use, and no control region at all when
/// there are none.
pub fn send_msg(limits: &HeaderLimits, iov_len: usize, ancillary: &mut SocketAncillary) -> (planned:
    Result<MessageHeader, Error>)
    ensures
        final(ancillary)@ == (ControlRegion { truncated: false, ..old(ancillary)@ }),
        planned == header_for(*limits, iov_len, old(ancillary)@.len as usize),
{
    ancillary.set_truncated(false);
    header(limits, iov_len, ancillary.len())
}

/// Prepares a receive into `iov_len` data buffers with the whole region of
/// `ancillary` as room for control data.
pub fn recv_msg(limits: &HeaderLimits, iov_len: usize, ancillary: &SocketAncillary) -> (planned:
    Result<MessageHeader, Error>)
    ensures
        planned == header_for(*limits, iov_len, ancillary@.capacity() as usize),
{
    header(limits, iov_len, ancillary.capacity())
}

/// Reads the raw result of a system call as a number of bytes, which it is
/// unless it is negative.
pub fn returned_size(ret: isize) -> (size: Option<usize>)
    ensures
        size == (if ret < 0 {
            None
        } else {
            Some(ret as usize)
        }),
{
    if ret < 0 {
        None
    } else {
        Some(ret as usize)
    }
}

/// Translates the raw result of a system call: a negative one is the failure
/// the operating system last reported, any other is a number of bytes.
pub fn check_returned_size(ret: isize) -> (size: Result<usize, Error>)
    ensures
        ret >= 0 ==> size == Ok::<usize, Error>(ret as usize),
        ret < 0 ==> size is Err,
{
    match returned_size(ret) {
        Some(size) => Ok(size),
        None => Err(Error::last_os_error()),
    }
}

/// Reads the result of a receive. A failed call leaves `ancillary` as it
/// was. After any other, `ancillary` holds as many bytes of control data as
/// the kernel wrote into the header's control length, and is marked
/// truncated exactly if the header's flags say so. The kernel writes no
/// more control data than the header offered room for, so a `control_len`
/// beyond the capacity is not a result of the call that was planned.
pub fn recv_msg_result(
    ret: isize,
    msg_flags: i32,
    control_len: usize,
    ancillary: &mut SocketAncillary,
) -> (size: Result<usize, Error>)
    requires
        ret >= 0 ==> control_len <= old(ancillary)@.capacity(),
    ensures
        ret >= 0 ==> size == Ok::<usize, Error>(ret as usize),
        ret >= 0 ==> final(ancillary)@ == received(old(ancillary)@, msg_flags, control_len),
        ret < 0 ==> size is Err,
        ret < 0 ==> final(ancillary)@ == old(ancillary)@,
{
    let size = check_returned_size(ret)?;
    ancillary.set_received(control_len, msg_flags & msg_ctrunc() != 0);
    Ok(size)
}

} // verus!
