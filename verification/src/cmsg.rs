//! The layout of control messages in a control region.
//!
//! A control region holds messages back to back. Each starts with a header
//! of sixteen bytes: the length of the message, header included, in eight
//! bytes, then its level and its type in four bytes each. The payload
//! follows the header. The next message starts at the next multiple of
//! eight bytes behind the end of the payload. This is the layout of Linux on
//! little-endian 64-bit targets.

use vstd::prelude::*;
use crate::wire::{
    i32_at,
    i32_bytes,
    lemma_i32_read_back,
    lemma_u64_read_back,
    overwritten,
    read_i32,
    read_u64,
    u64_at,
    u64_bytes,
};

verus! {

/// The level of the messages the socket layer itself defines.
pub const SOL_SOCKET: i32 = 1;

/// The type of a message whose payload is a list of file descriptors.
pub const SCM_RIGHTS: i32 = 1;

/// The type of a message whose payload is a list of credentials.
pub const SCM_CREDENTIALS: i32 = 2;

/// `libc::SOL_SOCKET`. The contract gives the value it has on the Linux
/// targets this crate is written for; MIPS and SPARC, where it differs, are
/// not among them.
#[verifier::external_body]
pub(crate) fn sol_socket() -> (level: i32)
    ensures
        level == SOL_SOCKET,
{
    libc::SOL_SOCKET
}

/// `libc::SCM_RIGHTS`. The contract gives the value it has on every Linux
/// target.
#[verifier::external_body]
pub(crate) fn scm_rights() -> (kind: i32)
    ensures
        kind == SCM_RIGHTS,
{
    libc::SCM_RIGHTS
}

/// `libc::SCM_CREDENTIALS`. The contract gives the value it has on every
/// Linux target.
#[verifier::external_body]
pub(crate) fn scm_credentials() -> (kind: i32)
    ensures
        kind == SCM_CREDENTIALS,
{
    libc::SCM_CREDENTIALS
}

/// The size of the header of a control message.
pub const HEADER_LEN: usize = 16;

/// The largest payload a single control message can carry.
pub const MAX_PAYLOAD: usize = 0xffff_ffff;

/// `len` rounded up to the next multiple of eight.
pub open spec fn aligned(len: nat) -> nat {
    ((len + 7) / 8 * 8) as nat
}

/// The length a message with `payload` bytes of payload states of itself.
pub open spec fn message_len(payload: nat) -> nat {
    16 + payload
}

/// The room a message with `payload` bytes of payload takes in a region.
pub open spec fn message_space(payload: nat) -> nat {
    16 + aligned(payload)
}

/// A control message: the protocol level it belongs to, its type within
/// that level, and its payload.
pub struct ControlMessage {
    /// The protocol level.
    pub level: i32,
    /// The type within the level.
    pub kind: i32,
    /// The payload, without header and padding.
    pub payload: Seq<u8>,
}

/// `len` bytes of zero.
pub open spec fn zeros(len: nat) -> Seq<u8> {
    Seq::new(len, |i: int| 0u8)
}

/// The sixteen bytes of a header.
pub open spec fn header_bytes(len: u64, level: i32, kind: i32) -> Seq<u8> {
    u64_bytes(len) + i32_bytes(level) + i32_bytes(kind)
}

/// A payload, followed by zeros up to the next multiple of eight bytes.
pub open spec fn padded(payload: Seq<u8>) -> Seq<u8> {
    payload + zeros((aligned(payload.len()) - payload.len()) as nat)
}

/// The bytes of a message, padding included.
pub open spec fn encoded(message: ControlMessage) -> Seq<u8> {
    header_bytes(message_len(message.payload.len()) as u64, message.level, message.kind) + padded(
        message.payload,
    )
}

/// The bytes of a message while it is being written: the header stands, the
/// first `done` bytes of the payload stand, and all behind them is zero.
#[verifier::opaque]
pub open spec fn partly_encoded(message: ControlMessage, done: nat) -> Seq<u8> {
    header_bytes(message_len(message.payload.len()) as u64, message.level, message.kind)
        + message.payload.take(done as int) + zeros(
        (aligned(message.payload.len()) - done) as nat,
    )
}

/// Writing starts from the header and zeros, and ends with the message.
pub proof fn lemma_partly_encoded_ends(message: ControlMessage)
    ensures
        partly_encoded(message, 0) == header_bytes(
            message_len(message.payload.len()) as u64,
            message.level,
            message.kind,
        ) + zeros(aligned(message.payload.len())),
        partly_encoded(message, message.payload.len()) == encoded(message),
{
    reveal(partly_encoded);
    let header = header_bytes(
        message_len(message.payload.len()) as u64,
        message.level,
        message.kind,
    );
    assert(partly_encoded(message, 0) =~= header + zeros(aligned(message.payload.len())));
    assert(message.payload.take(message.payload.len() as int) =~= message.payload);
    assert(partly_encoded(message, message.payload.len()) =~= encoded(message));
}

/// Writing the next bytes of the payload over the zeros that stand in their
/// place gives the message with that much more of its payload written.
pub proof fn lemma_partly_encoded_step(
    bytes: Seq<u8>,
    at: int,
    message: ControlMessage,
    done: nat,
    item: Seq<u8>,
)
    requires
        0 <= at,
        at + message_space(message.payload.len()) <= bytes.len(),
        done + item.len() <= message.payload.len(),
        item == message.payload.subrange(done as int, (done + item.len()) as int),
    ensures
        overwritten(overwritten(bytes, at, partly_encoded(message, done)), at + 16 + done, item)
            == overwritten(bytes, at, partly_encoded(message, done + item.len())),
        overwritten(bytes, at, partly_encoded(message, done + item.len())).len() == bytes.len(),
{
    reveal(partly_encoded);
    let before = overwritten(bytes, at, partly_encoded(message, done));
    let after = overwritten(bytes, at, partly_encoded(message, done + item.len()));
    let written = overwritten(before, at + 16 + done, item);
    assert(written.len() == after.len());
    assert forall|j: int| 0 <= j < written.len() implies written[j] == after[j] by {
        if at + 16 + done <= j < at + 16 + done + item.len() {
            assert(written[j] == item[j - at - 16 - done]);
            assert(after[j] == message.payload[j - at - 16]);
        }
    }
    assert(written =~= after);
}

/// The message at the front of `bytes`: there is one if a header fits and
/// the length it states covers at least the header and at most `bytes`.
pub open spec fn front(bytes: Seq<u8>) -> Option<ControlMessage> {
    if bytes.len() < 16 {
        None
    } else {
        let len = u64_at(bytes, 0);
        if len < 16 || len > bytes.len() {
            None
        } else {
            Some(
                ControlMessage {
                    level: i32_at(bytes, 8),
                    kind: i32_at(bytes, 12),
                    payload: bytes.subrange(16, len as int),
                },
            )
        }
    }
}

/// What lies behind the message at the front of `bytes`.
pub open spec fn behind_front(bytes: Seq<u8>) -> Seq<u8> {
    let stride = aligned(u64_at(bytes, 0) as nat);
    if stride >= bytes.len() {
        Seq::empty()
    } else {
        bytes.skip(stride as int)
    }
}

/// The messages of a region, in order: the one at the front, then those of
/// what lies behind it. Reading stops where no message is at the front.
pub open spec fn messages(bytes: Seq<u8>) -> Seq<ControlMessage>
    decreases bytes.len(),
{
    match front(bytes) {
        None => Seq::empty(),
        Some(message) => seq![message] + messages(behind_front(bytes)),
    }
}

/// Whether `bytes` is made of whole messages and nothing else.
pub open spec fn whole(bytes: Seq<u8>) -> bool
    decreases bytes.len(),
{
    bytes.len() == 0 || (front(bytes) is Some && aligned(u64_at(bytes, 0) as nat) <= bytes.len()
        && whole(behind_front(bytes)))
}

/// A message that is followed by anything stands at the front of the whole.
pub proof fn lemma_front_of_encoded(message: ControlMessage, behind: Seq<u8>)
    requires
        message.payload.len() <= MAX_PAYLOAD,
    ensures
        front(encoded(message) + behind) == Some(message),
        behind_front(encoded(message) + behind) == behind,
        encoded(message).len() == message_space(message.payload.len()),
{
    let bytes = encoded(message) + behind;
    let len = message_len(message.payload.len()) as u64;
    let header = header_bytes(len, message.level, message.kind);
    assert(bytes.subrange(0, 8) =~= u64_bytes(len));
    assert(bytes.subrange(8, 12) =~= i32_bytes(message.level));
    assert(bytes.subrange(12, 16) =~= i32_bytes(message.kind));
    lemma_u64_read_back(bytes, 0, len);
    lemma_i32_read_back(bytes, 8, message.level);
    lemma_i32_read_back(bytes, 12, message.kind);
    assert(bytes.subrange(16, len as int) =~= message.payload);
    assert(aligned(len as nat) == encoded(message).len());
    if behind.len() > 0 {
        assert(bytes.skip(encoded(message).len() as int) =~= behind);
    } else {
        assert(behind =~= Seq::<u8>::empty());
    }
}

/// What was encoded is read back: behind whole messages, one more message
/// is read as one more message, and the region stays whole.
pub proof fn lemma_messages_append(prefix: Seq<u8>, message: ControlMessage)
    requires
        whole(prefix),
        message.payload.len() <= MAX_PAYLOAD,
    ensures
        messages(prefix + encoded(message)) == messages(prefix).push(message),
        whole(prefix + encoded(message)),
    decreases prefix.len(),
{
    let all = prefix + encoded(message);
    if prefix.len() == 0 {
        assert(all =~= encoded(message) + Seq::<u8>::empty());
        lemma_front_of_encoded(message, Seq::<u8>::empty());
        assert(messages(Seq::<u8>::empty()) =~= Seq::<ControlMessage>::empty());
        assert(messages(all) =~= messages(prefix).push(message));
        assert(aligned(u64_at(all, 0) as nat) == all.len());
        assert(whole(behind_front(all)));
        assert(whole(all));
    } else {
        let stride = aligned(u64_at(prefix, 0) as nat);
        let len = u64_at(prefix, 0);
        assert(u64_at(all, 0) == len);
        assert(i32_at(all, 8) == i32_at(prefix, 8));
        assert(i32_at(all, 12) == i32_at(prefix, 12));
        assert(all.subrange(16, len as int) =~= prefix.subrange(16, len as int));
        assert(front(all) == front(prefix));
        lemma_front_of_encoded(message, Seq::<u8>::empty());
        assert(encoded(message) + Seq::<u8>::empty() =~= encoded(message));
        assert(behind_front(all) =~= behind_front(prefix) + encoded(message));
        lemma_messages_append(behind_front(prefix), message);
        assert(messages(all) =~= messages(prefix).push(message));
        assert(whole(behind_front(all)));
        assert(whole(all));
    }
}

/// The room a message with `payload` bytes of payload takes, if a message
/// can carry that much.
pub fn space_for(payload: usize) -> (space: Option<u64>)
    ensures
        space == (if payload <= MAX_PAYLOAD {
            Some(message_space(payload as nat) as u64)
        } else {
            None
        }),
{
    if payload > MAX_PAYLOAD {
        None
    } else {
        let payload: u64 = payload as u64;
        Some(16 + (payload + 7) / 8 * 8)
    }
}

/// What the header of a message says.
#[derive(Clone, Copy, Debug, PartialEq, Eq)]
pub struct Header {
    /// The length of the message, header included and padding excluded.
    pub len: usize,
    /// The protocol level of the message.
    pub level: i32,
    /// The type of the message within its level.
    pub kind: i32,
}

/// What the header at the front of `bytes` says, if a message stands there.
pub open spec fn front_header(bytes: Seq<u8>) -> Option<Header> {
    match front(bytes) {
        Some(message) => Some(
            Header {
                len: (16 + message.payload.len()) as usize,
                level: message.level,
                kind: message.kind,
            },
        ),
        None => None,
    }
}

/// Reads the header of the message that starts at `at`, if one does. None
/// starts behind the end of `bytes`.
pub fn header_at(bytes: &[u8], at: usize) -> (found: Option<Header>)
    ensures
        found == (if at <= bytes@.len() {
            front_header(bytes@.skip(at as int))
        } else {
            None
        }),
        found is Some ==> found.unwrap().len == u64_at(bytes@, at as int),
{
    if at > bytes.len() {
        return None;
    }
    let ghost tail = bytes@.skip(at as int);
    let remaining: usize = bytes.len() - at;
    if remaining < HEADER_LEN {
        return None;
    }
    assert(u64_at(tail, 0) == u64_at(bytes@, at as int));
    assert(i32_at(tail, 8) == i32_at(bytes@, at + 8));
    assert(i32_at(tail, 12) == i32_at(bytes@, at + 12));
    let len: u64 = read_u64(bytes, at);
    if len < 16 || len > remaining as u64 {
        return None;
    }
    let level: i32 = read_i32(bytes, at + 8);
    let kind: i32 = read_i32(bytes, at + 12);
    Some(Header { len: len as usize, level, kind })
}

/// Where the message behind the one that starts at `at` starts, or the end
/// of `bytes` if none can.
pub open spec fn next_at(bytes: Seq<u8>, at: int) -> int {
    let stride = aligned(u64_at(bytes, at) as nat);
    if at + stride >= bytes.len() {
        bytes.len() as int
    } else {
        at + stride
    }
}

/// The messages from `at` on are the one that starts there and those from
/// the next start on.
pub proof fn lemma_messages_from(bytes: Seq<u8>, at: int)
    requires
        0 <= at <= bytes.len(),
        front(bytes.skip(at)) is Some,
    ensures
        at < next_at(bytes, at) <= bytes.len(),
        messages(bytes.skip(at)) == seq![front(bytes.skip(at)).unwrap()] + messages(
            bytes.skip(next_at(bytes, at)),
        ),
{
    let tail = bytes.skip(at);
    assert(u64_at(tail, 0) == u64_at(bytes, at));
    assert(behind_front(tail) =~= bytes.skip(next_at(bytes, at)));
}

/// Computes where the message behind the one at `at` starts; `len` is the
/// length that message states.
pub(crate) fn next_start(bytes: &[u8], at: usize, len: usize) -> (next: usize)
    requires
        at <= bytes@.len(),
        16 <= len <= bytes@.len() - at,
        len == u64_at(bytes@, at as int),
    ensures
        next == next_at(bytes@, at as int),
{
    let remaining: usize = bytes.len() - at;
    let padding: usize = (8 - len % 8) % 8;
    assert(aligned(len as nat) == len + padding);
    if padding >= remaining - len {
        bytes.len()
    } else {
        at + len + padding
    }
}

} // verus!
