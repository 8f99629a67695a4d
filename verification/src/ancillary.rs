//! The control region of one send or receive.
//!
//! A caller lends a byte region for one operation. Before a send, control
//! messages are added to it one behind the other; after a receive, it holds
//! what the kernel wrote, and the messages are read from it. The region
//! knows how many of its bytes are in use and whether the last receive had
//! to cut control data short.

use vstd::prelude::*;
use vstd::slice::slice_subrange;
use crate::cmsg::{
    aligned,
    encoded,
    front,
    header_at,
    header_bytes,
    lemma_messages_append,
    lemma_messages_from,
    lemma_partly_encoded_ends,
    lemma_partly_encoded_step,
    message_len,
    message_space,
    messages,
    next_start,
    partly_encoded,
    scm_credentials,
    scm_rights,
    sol_socket,
    space_for,
    whole,
    zeros,
    ControlMessage,
    HEADER_LEN,
    MAX_PAYLOAD,
    SCM_CREDENTIALS,
    SCM_RIGHTS,
    SOL_SOCKET,
};
use crate::payload::{
    credentials,
    credentials_message,
    descriptors,
    lemma_credentials_bytes_at,
    lemma_credentials_read_back,
    lemma_descriptor_bytes_at,
    lemma_descriptors_read_back,
    read_credentials,
    read_descriptors,
    rights_message,
    CREDENTIALS_LEN,
    DESCRIPTOR_LEN,
};
use crate::ucred::UCred;
use crate::wire::{i32_bytes, overwritten, u32_bytes, u64_bytes};

verus! {

/// The payload of a control message of a kind this crate knows.
#[derive(Debug, PartialEq, Eq)]
pub enum AncillaryData {
    /// File descriptors, passed from the sender's process to the receiver's.
    ScmRights(Vec<i32>),
    /// Credentials of the sender.
    ScmCredentials(Vec<UCred>),
}

/// Why a control message could not be read.
#[derive(Clone, Copy, Debug, PartialEq, Eq)]
pub enum AncillaryError {
    /// The message is of a level and type this crate does not know.
    Unknown { cmsg_level: i32, cmsg_type: i32 },
}

/// What the payload of a control message lists.
pub enum Payload {
    /// File descriptors, in the order of the payload.
    Rights(Seq<i32>),
    /// Credentials, in the order of the payload.
    Credentials(Seq<UCred>),
}

impl View for AncillaryData {
    type V = Payload;

    open spec fn view(&self) -> Payload {
        match self {
            AncillaryData::ScmRights(fds) => Payload::Rights(fds@),
            AncillaryData::ScmCredentials(creds) => Payload::Credentials(creds@),
        }
    }
}

/// What a control message means: of the socket level, a list of
/// descriptors or of credentials by its type; anything else is unknown.
pub open spec fn meaning(message: ControlMessage) -> Result<Payload, AncillaryError> {
    if message.level == SOL_SOCKET && message.kind == SCM_RIGHTS {
        Ok(Payload::Rights(descriptors(message.payload)))
    } else if message.level == SOL_SOCKET && message.kind == SCM_CREDENTIALS {
        Ok(Payload::Credentials(credentials(message.payload)))
    } else {
        Err(AncillaryError::Unknown { cmsg_level: message.level, cmsg_type: message.kind })
    }
}

/// The meaning that a message read from a region stands for.
pub open spec fn read_as(item: Result<AncillaryData, AncillaryError>) -> Result<
    Payload,
    AncillaryError,
> {
    match item {
        Ok(data) => Ok(data@),
        Err(error) => Err(error),
    }
}

/// A control region as contracts speak of it.
pub struct ControlRegion {
    /// Every byte of the region, in use or not.
    pub bytes: Seq<u8>,
    /// The number of bytes, from the start, that hold control data.
    pub len: nat,
    /// Whether the last receive lost control data for want of room.
    pub truncated: bool,
}

impl ControlRegion {
    /// No more bytes are in use than the region has. This holds of every
    /// `SocketAncillary`, always.
    pub open spec fn wf(self) -> bool {
        self.len <= self.bytes.len()
    }

    /// The size of the region.
    pub open spec fn capacity(self) -> nat {
        self.bytes.len()
    }

    /// The bytes in use.
    pub open spec fn data(self) -> Seq<u8> {
        self.bytes.subrange(0, self.len as int)
    }

    /// Whether there is room behind the bytes in use for one more message
    /// with `payload` bytes of payload.
    pub open spec fn has_room(self, payload: nat) -> bool {
        payload <= MAX_PAYLOAD && self.len + message_space(payload) <= self.bytes.len()
    }

    /// The region with `message` written behind the bytes in use.
    pub open spec fn with_message(self, message: ControlMessage) -> ControlRegion {
        ControlRegion {
            bytes: overwritten(self.bytes, self.len as int, encoded(message)),
            len: self.len + message_space(message.payload.len()),
            truncated: self.truncated,
        }
    }

    /// The region with a byte sequence written over it from `at` on.
    spec fn with_bytes(self, at: int, patch: Seq<u8>) -> ControlRegion {
        ControlRegion { bytes: overwritten(self.bytes, at, patch), ..self }
    }
}

/// Adding a message leaves what was in use as it was and puts the bytes of
/// the message behind it.
pub proof fn lemma_with_message(region: ControlRegion, message: ControlMessage)
    requires
        region.wf(),
        region.has_room(message.payload.len()),
    ensures
        region.with_message(message).wf(),
        region.with_message(message).data() == region.data() + encoded(message),
        region.with_message(message).capacity() == region.capacity(),
{
    let after = region.with_message(message);
    assert(encoded(message).len() == message_space(message.payload.len()));
    assert(after.data() =~= region.data() + encoded(message));
}

/// Descriptors that were added behind whole messages are read back as one
/// more message, with the same descriptors in the same order.
pub proof fn lemma_added_rights_are_read(region: ControlRegion, fds: Seq<i32>)
    requires
        region.wf(),
        region.has_room(4 * fds.len()),
        whole(region.data()),
    ensures
        messages(region.with_message(rights_message(fds)).data()) == messages(region.data()).push(
            rights_message(fds),
        ),
        meaning(rights_message(fds)) == Ok::<Payload, AncillaryError>(Payload::Rights(fds)),
        whole(region.with_message(rights_message(fds)).data()),
{
    lemma_with_message(region, rights_message(fds));
    lemma_messages_append(region.data(), rights_message(fds));
    lemma_descriptors_read_back(fds);
}

/// Credentials that were added behind whole messages are read back as one
/// more message, with the same credentials in the same order.
pub proof fn lemma_added_credentials_are_read(region: ControlRegion, creds: Seq<UCred>)
    requires
        region.wf(),
        region.has_room(12 * creds.len()),
        whole(region.data()),
    ensures
        messages(region.with_message(credentials_message(creds)).data()) == messages(
            region.data(),
        ).push(credentials_message(creds)),
        meaning(credentials_message(creds)) == Ok::<Payload, AncillaryError>(
            Payload::Credentials(creds),
        ),
        whole(region.with_message(credentials_message(creds)).data()),
{
    lemma_with_message(region, credentials_message(creds));
    lemma_messages_append(region.data(), credentials_message(creds));
    lemma_credentials_read_back(creds);
}

/// Reads one message by its level and type.
fn interpret(level: i32, kind: i32, payload: &[u8]) -> (item: Result<AncillaryData, AncillaryError>)
    ensures
        read_as(item) == meaning(ControlMessage { level, kind, payload: payload@ }),
{
    if level == sol_socket() {
        if kind == scm_rights() {
            Ok(AncillaryData::ScmRights(read_descriptors(payload)))
        } else if kind == scm_credentials() {
            Ok(AncillaryData::ScmCredentials(read_credentials(payload)))
        } else {
            Err(AncillaryError::Unknown { cmsg_level: level, cmsg_type: kind })
        }
    } else {
        Err(AncillaryError::Unknown { cmsg_level: level, cmsg_type: kind })
    }
}

/// A caller's byte region used as the control area of one operation, with the
/// number of bytes in use and the mark of a truncated receive.
#[derive(Debug)]
pub struct SocketAncillary<'a> {
    buffer: &'a mut [u8],
    length: usize,
    truncated: bool,
}

impl<'a> View for SocketAncillary<'a> {
    type V = ControlRegion;

    closed spec fn view(&self) -> ControlRegion {
        ControlRegion { bytes: self.buffer@, len: self.length as nat, truncated: self.truncated }
    }
}

impl<'a> SocketAncillary<'a> {
    #[verifier::type_invariant]
    spec fn within_capacity(&self) -> bool {
        self.length <= self.buffer@.len()
    }

    /// The region is a slice, so its size is one the machine can count.
    proof fn lemma_capacity_fits(&self)
        ensures
            self@.capacity() <= usize::MAX,
    {
        vstd::slice::axiom_spec_len::<u8>(&*self.buffer);
    }

    /// Takes a region for one operation; nothing in it counts as control data yet.
    pub fn new(buffer: &'a mut [u8]) -> (ancillary: Self)
        ensures
            ancillary@ == (ControlRegion { bytes: old(buffer)@, len: 0, truncated: false }),
    {
        SocketAncillary { buffer, length: 0, truncated: false }
    }

    /// Takes a region of which the first `length` bytes already hold
    /// control data, if the region is that large.
    pub fn from_parts(buffer: &'a mut [u8], length: usize, truncated: bool) -> (ancillary: Option<
        Self,
    >)
        ensures
            ancillary is Some == (length <= old(buffer)@.len()),
            ancillary is Some ==> ancillary.unwrap()@ == (ControlRegion {
                bytes: old(buffer)@,
                len: length as nat,
                truncated,
            }),
    {
        if length <= buffer.len() {
            Some(SocketAncillary { buffer, length, truncated })
        } else {
            None
        }
    }

    /// Gives the region back, with the number of bytes in use and the
    /// truncation mark.
    pub fn into_parts(self) -> (parts: (&'a mut [u8], usize, bool))
        ensures
            self@.wf(),
            parts.0@ == self@.bytes,
            parts.1 == self@.len,
            parts.2 == self@.truncated,
    {
        proof {
            use_type_invariant(&self);
        }
        let SocketAncillary { buffer, length, truncated } = self;
        (buffer, length, truncated)
    }

    /// The bytes in use.
    pub fn as_bytes(&self) -> (data: &[u8])
        ensures
            self@.wf(),
            data@ == self@.data(),
    {
        proof {
            use_type_invariant(self);
        }
        slice_subrange(&*self.buffer, 0, self.length)
    }

    /// The size of the region.
    pub fn capacity(&self) -> (capacity: usize)
        ensures
            self@.wf(),
            capacity == self@.capacity(),
    {
        proof {
            use_type_invariant(self);
        }
        self.buffer.len()
    }

    /// The number of bytes of the region that hold control data.
    pub fn len(&self) -> (len: usize)
        ensures
            self@.wf(),
            len == self@.len,
    {
        proof {
            use_type_invariant(self);
        }
        self.length
    }

    /// Whether the region holds no control data.
    pub fn is_empty(&self) -> (empty: bool)
        ensures
            self@.wf(),
            empty == (self@.len == 0),
    {
        proof {
            use_type_invariant(self);
        }
        self.length == 0
    }

    /// Whether the last receive lost control data for want of room.
    pub fn truncated(&self) -> (truncated: bool)
        ensures
            self@.wf(),
            truncated == self@.truncated,
    {
        proof {
            use_type_invariant(self);
        }
        self.truncated
    }

    /// Forgets the control data and the truncation mark; the region stays.
    pub fn clear(&mut self)
        ensures
            final(self)@ == (ControlRegion { len: 0, truncated: false, ..old(self)@ }),
    {
        self.length = 0;
        self.truncated = false;
    }

    /// Writes one byte of the region.
    fn put(&mut self, at: usize, byte: u8)
        requires
            at < old(self)@.capacity(),
        ensures
            final(self)@ == (ControlRegion {
                bytes: old(self)@.bytes.update(at as int, byte),
                ..old(self)@
            }),
    {
        proof {
            use_type_invariant(&*self);
        }
        self.buffer[at] = byte;
    }

    /// Writes the four bytes of `value` from `at` on.
    fn put_u32(&mut self, at: usize, value: u32)
        requires
            at + 4 <= old(self)@.capacity(),
        ensures
            final(self)@ == old(self)@.with_bytes(at as int, u32_bytes(value)),
    {
        proof {
            self.lemma_capacity_fits();
        }
        self.put(at, (value % 0x100) as u8);
        self.put(at + 1, (value / 0x100 % 0x100) as u8);
        self.put(at + 2, (value / 0x1_0000 % 0x100) as u8);
        self.put(at + 3, (value / 0x100_0000) as u8);
        assert(self@.bytes =~= overwritten(old(self)@.bytes, at as int, u32_bytes(value)));
    }

    /// Writes the four bytes of a signed number from `at` on.
    fn put_i32(&mut self, at: usize, value: i32)
        requires
            at + 4 <= old(self)@.capacity(),
        ensures
            final(self)@ == old(self)@.with_bytes(at as int, i32_bytes(value)),
    {
        let pattern: u32 = if value >= 0 {
            value as u32
        } else {
            (value as i64 + 0x1_0000_0000) as u32
        };
        self.put_u32(at, pattern);
    }

    /// Writes the eight bytes of `value` from `at` on.
    fn put_u64(&mut self, at: usize, value: u64)
        requires
            at + 8 <= old(self)@.capacity(),
        ensures
            final(self)@ == old(self)@.with_bytes(at as int, u64_bytes(value)),
    {
        proof {
            self.lemma_capacity_fits();
        }
        self.put_u32(at, (value % 0x1_0000_0000) as u32);
        self.put_u32(at + 4, (value / 0x1_0000_0000) as u32);
        assert(self@.bytes =~= overwritten(old(self)@.bytes, at as int, u64_bytes(value)));
    }

    /// Writes `len` zero bytes from `at` on.
    fn put_zeros(&mut self, at: usize, len: usize)
        requires
            at + len <= old(self)@.capacity(),
        ensures
            final(self)@ == old(self)@.with_bytes(at as int, zeros(len as nat)),
    {
        proof {
            self.lemma_capacity_fits();
        }
        let end: usize = at + len;
        let mut next: usize = at;
        while next < end
            invariant
                at <= next <= end <= self@.capacity(),
                self@.bytes.len() == old(self)@.bytes.len(),
                self@.len == old(self)@.len,
                self@.truncated == old(self)@.truncated,
                forall|j: int| 0 <= j < at ==> self@.bytes[j] == old(self)@.bytes[j],
                forall|j: int| at <= j < next ==> self@.bytes[j] == 0u8,
                forall|j: int|
                    next <= j < self@.bytes.len() ==> self@.bytes[j] == old(self)@.bytes[j],
            decreases end - next,
        {
            self.put(next, 0);
            next += 1;
        }
        assert(self@.bytes =~= overwritten(old(self)@.bytes, at as int, zeros(len as nat)));
    }

    /// Writes the header of a message from `at` on.
    fn put_header(&mut self, at: usize, len: u64, level: i32, kind: i32)
        requires
            at + 16 <= old(self)@.capacity(),
        ensures
            final(self)@ == old(self)@.with_bytes(at as int, header_bytes(len, level, kind)),
    {
        proof {
            self.lemma_capacity_fits();
        }
        self.put_u64(at, len);
        self.put_i32(at + 8, level);
        self.put_i32(at + 12, kind);
        assert(self@.bytes =~= overwritten(
            old(self)@.bytes,
            at as int,
            header_bytes(len, level, kind),
        ));
    }

    /// Writes a message with a payload of `payload` zero bytes from `at`
    /// on: its header, and zeros up to the start of the next message.
    fn put_frame(&mut self, at: usize, level: i32, kind: i32, payload: usize)
        requires
            payload <= MAX_PAYLOAD,
            at + message_space(payload as nat) <= old(self)@.capacity(),
        ensures
            final(self)@ == old(self)@.with_bytes(
                at as int,
                header_bytes(message_len(payload as nat) as u64, level, kind) + zeros(
                    aligned(payload as nat),
                ),
            ),
    {
        proof {
            self.lemma_capacity_fits();
        }
        let room: usize = (payload + 7) / 8 * 8;
        self.put_zeros(at, HEADER_LEN + room);
        self.put_header(at, (payload + HEADER_LEN) as u64, level, kind);
        assert(self@.bytes =~= overwritten(
            old(self)@.bytes,
            at as int,
            header_bytes(message_len(payload as nat) as u64, level, kind) + zeros(
                aligned(payload as nat),
            ),
        ));
    }

    /// The room one more message with `payload` bytes of payload takes, if
    /// the region has that much left.
    fn room_for(&self, payload: usize) -> (space: Option<usize>)
        ensures
            self@.wf(),
            space is Some == self@.has_room(payload as nat),
            space is Some ==> space.unwrap() == message_space(payload as nat),
    {
        proof {
            use_type_invariant(self);
        }
        let space: u64 = match space_for(payload) {
            Some(space) => space,
            None => {
                return None;
            },
        };
        let free: usize = self.buffer.len() - self.length;
        if space > free as u64 {
            None
        } else {
            Some(space as usize)
        }
    }

    /// Counts `space` more bytes of the region as in use.
    fn grow(&mut self, space: usize)
        requires
            old(self)@.len + space <= old(self)@.capacity(),
        ensures
            final(self)@ == (ControlRegion { len: old(self)@.len + space as nat, ..old(self)@ }),
    {
        proof {
            use_type_invariant(&*self);
            self.lemma_capacity_fits();
        }
        self.length = self.length + space;
    }

    /// Starts a message with `payload` bytes of payload behind the bytes in
    /// use, if there is room for it: writes its header and zeros in place of
    /// payload and padding. Returns where the message starts and the room
    /// it takes.
    fn start_message(&mut self, level: i32, kind: i32, payload: usize) -> (started: Option<
        (usize, usize),
    >)
        ensures
            old(self)@.wf(),
            started is Some == old(self)@.has_room(payload as nat),
            started is None ==> final(self)@ == old(self)@,
            started is Some ==> started.unwrap().0 == old(self)@.len,
            started is Some ==> started.unwrap().1 == message_space(payload as nat),
            started is Some ==> final(self)@ == old(self)@.with_bytes(
                old(self)@.len as int,
                header_bytes(message_len(payload as nat) as u64, level, kind) + zeros(
                    aligned(payload as nat),
                ),
            ),
    {
        let space: usize = match self.room_for(payload) {
            Some(space) => space,
            None => {
                return None;
            },
        };
        let at: usize = self.len();
        self.put_frame(at, level, kind, payload);
        Some((at, space))
    }

    /// Appends the message that passes `fds`, if there is room for it, and
    /// says whether it did. Without room nothing changes.
    pub fn add_fds(&mut self, fds: &[i32]) -> (added: bool)
        ensures
            old(self)@.wf(),
            added == old(self)@.has_room(4 * fds@.len()),
            final(self)@ == (if added {
                old(self)@.with_message(rights_message(fds@))
            } else {
                old(self)@
            }),
    {
        let count: usize = fds.len();
        if count > MAX_PAYLOAD / DESCRIPTOR_LEN {
            proof {
                use_type_invariant(&*self);
            }
            return false;
        }
        let (at, space) = match self.start_message(
            sol_socket(),
            scm_rights(),
            DESCRIPTOR_LEN * count,
        ) {
            Some(started) => started,
            None => {
                return false;
            },
        };
        let ghost message = rights_message(fds@);
        proof {
            self.lemma_capacity_fits();
            lemma_partly_encoded_ends(message);
        }
        let mut i: usize = 0;
        while i < count
            invariant
                count == fds@.len(),
                i <= count,
                4 * count <= MAX_PAYLOAD,
                message == rights_message(fds@),
                message.payload.len() == 4 * count,
                at + message_space(4 * count as nat) <= old(self)@.capacity() <= usize::MAX,
                self@.capacity() == old(self)@.capacity(),
                self@ == old(self)@.with_bytes(at as int, partly_encoded(message, 4 * i as nat)),
            decreases count - i,
        {
            self.put_i32(at + HEADER_LEN + DESCRIPTOR_LEN * i, fds[i]);
            proof {
                lemma_descriptor_bytes_at(fds@, i as int);
                lemma_partly_encoded_step(
                    old(self)@.bytes,
                    at as int,
                    message,
                    4 * i as nat,
                    i32_bytes(fds@[i as int]),
                );
                assert(4 * i as nat + 4 == 4 * (i + 1) as nat);
            }
            i += 1;
        }
        self.grow(space);
        true
    }

    /// Appends the message that passes `creds`, if there is room for it,
    /// and says whether it did. Without room nothing changes.
    pub fn add_creds(&mut self, creds: &[UCred]) -> (added: bool)
        ensures
            old(self)@.wf(),
            added == old(self)@.has_room(12 * creds@.len()),
            final(self)@ == (if added {
                old(self)@.with_message(credentials_message(creds@))
            } else {
                old(self)@
            }),
    {
        let count: usize = creds.len();
        if count > MAX_PAYLOAD / CREDENTIALS_LEN {
            proof {
                use_type_invariant(&*self);
            }
            return false;
        }
        let (at, space) = match self.start_message(
            sol_socket(),
            scm_credentials(),
            CREDENTIALS_LEN * count,
        ) {
            Some(started) => started,
            None => {
                return false;
            },
        };
        let ghost message = credentials_message(creds@);
        proof {
            self.lemma_capacity_fits();
            lemma_partly_encoded_ends(message);
        }
        let mut i: usize = 0;
        while i < count
            invariant
                count == creds@.len(),
                i <= count,
                12 * count <= MAX_PAYLOAD,
                message == credentials_message(creds@),
                message.payload.len() == 12 * count,
                at + message_space(12 * count as nat) <= old(self)@.capacity() <= usize::MAX,
                self@.capacity() == old(self)@.capacity(),
                self@ == old(self)@.with_bytes(at as int, partly_encoded(message, 12 * i as nat)),
            decreases count - i,
        {
            let cred: UCred = creds[i];
            let start: usize = at + HEADER_LEN + CREDENTIALS_LEN * i;
            let ghost done: nat = 12 * i as nat;
            proof {
                lemma_credentials_bytes_at(creds@, i as int);
            }
            self.put_i32(start, cred.pid);
            assert(self@ == old(self)@.with_bytes(at as int, partly_encoded(message, done + 4)))
                by {
                lemma_partly_encoded_step(
                    old(self)@.bytes,
                    at as int,
                    message,
                    done,
                    i32_bytes(cred.pid),
                );
            }
            self.put_u32(start + 4, cred.uid);
            assert(self@ == old(self)@.with_bytes(at as int, partly_encoded(message, done + 8)))
                by {
                lemma_partly_encoded_step(
                    old(self)@.bytes,
                    at as int,
                    message,
                    done + 4,
                    u32_bytes(cred.uid),
                );
            }
            self.put_u32(start + 8, cred.gid);
            assert(self@ == old(self)@.with_bytes(at as int, partly_encoded(message, done + 12)))
                by {
                lemma_partly_encoded_step(
                    old(self)@.bytes,
                    at as int,
                    message,
                    done + 8,
                    u32_bytes(cred.gid),
                );
            }
            assert(done + 12 == 12 * (i + 1) as nat);
            i += 1;
        }
        self.grow(space);
        true
    }

    /// Reads the messages in the part of the region that is in use, in
    /// order. Reading stops where no whole message follows.
    pub fn messages(&self) -> (items: Vec<Result<AncillaryData, AncillaryError>>)
        ensures
            self@.wf(),
            items@.len() == messages(self@.data()).len(),
            forall|i: int|
                0 <= i < items@.len() ==> read_as(#[trigger] items@[i]) == meaning(
                    messages(self@.data())[i],
                ),
    {
        proof {
            use_type_invariant(self);
        }
        let data: &[u8] = slice_subrange(&*self.buffer, 0, self.length);
        let mut items: Vec<Result<AncillaryData, AncillaryError>> = Vec::new();
        let ghost mut done: Seq<ControlMessage> = Seq::empty();
        let mut at: usize = 0;
        assert(data@.skip(0) =~= data@);
        assert(done + messages(data@) =~= messages(data@));
        loop
            invariant
                data@ == self@.data(),
                data@.len() <= usize::MAX,
                at <= data@.len(),
                messages(data@) == done + messages(data@.skip(at as int)),
                items@.len() == done.len(),
                forall|i: int|
                    0 <= i < items@.len() ==> read_as(#[trigger] items@[i]) == meaning(done[i]),
            ensures
                messages(data@) == done,
                items@.len() == done.len(),
                forall|i: int|
                    0 <= i < items@.len() ==> read_as(#[trigger] items@[i]) == meaning(done[i]),
            decreases data@.len() - at,
        {
            match header_at(data, at) {
                None => {
                    proof {
                        assert(front(data@.skip(at as int)) is None);
                        assert(done + Seq::<ControlMessage>::empty() =~= done);
                    }
                    break ;
                },
                Some(header) => {
                    let ghost message = front(data@.skip(at as int)).unwrap();
                    let ghost before = done;
                    let payload: &[u8] = slice_subrange(data, at + HEADER_LEN, at + header.len);
                    assert(payload@ =~= message.payload);
                    let item = interpret(header.level, header.kind, payload);
                    items.push(item);
                    let next: usize = next_start(data, at, header.len);
                    proof {
                        lemma_messages_from(data@, at as int);
                        done = done.push(message);
                        assert(before + (seq![message] + messages(data@.skip(next as int)))
                            =~= done + messages(data@.skip(next as int)));
                    }
                    at = next;
                },
            }
        }
        items
    }

    /// Sets the truncation mark and leaves the rest as it is.
    pub(crate) fn set_truncated(&mut self, truncated: bool)
        ensures
            old(self)@.wf(),
            final(self)@ == (ControlRegion { truncated, ..old(self)@ }),
    {
        proof {
            use_type_invariant(&*self);
        }
        self.truncated = truncated;
    }

    /// Records what a receive reported: how much control data arrived and
    /// whether some of it was lost.
    pub(crate) fn set_received(&mut self, length: usize, truncated: bool)
        requires
            length <= old(self)@.capacity(),
        ensures
            final(self)@ == (ControlRegion { len: length as nat, truncated, ..old(self)@ }),
    {
        proof {
            use_type_invariant(&*self);
        }
        self.truncated = truncated;
        self.length = length;
    }
}

} // verus!
