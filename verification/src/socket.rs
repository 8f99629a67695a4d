//! The operations of a seqpacket socket, each cut in two around its system
//! call.
//!
//! The first half takes the reactor's answer and says whether a call is to be
//! made, and which. The second half takes the result of that call and says
//! what the task is told and what becomes of the token. The caller asks the
//! reactor, makes the call and obeys; it decides nothing.
//!
//! A task that waits for an operation polls it again whenever the reactor
//! wakes it, until a poll is not pending. The last part of this module
//! states what such a task is told in the end.

use vstd::prelude::*;
use crate::ancillary::{ControlRegion, SocketAncillary};
use crate::error::Error;
use crate::message::{
    header_for,
    recv_flags,
    recv_msg,
    recv_msg_result,
    check_returned_size,
    send_flags,
    send_msg,
    HeaderLimits,
    MessageHeader,
    MSG_CMSG_CLOEXEC,
    MSG_NOSIGNAL,
    received,
};
use crate::readiness::{outcome_of, would_block, Interest, Outcome, Poll, Readiness, Token};

verus! {

/// A call that sends or receives under a message header.
#[derive(Clone, Copy, Debug, PartialEq, Eq)]
pub struct MessageCall {
    /// The plain fields of the header; the caller adds the pointers.
    pub header: MessageHeader,
    /// The flags of the call.
    pub flags: i32,
}

/// What the first half of an operation decides; `C` is what the operation
/// needs to know to make its call.
#[derive(Debug, PartialEq, Eq)]
pub enum Step<C> {
    /// The reactor is not ready: the task is told so and no call is made.
    Pending,
    /// The operation is over with this failure and no call is made.
    Failed(Error),
    /// The call is to be made, once.
    Call(C),
}

/// The first half of every operation: without readiness there is no call,
/// and with it there is the call that was planned, or the failure to plan it.
pub open spec fn step_of<C>(readiness: Readiness, planned: Result<C, Error>) -> Step<C> {
    match readiness {
        Readiness::Pending => Step::Pending,
        Readiness::Failed(error) => Step::Failed(error),
        Readiness::Ready => match planned {
            Ok(call) => Step::Call(call),
            Err(error) => Step::Failed(error),
        },
    }
}

/// The call that sends under the header for these lengths.
pub open spec fn send_call(limits: HeaderLimits, iov_len: usize, control_len: usize) -> Result<
    MessageCall,
    Error,
> {
    match header_for(limits, iov_len, control_len) {
        Ok(header) => Ok(MessageCall { header, flags: MSG_NOSIGNAL }),
        Err(error) => Err(error),
    }
}

/// The call that receives under the header for these lengths.
pub open spec fn recv_call(limits: HeaderLimits, iov_len: usize, control_len: usize) -> Result<
    MessageCall,
    Error,
> {
    match header_for(limits, iov_len, control_len) {
        Ok(header) => Ok(MessageCall { header, flags: MSG_NOSIGNAL | MSG_CMSG_CLOEXEC }),
        Err(error) => Err(error),
    }
}

/// The direction the reactor is asked for before any send.
pub fn send_interest() -> (interest: Interest)
    ensures
        interest == Interest::Writable,
{
    Interest::Writable
}

/// The direction the reactor is asked for before any receive.
pub fn recv_interest() -> (interest: Interest)
    ensures
        interest == Interest::Readable,
{
    Interest::Readable
}

/// First half of sending one buffer: `readiness` is the reactor's answer for
/// the writable direction.
pub fn poll_send(readiness: Readiness) -> (step: Step<()>)
    ensures
        step == step_of(readiness, Ok::<(), Error>(())),
{
    match readiness {
        Readiness::Pending => Step::Pending,
        Readiness::Failed(error) => Step::Failed(error),
        Readiness::Ready => Step::Call(()),
    }
}

/// First half of sending `iov_len` buffers without control data.
pub fn poll_send_vectored(readiness: Readiness, limits: &HeaderLimits, iov_len: usize) -> (step:
    Step<MessageCall>)
    ensures
        step == step_of(readiness, send_call(*limits, iov_len, 0)),
{
    let mut nothing: Vec<u8> = Vec::new();
    let mut ancillary = SocketAncillary::new(nothing.as_mut_slice());
    poll_send_vectored_with_ancillary(readiness, limits, iov_len, &mut ancillary)
}

/// First half of sending `iov_len` buffers with the control data in
/// `ancillary`. Unless the reactor is ready, `ancillary` is left as it was;
/// if it is, the truncation mark is cleared and the header names the bytes
/// in use.
pub fn poll_send_vectored_with_ancillary(
    readiness: Readiness,
    limits: &HeaderLimits,
    iov_len: usize,
    ancillary: &mut SocketAncillary,
) -> (step: Step<MessageCall>)
    ensures
        step == step_of(readiness, send_call(*limits, iov_len, old(ancillary)@.len as usize)),
        final(ancillary)@ == (if readiness is Ready {
            ControlRegion { truncated: false, ..old(ancillary)@ }
        } else {
            old(ancillary)@
        }),
{
    match readiness {
        Readiness::Pending => Step::Pending,
        Readiness::Failed(error) => Step::Failed(error),
        Readiness::Ready => match send_msg(limits, iov_len, ancillary) {
            Ok(header) => Step::Call(MessageCall { header, flags: send_flags() }),
            Err(error) => Step::Failed(error),
        },
    }
}

/// First half of receiving into one buffer: `readiness` is the reactor's
/// answer for the readable direction.
pub fn poll_recv(readiness: Readiness) -> (step: Step<()>)
    ensures
        step == step_of(readiness, Ok::<(), Error>(())),
{
    match readiness {
        Readiness::Pending => Step::Pending,
        Readiness::Failed(error) => Step::Failed(error),
        Readiness::Ready => Step::Call(()),
    }
}

/// First half of receiving into `iov_len` buffers with no room for control
/// data.
pub fn poll_recv_vectored(readiness: Readiness, limits: &HeaderLimits, iov_len: usize) -> (step:
    Step<MessageCall>)
    ensures
        step == step_of(readiness, recv_call(*limits, iov_len, 0)),
{
    let mut nothing: Vec<u8> = Vec::new();
    let ancillary = SocketAncillary::new(nothing.as_mut_slice());
    poll_recv_vectored_with_ancillary(readiness, limits, iov_len, &ancillary)
}

/// First half of receiving into `iov_len` buffers with the whole region of
/// `ancillary` as room for control data.
pub fn poll_recv_vectored_with_ancillary(
    readiness: Readiness,
    limits: &HeaderLimits,
    iov_len: usize,
    ancillary: &SocketAncillary,
) -> (step: Step<MessageCall>)
    ensures
        step == step_of(readiness, recv_call(*limits, iov_len, ancillary@.capacity() as usize)),
{
    match readiness {
        Readiness::Pending => Step::Pending,
        Readiness::Failed(error) => Step::Failed(error),
        Readiness::Ready => match recv_msg(limits, iov_len, ancillary) {
            Ok(header) => Step::Call(MessageCall { header, flags: recv_flags() }),
            Err(error) => Step::Failed(error),
        },
    }
}

/// Second half of an operation whose call reports a raw size, where nothing
/// but the size is of interest: a send under a header, or a receive without
/// room for control data. (The plain send and receive report a result of
/// their own, which goes to `readiness::outcome` as it is.)
pub fn complete_msg(ret: isize) -> (outcome: Outcome)
    ensures
        ret >= 0 ==> outcome == outcome_of(Ok(ret as usize)),
        ret < 0 ==> exists|error: Error| outcome == outcome_of(Err(error)),
{
    let size = check_returned_size(ret);
    crate::readiness::outcome(size)
}

/// Second half of a receive with room for control data: `msg_flags` and
/// `control_len` are what the kernel left in the header. A failed call, a
/// call that would have blocked among them, leaves `ancillary` as it was.
pub fn complete_recv_msg(
    ret: isize,
    msg_flags: i32,
    control_len: usize,
    ancillary: &mut SocketAncillary,
) -> (outcome: Outcome)
    requires
        ret >= 0 ==> control_len <= old(ancillary)@.capacity(),
    ensures
        ret >= 0 ==> outcome == outcome_of(Ok(ret as usize)),
        ret >= 0 ==> final(ancillary)@ == received(old(ancillary)@, msg_flags, control_len),
        ret < 0 ==> exists|error: Error| outcome == outcome_of(Err(error)),
        ret < 0 ==> final(ancillary)@ == old(ancillary)@,
{
    let size = recv_msg_result(ret, msg_flags, control_len, ancillary);
    crate::readiness::outcome(size)
}

/// What follows the first, non-blocking attempt to connect.
#[derive(Clone, Copy, Debug, PartialEq, Eq)]
pub enum Connect {
    /// The attempt failed for good, with this error.
    Failed(Error),
    /// The connection stands or is under way. The socket is registered with
    /// the reactor, the task waits for this direction, and the token it then
    /// gets is treated as told.
    Wait {
        /// The direction to wait for.
        interest: Interest,
        /// What to do with the token.
        token: Token,
    },
}

/// A connection attempt fails for good on every error but the transient
/// one; otherwise the socket counts as connected once it is writable, and
/// that readiness is kept for the first send.
pub open spec fn connect_of(attempt: Result<(), Error>) -> Connect {
    match attempt {
        Err(error) if !error.spec_is_would_block() => Connect::Failed(error),
        _ => Connect::Wait { interest: Interest::Writable, token: Token::Retain },
    }
}

/// Decides what follows the first attempt to connect.
pub fn connect(attempt: Result<(), Error>) -> (next: Connect)
    ensures
        next == connect_of(attempt),
{
    match attempt {
        Err(error) => {
            if error.is_would_block() {
                Connect::Wait { interest: Interest::Writable, token: Token::Retain }
            } else {
                Connect::Failed(error)
            }
        },
        Ok(()) => Connect::Wait { interest: Interest::Writable, token: Token::Retain },
    }
}

/// One poll of an operation, as the world dealt it: what the reactor
/// answered, what call was planned, and the result of that call, which
/// counts only if the call was made.
pub struct Round<C> {
    /// What the reactor answered.
    pub readiness: Readiness,
    /// The call that was planned once the reactor was ready, or why none was.
    pub planned: Result<C, Error>,
    /// The result of the call.
    pub result: Result<usize, Error>,
}

/// What the task is told at the end of one poll.
pub open spec fn polled<C>(round: Round<C>) -> Poll<Result<usize, Error>> {
    match step_of(round.readiness, round.planned) {
        Step::Pending => Poll::Pending,
        Step::Failed(error) => Poll::Ready(Err(error)),
        Step::Call(_) => outcome_of(round.result).poll,
    }
}

/// What a task that waits for an operation is told in the end: the result
/// of the first poll that is not pending. While every poll is pending the
/// task keeps waiting.
pub open spec fn awaited<C>(rounds: Seq<Round<C>>) -> Poll<Result<usize, Error>>
    decreases rounds.len(),
{
    if rounds.len() == 0 {
        Poll::Pending
    } else {
        match polled(rounds[0]) {
            Poll::Pending => awaited(rounds.skip(1)),
            ready => ready,
        }
    }
}

/// However long an operation was pending, it completes in the first round
/// that is not, with the result of that round.
pub proof fn lemma_awaited_completes<C>(waiting: Seq<Round<C>>, last: Round<C>)
    requires
        forall|i: int| 0 <= i < waiting.len() ==> polled(#[trigger] waiting[i]) is Pending,
        polled(last) is Ready,
    ensures
        awaited(waiting.push(last)) == polled(last),
    decreases waiting.len(),
{
    let rounds = waiting.push(last);
    if waiting.len() == 0 {
        assert(rounds[0] == last);
    } else {
        assert(rounds[0] == waiting[0]);
        assert(rounds.skip(1) =~= waiting.skip(1).push(last));
        assert forall|i: int| 0 <= i < waiting.skip(1).len() implies polled(
            #[trigger] waiting.skip(1)[i],
        ) is Pending by {
            assert(waiting.skip(1)[i] == waiting[i + 1]);
        }
        lemma_awaited_completes(waiting.skip(1), last);
    }
}

/// Whether the first half of a round ends the operation with the transient
/// failure: the reactor itself, or the planning of the call, reported it.
pub open spec fn fails_transiently<C>(round: Round<C>) -> bool {
    let step = step_of(round.readiness, round.planned);
    step is Failed && step->Failed_0.spec_is_would_block()
}

/// A task that waits is never told that a call would have blocked. The one
/// way it can be told of the transient failure at all is that the reactor,
/// or the planning of a call, reported that failure itself.
pub proof fn lemma_awaited_is_definitive<C>(rounds: Seq<Round<C>>)
    requires
        forall|i: int| 0 <= i < rounds.len() ==> !fails_transiently(#[trigger] rounds[i]),
    ensures
        awaited(rounds) is Ready ==> !would_block(awaited(rounds)->Ready_0),
    decreases rounds.len(),
{
    if rounds.len() > 0 {
        assert(!fails_transiently(rounds[0]));
        assert forall|i: int| 0 <= i < rounds.skip(1).len() implies !fails_transiently(
            #[trigger] rounds.skip(1)[i],
        ) by {
            assert(rounds.skip(1)[i] == rounds[i + 1]);
        }
        lemma_awaited_is_definitive(rounds.skip(1));
    }
}

} // verus!
