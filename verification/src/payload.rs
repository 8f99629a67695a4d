//! The payloads of the two kinds of control message this crate reads and
//! writes: lists of file descriptors and lists of credentials.

use vstd::prelude::*;
use crate::cmsg::{ControlMessage, SCM_CREDENTIALS, SCM_RIGHTS, SOL_SOCKET};
use crate::ucred::UCred;
use crate::wire::{
    i32_at,
    i32_bytes,
    lemma_i32_read_back,
    lemma_u32_read_back,
    read_i32,
    read_u32,
    u32_at,
    u32_bytes,
};

verus! {

/// The size of one file descriptor in a payload.
pub const DESCRIPTOR_LEN: usize = 4;

/// The size of one set of credentials in a payload.
pub const CREDENTIALS_LEN: usize = 12;

/// The payload that lists these descriptors: four bytes each.
pub open spec fn descriptor_bytes(fds: Seq<i32>) -> Seq<u8> {
    Seq::new(4 * fds.len(), |j: int| i32_bytes(fds[j / 4])[j % 4])
}

/// The descriptors a payload lists. Bytes behind the last whole descriptor
/// count for nothing.
pub open spec fn descriptors(payload: Seq<u8>) -> Seq<i32> {
    Seq::new(payload.len() / 4, |i: int| i32_at(payload, 4 * i))
}

/// The twelve bytes of one set of credentials: process, user, group.
pub open spec fn one_credentials_bytes(cred: UCred) -> Seq<u8> {
    i32_bytes(cred.pid) + u32_bytes(cred.uid) + u32_bytes(cred.gid)
}

/// The payload that lists these credentials: twelve bytes each.
pub open spec fn credentials_bytes(creds: Seq<UCred>) -> Seq<u8> {
    Seq::new(12 * creds.len(), |j: int| one_credentials_bytes(creds[j / 12])[j % 12])
}

/// The credentials a payload lists. Bytes behind the last whole set count
/// for nothing.
pub open spec fn credentials(payload: Seq<u8>) -> Seq<UCred> {
    Seq::new(
        payload.len() / 12,
        |i: int|
            UCred {
                pid: i32_at(payload, 12 * i),
                uid: u32_at(payload, 12 * i + 4),
                gid: u32_at(payload, 12 * i + 8),
            },
    )
}

/// The message that passes these descriptors.
pub open spec fn rights_message(fds: Seq<i32>) -> ControlMessage {
    ControlMessage { level: SOL_SOCKET, kind: SCM_RIGHTS, payload: descriptor_bytes(fds) }
}

/// The message that passes these credentials.
pub open spec fn credentials_message(creds: Seq<UCred>) -> ControlMessage {
    ControlMessage { level: SOL_SOCKET, kind: SCM_CREDENTIALS, payload: credentials_bytes(creds) }
}

/// Where each descriptor stands in the payload that lists `fds`.
pub proof fn lemma_descriptor_bytes_at(fds: Seq<i32>, i: int)
    requires
        0 <= i < fds.len(),
    ensures
        descriptor_bytes(fds).subrange(4 * i, 4 * i + 4) == i32_bytes(fds[i]),
{
    let payload = descriptor_bytes(fds);
    assert forall|k: int| 0 <= k < 4 implies #[trigger] payload[4 * i + k] == i32_bytes(
        fds[i],
    )[k] by {
        assert((4 * i + k) / 4 == i);
        assert((4 * i + k) % 4 == k);
    }
    assert(payload.subrange(4 * i, 4 * i + 4) =~= i32_bytes(fds[i]));
}

/// Where each set of credentials stands in the payload that lists `creds`,
/// and each of its three numbers.
pub proof fn lemma_credentials_bytes_at(creds: Seq<UCred>, i: int)
    requires
        0 <= i < creds.len(),
    ensures
        credentials_bytes(creds).subrange(12 * i, 12 * i + 12) == one_credentials_bytes(creds[i]),
        credentials_bytes(creds).subrange(12 * i, 12 * i + 4) == i32_bytes(creds[i].pid),
        credentials_bytes(creds).subrange(12 * i + 4, 12 * i + 8) == u32_bytes(creds[i].uid),
        credentials_bytes(creds).subrange(12 * i + 8, 12 * i + 12) == u32_bytes(creds[i].gid),
{
    let payload = credentials_bytes(creds);
    let one = one_credentials_bytes(creds[i]);
    assert forall|k: int| 0 <= k < 12 implies #[trigger] payload[12 * i + k] == one[k] by {
        assert((12 * i + k) / 12 == i);
        assert((12 * i + k) % 12 == k);
    }
    assert(payload.subrange(12 * i, 12 * i + 12) =~= one);
    assert(payload.subrange(12 * i, 12 * i + 4) =~= one.subrange(0, 4));
    assert(payload.subrange(12 * i + 4, 12 * i + 8) =~= one.subrange(4, 8));
    assert(payload.subrange(12 * i + 8, 12 * i + 12) =~= one.subrange(8, 12));
    assert(one.subrange(0, 4) =~= i32_bytes(creds[i].pid));
    assert(one.subrange(4, 8) =~= u32_bytes(creds[i].uid));
    assert(one.subrange(8, 12) =~= u32_bytes(creds[i].gid));
}

/// The descriptors read from the payload that lists `fds` are `fds`.
pub proof fn lemma_descriptors_read_back(fds: Seq<i32>)
    ensures
        descriptors(descriptor_bytes(fds)) == fds,
{
    let payload = descriptor_bytes(fds);
    assert forall|i: int| 0 <= i < fds.len() implies i32_at(payload, 4 * i) == fds[i] by {
        lemma_descriptor_bytes_at(fds, i);
        lemma_i32_read_back(payload, 4 * i, fds[i]);
    }
    assert(descriptors(payload) =~= fds);
}

/// The credentials read from the payload that lists `creds` are `creds`.
pub proof fn lemma_credentials_read_back(creds: Seq<UCred>)
    ensures
        credentials(credentials_bytes(creds)) == creds,
{
    let payload = credentials_bytes(creds);
    assert forall|i: int| 0 <= i < creds.len() implies credentials(payload)[i] == creds[i] by {
        lemma_credentials_bytes_at(creds, i);
        lemma_i32_read_back(payload, 12 * i, creds[i].pid);
        lemma_u32_read_back(payload, 12 * i + 4, creds[i].uid);
        lemma_u32_read_back(payload, 12 * i + 8, creds[i].gid);
    }
    assert(credentials(payload) =~= creds);
}

/// Reads the descriptors a payload lists.
pub fn read_descriptors(payload: &[u8]) -> (fds: Vec<i32>)
    ensures
        fds@ == descriptors(payload@),
{
    let count: usize = payload.len() / 4;
    let mut fds: Vec<i32> = Vec::new();
    let mut i: usize = 0;
    while i < count
        invariant
            count == payload@.len() / 4,
            payload@.len() <= usize::MAX,
            i <= count,
            fds@.len() == i,
            forall|k: int| 0 <= k < i ==> fds@[k] == i32_at(payload@, 4 * k),
        decreases count - i,
    {
        fds.push(read_i32(payload, 4 * i));
        i += 1;
    }
    assert(fds@ =~= descriptors(payload@));
    fds
}

/// Reads the credentials a payload lists.
pub fn read_credentials(payload: &[u8]) -> (creds: Vec<UCred>)
    ensures
        creds@ == credentials(payload@),
{
    let count: usize = payload.len() / 12;
    let mut creds: Vec<UCred> = Vec::new();
    let mut i: usize = 0;
    while i < count
        invariant
            count == payload@.len() / 12,
            payload@.len() <= usize::MAX,
            i <= count,
            creds@.len() == i,
            forall|k: int| 0 <= k < i ==> creds@[k] == credentials(payload@)[k],
        decreases count - i,
    {
        let pid: i32 = read_i32(payload, 12 * i);
        let uid: u32 = read_u32(payload, 12 * i + 4);
        let gid: u32 = read_u32(payload, 12 * i + 8);
        creds.push(UCred { pid, uid, gid });
        i += 1;
    }
    assert(creds@ =~= credentials(payload@));
    creds
}

} // verus!
