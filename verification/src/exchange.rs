//! The data exchange channel: a buffer of fixed length that the parent
//! lends to the child for one run of the body, and gets back with the same
//! length and whatever content the body left in it.

use vstd::prelude::*;

use crate::error::Error;
use crate::fork::bindings;
use crate::fork::SpawnDescriptor;
use crate::text::texts;

verus! {

/// What crosses the channel for a buffer of `len` bytes when `bytes` are
/// all that arrive: the first `len` of them, or nothing where they are
/// fewer.
pub open spec fn taken(len: nat, bytes: Seq<u8>) -> Option<Seq<u8>> {
    if bytes.len() >= len {
        Some(bytes.take(len as int))
    } else {
        None
    }
}

/// Tell the child where the parent listens: the environment of the child
/// gets one more variable, named by the identity of the fork point, whose
/// value is the address.
pub fn advertise(descriptor: &mut SpawnDescriptor, fork_id: &str, address: &str)
    ensures
        bindings(final(descriptor).env@) == bindings(old(descriptor).env@).push(
            (fork_id@, address@),
        ),
        final(descriptor).program == old(descriptor).program,
        texts(final(descriptor).args@) == texts(old(descriptor).args@),
        final(descriptor).stdin == old(descriptor).stdin,
        final(descriptor).stdout == old(descriptor).stdout,
        final(descriptor).stderr == old(descriptor).stderr,
{
    descriptor.env.push((fork_id.to_owned(), address.to_owned()));
}

/// The child's side: the buffer on which the body runs, made of what
/// arrived from the parent. The buffer is `len` bytes long, the length on
/// which both sides agreed beforehand.
pub fn receive(len: usize, incoming: &[u8]) -> (buffer: Result<Vec<u8>, Error>)
    ensures
        match taken(len as nat, incoming@) {
            Some(bytes) => buffer matches Ok(filled) && filled@ == bytes,
            None => buffer == Err::<Vec<u8>, Error>(
                Error::ShortExchange { expected: len, received: incoming.len() },
            ),
        },
{
    if incoming.len() < len {
        return Err(Error::ShortExchange { expected: len, received: incoming.len() });
    }
    let mut filled: Vec<u8> = Vec::new();
    let mut next: usize = 0;
    while next < len
        invariant
            next <= len <= incoming.len(),
            filled@ == incoming@.take(next as int),
        decreases len - next,
    {
        filled.push(incoming[next]);
        next = next + 1;
    }
    Ok(filled)
}

/// The parent's side: put what came back from the child into the buffer
/// that was lent. The buffer keeps its length whatever arrived, and its
/// content unless enough arrived to fill it.
pub fn refill(buffer: &mut [u8], reply: &[u8]) -> (outcome: Result<(), Error>)
    ensures
        final(buffer)@.len() == old(buffer)@.len(),
        match taken(old(buffer)@.len(), reply@) {
            Some(bytes) => outcome == Ok::<(), Error>(()) && final(buffer)@ == bytes,
            None => outcome == Err::<(), Error>(
                Error::ShortExchange {
                    expected: old(buffer)@.len() as usize,
                    received: reply.len(),
                },
            ) && final(buffer)@ == old(buffer)@,
        },
{
    let len = buffer.len();
    if reply.len() < len {
        return Err(Error::ShortExchange { expected: len, received: reply.len() });
    }
    let mut next: usize = 0;
    while next < len
        invariant
            next <= len <= reply.len(),
            buffer@.len() == len,
            forall|i: int| 0 <= i < next ==> buffer@[i] == reply@[i],
        decreases len - next,
    {
        buffer[next] = reply[next];
        next = next + 1;
    }
    Ok(())
}

/// One exchange, end to end: the child's body starts on the very bytes
/// that the parent lent, and the parent's buffer ends as what the body left,
/// given that the body keeps the length on which both sides agreed.
pub proof fn lemma_exchange_round_trip(lent: Seq<u8>, left: Seq<u8>)
    requires
        left.len() == lent.len(),
    ensures
        taken(lent.len(), lent) == Some(lent),
        taken(lent.len(), left) == Some(left),
{
}

} // verus!
