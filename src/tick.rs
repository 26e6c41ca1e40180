use vstd::prelude::*;

use crate::connection::{is_batch_of, Connection};
use crate::limiter::{acquire_effect, release_effect, AcquireError, Limiter};
use crate::outgoing::OutgoingPacket;
use crate::peer::{host_of, PeerAddr};
use crate::settings::PacketPolicy;

verus! {

/// What became of a connection reported finished.
#[derive(Debug, Clone, Copy, PartialEq, Eq, Structural)]
pub enum ReapOutcome {
    /// The connection is to be removed: its last batch is flushed and its
    /// session released.
    Removed,
    /// The handle now holds a connection to another address: it stays.
    AddressMismatch,
}

/// Decides on `connection`, whose handle was reported finished from
/// `finished`. Only a connection to that same address is retired: its
/// pending bytes are flushed first, the batches waiting to be sent are handed
/// out, and only then is the session of its host released.
pub fn reap_finished(limiter: &mut Limiter, connection: &mut Connection, finished: PeerAddr) -> (r: (
    ReapOutcome,
    Vec<OutgoingPacket>,
))
    requires
        old(limiter).wf(),
    ensures
        final(limiter).wf(),
        old(connection).spec_addr() != finished ==> {
            &&& r.0 == ReapOutcome::AddressMismatch
            &&& r.1@.len() == 0
            &&& *final(limiter) == *old(limiter)
            &&& *final(connection) == *old(connection)
        },
        old(connection).spec_addr() == finished ==> {
            &&& r.0 == ReapOutcome::Removed
            &&& release_effect(*old(limiter), *final(limiter), host_of(finished))
            &&& final(connection).buffered().len() == 0
            &&& final(connection).sent().len() == 0
            &&& if old(connection).buffered().len() > 0 {
                &&& r.1@.len() == old(connection).sent().len() + 1
                &&& r.1@.drop_last() == old(connection).sent()
                &&& is_batch_of(r.1@.last(), *old(connection))
            } else {
                r.1@ == old(connection).sent()
            }
        },
{
    if connection.addr() != finished {
        return (ReapOutcome::AddressMismatch, Vec::new());
    }
    connection.flush();
    let batches = connection.take_outgoing();
    limiter.release(finished.host());
    (ReapOutcome::Removed, batches)
}

/// Takes a session for a stream accepted from `addr`, counted against its
/// host; the connection starts with nothing written. Where the quota
/// refuses, the stream is to be dropped.
pub fn accept_session(limiter: &mut Limiter, addr: PeerAddr, policy: PacketPolicy) -> (r: Result<
    Connection,
    AcquireError,
>)
    requires
        old(limiter).wf(),
    ensures
        exists|acquired: Result<(), AcquireError>|
            acquire_effect(*old(limiter), *final(limiter), host_of(addr), acquired) && match (
                acquired,
                r,
            ) {
                (Ok(()), Ok(c)) => c.spec_addr() == addr && c.policy() == policy && c.buffered().len()
                    == 0 && c.sent().len() == 0 && c.key() is None && c.mode() is None,
                (Err(e), Err(f)) => e == f,
                _ => false,
            },
{
    match limiter.try_acquire(addr.host()) {
        Ok(()) => Ok(Connection::new(addr, policy)),
        Err(e) => Err(e),
    }
}

} // verus!
