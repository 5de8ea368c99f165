//! Connection identifiers: unique, monotonically increasing ids issued at
//! accept time, tagged with the transport kind they were accepted on.

use vstd::prelude::*;

use crate::config::ServerType;

verus! {

/// Identifier of one accepted connection; never reused for the factory
/// that issued it.
#[derive(Debug, Clone, Copy, PartialEq, Eq, Structural)]
pub struct FastCGIConnectionID {
    pub id: u64,
    pub server_type: ServerType,
}

/// Issues connection ids, starting at 1 and strictly increasing.
///
/// The accept loop is the only caller, and it is sequential, so the counter
/// is a plain integer advanced through `&mut`.
#[derive(Debug)]
pub struct FastCGIConnectionIDFactory {
    next_connection_id: u64,
    server_type: ServerType,
}

impl FastCGIConnectionIDFactory {
    /// Which id the next call of [`Self::new_connection_id`] returns.
    pub closed spec fn spec_next(&self) -> u64 {
        self.next_connection_id
    }

    /// Transport kind stamped on every id this factory issues.
    pub closed spec fn spec_server_type(&self) -> ServerType {
        self.server_type
    }

    pub fn new(server_type: ServerType) -> (f: Self)
        ensures
            f.spec_next() == 1u64,
            f.spec_server_type() == server_type,
    {
        Self { next_connection_id: 1, server_type }
    }

    /// Whether the counter has reached its last value, so that no further
    /// id can be issued. Callers check this before asking for an id.
    pub fn exhausted(&self) -> (r: bool)
        ensures
            r == (self.spec_next() == u64::MAX),
    {
        self.next_connection_id == u64::MAX
    }

    pub fn new_connection_id(&mut self) -> (c: FastCGIConnectionID)
        requires
            old(self).spec_next() < u64::MAX,
        ensures
            c.id == old(self).spec_next(),
            c.server_type == old(self).spec_server_type(),
            final(self).spec_next() == old(self).spec_next() + 1,
            final(self).spec_server_type() == old(self).spec_server_type(),
    {
        let id = self.next_connection_id;
        self.next_connection_id = id + 1;
        FastCGIConnectionID { id, server_type: self.server_type }
    }
}

/// Ids issued one after the other strictly increase, so no id is ever
/// reused: the id handed out at a later state is strictly larger than every
/// id the factory handed out before.
pub proof fn lemma_connection_ids_strictly_increase(
    earlier: FastCGIConnectionIDFactory,
    later: FastCGIConnectionIDFactory,
    first: FastCGIConnectionID,
    second: FastCGIConnectionID,
)
    requires
        first.id == earlier.spec_next(),
        earlier.spec_next() < later.spec_next(),
        second.id == later.spec_next(),
    ensures
        first.id < second.id,
        first != second,
{
}

} // verus!
