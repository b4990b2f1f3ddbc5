//! The request ledger: which outgoing request ids still await a response.

use std::collections::HashMap;
use vstd::prelude::*;
use vstd::std_specs::hash::group_hash_axioms;

verus! {

broadcast use group_hash_axioms;

/// A request that the editor asked for and whose result it receives later,
/// tagged with the id that the editor chose for it.
#[derive(Clone, Copy, Debug, PartialEq, Eq, Structural)]
pub enum EditorRequest {
    DocumentDiagnostic { request_id: u64 },
    InlayHints { request_id: u64 },
    FoldingRange { request_id: u64 },
}

/// What an outstanding request was sent for.
#[derive(Clone, Copy, Debug, PartialEq, Eq, Structural)]
pub enum PendingRequest {
    Initialize,
    Shutdown,
    Editor(EditorRequest),
}

/// The ledger after a response with id `id` is read.
pub open spec fn after_resolve(m: Map<u64, PendingRequest>, id: u64) -> Map<u64, PendingRequest> {
    m.remove(id)
}

/// Reading a response resolves at most one entry: the one with the
/// response's id if there is one, and no other; an unknown id leaves the
/// ledger as it was.
pub proof fn lemma_resolve_at_most_one(m: Map<u64, PendingRequest>, id: u64)
    requires
        m.dom().finite(),
    ensures
        after_resolve(m, id).dom().finite(),
        m.contains_key(id) ==> after_resolve(m, id).len() == m.len() - 1,
        !m.contains_key(id) ==> after_resolve(m, id) == m,
        forall|other: u64|
            other != id ==> (#[trigger] after_resolve(m, id).contains_key(other)
                == m.contains_key(other)),
{
    if !m.contains_key(id) {
        assert(m.remove(id) =~= m);
    }
}

/// Outgoing request ids of one session and the requests that still await
/// their response. Ids start at 0, increase by one and are never reused.
pub struct RequestLedger {
    next_id: u64,
    pending: HashMap<u64, PendingRequest>,
}

impl RequestLedger {
    pub closed spec fn wf(&self) -> bool {
        forall|id: u64| #[trigger] self.pending@.contains_key(id) ==> id < self.next_id
    }

    /// The id that the next request will get.
    pub closed spec fn next_id_spec(&self) -> u64 {
        self.next_id
    }

    /// The requests that await a response, by id.
    pub closed spec fn pending_spec(&self) -> Map<u64, PendingRequest> {
        self.pending@
    }

    pub fn new() -> (r: Self)
        ensures
            r.wf(),
            r.next_id_spec() == 0,
            r.pending_spec() == Map::<u64, PendingRequest>::empty(),
    {
        RequestLedger { next_id: 0, pending: HashMap::new() }
    }

    /// Allocates the next id for `req` and records it as outstanding.
    /// Returns `None`, and changes nothing, only once every id has been used.
    pub fn register(&mut self, req: PendingRequest) -> (r: Option<u64>)
        requires
            old(self).wf(),
        ensures
            final(self).wf(),
            old(self).next_id_spec() < u64::MAX ==> {
                &&& r == Some(old(self).next_id_spec())
                &&& final(self).next_id_spec() == old(self).next_id_spec() + 1
                &&& final(self).pending_spec() == old(self).pending_spec().insert(
                    old(self).next_id_spec(),
                    req,
                )
            },
            old(self).next_id_spec() == u64::MAX ==> r is None && *final(self) == *old(self),
    {
        if self.next_id == u64::MAX {
            return None;
        }
        let id = self.next_id;
        self.pending.insert(id, req);
        self.next_id = id + 1;
        Some(id)
    }

    /// Resolves the response with id `id`: removes and returns its entry, or
    /// returns `None` for an id that is not outstanding.
    pub fn resolve(&mut self, id: u64) -> (r: Option<PendingRequest>)
        requires
            old(self).wf(),
        ensures
            final(self).wf(),
            final(self).next_id_spec() == old(self).next_id_spec(),
            final(self).pending_spec() == after_resolve(old(self).pending_spec(), id),
            r == old(self).pending_spec().get(id),
    {
        self.pending.remove(&id)
    }

    /// Drops every outstanding entry (the session is going away).
    pub fn drop_all(&mut self)
        requires
            old(self).wf(),
        ensures
            final(self).wf(),
            final(self).next_id_spec() == old(self).next_id_spec(),
            final(self).pending_spec() == Map::<u64, PendingRequest>::empty(),
    {
        self.pending.clear();
    }

    pub fn is_pending(&self, id: u64) -> (r: bool)
        ensures
            r == self.pending_spec().contains_key(id),
    {
        self.pending.contains_key(&id)
    }

    pub fn outstanding(&self) -> (r: usize)
        ensures
            r == self.pending_spec().len(),
    {
        self.pending.len()
    }
}

} // verus!
