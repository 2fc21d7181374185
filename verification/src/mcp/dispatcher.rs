//! Request ids and pending requests of the JSON-RPC exchange with one
//! server.
use vstd::prelude::*;
use std::collections::HashMap;

verus! {

/// Per-server monotonic request id allocator.
pub struct IdAllocator {
    counter: u64,
}

impl IdAllocator {
    /// The id the next call of `next_id` returns.
    pub closed spec fn next_value(&self) -> u64 {
        self.counter
    }

    /// Create a new allocator starting at id 1.
    pub fn new() -> (a: IdAllocator)
        ensures
            a.next_value() == 1,
    {
        IdAllocator { counter: 1 }
    }

    /// Return the next id and advance the counter (wrapping after
    /// `u64::MAX`, as an atomic `fetch_add` does).
    pub fn next_id(&mut self) -> (id: u64)
        ensures
            id == old(self).next_value(),
            final(self).next_value() == following_id(old(self).next_value()),
    {
        let id = self.counter;
        self.counter = if self.counter == u64::MAX { 0 } else { self.counter + 1 };
        id
    }
}

impl Default for IdAllocator {
    /// Same as `IdAllocator::new`.
    fn default() -> (a: IdAllocator)
        ensures
            a.next_value() == 1,
    {
        IdAllocator::new()
    }
}

/// The id that follows `v`: the counter wraps to zero after `u64::MAX`.
pub open spec fn following_id(v: u64) -> u64 {
    if v == u64::MAX {
        0
    } else {
        (v + 1) as u64
    }
}

/// The id `next_id` returns after `k` calls on an allocator whose next id
/// was `v`.
pub open spec fn id_after_calls(v: u64, k: nat) -> u64
    decreases k,
{
    if k == 0 {
        v
    } else {
        following_id(id_after_calls(v, (k - 1) as nat))
    }
}

/// Ids are handed out in sequence: after `k` calls on a new allocator the
/// next id is `k + 1`.
pub proof fn ids_in_sequence(k: nat)
    requires
        k < u64::MAX,
    ensures
        id_after_calls(1, k) == k + 1,
    decreases k,
{
    if k > 0 {
        ids_in_sequence((k - 1) as nat);
    }
}

/// The first `u64::MAX - 1` ids of an allocator are all distinct.
pub proof fn ids_distinct(i: nat, j: nat)
    requires
        i < j < u64::MAX,
    ensures
        id_after_calls(1, i) != id_after_calls(1, j),
{
    ids_in_sequence(i);
    ids_in_sequence(j);
}

/// Requests awaiting their response: each request id with the waiter its
/// response is handed to.
pub struct PendingRequests<W> {
    waiters: HashMap<u64, W>,
}

impl<W> View for PendingRequests<W> {
    type V = Map<u64, W>;

    closed spec fn view(&self) -> Map<u64, W> {
        self.waiters@
    }
}

impl<W> PendingRequests<W> {
    /// No request pending.
    pub fn new() -> (p: PendingRequests<W>)
        ensures
            p@ == Map::<u64, W>::empty(),
    {
        PendingRequests { waiters: HashMap::new() }
    }

    /// Register `waiter` for the response to request `id`; this happens
    /// before the request is written, so that no response arrives unclaimed.
    /// A waiter already registered under `id` is handed back.
    pub fn register(&mut self, id: u64, waiter: W) -> (previous: Option<W>)
        ensures
            final(self)@ == old(self)@.insert(id, waiter),
            match previous {
                Some(w) => old(self)@.contains_key(id) && w == old(self)@[id],
                None => !old(self)@.contains_key(id),
            },
    {
        self.waiters.insert(id, waiter)
    }

    /// Take the waiter of request `id`: the one a response with this id is
    /// handed to, or the one given up when the request times out.
    pub fn take(&mut self, id: u64) -> (w: Option<W>)
        ensures
            final(self)@ == old(self)@.remove(id),
            match w {
                Some(x) => old(self)@.contains_key(id) && x == old(self)@[id],
                None => !old(self)@.contains_key(id),
            },
    {
        self.waiters.remove(&id)
    }

    /// Drop every waiter, once the server's output has ended: their
    /// receivers learn that no response will come.
    pub fn clear(&mut self)
        ensures
            final(self)@ == Map::<u64, W>::empty(),
    {
        self.waiters.clear();
    }

    /// The number of pending requests.
    pub fn len(&self) -> (n: usize)
        ensures
            n == self@.len(),
    {
        self.waiters.len()
    }
}

/// A response is handed over once: taking the waiter registered for an id
/// gives that waiter back and leaves the other pending requests as they
/// were, and no waiter remains under the id.
pub proof fn register_then_take<W>(pending: Map<u64, W>, id: u64, waiter: W)
    ensures
        pending.insert(id, waiter).contains_key(id),
        pending.insert(id, waiter)[id] == waiter,
        pending.insert(id, waiter).remove(id) == pending.remove(id),
        !pending.insert(id, waiter).remove(id).contains_key(id),
{
    assert(pending.insert(id, waiter).remove(id) =~= pending.remove(id));
}

} // verus!
