//! Request correlation: identifiers for outbound requests, and the table
//! that leads a reply back to whoever waits for it.

use std::collections::HashMap;
use vstd::prelude::*;

verus! {

broadcast use vstd::std_specs::hash::group_hash_axioms;

/// Why no reply will come any more.
#[derive(Clone, Copy, Debug, PartialEq, Eq, Structural)]
pub enum CloseReason {
    /// The editor asks for nothing more and nothing is under way.
    IntentsClosed,
    /// The server closed its output.
    EndOfStream,
    /// The transport failed, or its bytes could not be framed.
    TransportFailed,
}

/// The failure that ends a session, with everyone that it is owed to.
#[derive(Debug)]
pub struct Failed<W> {
    /// Why no reply will come.
    pub reason: CloseReason,
    /// The waiters to tell, each with the identifier of its request, in
    /// ascending order of the identifiers.
    pub waiters: Vec<(u64, W)>,
}

/// Whether `released` lists the entries of `pending`: every entry once, and
/// nothing else, in ascending order of the identifiers.
pub open spec fn is_release_of<W>(pending: Map<u64, W>, released: Seq<(u64, W)>) -> bool {
    &&& released.len() == pending.len()
    &&& forall|i: int|
        0 <= i < released.len() ==> pending.contains_pair((#[trigger] released[i]).0, released[i].1)
    &&& forall|i: int, j: int|
        0 <= i < j < released.len() ==> (#[trigger] released[i]).0 < (#[trigger] released[j]).0
    &&& forall|id: u64| #[trigger]
        pending.contains_key(id) ==> exists|i: int|
            0 <= i < released.len() && (#[trigger] released[i]).0 == id
}

/// Hands out request identifiers and keeps, for each request without a
/// reply, the waiter that the reply is owed to. `W` is whatever the caller
/// uses to reach a waiter, such as the sending half of a single-use channel.
pub struct Correlator<W> {
    next_id: u64,
    pending: HashMap<u64, W>,
}

impl<W> Correlator<W> {
    /// The identifier that the next request gets.
    pub closed spec fn next_id(&self) -> u64 {
        self.next_id
    }

    /// The requests without a reply, each with its waiter.
    pub closed spec fn pending(&self) -> Map<u64, W> {
        self.pending@
    }

    /// Identifiers start at 1, and every pending identifier was handed out.
    pub open spec fn wf(&self) -> bool {
        &&& self.next_id() >= 1
        &&& self.pending().dom().finite()
        &&& forall|id: u64| #[trigger] self.pending().contains_key(id) ==> 1 <= id < self.next_id()
    }

    /// Whether `post` comes from `pre` by issuing `id` to `waiter`: `id` is
    /// the next identifier of `pre`, it was not pending, and now it is.
    pub open spec fn issues(pre: Self, post: Self, waiter: W, id: u64) -> bool {
        &&& id == pre.next_id()
        &&& id < u64::MAX
        &&& post.next_id() == id + 1
        &&& !pre.pending().contains_key(id)
        &&& post.pending() == pre.pending().insert(id, waiter)
    }

    /// Whether `post` comes from `pre` by resolving `id`, with `waiter` as
    /// what came out: the waiter filed under `id`, which is pending no
    /// longer; or nothing, with nothing changed, where `id` was not pending.
    pub open spec fn resolves(pre: Self, post: Self, id: u64, waiter: Option<W>) -> bool {
        &&& post.next_id() == pre.next_id()
        &&& post.pending() == pre.pending().remove(id)
        &&& !pre.pending().contains_key(id) ==> post.pending() == pre.pending()
        &&& waiter == if pre.pending().contains_key(id) {
            Some(pre.pending()[id])
        } else {
            None::<W>
        }
    }

    /// Identifiers are issued in strictly increasing order: of any run of
    /// registrations, each on the state that the one before it left, a later
    /// one gets a greater identifier than an earlier one. No two requests
    /// share an identifier.
    pub proof fn lemma_identifiers_increase(states: Seq<Self>, waiters: Seq<W>, ids: Seq<u64>)
        requires
            states.len() == ids.len() + 1,
            waiters.len() == ids.len(),
            forall|i: int|
                0 <= i < ids.len() ==> Self::issues(
                    states[i],
                    states[i + 1],
                    waiters[i],
                    #[trigger] ids[i],
                ),
        ensures
            forall|i: int| 0 <= i < ids.len() ==> #[trigger] ids[i] == states[0].next_id() + i,
            forall|i: int, j: int| 0 <= i < j < ids.len() ==> #[trigger] ids[i] < #[trigger] ids[j],
            forall|i: int, j: int|
                0 <= i < ids.len() && 0 <= j < ids.len() && i != j ==> #[trigger] ids[i]
                    != #[trigger] ids[j],
        decreases ids.len(),
    {
        if ids.len() > 0 {
            let n = ids.len() - 1;
            Self::lemma_identifiers_increase(
                states.subrange(0, n + 1),
                waiters.subrange(0, n),
                ids.subrange(0, n),
            );
            assert forall|i: int| 0 <= i < ids.len() implies #[trigger] ids[i] == states[0].next_id()
                + i by {
                if i < n {
                    assert(ids.subrange(0, n)[i] == ids[i]);
                } else {
                    assert(Self::issues(states[n], states[n + 1], waiters[n], ids[n]));
                    if n > 0 {
                        assert(Self::issues(states[n - 1], states[n], waiters[n - 1], ids[n - 1]));
                        assert(ids.subrange(0, n)[n - 1] == ids[n - 1]);
                    }
                }
            }
        }
    }

    /// Replies find their waiters in whatever order they arrive: of any run
    /// of resolutions of distinct identifiers, each on the state that the
    /// one before it left, every one hands out the waiter that was filed
    /// under its identifier at the start, or nothing where none was.
    pub proof fn lemma_resolve_any_order(states: Seq<Self>, order: Seq<u64>, got: Seq<Option<W>>)
        requires
            states.len() == order.len() + 1,
            got.len() == order.len(),
            order.no_duplicates(),
            forall|i: int|
                0 <= i < order.len() ==> Self::resolves(
                    states[i],
                    states[i + 1],
                    order[i],
                    #[trigger] got[i],
                ),
        ensures
            forall|i: int|
                0 <= i < order.len() ==> #[trigger] got[i] == if states[0].pending().contains_key(
                    order[i],
                ) {
                    Some(states[0].pending()[order[i]])
                } else {
                    None::<W>
                },
    {
        assert forall|i: int| 0 <= i < order.len() implies #[trigger] got[i] == if states[0].pending().contains_key(
            order[i],
        ) {
            Some(states[0].pending()[order[i]])
        } else {
            None::<W>
        } by {
            let before = order.subrange(0, i);
            assert forall|k: int| 0 <= k < i implies Self::resolves(
                states.subrange(0, i + 1)[k],
                states.subrange(0, i + 1)[k + 1],
                before[k],
                #[trigger] got.subrange(0, i)[k],
            ) by {
                assert(Self::resolves(states[k], states[k + 1], order[k], got[k]));
            }
            Self::lemma_other_entries_stay(
                states.subrange(0, i + 1),
                before,
                got.subrange(0, i),
                order[i],
            );
            assert(states.subrange(0, i + 1)[i] == states[i]);
            assert(states.subrange(0, i + 1)[0] == states[0]);
            if before.contains(order[i]) {
                let k = choose|k: int| 0 <= k < i && before[k] == order[i];
                assert(order[k] == order[i]);
            }
            assert(Self::resolves(states[i], states[i + 1], order[i], got[i]));
        }
    }

    /// Resolving identifiers touches no other entry: after a run of
    /// resolutions, `id` is pending exactly if it was pending at the start
    /// and is none of the identifiers resolved, and then with the same
    /// waiter.
    pub proof fn lemma_other_entries_stay(
        states: Seq<Self>,
        order: Seq<u64>,
        got: Seq<Option<W>>,
        id: u64,
    )
        requires
            states.len() == order.len() + 1,
            got.len() == order.len(),
            forall|i: int|
                0 <= i < order.len() ==> Self::resolves(
                    states[i],
                    states[i + 1],
                    order[i],
                    #[trigger] got[i],
                ),
        ensures
            states[order.len() as int].pending().contains_key(id) <==> states[0].pending().contains_key(id)
                && !order.contains(id),
            states[order.len() as int].pending().contains_key(id) ==> states[0].pending()[id]
                == states[order.len() as int].pending()[id],
        decreases order.len(),
    {
        if order.len() > 0 {
            let n = order.len() - 1;
            assert(Self::resolves(states[n], states[n + 1], order[n], got[n]));
            let before = order.subrange(0, n);
            assert forall|k: int| 0 <= k < n implies Self::resolves(
                states.subrange(0, n + 1)[k],
                states.subrange(0, n + 1)[k + 1],
                before[k],
                #[trigger] got.subrange(0, n)[k],
            ) by {
                assert(Self::resolves(states[k], states[k + 1], order[k], got[k]));
            }
            Self::lemma_other_entries_stay(states.subrange(0, n + 1), before, got.subrange(0, n), id);
            assert(states.subrange(0, n + 1)[n] == states[n]);
            assert(states.subrange(0, n + 1)[0] == states[0]);
            if before.contains(id) {
                let k = choose|k: int| 0 <= k < n && before[k] == id;
                assert(order[k] == id);
            }
            if order.contains(id) && id != order[n] {
                let k = choose|k: int| 0 <= k < order.len() && order[k] == id;
                assert(before[k] == id);
            }
            if id == order[n] {
                assert(order[n as int] == id);
            }
        }
    }

    /// A correlator that has issued nothing yet.
    pub fn new() -> (c: Self)
        ensures
            c.wf(),
            c.next_id() == 1,
            c.pending() == Map::<u64, W>::empty(),
    {
        Correlator { next_id: 1, pending: HashMap::new() }
    }

    /// Issues the next identifier and files `waiter` under it. Once the
    /// identifiers are used up nothing is issued and nothing changes.
    pub fn register(&mut self, waiter: W) -> (issued: Option<u64>)
        requires
            old(self).wf(),
        ensures
            final(self).wf(),
            match issued {
                Some(id) => Self::issues(*old(self), *final(self), waiter, id),
                None => {
                    &&& old(self).next_id() == u64::MAX
                    &&& final(self).next_id() == old(self).next_id()
                    &&& final(self).pending() == old(self).pending()
                },
            },
    {
        if self.next_id == u64::MAX {
            return None;
        }
        let id: u64 = self.next_id;
        self.next_id = id + 1;
        self.pending.insert(id, waiter);
        Some(id)
    }

    /// Takes the waiter of `id` out of the table. An identifier that is not
    /// pending, because it was never issued or was resolved before, yields
    /// nothing and changes nothing.
    pub fn resolve(&mut self, id: u64) -> (waiter: Option<W>)
        requires
            old(self).wf(),
        ensures
            final(self).wf(),
            Self::resolves(*old(self), *final(self), id, waiter),
    {
        let waiter = self.pending.remove(&id);
        proof {
            if !old(self).pending().contains_key(id) {
                assert(old(self).pending().remove(id) =~= old(self).pending());
            }
        }
        waiter
    }

    /// Whether an identifier is left to hand out.
    pub fn has_identifier(&self) -> (b: bool)
        ensures
            b == (self.next_id() < u64::MAX),
    {
        self.next_id < u64::MAX
    }

    /// The identifier that the next request gets.
    pub fn peek_id(&self) -> (id: u64)
        ensures
            id == self.next_id(),
    {
        self.next_id
    }

    /// Whether a reply to `id` is still awaited.
    pub fn is_pending(&self, id: u64) -> (b: bool)
        ensures
            b == self.pending().contains_key(id),
    {
        self.pending.contains_key(&id)
    }

    /// How many requests await a reply.
    pub fn pending_count(&self) -> (n: usize)
        ensures
            n == self.pending().len(),
    {
        self.pending.len()
    }

    /// Empties the table and hands out every waiter with its identifier, in
    /// ascending order of the identifiers, so that each is told once, and
    /// why, that no reply will come.
    pub fn drain_with_error(&mut self, reason: CloseReason) -> (failed: Failed<W>)
        requires
            old(self).wf(),
        ensures
            final(self).wf(),
            final(self).next_id() == old(self).next_id(),
            final(self).pending() == Map::<u64, W>::empty(),
            failed.reason == reason,
            is_release_of(old(self).pending(), failed.waiters@),
    {
        let ghost before = self.pending@;
        let mut released: Vec<(u64, W)> = Vec::new();
        let mut id: u64 = 1;
        while id < self.next_id && !self.pending.is_empty()
            invariant
                1 <= id <= self.next_id,
                self.next_id == old(self).next_id,
                before == old(self).pending@,
                before.dom().finite(),
                self.pending@.dom().finite(),
                forall|k: u64| #[trigger]
                    self.pending@.contains_key(k) ==> id <= k < self.next_id
                        && before.contains_pair(k, self.pending@[k]),
                forall|k: u64| #[trigger]
                    before.contains_key(k) && k >= id ==> self.pending@.contains_key(k),
                forall|i: int|
                    0 <= i < released@.len() ==> (#[trigger] released@[i]).0 < id
                        && before.contains_pair(released@[i].0, released@[i].1),
                forall|i: int, j: int|
                    0 <= i < j < released@.len() ==> (#[trigger] released@[i]).0 < (
                    #[trigger] released@[j]).0,
                forall|k: u64| #[trigger]
                    before.contains_key(k) && k < id ==> exists|i: int|
                        0 <= i < released@.len() && (#[trigger] released@[i]).0 == k,
                released@.len() + self.pending@.len() == before.len(),
            decreases self.next_id - id,
        {
            let ghost shown = released@;
            match self.pending.remove(&id) {
                Some(waiter) => {
                    released.push((id, waiter));
                    assert forall|k: u64| #[trigger]
                        before.contains_key(k) && k < id + 1 implies exists|i: int|
                        0 <= i < released@.len() && (#[trigger] released@[i]).0 == k by {
                        if k < id {
                            let i = choose|i: int|
                                0 <= i < shown.len() && (#[trigger] shown[i]).0 == k;
                            assert(released@[i].0 == k);
                        } else {
                            assert(released@[shown.len() as int].0 == k);
                        }
                    }
                },
                None => {
                    assert forall|k: u64| #[trigger]
                        before.contains_key(k) && k < id + 1 implies exists|i: int|
                        0 <= i < released@.len() && (#[trigger] released@[i]).0 == k by {
                        if k < id {
                            let i = choose|i: int|
                                0 <= i < shown.len() && (#[trigger] shown[i]).0 == k;
                            assert(released@[i].0 == k);
                        }
                    }
                },
            }
            id = id + 1;
        }
        proof {
            if id < self.next_id {
                self.pending@.dom().lemma_len0_is_empty();
            }
            assert(self.pending@ =~= Map::<u64, W>::empty());
        }
        Failed { reason, waiters: released }
    }
}

} // verus!
