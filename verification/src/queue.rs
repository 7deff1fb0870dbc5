//! The shared work queue and durable transaction store that the discovery
//! worker fills and the fetch-worker pool drains.  The correctness-critical
//! guarantee lives here: `get_signature_from_queue` is an atomic
//! dequeue-and-claim, so a record id is handed to at most one fetch worker,
//! and no operation ever revokes a claim or drops an entry.

use vstd::prelude::*;

verus! {

/// One entry of the work queue: a discovered signature, whether some fetch
/// worker has claimed it, and whether its transaction body has been loaded.
pub struct QueueEntry {
    pub signature: String,
    pub claimed: bool,
    pub loaded: bool,
}

/// The storage collaborator's queue and transaction store.  A record id is
/// the index of its entry; entries are never removed, only appended, claimed
/// and marked loaded.
pub struct Storage {
    pub queue: Vec<QueueEntry>,
    pub transactions: Vec<(String, String)>,
}

impl Storage {
    /// An entry still available to fetch workers: neither claimed nor loaded.
    pub open spec fn pending(self, i: int) -> bool {
        &&& 0 <= i < self.queue@.len()
        &&& !self.queue@[i].claimed
        &&& !self.queue@[i].loaded
    }

    /// The entry the next dequeue hands out: the oldest pending one.
    pub open spec fn is_first_pending(self, i: int) -> bool {
        &&& self.pending(i)
        &&& forall|j: int| 0 <= j < i ==> !self.pending(j)
    }

    /// Every loaded entry was first claimed.
    pub open spec fn wf(self) -> bool {
        forall|i: int|
            0 <= i < self.queue@.len() && (#[trigger] self.queue@[i]).loaded
                ==> self.queue@[i].claimed
    }

    /// Entries are never lost and claims are never revoked: the queue only
    /// grows, and every existing entry keeps its signature while its
    /// `claimed` and `loaded` marks only move from false to true.
    pub open spec fn preserves_claims(pre: Storage, post: Storage) -> bool {
        &&& pre.queue@.len() <= post.queue@.len()
        &&& forall|i: int|
            0 <= i < pre.queue@.len() ==> {
                &&& (#[trigger] post.queue@[i]).signature@ == pre.queue@[i].signature@
                &&& (pre.queue@[i].claimed ==> post.queue@[i].claimed)
                &&& (pre.queue@[i].loaded ==> post.queue@[i].loaded)
            }
    }

    /// An empty queue and an empty transaction store.
    pub fn new() -> (r: Storage)
        ensures
            r.queue@.len() == 0,
            r.transactions@.len() == 0,
            r.wf(),
    {
        Storage { queue: Vec::new(), transactions: Vec::new() }
    }

    /// Enqueue a page of discovered signatures, in discovery order, each as a
    /// fresh unclaimed entry.  Nothing already queued is touched.
    pub fn store_signatures_in_queue(&mut self, batch: &Vec<String>)
        requires
            old(self).wf(),
        ensures
            final(self).wf(),
            Storage::preserves_claims(*old(self), *final(self)),
            final(self).queue@.len() == old(self).queue@.len() + batch@.len(),
            forall|i: int|
                0 <= i < old(self).queue@.len()
                    ==> final(self).queue@[i] == old(self).queue@[i],
            forall|j: int|
                0 <= j < batch@.len() ==> {
                    &&& (#[trigger] final(self).queue@[old(self).queue@.len() + j]).signature@
                        == batch@[j]@
                    &&& !final(self).queue@[old(self).queue@.len() + j].claimed
                    &&& !final(self).queue@[old(self).queue@.len() + j].loaded
                },
            final(self).transactions@ == old(self).transactions@,
    {
        let ghost pre = *self;
        let mut k: usize = 0;
        while k < batch.len()
            invariant
                pre.wf(),
                self.wf(),
                k <= batch@.len(),
                self.queue@.len() == pre.queue@.len() + k,
                self.transactions@ == pre.transactions@,
                forall|i: int| 0 <= i < pre.queue@.len() ==> self.queue@[i] == pre.queue@[i],
                forall|j: int|
                    0 <= j < k ==> {
                        &&& (#[trigger] self.queue@[pre.queue@.len() + j]).signature@
                            == batch@[j]@
                        &&& !self.queue@[pre.queue@.len() + j].claimed
                        &&& !self.queue@[pre.queue@.len() + j].loaded
                    },
            decreases batch@.len() - k,
        {
            let sig = batch[k].clone();
            self.queue.push(QueueEntry { signature: sig, claimed: false, loaded: false });
            k += 1;
        }
    }

    /// Atomic dequeue-and-claim: hand out the oldest pending entry, marking
    /// it claimed in the same step, or report that nothing is pending.  An
    /// entry some worker already claimed is never handed out again.
    pub fn get_signature_from_queue(&mut self) -> (r: Option<(usize, String)>)
        requires
            old(self).wf(),
        ensures
            final(self).wf(),
            Storage::preserves_claims(*old(self), *final(self)),
            final(self).transactions@ == old(self).transactions@,
            r is None ==> *final(self) == *old(self)
                && (forall|i: int| !old(self).pending(i)),
            r matches Some((record_id, signature)) ==> {
                &&& old(self).is_first_pending(record_id as int)
                &&& !old(self).queue@[record_id as int].claimed
                &&& signature@ == old(self).queue@[record_id as int].signature@
                &&& final(self).queue@.len() == old(self).queue@.len()
                &&& final(self).queue@[record_id as int].claimed
                &&& !final(self).queue@[record_id as int].loaded
                &&& final(self).queue@[record_id as int].signature@
                    == old(self).queue@[record_id as int].signature@
                &&& forall|j: int|
                    0 <= j < old(self).queue@.len() && j != record_id as int
                        ==> final(self).queue@[j] == old(self).queue@[j]
            },
    {
        let mut i: usize = 0;
        while i < self.queue.len()
            invariant
                old(self).wf(),
                *self == *old(self),
                i <= self.queue@.len(),
                forall|j: int| 0 <= j < i ==> !self.pending(j),
            decreases self.queue@.len() - i,
        {
            if !self.queue[i].claimed && !self.queue[i].loaded {
                let signature = self.queue[i].signature.clone();
                self.queue[i].claimed = true;
                return Some((i, signature));
            }
            i += 1;
        }
        None
    }

    /// Mark a claimed entry's transaction body as loaded.
    pub fn mark_signature_as_loaded(&mut self, record_id: usize)
        requires
            old(self).wf(),
            record_id < old(self).queue@.len(),
            old(self).queue@[record_id as int].claimed,
        ensures
            final(self).wf(),
            Storage::preserves_claims(*old(self), *final(self)),
            final(self).transactions@ == old(self).transactions@,
            final(self).queue@.len() == old(self).queue@.len(),
            final(self).queue@[record_id as int].loaded,
            final(self).queue@[record_id as int].claimed,
            final(self).queue@[record_id as int].signature@
                == old(self).queue@[record_id as int].signature@,
            forall|j: int|
                0 <= j < old(self).queue@.len() && j != record_id as int
                    ==> final(self).queue@[j] == old(self).queue@[j],
    {
        self.queue[record_id].loaded = true;
    }

    /// Persist one fetched transaction body under its signature.  The queue
    /// is untouched.
    pub fn store_transaction(&mut self, signature: &String, body: String)
        requires
            old(self).wf(),
        ensures
            final(self).wf(),
            Storage::preserves_claims(*old(self), *final(self)),
            final(self).queue@ == old(self).queue@,
            final(self).transactions@.len() == old(self).transactions@.len() + 1,
            forall|i: int|
                0 <= i < old(self).transactions@.len()
                    ==> final(self).transactions@[i] == old(self).transactions@[i],
            final(self).transactions@.last().0@ == signature@,
            final(self).transactions@.last().1 == body,
    {
        let sig = signature.clone();
        self.transactions.push((sig, body));
    }
}

/// At-most-one-claim: a dequeue hands out only the oldest entry that nobody
/// has claimed, and records the claim in the same atomic step.  Once an
/// entry is claimed it can never again be the next entry a dequeue hands
/// out, under any later storage state reached through operations that
/// preserve claims — which every operation of `Storage` does, by its
/// contract.  So each record id is returned by `get_signature_from_queue`
/// to exactly one caller.
pub proof fn lemma_at_most_one_claim(pre: Storage, post: Storage, record_id: int)
    requires
        0 <= record_id < pre.queue@.len(),
        pre.queue@[record_id].claimed,
        Storage::preserves_claims(pre, post),
    ensures
        !post.is_first_pending(record_id),
        !post.pending(record_id),
{
}

} // verus!
