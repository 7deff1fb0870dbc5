//! The dispatcher's share of the orchestration logic: the shutdown barrier
//! it waits on before letting the process exit, and the construction of the
//! per-slot `Start` commands it fans out to the fetch-worker pool.

use vstd::prelude::*;

use crate::transactions_loader;

verus! {

/// The shutdown barrier: one slot per supervised worker, set when that
/// worker signals that it has exited its loop.  The dispatcher's wait
/// unblocks exactly when every slot is set.
pub struct ShutdownBarrier {
    pub exited: Vec<bool>,
}

/// Every slot of an exit record is set.
pub open spec fn all_set(s: Seq<bool>) -> bool {
    forall|i: int| 0 <= i < s.len() ==> s[i]
}

impl ShutdownBarrier {
    /// Every supervised worker has signalled exit.
    pub open spec fn spec_all_exited(self) -> bool {
        all_set(self.exited@)
    }

    /// A barrier for `worker_count` supervised workers, none exited yet.
    pub fn new(worker_count: usize) -> (r: ShutdownBarrier)
        ensures
            r.exited@.len() == worker_count,
            forall|i: int| 0 <= i < worker_count ==> !r.exited@[i],
    {
        let mut exited: Vec<bool> = Vec::new();
        let mut k: usize = 0;
        while k < worker_count
            invariant
                k <= worker_count,
                exited@.len() == k,
                forall|i: int| 0 <= i < k ==> !exited@[i],
            decreases worker_count - k,
        {
            exited.push(false);
            k += 1;
        }
        ShutdownBarrier { exited }
    }

    /// Record that one worker has exited its loop.  Signals are never
    /// forgotten: every other slot keeps its value.
    pub fn worker_exited(&mut self, worker: usize)
        requires
            worker < old(self).exited@.len(),
        ensures
            final(self).exited@ == old(self).exited@.update(worker as int, true),
    {
        self.exited[worker] = true;
    }

    /// Whether the dispatcher's shutdown wait unblocks: true exactly when
    /// every supervised worker has signalled exit.
    pub fn all_exited(&self) -> (r: bool)
        ensures
            r <==> self.spec_all_exited(),
    {
        let mut k: usize = 0;
        while k < self.exited.len()
            invariant
                k <= self.exited@.len(),
                forall|i: int| 0 <= i < k ==> self.exited@[i],
            decreases self.exited@.len() - k,
        {
            if !self.exited[k] {
                return false;
            }
            k += 1;
        }
        true
    }
}

/// Shutdown-barrier correctness: the barrier never opens while any
/// supervised worker is still running, and once every worker has signalled
/// exit it is open and stays open — a later signal cannot close it.
pub proof fn lemma_barrier_opens_iff_all_exited(exits: Seq<bool>, worker: int)
    ensures
        0 <= worker < exits.len() && !exits[worker] ==> !all_set(exits),
        all_set(exits) && 0 <= worker < exits.len() ==> all_set(exits.update(worker, true)),
{
    if all_set(exits) && 0 <= worker < exits.len() {
        let updated = exits.update(worker, true);
        assert forall|i: int| 0 <= i < updated.len() implies updated[i] by {
            assert(exits[i]);
        }
    }
}

/// The `Start` commands the dispatcher fans out when it brings up a pool of
/// `worker_count` fetch workers: one per slot, addressed to channel ids
/// `0, 1, ...` in order, all carrying the same connection configuration.
pub fn start_commands(
    worker_count: u8,
    config: transactions_loader::ConnectionConfig,
) -> (cmds: Vec<transactions_loader::Command>)
    ensures
        cmds@.len() == worker_count,
        forall|i: int|
            0 <= i < worker_count ==> cmds@[i] == (transactions_loader::Command::Start {
                channel_id: i as u8,
                config,
            }),
{
    let mut cmds: Vec<transactions_loader::Command> = Vec::new();
    let mut channel_id: u8 = 0;
    while channel_id < worker_count
        invariant
            channel_id <= worker_count,
            cmds@.len() == channel_id,
            forall|i: int|
                0 <= i < channel_id ==> cmds@[i] == (transactions_loader::Command::Start {
                    channel_id: i as u8,
                    config,
                }),
        decreases worker_count - channel_id,
    {
        cmds.push(transactions_loader::Command::Start { channel_id, config });
        channel_id += 1;
    }
    cmds
}

} // verus!
