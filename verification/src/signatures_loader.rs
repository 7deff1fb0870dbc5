//! The signature-discovery worker: its lifecycle state machine and the
//! per-tick pagination-cursor algorithm that alternates "catch up to the
//! tip" and "backfill older history" sweeps without re-scanning sealed
//! regions.

use vstd::prelude::*;

use crate::checkpoint::{Checkpoint, CheckpointModel, sig_seq_ok};
use crate::queue::Storage;

verus! {

/// Number of signatures a full page carries: a page shorter than this means
/// the discovery reached the end of the currently bounded range.
pub const TRANSACTIONS_BATCH_LEN: usize = 10;

/// Connection endpoint of the chain RPC collaborator.
#[derive(Debug, Clone, Copy)]
pub struct ConnectionConfig {
    pub url: &'static str,
}

/// Pagination bounds for a signature query (reserved: carried by
/// `Command::Load`, which the current flow never sends).
#[derive(Debug, Clone)]
pub struct SignaturesForAddressConfig {
    pub _before: Option<String>,
    pub _until: Option<String>,
}

/// Commands the dispatcher fans out to the discovery worker.
#[derive(Debug, Clone)]
pub enum Command {
    Start { config: ConnectionConfig },
    Stop,
    Load { config: SignaturesForAddressConfig },
}

/// Informational messages the worker reports back to the dispatcher.
#[derive(Debug, Clone, Copy, PartialEq, Eq, Structural)]
pub enum Message {
    Started,
    Stopped,
    AlreadyStarted,
    AlreadyStopped,
}

/// Lifecycle state: the worker polls only while `Started`.
#[derive(Debug, Clone, Copy, PartialEq, Eq, Structural)]
pub enum SignaturesLoaderState {
    NotStarted,
    Started,
    Stopped,
}

/// The worker's registry: its lifecycle state plus whether its RPC client
/// and queue-store handles have been constructed.
#[derive(Debug, Clone, Copy, PartialEq, Eq, Structural)]
pub struct SignaturesLoaderRegistry {
    pub state: SignaturesLoaderState,
    pub has_rpc_client: bool,
    pub has_db: bool,
}

/// What `start` does to a registry: a no-op report if already started,
/// otherwise construct the collaborator handles and enter `Started`.
pub open spec fn spec_start(r: SignaturesLoaderRegistry) -> (SignaturesLoaderRegistry, Message) {
    if r.state == SignaturesLoaderState::Started {
        (r, Message::AlreadyStarted)
    } else {
        (
            SignaturesLoaderRegistry {
                state: SignaturesLoaderState::Started,
                has_rpc_client: true,
                has_db: true,
            },
            Message::Started,
        )
    }
}

/// What one command does to a registry.  `Stop` and `Load` are reserved:
/// they change nothing and report nothing; only the broadcast stop signal
/// ends the worker's loop.
pub open spec fn spec_process_command(
    r: SignaturesLoaderRegistry,
    c: Command,
) -> (SignaturesLoaderRegistry, Option<Message>) {
    match c {
        Command::Start { config } => {
            let p = spec_start(r);
            (p.0, Some(p.1))
        },
        Command::Stop => (r, None),
        Command::Load { config } => (r, None),
    }
}

impl SignaturesLoaderRegistry {
    /// A freshly spawned worker: not started, no collaborator handles.
    pub fn new() -> (r: SignaturesLoaderRegistry)
        ensures
            r.state == SignaturesLoaderState::NotStarted,
            !r.has_rpc_client,
            !r.has_db,
    {
        SignaturesLoaderRegistry {
            state: SignaturesLoaderState::NotStarted,
            has_rpc_client: false,
            has_db: false,
        }
    }

    /// Whether the worker performs polling work this tick.
    pub fn is_started(&self) -> (r: bool)
        ensures
            r <==> self.state == SignaturesLoaderState::Started,
    {
        self.state == SignaturesLoaderState::Started
    }
}

/// Start the worker: report `Started` and record that its RPC client and
/// queue-store handles now exist, or report `AlreadyStarted` and change
/// nothing if it is already running.
pub fn start(config: ConnectionConfig, registry: &mut SignaturesLoaderRegistry) -> (m: Message)
    ensures
        ((*final(registry), m) == spec_start(*old(registry))),
        old(registry).state == SignaturesLoaderState::Started
            ==> m == Message::AlreadyStarted && *final(registry) == *old(registry),
        old(registry).state != SignaturesLoaderState::Started
            ==> m == Message::Started && final(registry).state == SignaturesLoaderState::Started,
{
    if registry.state == SignaturesLoaderState::Started {
        Message::AlreadyStarted
    } else {
        registry.state = SignaturesLoaderState::Started;
        registry.has_rpc_client = true;
        registry.has_db = true;
        Message::Started
    }
}

/// Apply one fanned-out command to the worker's registry, returning the
/// message to report back to the dispatcher, if any.
pub fn process_command(
    command: Command,
    registry: &mut SignaturesLoaderRegistry,
) -> (m: Option<Message>)
    ensures
        ((*final(registry), m) == spec_process_command(*old(registry), command)),
{
    match command {
        Command::Start { config } => Some(start(config, registry)),
        Command::Stop => None,
        Command::Load { config: _ } => None,
    }
}

/// Idempotent start: the first `Start` reports `Started`; a second `Start`
/// on the same instance reports `AlreadyStarted` and leaves the registry
/// untouched, so the startup side effects happen only once.
pub proof fn lemma_start_idempotent(r: SignaturesLoaderRegistry)
    requires
        r.state != SignaturesLoaderState::Started,
    ensures
        ({
            let (r1, m1) = spec_start(r);
            let (r2, m2) = spec_start(r1);
            m1 == Message::Started && m2 == Message::AlreadyStarted && r2 == r1
        }),
{
}

/// What one discovery tick does to the pagination cursors, given the page
/// the RPC collaborator returned for the current `(before, until)` bounds:
///
/// - an empty `newest_transaction` is anchored to the newest signature of a
///   non-empty page, marking where the next backward sweep must stop;
/// - a short page (fewer than `batch_len` signatures) seals the sweep:
///   `until` moves to the anchor if one is known, and `before` and the
///   anchor are cleared so the next tick starts a fresh sweep from the tip;
/// - a full page advances `before` to its oldest signature, continuing the
///   sweep further into the past.
pub open spec fn spec_advance(
    m: CheckpointModel,
    page: Seq<Seq<char>>,
    batch_len: int,
) -> CheckpointModel {
    let anchored = if m.newest_transaction is None && page.len() > 0 {
        Some(page[0])
    } else {
        m.newest_transaction
    };
    if page.len() < batch_len {
        CheckpointModel {
            newest_transaction: None,
            before: None,
            until: if anchored is Some {
                anchored
            } else {
                m.until
            },
        }
    } else {
        CheckpointModel {
            newest_transaction: anchored,
            before: Some(page[page.len() - 1]),
            until: m.until,
        }
    }
}

/// One tick's cursor update.
pub fn advance_cursors(saved_state: &mut Checkpoint, page: &Vec<String>, batch_len: usize)
    requires
        batch_len >= 1,
    ensures
        (final(saved_state)@ == spec_advance(
            old(saved_state)@,
            page.deep_view(),
            batch_len as int,
        )),
{
    if saved_state.newest_transaction.is_none() && page.len() > 0 {
        saved_state.newest_transaction = Some(page[0].clone());
    }
    if page.len() < batch_len {
        if saved_state.newest_transaction.is_some() {
            saved_state.until = saved_state.newest_transaction.clone();
        }
        saved_state.before = None;
        saved_state.newest_transaction = None;
    } else {
        saved_state.before = Some(page[page.len() - 1].clone());
    }
}

/// One poll tick of the discovery worker, given the page the RPC
/// collaborator returned: update the cursors, then enqueue every signature
/// of the page, in page order, into the shared work queue.
pub fn process_signatures_page(
    saved_state: &mut Checkpoint,
    storage: &mut Storage,
    page: &Vec<String>,
    batch_len: usize,
)
    requires
        old(storage).wf(),
        batch_len >= 1,
    ensures
        (final(saved_state)@ == spec_advance(
            old(saved_state)@,
            page.deep_view(),
            batch_len as int,
        )),
        final(storage).wf(),
        Storage::preserves_claims(*old(storage), *final(storage)),
        final(storage).queue@.len() == old(storage).queue@.len() + page@.len(),
        forall|i: int|
            0 <= i < old(storage).queue@.len()
                ==> final(storage).queue@[i] == old(storage).queue@[i],
        forall|j: int|
            0 <= j < page@.len() ==> {
                &&& (#[trigger] final(storage).queue@[old(storage).queue@.len() + j]).signature@
                    == page@[j]@
                &&& !final(storage).queue@[old(storage).queue@.len() + j].claimed
                &&& !final(storage).queue@[old(storage).queue@.len() + j].loaded
            },
        final(storage).transactions@ == old(storage).transactions@,
{
    advance_cursors(saved_state, page, batch_len);
    storage.store_signatures_in_queue(page);
}

/// Pagination termination: the first page shorter than the batch length
/// seals the backward sweep — afterwards no `before` bound and no anchor
/// remain, and `until` has moved to the anchor (or to the page's newest
/// signature when the anchor was only set this tick), so the sweep cannot
/// continue into the past and the cursor sequence has converged.
pub proof fn lemma_short_page_seals_sweep(
    m: CheckpointModel,
    page: Seq<Seq<char>>,
    batch_len: int,
)
    requires
        page.len() < batch_len,
    ensures
        ({
            let a = spec_advance(m, page, batch_len);
            &&& a.before is None
            &&& a.newest_transaction is None
            &&& (m.newest_transaction is Some ==> a.until == m.newest_transaction)
            &&& (m.newest_transaction is None && page.len() > 0 ==> a.until == Some(page[0]))
            &&& (m.newest_transaction is None && page.len() == 0 ==> a.until == m.until)
        }),
{
}

/// The cursor state after a whole scripted run: every page applied in
/// order, one tick each.
pub open spec fn spec_run_sweep(
    m: CheckpointModel,
    pages: Seq<Seq<Seq<char>>>,
    batch_len: int,
) -> CheckpointModel
    decreases pages.len(),
{
    if pages.len() == 0 {
        m
    } else {
        spec_run_sweep(spec_advance(m, pages[0], batch_len), pages.drop_first(), batch_len)
    }
}

/// Pagination termination over a whole scripted collaborator: whatever the
/// cursors held at the start and whatever the earlier pages were, a script
/// whose last page falls below the batch threshold leaves the worker with
/// no `before` bound and no anchor — the backward sweep has converged by
/// the tick that sees the first short page, so in a bounded number of
/// ticks.
pub proof fn lemma_sweep_converges(
    m: CheckpointModel,
    pages: Seq<Seq<Seq<char>>>,
    batch_len: int,
)
    requires
        pages.len() > 0,
        pages.last().len() < batch_len,
    ensures
        spec_run_sweep(m, pages, batch_len).before is None,
        spec_run_sweep(m, pages, batch_len).newest_transaction is None,
    decreases pages.len(),
{
    if pages.len() == 1 {
        lemma_short_page_seals_sweep(m, pages[0], batch_len);
    } else {
        let rest = pages.drop_first();
        assert(rest.last() == pages.last());
        lemma_sweep_converges(spec_advance(m, pages[0], batch_len), rest, batch_len);
    }
}

/// A tick keeps the checkpoint well formed as long as the page's signatures
/// hold only signature characters.
pub proof fn lemma_advance_preserves_wf(m: CheckpointModel, page: Seq<Seq<char>>, batch_len: int)
    requires
        m.wf(),
        batch_len >= 1,
        forall|i: int| 0 <= i < page.len() ==> sig_seq_ok(#[trigger] page[i]),
    ensures
        spec_advance(m, page, batch_len).wf(),
{
}

} // verus!
