//! A transaction-fetch worker: one pool slot that claims one pending
//! signature at a time from the shared queue, has its transaction body
//! fetched from the chain, persists the body and marks the entry loaded.
//! Each instance honors only the `Start` command addressed to its own
//! channel id, which lets one broadcast channel carry per-instance
//! configuration.

use vstd::prelude::*;

use crate::queue::Storage;

verus! {

/// Connection endpoint of the chain RPC collaborator.
#[derive(Debug, Clone, Copy)]
pub struct ConnectionConfig {
    pub url: &'static str,
}

/// Commands the dispatcher fans out to the fetch-worker pool.  `Start`
/// carries the channel id of the one instance it addresses.
#[derive(Debug, Clone, Copy)]
pub enum Command {
    Start { channel_id: u8, config: ConnectionConfig },
    Stop,
}

/// Lifecycle state: the worker polls only while `Started`.
#[derive(Debug, Clone, Copy, PartialEq, Eq, Structural)]
pub enum TransactionsLoaderState {
    NotStarted,
    Started,
    Stopped,
}

/// Informational messages the worker reports back to the dispatcher.
#[derive(Debug, Clone, Copy, PartialEq, Eq, Structural)]
pub enum Message {
    Started,
    Stopped,
    AlreadyStarted,
    AlreadyStopped,
}

/// The worker's registry: its own channel id, its lifecycle state, and
/// whether its RPC client and storage handles have been constructed.
#[derive(Debug, Clone, Copy, PartialEq, Eq, Structural)]
pub struct TransactionsLoaderRegistry {
    pub channel_id: u8,
    pub state: TransactionsLoaderState,
    pub has_rpc_client: bool,
    pub has_db: bool,
}

/// What `start` does to a registry: a no-op report if already started,
/// otherwise construct the collaborator handles and enter `Started`.
pub open spec fn spec_start(r: TransactionsLoaderRegistry) -> (TransactionsLoaderRegistry, Message) {
    if r.state == TransactionsLoaderState::Started {
        (r, Message::AlreadyStarted)
    } else {
        (
            TransactionsLoaderRegistry {
                channel_id: r.channel_id,
                state: TransactionsLoaderState::Started,
                has_rpc_client: true,
                has_db: true,
            },
            Message::Started,
        )
    }
}

/// What one fanned-out command does to a registry: a `Start` addressed to
/// another channel id is ignored; `Stop` is reserved and changes nothing
/// (only the broadcast stop signal ends the worker's loop).
pub open spec fn spec_process_command(
    r: TransactionsLoaderRegistry,
    c: Command,
) -> (TransactionsLoaderRegistry, Option<Message>) {
    match c {
        Command::Start { channel_id, config } => {
            if r.channel_id == channel_id {
                let p = spec_start(r);
                (p.0, Some(p.1))
            } else {
                (r, None)
            }
        },
        Command::Stop => (r, None),
    }
}

impl TransactionsLoaderRegistry {
    /// A freshly spawned pool slot: not started, no collaborator handles.
    pub fn new(channel_id: u8) -> (r: TransactionsLoaderRegistry)
        ensures
            r.channel_id == channel_id,
            r.state == TransactionsLoaderState::NotStarted,
            !r.has_rpc_client,
            !r.has_db,
    {
        TransactionsLoaderRegistry {
            channel_id,
            state: TransactionsLoaderState::NotStarted,
            has_rpc_client: false,
            has_db: false,
        }
    }

    /// Whether the worker performs polling work this tick.
    pub fn is_started(&self) -> (r: bool)
        ensures
            r <==> self.state == TransactionsLoaderState::Started,
    {
        self.state == TransactionsLoaderState::Started
    }
}

/// Start the worker: report `Started` and record that its RPC client and
/// storage handles now exist, or report `AlreadyStarted` and change nothing
/// if it is already running.
pub fn start(config: ConnectionConfig, registry: &mut TransactionsLoaderRegistry) -> (m: Message)
    ensures
        ((*final(registry), m) == spec_start(*old(registry))),
        old(registry).state == TransactionsLoaderState::Started
            ==> m == Message::AlreadyStarted && *final(registry) == *old(registry),
        old(registry).state != TransactionsLoaderState::Started
            ==> m == Message::Started && final(registry).state == TransactionsLoaderState::Started,
{
    if registry.state == TransactionsLoaderState::Started {
        Message::AlreadyStarted
    } else {
        registry.state = TransactionsLoaderState::Started;
        registry.has_rpc_client = true;
        registry.has_db = true;
        Message::Started
    }
}

/// Apply one fanned-out command to this instance's registry, returning the
/// message to report back to the dispatcher, if any.
pub fn process_command(
    command: Command,
    registry: &mut TransactionsLoaderRegistry,
) -> (m: Option<Message>)
    ensures
        ((*final(registry), m) == spec_process_command(*old(registry), command)),
{
    match command {
        Command::Start { channel_id, config } => {
            if registry.channel_id == channel_id {
                Some(start(config, registry))
            } else {
                None
            }
        },
        Command::Stop => None,
    }
}

/// Idempotent start: the first `Start` reports `Started`; a second `Start`
/// on the same instance reports `AlreadyStarted` and leaves the registry
/// untouched, so the startup side effects happen only once.
pub proof fn lemma_start_idempotent(r: TransactionsLoaderRegistry)
    requires
        r.state != TransactionsLoaderState::Started,
    ensures
        ({
            let (r1, m1) = spec_start(r);
            let (r2, m2) = spec_start(r1);
            m1 == Message::Started && m2 == Message::AlreadyStarted && r2 == r1
        }),
{
}

/// Broadcast addressing: a `Start` carrying some channel id acts on exactly
/// the instance whose own channel id matches, and is a silent no-op on every
/// other instance.
pub proof fn lemma_start_targets_matching_instance(
    r: TransactionsLoaderRegistry,
    channel_id: u8,
    config: ConnectionConfig,
)
    ensures
        r.channel_id != channel_id ==> spec_process_command(
            r,
            Command::Start { channel_id, config },
        ) == (r, Option::<Message>::None),
        r.channel_id == channel_id ==> spec_process_command(
            r,
            Command::Start { channel_id, config },
        ) == (spec_start(r).0, Some(spec_start(r).1)),
{
}

/// Complete one claimed queue entry, given what the RPC collaborator
/// returned for its signature: on success persist the body, then mark the
/// entry loaded; on fetch failure leave the entry claimed and unmarked —
/// the explicit drop-on-error policy of this design.
pub fn handle_fetch_result(
    storage: &mut Storage,
    record_id: usize,
    signature: &String,
    fetched: Option<String>,
) -> (completed: bool)
    requires
        old(storage).wf(),
        record_id < old(storage).queue@.len(),
        old(storage).queue@[record_id as int].claimed,
    ensures
        final(storage).wf(),
        Storage::preserves_claims(*old(storage), *final(storage)),
        completed <==> fetched is Some,
        fetched is None ==> *final(storage) == *old(storage),
        fetched matches Some(body) ==> {
            &&& final(storage).transactions@.len() == old(storage).transactions@.len() + 1
            &&& forall|i: int|
                0 <= i < old(storage).transactions@.len()
                    ==> final(storage).transactions@[i] == old(storage).transactions@[i]
            &&& final(storage).transactions@.last().0@ == signature@
            &&& final(storage).transactions@.last().1 == body
            &&& final(storage).queue@.len() == old(storage).queue@.len()
            &&& final(storage).queue@[record_id as int].loaded
            &&& final(storage).queue@[record_id as int].claimed
            &&& forall|j: int|
                0 <= j < old(storage).queue@.len() && j != record_id as int
                    ==> final(storage).queue@[j] == old(storage).queue@[j]
        },
{
    match fetched {
        Some(body) => {
            storage.store_transaction(signature, body);
            storage.mark_signature_as_loaded(record_id);
            true
        },
        None => false,
    }
}

} // verus!
