use data_loader::checkpoint::Checkpoint;
use data_loader::dispatcher::{start_commands, ShutdownBarrier};
use data_loader::queue::Storage;
use data_loader::signatures_loader::{self, process_signatures_page};
use data_loader::transactions_loader::{self, handle_fetch_result};

fn page(sigs: &[&str]) -> Vec<String> {
    sigs.iter().map(|s| s.to_string()).collect()
}

#[test]
fn discovery_start_is_idempotent() {
    let cfg = signatures_loader::ConnectionConfig { url: "http://localhost" };
    let mut reg = signatures_loader::SignaturesLoaderRegistry::new();
    assert!(!reg.is_started());

    let m1 = signatures_loader::process_command(
        signatures_loader::Command::Start { config: cfg },
        &mut reg,
    );
    assert_eq!(m1, Some(signatures_loader::Message::Started));
    assert!(reg.is_started());
    assert!(reg.has_rpc_client && reg.has_db);

    let m2 = signatures_loader::process_command(
        signatures_loader::Command::Start { config: cfg },
        &mut reg,
    );
    assert_eq!(m2, Some(signatures_loader::Message::AlreadyStarted));
    assert!(reg.is_started());
}

#[test]
fn discovery_stop_and_load_commands_are_reserved() {
    let mut reg = signatures_loader::SignaturesLoaderRegistry::new();
    let m = signatures_loader::process_command(signatures_loader::Command::Stop, &mut reg);
    assert_eq!(m, None);
    assert!(!reg.is_started());

    let m = signatures_loader::process_command(
        signatures_loader::Command::Load {
            config: signatures_loader::SignaturesForAddressConfig {
                _before: None,
                _until: None,
            },
        },
        &mut reg,
    );
    assert_eq!(m, None);
    assert!(!reg.is_started());
}

#[test]
fn fetch_start_honors_only_its_channel_id() {
    let cfg = transactions_loader::ConnectionConfig { url: "http://localhost" };
    let mut reg = transactions_loader::TransactionsLoaderRegistry::new(2);

    let m = transactions_loader::process_command(
        transactions_loader::Command::Start { channel_id: 1, config: cfg },
        &mut reg,
    );
    assert_eq!(m, None);
    assert!(!reg.is_started());

    let m = transactions_loader::process_command(
        transactions_loader::Command::Start { channel_id: 2, config: cfg },
        &mut reg,
    );
    assert_eq!(m, Some(transactions_loader::Message::Started));
    assert!(reg.is_started());

    let m = transactions_loader::process_command(
        transactions_loader::Command::Start { channel_id: 2, config: cfg },
        &mut reg,
    );
    assert_eq!(m, Some(transactions_loader::Message::AlreadyStarted));
}

#[test]
fn dispatcher_start_commands_address_every_slot() {
    let cfg = transactions_loader::ConnectionConfig { url: "http://localhost" };
    let cmds = start_commands(3, cfg);
    assert_eq!(cmds.len(), 3);
    for (i, cmd) in cmds.iter().enumerate() {
        match cmd {
            transactions_loader::Command::Start { channel_id, .. } => {
                assert_eq!(*channel_id as usize, i);
            }
            transactions_loader::Command::Stop => panic!("unexpected stop command"),
        }
    }
}

#[test]
fn pagination_converges_on_decreasing_pages() {
    // scripted collaborator: pages of decreasing length, the last one below
    // the batch threshold
    let batch_len = 4;
    let pages = vec![
        page(&["s16", "s15", "s14", "s13"]),
        page(&["s12", "s11", "s10", "s9"]),
        page(&["s8", "s7"]),
    ];
    let mut cp = Checkpoint::new();
    let mut storage = Storage::new();
    let mut ticks = 0;
    for p in &pages {
        process_signatures_page(&mut cp, &mut storage, p, batch_len);
        ticks += 1;
        if cp.before.is_none() && cp.newest_transaction.is_none() {
            break;
        }
    }
    // the sweep sealed within the scripted pages: no endless backward sweep
    assert_eq!(ticks, 3);
    assert_eq!(cp.before, None);
    assert_eq!(cp.newest_transaction, None);
    assert_eq!(cp.until, Some("s16".to_string()));
}

#[test]
fn full_page_advances_before_cursor() {
    let batch_len = 3;
    let mut cp = Checkpoint::new();
    let mut storage = Storage::new();
    process_signatures_page(&mut cp, &mut storage, &page(&["c", "b", "a"]), batch_len);
    assert_eq!(cp.newest_transaction, Some("c".to_string()));
    assert_eq!(cp.before, Some("a".to_string()));
    assert_eq!(cp.until, None);
}

#[test]
fn each_record_id_is_claimed_exactly_once() {
    let mut storage = Storage::new();
    storage.store_signatures_in_queue(&page(&["s1", "s2", "s3", "s4", "s5"]));

    // three interleaved fetch workers drain the queue
    let mut claimed: Vec<(usize, String)> = Vec::new();
    loop {
        let mut progressed = false;
        for _worker in 0..3 {
            if let Some((record_id, signature)) = storage.get_signature_from_queue() {
                claimed.push((record_id, signature));
                progressed = true;
            }
        }
        if !progressed {
            break;
        }
    }

    // every entry claimed exactly once, none lost, no duplicates
    assert_eq!(claimed.len(), 5);
    let mut ids: Vec<usize> = claimed.iter().map(|c| c.0).collect();
    ids.sort();
    ids.dedup();
    assert_eq!(ids.len(), 5);
    let sigs: Vec<&str> = claimed.iter().map(|c| c.1.as_str()).collect();
    assert_eq!(sigs, vec!["s1", "s2", "s3", "s4", "s5"]);
    assert!(storage.get_signature_from_queue().is_none());
}

#[test]
fn fetch_success_persists_and_marks_loaded() {
    let mut storage = Storage::new();
    storage.store_signatures_in_queue(&page(&["sigA", "sigB"]));

    let (id_a, sig_a) = storage.get_signature_from_queue().expect("pending entry");
    let completed = handle_fetch_result(&mut storage, id_a, &sig_a, Some("bodyA".to_string()));
    assert!(completed);
    assert_eq!(storage.transactions.len(), 1);
    assert_eq!(storage.transactions[0].0, "sigA");
    assert_eq!(storage.transactions[0].1, "bodyA");
    assert!(storage.queue[id_a].loaded);

    // fetch failure: the entry stays claimed and unmarked, nothing persisted
    let (id_b, sig_b) = storage.get_signature_from_queue().expect("pending entry");
    let completed = handle_fetch_result(&mut storage, id_b, &sig_b, None);
    assert!(!completed);
    assert_eq!(storage.transactions.len(), 1);
    assert!(storage.queue[id_b].claimed);
    assert!(!storage.queue[id_b].loaded);
    assert!(storage.get_signature_from_queue().is_none());
}

#[test]
fn shutdown_barrier_opens_only_after_every_worker_exits() {
    let k = 4;
    let mut barrier = ShutdownBarrier::new(k);
    assert!(!barrier.all_exited());
    for worker in 0..k {
        assert!(!barrier.all_exited(), "opened early at worker {}", worker);
        barrier.worker_exited(worker);
    }
    assert!(barrier.all_exited());
    // a repeated signal keeps it open
    barrier.worker_exited(0);
    assert!(barrier.all_exited());
}

#[test]
fn shutdown_barrier_with_no_workers_is_open() {
    let barrier = ShutdownBarrier::new(0);
    assert!(barrier.all_exited());
}

#[test]
fn end_to_end_discovery_scenario() {
    // the RPC stub returns three signatures, then an empty page
    let batch_len = 3;
    let mut cp = Checkpoint::new();
    let mut storage = Storage::new();

    process_signatures_page(&mut cp, &mut storage, &page(&["S1", "S2", "S3"]), batch_len);
    assert_eq!(cp.newest_transaction, Some("S1".to_string()));
    assert_eq!(cp.before, Some("S3".to_string()));
    assert_eq!(cp.until, None);

    process_signatures_page(&mut cp, &mut storage, &page(&[]), batch_len);
    assert_eq!(cp.newest_transaction, None);
    assert_eq!(cp.before, None);
    assert_eq!(cp.until, Some("S1".to_string()));

    // the queue holds exactly the discovered signatures, in discovery order
    let enqueued: Vec<&str> = storage.queue.iter().map(|e| e.signature.as_str()).collect();
    assert_eq!(enqueued, vec!["S1", "S2", "S3"]);

    // the worker persists exactly this checkpoint on stop
    let text = cp.encode();
    assert_eq!(
        text,
        "{\"newest_transaction\":null,\"before\":null,\"until\":\"S1\"}"
    );
    let reloaded = Checkpoint::from_stored(Some(&text));
    assert_eq!(reloaded, cp);
}
