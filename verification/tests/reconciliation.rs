//! The reconciliation core: net amounts, batch joins, transaction and
//! unspent-output views, sorting, the store's sync atomicity, and the
//! all-or-nothing view rebuild.

use wallet_view::indexer::{address_rows_for, combine_batch};
use wallet_view::store::WalletStore;
use wallet_view::types::{
    AddressInfo, BatchData, DerivationError, IndexerError, KeychainRole, Network,
    ReconciliationError, Snapshot, SyncError, TransactionRecord, UTXORecord, ViewError,
};
use wallet_view::view::{build_transaction_rows, build_utxo_rows, net_amount, WalletView};

fn p2wpkh_script(fill: u8) -> Vec<u8> {
    let mut script = vec![0x00u8, 0x14];
    script.extend(std::iter::repeat(fill).take(20));
    script
}

fn record(txid: &str, received: u64, sent: u64, height: Option<u32>) -> TransactionRecord {
    TransactionRecord { txid: txid.to_string(), received, sent, confirmation_height: height }
}

fn unspent(txid: &str, vout: u32, fill: u8, value: u64) -> UTXORecord {
    UTXORecord { txid: txid.to_string(), vout, script: p2wpkh_script(fill), value }
}

fn info(index: u32, role: KeychainRole, address: &str) -> AddressInfo {
    AddressInfo { index, role, address: address.to_string(), script: p2wpkh_script(index as u8) }
}

#[test]
fn net_amount_signed_result() {
    assert_eq!(net_amount(300, 1200), -900);
    assert_eq!(net_amount(1200, 300), 900);
    assert_eq!(net_amount(0, 0), 0);
}

#[test]
fn net_amount_extremes_do_not_wrap() {
    assert_eq!(net_amount(u64::MAX, 0), u64::MAX as i128);
    assert_eq!(net_amount(0, u64::MAX), -(u64::MAX as i128));
    assert_eq!(net_amount(u64::MAX, u64::MAX), 0);
}

#[test]
fn batch_window_scenario() {
    // Window of three addresses; remote balances [1000, 0, 500] and history
    // counts [2, 0, 1] must land on indices 0, 1, 2 in order.
    let infos = vec![
        info(0, KeychainRole::External, "extA0"),
        info(1, KeychainRole::External, "extA1"),
        info(2, KeychainRole::External, "extA2"),
    ];
    let counts = vec![2u64, 0, 1];
    let balances = vec![1000u64, 0, 500];
    let rows = address_rows_for(&infos, &counts, &balances).unwrap();
    assert_eq!(rows.len(), 3);
    let expected = [(0u64, 1000u64, 2u64), (1, 0, 0), (2, 500, 1)];
    for (row, (index, balance, tx_count)) in rows.iter().zip(expected.iter()) {
        assert_eq!(row.index, *index);
        assert_eq!(row.balance, *balance);
        assert_eq!(row.tx_count, *tx_count);
        assert_eq!(row.role, KeychainRole::External);
    }
}

#[test]
fn combine_batch_positional_join() {
    let addresses = vec!["a".to_string(), "b".to_string(), "c".to_string()];
    let counts = vec![2u64, 0, 1];
    let balances = vec![1000u64, 0, 500];
    let entries = combine_batch(&addresses, &counts, &balances).unwrap();
    assert_eq!(entries.len(), 3);
    for (i, entry) in entries.iter().enumerate() {
        assert_eq!(entry.index, i as u64);
        assert_eq!(entry.address, addresses[i]);
        assert_eq!(entry.tx_count, counts[i]);
        assert_eq!(entry.balance, balances[i]);
    }
}

#[test]
fn combine_batch_rejects_size_mismatch() {
    let addresses = vec!["a".to_string(), "b".to_string()];
    let counts = vec![1u64];
    let balances = vec![10u64, 20];
    assert_eq!(combine_batch(&addresses, &counts, &balances), Err(IndexerError::SizeMismatch));
    let counts = vec![1u64, 2];
    let balances = vec![10u64];
    assert_eq!(combine_batch(&addresses, &counts, &balances), Err(IndexerError::SizeMismatch));
}

#[test]
fn combine_batch_order_preserving() {
    // Shuffling the request shuffles the result identically.
    let addresses = vec!["a".to_string(), "b".to_string(), "c".to_string()];
    let counts = vec![2u64, 0, 1];
    let balances = vec![1000u64, 0, 500];
    let straight = combine_batch(&addresses, &counts, &balances).unwrap();
    let perm = [2usize, 0, 1];
    let shuffled_addresses: Vec<String> = perm.iter().map(|&i| addresses[i].clone()).collect();
    let shuffled_counts: Vec<u64> = perm.iter().map(|&i| counts[i]).collect();
    let shuffled_balances: Vec<u64> = perm.iter().map(|&i| balances[i]).collect();
    let shuffled = combine_batch(&shuffled_addresses, &shuffled_counts, &shuffled_balances).unwrap();
    for (k, &i) in perm.iter().enumerate() {
        assert_eq!(shuffled[k].address, straight[i].address);
        assert_eq!(shuffled[k].tx_count, straight[i].tx_count);
        assert_eq!(shuffled[k].balance, straight[i].balance);
    }
}

#[test]
fn empty_inputs_build_empty_views() {
    let no_addresses: Vec<String> = Vec::new();
    let entries = combine_batch(&no_addresses, &Vec::new(), &Vec::new()).unwrap();
    assert!(entries.is_empty());
    let rows = build_transaction_rows(&Vec::new());
    assert!(rows.is_empty());
    let utxo_rows = build_utxo_rows(&Vec::new(), &Vec::new(), &Network::Testnet).unwrap();
    assert!(utxo_rows.is_empty());
}

#[test]
fn transaction_row_scenario() {
    // received=300, sent=1200 at height 700 yields net -900 at height 700.
    let records = vec![record("t1", 300, 1200, Some(700))];
    let rows = build_transaction_rows(&records);
    assert_eq!(rows.len(), 1);
    assert_eq!(rows[0].txid, "t1");
    assert_eq!(rows[0].net_amount, -900);
    assert_eq!(rows[0].height, 700);
}

#[test]
fn transaction_rows_sorted_descending_and_stable() {
    let records = vec![
        record("a", 10, 0, Some(5)),
        record("b", 20, 0, Some(9)),
        record("c", 30, 0, Some(5)),
        record("d", 40, 0, None),
        record("e", 50, 0, Some(9)),
    ];
    let rows = build_transaction_rows(&records);
    let order: Vec<&str> = rows.iter().map(|r| r.txid.as_str()).collect();
    // Unconfirmed "d" is excluded; equal heights keep stored order.
    assert_eq!(order, vec!["b", "e", "a", "c"]);
    assert_eq!(rows[0].height, 9);
    assert_eq!(rows[1].height, 9);
    assert_eq!(rows[2].height, 5);
    assert_eq!(rows[3].height, 5);
}

#[test]
fn utxo_height_fallback_is_zero() {
    // A transaction id matching no transaction row yields height 0, not an
    // error.
    let utxos = vec![unspent("unknown", 0, 0x11, 800)];
    let rows = build_utxo_rows(&utxos, &Vec::new(), &Network::Testnet).unwrap();
    assert_eq!(rows.len(), 1);
    assert_eq!(rows[0].height, 0);
    assert_eq!(rows[0].amount, 800);
}

#[test]
fn utxo_rows_join_heights_and_sort() {
    let records = vec![record("t1", 10, 0, Some(10)), record("t2", 20, 0, Some(20))];
    let tx_rows = build_transaction_rows(&records);
    let utxos = vec![
        unspent("t1", 0, 0x11, 100),
        unspent("t2", 1, 0x22, 200),
        unspent("t1", 2, 0x33, 300),
    ];
    let rows = build_utxo_rows(&utxos, &tx_rows, &Network::Testnet).unwrap();
    let order: Vec<(u32, u32)> = rows.iter().map(|r| (r.height, r.vout)).collect();
    // Height descending; the two height-10 outputs keep stored order.
    assert_eq!(order, vec![(20, 1), (10, 0), (10, 2)]);
}

#[test]
fn utxo_address_rederived_from_script() {
    let utxos = vec![unspent("t1", 0, 0x11, 100)];
    let rows = build_utxo_rows(&utxos, &Vec::new(), &Network::Testnet).unwrap();
    assert!(rows[0].address.starts_with("tb1"));
    let mainnet = build_utxo_rows(&utxos, &Vec::new(), &Network::Bitcoin).unwrap();
    assert!(mainnet[0].address.starts_with("bc1"));
    assert_ne!(rows[0].address, mainnet[0].address);
}

#[test]
fn utxo_unrepresentable_script_fails_whole_build() {
    let mut utxos = vec![unspent("t1", 0, 0x11, 100)];
    // An OP_RETURN script has no address form on any network.
    utxos.push(UTXORecord { txid: "t2".to_string(), vout: 0, script: vec![0x6a], value: 5 });
    let r = build_utxo_rows(&utxos, &Vec::new(), &Network::Testnet);
    assert_eq!(r, Err(ReconciliationError::ScriptNotAddressable));
}

#[test]
fn apply_sync_replaces_wholesale() {
    let mut store = WalletStore::new(Network::Testnet, "d".to_string(), None);
    let first = Snapshot {
        transactions: vec![record("t1", 10, 0, Some(1))],
        utxos: vec![unspent("t1", 0, 0x11, 10)],
    };
    store.apply_sync(Ok(first)).unwrap();
    assert!(store.synced);
    let second = Snapshot { transactions: vec![record("t2", 20, 0, Some(2))], utxos: vec![] };
    store.apply_sync(Ok(second)).unwrap();
    assert_eq!(store.transactions.len(), 1);
    assert_eq!(store.transactions[0].txid, "t2");
    assert!(store.utxos.is_empty());
}

#[test]
fn apply_sync_failure_keeps_prior_state() {
    let mut store = WalletStore::new(Network::Testnet, "d".to_string(), None);
    let snapshot = Snapshot {
        transactions: vec![record("t1", 10, 0, Some(1))],
        utxos: vec![unspent("t1", 0, 0x11, 10)],
    };
    store.apply_sync(Ok(snapshot)).unwrap();
    let before_tx = store.transactions.clone();
    let before_utxos = store.utxos.clone();
    let r = store.apply_sync(Err(SyncError::Indexer(IndexerError::Transport)));
    assert_eq!(r, Err(SyncError::Indexer(IndexerError::Transport)));
    assert_eq!(store.transactions, before_tx);
    assert_eq!(store.utxos, before_utxos);
    let r = store.apply_sync(Err(SyncError::Inconsistent));
    assert_eq!(r, Err(SyncError::Inconsistent));
    assert_eq!(store.transactions, before_tx);
}

#[test]
fn list_transactions_filters_unconfirmed() {
    let mut store = WalletStore::new(Network::Testnet, "d".to_string(), None);
    let snapshot = Snapshot {
        transactions: vec![
            record("t1", 10, 0, Some(1)),
            record("t2", 20, 0, None),
            record("t3", 30, 0, Some(3)),
        ],
        utxos: vec![],
    };
    store.apply_sync(Ok(snapshot)).unwrap();
    let confirmed = store.list_transactions(false);
    let names: Vec<&str> = confirmed.iter().map(|r| r.txid.as_str()).collect();
    assert_eq!(names, vec!["t1", "t3"]);
    let all = store.list_transactions(true);
    assert_eq!(all.len(), 3);
}

#[test]
fn list_unspent_copies_records() {
    let mut store = WalletStore::new(Network::Testnet, "d".to_string(), None);
    let snapshot =
        Snapshot { transactions: vec![], utxos: vec![unspent("t1", 3, 0x11, 10)] };
    store.apply_sync(Ok(snapshot)).unwrap();
    let listed = store.list_unspent();
    assert_eq!(listed, store.utxos);
}

fn sample_inputs() -> (Vec<AddressInfo>, Vec<AddressInfo>, BatchData, BatchData, Result<AddressInfo, DerivationError>, Vec<TransactionRecord>, Vec<UTXORecord>) {
    let ext_infos = vec![
        info(0, KeychainRole::External, "extA0"),
        info(1, KeychainRole::External, "extA1"),
        info(2, KeychainRole::External, "extA2"),
    ];
    let int_infos = vec![info(0, KeychainRole::Internal, "intA0")];
    let ext_batch = BatchData { counts: vec![2, 0, 1], balances: vec![1000, 0, 500] };
    let int_batch = BatchData { counts: vec![4], balances: vec![250] };
    let receive = Ok(info(3, KeychainRole::External, "extA3"));
    let records = vec![record("t1", 300, 1200, Some(700)), record("t2", 50, 0, Some(900))];
    let utxos = vec![unspent("t2", 0, 0x44, 50), unspent("gone", 1, 0x55, 75)];
    (ext_infos, int_infos, ext_batch, int_batch, receive, records, utxos)
}

#[test]
fn rebuild_publishes_complete_view() {
    let (ext_infos, int_infos, ext_batch, int_batch, receive, records, utxos) = sample_inputs();
    let mut view = WalletView::new();
    view.rebuild(
        &ext_infos,
        &int_infos,
        &Ok(ext_batch),
        &Ok(int_batch),
        &receive,
        &records,
        &utxos,
        &Network::Testnet,
    )
    .unwrap();
    assert_eq!(view.external_rows.len(), 3);
    assert_eq!(view.external_rows[0].balance, 1000);
    assert_eq!(view.internal_rows.len(), 1);
    assert_eq!(view.internal_rows[0].tx_count, 4);
    assert_eq!(view.receive_address, "extA3");
    let tx_order: Vec<(i128, u32)> =
        view.transaction_rows.iter().map(|r| (r.net_amount, r.height)).collect();
    assert_eq!(tx_order, vec![(50, 900), (-900, 700)]);
    let utxo_order: Vec<(u32, u32)> = view.utxo_rows.iter().map(|r| (r.height, r.vout)).collect();
    // t2 confirmed at 900; the orphaned output falls back to height 0.
    assert_eq!(utxo_order, vec![(900, 0), (0, 1)]);
}

#[test]
fn rebuild_twice_is_idempotent() {
    let (ext_infos, int_infos, ext_batch, int_batch, receive, records, utxos) = sample_inputs();
    let mut view = WalletView::new();
    let ext_batch = Ok(ext_batch);
    let int_batch = Ok(int_batch);
    view.rebuild(&ext_infos, &int_infos, &ext_batch, &int_batch, &receive, &records, &utxos, &Network::Testnet)
        .unwrap();
    let ext_rows = view.external_rows.clone();
    let int_rows = view.internal_rows.clone();
    let tx_rows = view.transaction_rows.clone();
    let utxo_rows = view.utxo_rows.clone();
    let receive_address = view.receive_address.clone();
    view.rebuild(&ext_infos, &int_infos, &ext_batch, &int_batch, &receive, &records, &utxos, &Network::Testnet)
        .unwrap();
    assert_eq!(view.external_rows, ext_rows);
    assert_eq!(view.internal_rows, int_rows);
    assert_eq!(view.transaction_rows, tx_rows);
    assert_eq!(view.utxo_rows, utxo_rows);
    assert_eq!(view.receive_address, receive_address);
}

#[test]
fn rebuild_failure_leaves_previous_view_intact() {
    let (ext_infos, int_infos, ext_batch, int_batch, receive, records, utxos) = sample_inputs();
    let mut view = WalletView::new();
    view.rebuild(
        &ext_infos,
        &int_infos,
        &Ok(ext_batch),
        &Ok(int_batch.clone()),
        &receive,
        &records,
        &utxos,
        &Network::Testnet,
    )
    .unwrap();
    let ext_rows = view.external_rows.clone();
    let int_rows = view.internal_rows.clone();
    let tx_rows = view.transaction_rows.clone();
    let utxo_rows = view.utxo_rows.clone();
    let receive_address = view.receive_address.clone();
    // The indexer batch fails with a transport error after the window was
    // derived: the previously published collections stay untouched.
    let r = view.rebuild(
        &ext_infos,
        &int_infos,
        &Err(IndexerError::Transport),
        &Ok(int_batch),
        &receive,
        &records,
        &utxos,
        &Network::Testnet,
    );
    assert_eq!(r, Err(ViewError::Indexer(IndexerError::Transport)));
    assert_eq!(view.external_rows, ext_rows);
    assert_eq!(view.internal_rows, int_rows);
    assert_eq!(view.transaction_rows, tx_rows);
    assert_eq!(view.utxo_rows, utxo_rows);
    assert_eq!(view.receive_address, receive_address);
}

#[test]
fn rebuild_reports_size_mismatch() {
    let (ext_infos, int_infos, _, int_batch, receive, records, utxos) = sample_inputs();
    let short = BatchData { counts: vec![2, 0], balances: vec![1000, 0, 500] };
    let mut view = WalletView::new();
    let r = view.rebuild(
        &ext_infos,
        &int_infos,
        &Ok(short),
        &Ok(int_batch),
        &receive,
        &records,
        &utxos,
        &Network::Testnet,
    );
    assert_eq!(r, Err(ViewError::Indexer(IndexerError::SizeMismatch)));
    assert!(view.external_rows.is_empty());
}

#[test]
fn rebuild_reports_receive_failure() {
    let (ext_infos, int_infos, ext_batch, int_batch, _, records, utxos) = sample_inputs();
    let mut view = WalletView::new();
    let r = view.rebuild(
        &ext_infos,
        &int_infos,
        &Ok(ext_batch),
        &Ok(int_batch),
        &Err(DerivationError::Underivable),
        &records,
        &utxos,
        &Network::Testnet,
    );
    assert_eq!(r, Err(ViewError::Derivation(DerivationError::Underivable)));
    assert!(view.transaction_rows.is_empty());
}

#[test]
fn rebuild_reports_reconciliation_failure() {
    let (ext_infos, int_infos, ext_batch, int_batch, receive, records, _) = sample_inputs();
    let bad = vec![UTXORecord { txid: "t9".to_string(), vout: 0, script: vec![0x6a], value: 5 }];
    let mut view = WalletView::new();
    let r = view.rebuild(
        &ext_infos,
        &int_infos,
        &Ok(ext_batch),
        &Ok(int_batch),
        &receive,
        &records,
        &bad,
        &Network::Testnet,
    );
    assert_eq!(
        r,
        Err(ViewError::Reconciliation(ReconciliationError::ScriptNotAddressable))
    );
    assert!(view.utxo_rows.is_empty());
}
