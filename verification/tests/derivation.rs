//! Address derivation: purity, window derivation, role handling, network
//! threading, and the error cases.

use wallet_view::store::WalletStore;
use wallet_view::types::{DerivationError, KeychainRole, Network};

const WILDCARD_DESC: &str = "wpkh(tpubD6NzVbkrYhZ4XHndKkuB8FifXm8r5FQHwrN6oZuWCz13qb93rtgKvD4PQsqC4HP4yhV3tA2fqr2RbY5mNXfM7RxXUoeABoDtsFUq2zJq6YK/1/2/*)";
const PUBKEY_DESC: &str = "wpkh(0279be667ef9dcbbac55a06295ce870b07029bfcdb2dce28d959f2815b16f81798)";
const BARE_DESC: &str = "pk(0279be667ef9dcbbac55a06295ce870b07029bfcdb2dce28d959f2815b16f81798)";

#[test]
fn derive_is_pure() {
    let a = wallet_view::deriv::derive(WILDCARD_DESC, KeychainRole::External, 7, &Network::Testnet)
        .unwrap();
    let b = wallet_view::deriv::derive(WILDCARD_DESC, KeychainRole::External, 7, &Network::Testnet)
        .unwrap();
    assert_eq!(a, b);
}

#[test]
fn derive_yields_real_addresses() {
    let info = wallet_view::deriv::derive(WILDCARD_DESC, KeychainRole::External, 0, &Network::Testnet)
        .unwrap();
    assert!(info.address.starts_with("tb1"));
    assert_eq!(info.index, 0);
    assert_eq!(info.role, KeychainRole::External);
    // P2WPKH spending script: version 0 push plus a 20-byte program.
    assert_eq!(info.script.len(), 22);
    assert_eq!(info.script[0], 0x00);
    assert_eq!(info.script[1], 0x14);
}

#[test]
fn derive_window_matches_single_derivations() {
    let window =
        wallet_view::deriv::derive_window(WILDCARD_DESC, KeychainRole::External, 3, &Network::Testnet)
            .unwrap();
    assert_eq!(window.len(), 3);
    for i in 0..3u32 {
        let single =
            wallet_view::deriv::derive(WILDCARD_DESC, KeychainRole::External, i, &Network::Testnet)
                .unwrap();
        assert_eq!(window[i as usize], single);
    }
    assert_ne!(window[0].address, window[1].address);
    assert_ne!(window[1].address, window[2].address);
}

#[test]
fn internal_role_same_descriptor_same_address() {
    let ext = wallet_view::deriv::derive(WILDCARD_DESC, KeychainRole::External, 4, &Network::Testnet)
        .unwrap();
    let int = wallet_view::deriv::derive(WILDCARD_DESC, KeychainRole::Internal, 4, &Network::Testnet)
        .unwrap();
    assert_eq!(ext.address, int.address);
    assert_eq!(ext.script, int.script);
    assert_eq!(int.role, KeychainRole::Internal);
}

#[test]
fn network_changes_address_format() {
    let test = wallet_view::deriv::derive(PUBKEY_DESC, KeychainRole::External, 0, &Network::Testnet)
        .unwrap();
    let main = wallet_view::deriv::derive(PUBKEY_DESC, KeychainRole::External, 0, &Network::Bitcoin)
        .unwrap();
    assert!(test.address.starts_with("tb1"));
    assert!(main.address.starts_with("bc1"));
    assert_ne!(test.address, main.address);
    // The spending script does not depend on the network.
    assert_eq!(test.script, main.script);
}

#[test]
fn derive_rejects_hardened_range() {
    let r = wallet_view::deriv::derive(
        WILDCARD_DESC,
        KeychainRole::External,
        0x8000_0000,
        &Network::Testnet,
    );
    assert_eq!(r, Err(DerivationError::IndexOutOfRange));
}

#[test]
fn derive_rejects_malformed_descriptor() {
    let r = wallet_view::deriv::derive(
        "definitely not a descriptor",
        KeychainRole::External,
        0,
        &Network::Testnet,
    );
    assert_eq!(r, Err(DerivationError::Underivable));
}

#[test]
fn derive_rejects_addressless_script_form() {
    let r = wallet_view::deriv::derive(BARE_DESC, KeychainRole::External, 0, &Network::Testnet);
    assert_eq!(r, Err(DerivationError::Underivable));
}

#[test]
fn derive_window_of_zero_is_empty() {
    let window =
        wallet_view::deriv::derive_window(WILDCARD_DESC, KeychainRole::External, 0, &Network::Testnet)
            .unwrap();
    assert!(window.is_empty());
}

#[test]
fn store_issues_monotonic_indices() {
    let mut store = WalletStore::new(Network::Testnet, WILDCARD_DESC.to_string(), None);
    let first = store.derive_new(KeychainRole::External).unwrap();
    let second = store.derive_new(KeychainRole::External).unwrap();
    assert_eq!(first.index, 0);
    assert_eq!(second.index, 1);
    assert_eq!(store.next_external_index, 2);
    assert_eq!(store.next_internal_index, 0);
    let peeked = store.address_at(KeychainRole::External, 0).unwrap();
    assert_eq!(peeked.address, first.address);
}

#[test]
fn store_without_internal_descriptor_reuses_external() {
    let store = WalletStore::new(Network::Testnet, WILDCARD_DESC.to_string(), None);
    let ext = store.address_at(KeychainRole::External, 2).unwrap();
    let int = store.address_at(KeychainRole::Internal, 2).unwrap();
    assert_eq!(ext.address, int.address);
}

#[test]
fn store_with_internal_descriptor_separates_roles() {
    let store = WalletStore::new(
        Network::Testnet,
        WILDCARD_DESC.to_string(),
        Some(PUBKEY_DESC.to_string()),
    );
    let ext = store.address_at(KeychainRole::External, 0).unwrap();
    let int = store.address_at(KeychainRole::Internal, 0).unwrap();
    assert_ne!(ext.address, int.address);
}
