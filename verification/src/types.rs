//! Plain data carried through the wallet view pipeline: networks, keychain
//! roles, records handed over by a completed chain sync, and the three row
//! kinds that make up the presented view.

use vstd::prelude::*;

verus! {

/// The chain a wallet instance is bound to. Every address reconstruction must
/// use the same network, since deriving on the wrong one silently yields a
/// differently-formatted but valid-looking address.
#[derive(Clone, Copy, PartialEq, Eq, Structural, Debug)]
pub enum Network {
    Bitcoin,
    Testnet,
    Signet,
    Regtest,
}

/// A stable numeric tag for each network, used by the specification functions
/// that describe what the derivation layer returns.
pub open spec fn net_code(n: Network) -> int {
    match n {
        Network::Bitcoin => 0,
        Network::Testnet => 1,
        Network::Signet => 2,
        Network::Regtest => 3,
    }
}

/// Which of the two derivation paths of a wallet an address belongs to:
/// external addresses receive, internal addresses take change.
#[derive(Clone, Copy, PartialEq, Eq, Structural, Debug)]
pub enum KeychainRole {
    External,
    Internal,
}

/// One derived address: the derivation index and role it came from, its
/// human-readable form, and its spending script.
#[derive(Clone, Debug, PartialEq, Eq)]
pub struct AddressInfo {
    pub index: u32,
    pub role: KeychainRole,
    pub address: String,
    pub script: Vec<u8>,
}

/// Per-address figures joined from the two batched indexer lookups, keyed by
/// position in the batch request.
#[derive(Clone, Debug, PartialEq, Eq)]
pub struct AdditionalAddrInfo {
    pub index: u64,
    pub address: String,
    pub tx_count: u64,
    pub balance: u64,
}

/// View row for one derived address together with its remote figures.
#[derive(Clone, Debug, PartialEq, Eq)]
pub struct AddressRow {
    pub index: u64,
    pub role: KeychainRole,
    pub address: String,
    pub balance: u64,
    pub tx_count: u64,
}

/// One wallet-relevant transaction as reported by a completed sync.
/// `received` and `sent` are independent unsigned totals; a transaction with
/// no `confirmation_height` is still unconfirmed.
#[derive(Clone, Debug, PartialEq, Eq)]
pub struct TransactionRecord {
    pub txid: String,
    pub received: u64,
    pub sent: u64,
    pub confirmation_height: Option<u32>,
}

/// View row for one confirmed transaction: its signed net transfer amount and
/// the height it confirmed at.
#[derive(Clone, Debug, PartialEq, Eq)]
pub struct TransactionRow {
    pub txid: String,
    pub net_amount: i128,
    pub height: u32,
}

/// One unspent output as reported by a completed sync.
#[derive(Clone, Debug, PartialEq, Eq)]
pub struct UTXORecord {
    pub txid: String,
    pub vout: u32,
    pub script: Vec<u8>,
    pub value: u64,
}

/// View row for one unspent output, with its owning address re-derived from
/// the script and the confirmation height of its originating transaction
/// (0 when that transaction is not in the confirmed view).
#[derive(Clone, Debug, PartialEq, Eq)]
pub struct UTXORow {
    pub txid: String,
    pub vout: u32,
    pub address: String,
    pub amount: u64,
    pub height: u32,
}

/// The two per-script result lists of one batched indexer round:
/// transaction-history counts and confirmed balances, both in request order.
#[derive(Clone, Debug, PartialEq, Eq)]
pub struct BatchData {
    pub counts: Vec<u64>,
    pub balances: Vec<u64>,
}

/// Everything one full sync hands over: the known transactions and the
/// currently unspent outputs.
#[derive(Clone, Debug, PartialEq, Eq)]
pub struct Snapshot {
    pub transactions: Vec<TransactionRecord>,
    pub utxos: Vec<UTXORecord>,
}

/// Address derivation failed.
#[derive(Clone, Copy, PartialEq, Eq, Structural, Debug)]
pub enum DerivationError {
    /// The requested index lies outside the derivable (non-hardened) range.
    IndexOutOfRange,
    /// The descriptor cannot produce a concrete address at the requested
    /// index: it is malformed, or its script form has no address.
    Underivable,
}

/// A batched indexer lookup failed as a whole; no partial results exist.
#[derive(Clone, Copy, PartialEq, Eq, Structural, Debug)]
pub enum IndexerError {
    /// The transport to the remote indexer failed.
    Transport,
    /// The remote answer could not be read as a batch response.
    Malformed,
    /// The answer's length differs from the request's.
    SizeMismatch,
}

/// A full resync against the remote indexer failed; prior state is kept.
#[derive(Clone, Copy, PartialEq, Eq, Structural, Debug)]
pub enum SyncError {
    /// The remote lookup behind the sync failed.
    Indexer(IndexerError),
    /// The remote answer contradicted itself.
    Inconsistent,
}

/// Reconciliation hit a value that the view cannot represent.
#[derive(Clone, Copy, PartialEq, Eq, Structural, Debug)]
pub enum ReconciliationError {
    /// An unspent output's script has no address form on the configured
    /// network.
    ScriptNotAddressable,
}

/// Why a view rebuild was abandoned; the previous view stays published.
#[derive(Clone, Copy, PartialEq, Eq, Structural, Debug)]
pub enum ViewError {
    Derivation(DerivationError),
    Indexer(IndexerError),
    Reconciliation(ReconciliationError),
}

/// Field-for-field equivalence of two unspent-output records: same
/// transaction id, output position, script bytes and value.
pub open spec fn utxo_eqv(a: UTXORecord, b: UTXORecord) -> bool {
    &&& a.txid@ == b.txid@
    &&& a.vout == b.vout
    &&& a.script@ == b.script@
    &&& a.value == b.value
}

/// Copies a byte string.
fn clone_bytes(v: &Vec<u8>) -> (r: Vec<u8>)
    ensures
        r@ == v@,
{
    let mut r: Vec<u8> = Vec::new();
    let mut i: usize = 0;
    while i < v.len()
        invariant
            0 <= i <= v@.len(),
            r@ == v@.take(i as int),
        decreases v@.len() - i,
    {
        r.push(v[i]);
        proof {
            assert(v@.take(i as int + 1) =~= v@.take(i as int).push(v@[i as int]));
        }
        i = i + 1;
    }
    proof {
        assert(v@.take(v@.len() as int) =~= v@);
    }
    r
}

impl UTXORecord {
    /// An independent copy, field for field.
    pub fn duplicate(&self) -> (r: Self)
        ensures
            utxo_eqv(r, *self),
    {
        UTXORecord {
            txid: self.txid.clone(),
            vout: self.vout,
            script: clone_bytes(&self.script),
            value: self.value,
        }
    }
}

impl TransactionRecord {
    /// An independent copy, field for field.
    pub fn duplicate(&self) -> (r: Self)
        ensures
            r == *self,
    {
        TransactionRecord {
            txid: self.txid.clone(),
            received: self.received,
            sent: self.sent,
            confirmation_height: self.confirmation_height,
        }
    }
}

} // verus!
