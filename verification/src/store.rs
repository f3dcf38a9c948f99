//! The wallet store: the descriptor pair bound to one network, the per-role
//! address issuance cursors, and the transactions and unspent outputs handed
//! over by the most recent completed sync.
//!
//! A sync is always a full resync, and it lands atomically: a failed sync
//! leaves every previously synced record untouched.

use vstd::prelude::*;
use crate::deriv::derive_post;
use crate::types::{
    AddressInfo, DerivationError, KeychainRole, Network, Snapshot, SyncError, TransactionRecord,
    UTXORecord, utxo_eqv,
};

verus! {

/// One wallet instance: two descriptors against one network, issuance
/// cursors per role, and the records of the last completed sync.
pub struct WalletStore {
    /// The chain everything in this store derives against.
    pub network: Network,
    /// Receive-path descriptor; always present.
    pub external_descriptor: String,
    /// Change-path descriptor; when absent, change addresses also derive
    /// from the external descriptor and there is no separate change role.
    pub internal_descriptor: Option<String>,
    /// Next unissued external address index.
    pub next_external_index: u32,
    /// Next unissued internal address index.
    pub next_internal_index: u32,
    /// Whether a sync has completed since construction.
    pub synced: bool,
    /// Transactions of the last completed sync.
    pub transactions: Vec<TransactionRecord>,
    /// Unspent outputs of the last completed sync.
    pub utxos: Vec<UTXORecord>,
}

/// The descriptor a role derives from: the internal descriptor for change
/// when one exists, the external descriptor otherwise.
pub open spec fn spec_descriptor(s: WalletStore, role: KeychainRole) -> String {
    match role {
        KeychainRole::External => s.external_descriptor,
        KeychainRole::Internal => if s.internal_descriptor is Some {
            s.internal_descriptor->0
        } else {
            s.external_descriptor
        },
    }
}

/// The issuance cursor of a role.
pub open spec fn spec_cursor(s: WalletStore, role: KeychainRole) -> u32 {
    match role {
        KeychainRole::External => s.next_external_index,
        KeychainRole::Internal => s.next_internal_index,
    }
}

/// The store fields a successful issuance must not touch: everything except
/// the issued role's cursor.
pub open spec fn same_except_cursor(pre: WalletStore, post: WalletStore, role: KeychainRole) -> bool {
    &&& post.network == pre.network
    &&& post.external_descriptor == pre.external_descriptor
    &&& post.internal_descriptor == pre.internal_descriptor
    &&& post.synced == pre.synced
    &&& post.transactions == pre.transactions
    &&& post.utxos == pre.utxos
    &&& (role is External ==> post.next_internal_index == pre.next_internal_index)
    &&& (role is Internal ==> post.next_external_index == pre.next_external_index)
}

/// The records of `records` that `list_transactions` hands out: all of them,
/// or only the confirmed ones, in stored order.
pub open spec fn listed_transactions(
    records: Seq<TransactionRecord>,
    include_unconfirmed: bool,
) -> Seq<TransactionRecord>
    decreases records.len(),
{
    if records.len() == 0 {
        Seq::empty()
    } else {
        let rest = listed_transactions(records.drop_last(), include_unconfirmed);
        if include_unconfirmed || records.last().confirmation_height is Some {
            rest.push(records.last())
        } else {
            rest
        }
    }
}

impl WalletStore {
    /// A fresh, unsynced store for one descriptor pair on one network, with
    /// both issuance cursors at zero.
    pub fn new(
        network: Network,
        external_descriptor: String,
        internal_descriptor: Option<String>,
    ) -> (s: Self)
        ensures
            s.network == network,
            s.external_descriptor == external_descriptor,
            s.internal_descriptor == internal_descriptor,
            s.next_external_index == 0,
            s.next_internal_index == 0,
            s.synced == false,
            s.transactions@ == Seq::<TransactionRecord>::empty(),
            s.utxos@ == Seq::<UTXORecord>::empty(),
    {
        WalletStore {
            network,
            external_descriptor,
            internal_descriptor,
            next_external_index: 0,
            next_internal_index: 0,
            synced: false,
            transactions: Vec::new(),
            utxos: Vec::new(),
        }
    }

    /// The descriptor the given role derives from.
    pub fn descriptor_for(&self, role: KeychainRole) -> (d: &String)
        ensures
            *d == spec_descriptor(*self, role),
    {
        match role {
            KeychainRole::External => &self.external_descriptor,
            KeychainRole::Internal => match &self.internal_descriptor {
                Some(d) => d,
                None => &self.external_descriptor,
            },
        }
    }

    /// Derives the address at a given index for a role, without touching the
    /// issuance cursors.
    pub fn address_at(&self, role: KeychainRole, index: u32) -> (r: Result<
        AddressInfo,
        DerivationError,
    >)
        ensures
            derive_post(spec_descriptor(*self, role)@, role, index, self.network, r),
    {
        crate::deriv::derive(self.descriptor_for(role).as_str(), role, index, &self.network)
    }

    /// Derives the next unissued address of a role and advances that role's
    /// cursor. On failure the store is left untouched.
    pub fn derive_new(&mut self, role: KeychainRole) -> (r: Result<AddressInfo, DerivationError>)
        ensures
            derive_post(
                spec_descriptor(*old(self), role)@,
                role,
                spec_cursor(*old(self), role),
                old(self).network,
                r,
            ),
            r is Ok ==> {
                &&& spec_cursor(*final(self), role) == spec_cursor(*old(self), role) + 1
                &&& same_except_cursor(*old(self), *final(self), role)
            },
            r is Err ==> *final(self) == *old(self),
    {
        let idx = match role {
            KeychainRole::External => self.next_external_index,
            KeychainRole::Internal => self.next_internal_index,
        };
        let r = crate::deriv::derive(self.descriptor_for(role).as_str(), role, idx, &self.network);
        match r {
            Ok(info) => {
                match role {
                    KeychainRole::External => {
                        self.next_external_index = idx + 1;
                    },
                    KeychainRole::Internal => {
                        self.next_internal_index = idx + 1;
                    },
                }
                Ok(info)
            },
            Err(e) => Err(e),
        }
    }

    /// Takes the outcome of one full remote resync. A successful sync
    /// replaces the synced records wholesale; a failed one changes nothing
    /// and hands the error back.
    pub fn apply_sync(&mut self, outcome: Result<Snapshot, SyncError>) -> (r: Result<(), SyncError>)
        ensures
            outcome is Ok ==> {
                &&& r is Ok
                &&& final(self).transactions == outcome->Ok_0.transactions
                &&& final(self).utxos == outcome->Ok_0.utxos
                &&& final(self).synced == true
                &&& final(self).network == old(self).network
                &&& final(self).external_descriptor == old(self).external_descriptor
                &&& final(self).internal_descriptor == old(self).internal_descriptor
                &&& final(self).next_external_index == old(self).next_external_index
                &&& final(self).next_internal_index == old(self).next_internal_index
            },
            outcome is Err ==> {
                &&& *final(self) == *old(self)
                &&& r == Err::<(), SyncError>(outcome->Err_0)
            },
    {
        match outcome {
            Ok(snapshot) => {
                self.transactions = snapshot.transactions;
                self.utxos = snapshot.utxos;
                self.synced = true;
                Ok(())
            },
            Err(e) => Err(e),
        }
    }

    /// The synced transactions in stored order, all of them or only the
    /// confirmed ones.
    pub fn list_transactions(&self, include_unconfirmed: bool) -> (r: Vec<TransactionRecord>)
        ensures
            r@ == listed_transactions(self.transactions@, include_unconfirmed),
    {
        let mut out: Vec<TransactionRecord> = Vec::new();
        let mut i: usize = 0;
        while i < self.transactions.len()
            invariant
                0 <= i <= self.transactions@.len(),
                out@ == listed_transactions(self.transactions@.take(i as int), include_unconfirmed),
            decreases self.transactions@.len() - i,
        {
            if include_unconfirmed || self.transactions[i].confirmation_height.is_some() {
                out.push(self.transactions[i].duplicate());
            }
            proof {
                assert(self.transactions@.take(i as int + 1).drop_last() =~= self.transactions@.take(
                    i as int,
                ));
                assert(self.transactions@.take(i as int + 1).last() == self.transactions@[i as int]);
            }
            i = i + 1;
        }
        proof {
            assert(self.transactions@.take(self.transactions@.len() as int) =~= self.transactions@);
        }
        out
    }

    /// The synced unspent outputs, in stored order, copied field for field.
    pub fn list_unspent(&self) -> (r: Vec<UTXORecord>)
        ensures
            r@.len() == self.utxos@.len(),
            forall|i: int| 0 <= i < r@.len() ==> utxo_eqv(#[trigger] r@[i], self.utxos@[i]),
    {
        let mut out: Vec<UTXORecord> = Vec::new();
        let mut i: usize = 0;
        while i < self.utxos.len()
            invariant
                0 <= i <= self.utxos@.len(),
                out@.len() == i,
                forall|k: int| 0 <= k < i ==> utxo_eqv(#[trigger] out@[k], self.utxos@[k]),
            decreases self.utxos@.len() - i,
        {
            out.push(self.utxos[i].duplicate());
            i = i + 1;
        }
        out
    }
}

} // verus!
