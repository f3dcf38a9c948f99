//! Order-preserving join of the two batched indexer answers onto the
//! requested addresses.
//!
//! The remote indexer answers a batch of scripts with one list of
//! transaction-history counts and one list of confirmed balances, both
//! positionally aligned with the request. Nothing here trusts that alignment
//! blindly: a response whose length differs from the request fails the whole
//! batch, and a successful join is exact — entry `i` of the result is built
//! from entry `i` of the request.

use vstd::prelude::*;
use crate::types::{AdditionalAddrInfo, AddressInfo, AddressRow, IndexerError};

verus! {

/// Entry `e` joins position `i` of the request with its two figures.
pub open spec fn combined_entry(
    e: AdditionalAddrInfo,
    i: int,
    address: Seq<char>,
    count: u64,
    balance: u64,
) -> bool {
    &&& e.index == i
    &&& e.address@ == address
    &&& e.tx_count == count
    &&& e.balance == balance
}

/// What `combine_batch` returns: the positional join when both answers match
/// the request's length, a whole-batch size failure otherwise.
pub open spec fn combine_post(
    addresses: Seq<String>,
    counts: Seq<u64>,
    balances: Seq<u64>,
    r: Result<Vec<AdditionalAddrInfo>, IndexerError>,
) -> bool {
    if counts.len() == addresses.len() && balances.len() == addresses.len() {
        &&& r is Ok
        &&& r->Ok_0@.len() == addresses.len()
        &&& (forall|i: int|
            0 <= i < addresses.len() ==> combined_entry(
                #[trigger] r->Ok_0@[i],
                i,
                addresses[i]@,
                counts[i],
                balances[i],
            ))
    } else {
        r == Err::<Vec<AdditionalAddrInfo>, IndexerError>(IndexerError::SizeMismatch)
    }
}

/// Joins the two batch answers onto the requested addresses, one entry per
/// request position, in request order. Returns the whole batch or no part of
/// it: a length mismatch between request and either answer fails everything.
pub fn combine_batch(addresses: &Vec<String>, counts: &Vec<u64>, balances: &Vec<u64>) -> (r: Result<
    Vec<AdditionalAddrInfo>,
    IndexerError,
>)
    ensures
        combine_post(addresses@, counts@, balances@, r),
{
    if counts.len() != addresses.len() || balances.len() != addresses.len() {
        return Err(IndexerError::SizeMismatch);
    }
    let mut result: Vec<AdditionalAddrInfo> = Vec::new();
    let mut i: usize = 0;
    while i < addresses.len()
        invariant
            counts@.len() == addresses@.len(),
            balances@.len() == addresses@.len(),
            0 <= i <= addresses@.len(),
            result@.len() == i,
            forall|k: int|
                0 <= k < i ==> combined_entry(
                    #[trigger] result@[k],
                    k,
                    addresses@[k]@,
                    counts@[k],
                    balances@[k],
                ),
        decreases addresses@.len() - i,
    {
        result.push(
            AdditionalAddrInfo {
                index: i as u64,
                address: addresses[i].clone(),
                tx_count: counts[i],
                balance: balances[i],
            },
        );
        i = i + 1;
    }
    Ok(result)
}

/// Law: the batched lookup is order-preserving. If a second request reads the
/// first through an index mapping — entry `i` of request two is entry
/// `perm[i]` of request one — then the results follow the same mapping:
/// shuffling the input shuffles the output identically, positional indices
/// aside.
pub proof fn lemma_combine_order_preserving(
    addresses1: Seq<String>,
    counts1: Seq<u64>,
    balances1: Seq<u64>,
    r1: Result<Vec<AdditionalAddrInfo>, IndexerError>,
    addresses2: Seq<String>,
    counts2: Seq<u64>,
    balances2: Seq<u64>,
    r2: Result<Vec<AdditionalAddrInfo>, IndexerError>,
    perm: Seq<int>,
)
    requires
        combine_post(addresses1, counts1, balances1, r1),
        combine_post(addresses2, counts2, balances2, r2),
        counts1.len() == addresses1.len(),
        balances1.len() == addresses1.len(),
        addresses2.len() == addresses1.len(),
        counts2.len() == addresses1.len(),
        balances2.len() == addresses1.len(),
        perm.len() == addresses1.len(),
        forall|i: int| 0 <= i < perm.len() ==> 0 <= #[trigger] perm[i] < addresses1.len(),
        forall|i: int|
            0 <= i < perm.len() ==> {
                &&& addresses2[i]@ == addresses1[#[trigger] perm[i]]@
                &&& counts2[i] == counts1[perm[i]]
                &&& balances2[i] == balances1[perm[i]]
            },
    ensures
        r1 is Ok,
        r2 is Ok,
        forall|i: int|
            0 <= i < perm.len() ==> {
                &&& r2->Ok_0@[i].address@ == r1->Ok_0@[#[trigger] perm[i]].address@
                &&& r2->Ok_0@[i].tx_count == r1->Ok_0@[perm[i]].tx_count
                &&& r2->Ok_0@[i].balance == r1->Ok_0@[perm[i]].balance
            },
{
    assert forall|i: int| 0 <= i < perm.len() implies {
        &&& r2->Ok_0@[i].address@ == r1->Ok_0@[#[trigger] perm[i]].address@
        &&& r2->Ok_0@[i].tx_count == r1->Ok_0@[perm[i]].tx_count
        &&& r2->Ok_0@[i].balance == r1->Ok_0@[perm[i]].balance
    } by {
        assert(combined_entry(r2->Ok_0@[i], i, addresses2[i]@, counts2[i], balances2[i]));
        assert(combined_entry(
            r1->Ok_0@[perm[i]],
            perm[i],
            addresses1[perm[i]]@,
            counts1[perm[i]],
            balances1[perm[i]],
        ));
    }
}

/// View row `row` presents derived address `info` with its two remote
/// figures.
pub open spec fn address_row_matches(
    row: AddressRow,
    info: AddressInfo,
    count: u64,
    balance: u64,
) -> bool {
    &&& row.index == info.index
    &&& row.role == info.role
    &&& row.address@ == info.address@
    &&& row.balance == balance
    &&& row.tx_count == count
}

/// Row sequence `rows` presents the derived window `infos` with its two
/// batch answers, positionally.
pub open spec fn address_rows_match(
    rows: Seq<AddressRow>,
    infos: Seq<AddressInfo>,
    counts: Seq<u64>,
    balances: Seq<u64>,
) -> bool {
    &&& rows.len() == infos.len()
    &&& (forall|i: int|
        0 <= i < infos.len() ==> address_row_matches(#[trigger] rows[i], infos[i], counts[i], balances[i]))
}

/// What `address_rows_for` returns: one row per derived address when both
/// answers match the window's length, a whole-batch size failure otherwise.
pub open spec fn address_rows_post(
    infos: Seq<AddressInfo>,
    counts: Seq<u64>,
    balances: Seq<u64>,
    r: Result<Vec<AddressRow>, IndexerError>,
) -> bool {
    if counts.len() == infos.len() && balances.len() == infos.len() {
        &&& r is Ok
        &&& address_rows_match(r->Ok_0@, infos, counts, balances)
    } else {
        r == Err::<Vec<AddressRow>, IndexerError>(IndexerError::SizeMismatch)
    }
}

/// Builds the address view rows for one derived window from the two batch
/// answers, in window order.
pub fn address_rows_for(
    infos: &Vec<AddressInfo>,
    counts: &Vec<u64>,
    balances: &Vec<u64>,
) -> (r: Result<Vec<AddressRow>, IndexerError>)
    ensures
        address_rows_post(infos@, counts@, balances@, r),
{
    if counts.len() != infos.len() || balances.len() != infos.len() {
        return Err(IndexerError::SizeMismatch);
    }
    let mut rows: Vec<AddressRow> = Vec::new();
    let mut i: usize = 0;
    while i < infos.len()
        invariant
            counts@.len() == infos@.len(),
            balances@.len() == infos@.len(),
            0 <= i <= infos@.len(),
            rows@.len() == i,
            forall|k: int|
                0 <= k < i ==> address_row_matches(
                    #[trigger] rows@[k],
                    infos@[k],
                    counts@[k],
                    balances@[k],
                ),
        decreases infos@.len() - i,
    {
        rows.push(
            AddressRow {
                index: infos[i].index as u64,
                role: infos[i].role,
                address: infos[i].address.clone(),
                balance: balances[i],
                tx_count: counts[i],
            },
        );
        i = i + 1;
    }
    Ok(rows)
}

} // verus!
