//! The reconciliation core: turns synced records and batched indexer answers
//! into the three display-ready row collections, and swaps them into the
//! published view atomically.

use vstd::prelude::*;
use crate::indexer::{address_rows_for, address_rows_match};
use crate::sort::{HeightOrdered, sort_desc_by_height, sorted_desc, stable_sorted, with_height};
use crate::types::{
    AddressInfo, AddressRow, BatchData, DerivationError, IndexerError, Network, ReconciliationError,
    TransactionRecord, TransactionRow, UTXORecord, UTXORow, ViewError, net_code,
};

verus! {

/// Net transfer amount of one transaction: satoshis received minus satoshis
/// sent, promoted to a signed 128-bit value so that the subtraction can never
/// wrap for any pair of unsigned 64-bit totals.
pub fn net_amount(received: u64, sent: u64) -> (r: i128)
    ensures
        r == received as int - sent as int,
{
    received as i128 - sent as i128
}

/// Law: the net amount never wraps — for every pair of unsigned 64-bit
/// totals, the exact mathematical difference lies within the signed 128-bit
/// range, so `net_amount` equals it.
pub proof fn lemma_net_amount_in_range(received: u64, sent: u64)
    ensures
        i128::MIN <= received as int - sent as int <= i128::MAX,
{
}

/// The view row of one confirmed transaction record.
pub open spec fn row_of(rec: TransactionRecord) -> TransactionRow {
    TransactionRow {
        txid: rec.txid,
        net_amount: (rec.received - rec.sent) as i128,
        height: rec.confirmation_height->0,
    }
}

/// The rows of the confirmed transactions of `records`, in stored order,
/// before sorting.
pub open spec fn confirmed_rows(records: Seq<TransactionRecord>) -> Seq<TransactionRow>
    decreases records.len(),
{
    if records.len() == 0 {
        Seq::empty()
    } else {
        let rest = confirmed_rows(records.drop_last());
        if records.last().confirmation_height is Some {
            rest.push(row_of(records.last()))
        } else {
            rest
        }
    }
}

/// Builds the transaction view: one row per confirmed record, net amount
/// computed in signed 128-bit width, sorted by height descending with the
/// stored order kept among rows of equal height. Unconfirmed records are
/// left out.
pub fn build_transaction_rows(records: &Vec<TransactionRecord>) -> (rows: Vec<TransactionRow>)
    ensures
        rows@ == stable_sorted(confirmed_rows(records@)),
        rows@.len() == confirmed_rows(records@).len(),
        sorted_desc(rows@),
        forall|h: u32| with_height(rows@, h) == with_height(confirmed_rows(records@), h),
{
    let mut unsorted: Vec<TransactionRow> = Vec::new();
    let mut i: usize = 0;
    while i < records.len()
        invariant
            0 <= i <= records@.len(),
            unsorted@ == confirmed_rows(records@.take(i as int)),
        decreases records@.len() - i,
    {
        match &records[i].confirmation_height {
            Some(height) => {
                let amount = net_amount(records[i].received, records[i].sent);
                let row = TransactionRow {
                    txid: records[i].txid.clone(),
                    net_amount: amount,
                    height: *height,
                };
                proof {
                    assert(amount as int == records@[i as int].received - records@[
                        i as int
                    ].sent);
                    assert(row == row_of(records@[i as int]));
                }
                unsorted.push(row);
            },
            None => {},
        }
        proof {
            assert(records@.take(i as int + 1).drop_last() =~= records@.take(i as int));
            assert(records@.take(i as int + 1).last() == records@[i as int]);
        }
        i = i + 1;
    }
    proof {
        assert(records@.take(records@.len() as int) =~= records@);
    }
    sort_desc_by_height(&unsorted)
}

/// The height the transaction view gives a transaction id: the height of the
/// first row carrying that id, or 0 when no row does — the documented
/// fallback, not a failure.
pub open spec fn height_for(txid: Seq<char>, rows: Seq<TransactionRow>) -> u32
    decreases rows.len(),
{
    if rows.len() == 0 {
        0u32
    } else if rows.first().txid@ == txid {
        rows.first().height
    } else {
        height_for(txid, rows.drop_first())
    }
}

/// Law: the height fallback — a transaction id matching no row of the
/// transaction view looks up height 0 rather than failing.
pub proof fn lemma_height_fallback(txid: Seq<char>, rows: Seq<TransactionRow>)
    requires
        forall|i: int| 0 <= i < rows.len() ==> (#[trigger] rows[i]).txid@ != txid,
    ensures
        height_for(txid, rows) == 0,
    decreases rows.len(),
{
    if rows.len() > 0 {
        assert(rows[0].txid@ != txid);
        assert forall|i: int| 0 <= i < rows.drop_first().len() implies (#[trigger] rows.drop_first()[
            i
        ]).txid@ != txid by {
            assert(rows.drop_first()[i] == rows[i + 1]);
        }
        lemma_height_fallback(txid, rows.drop_first());
    }
}

/// Looks a transaction id up in the built transaction view and returns the
/// height of the first matching row, or 0 on a miss.
pub fn lookup_height(txid: &String, rows: &Vec<TransactionRow>) -> (h: u32)
    ensures
        h == height_for(txid@, rows@),
{
    let mut j: usize = 0;
    proof {
        assert(rows@.skip(0) =~= rows@);
    }
    while j < rows.len()
        invariant
            0 <= j <= rows@.len(),
            height_for(txid@, rows@) == height_for(txid@, rows@.skip(j as int)),
        decreases rows@.len() - j,
    {
        proof {
            assert(rows@.skip(j as int).first() == rows@[j as int]);
        }
        if rows[j].txid == *txid {
            return rows[j].height;
        }
        proof {
            assert(rows@.skip(j as int).drop_first() =~= rows@.skip(j as int + 1));
        }
        j = j + 1;
    }
    proof {
        assert(rows@.skip(rows@.len() as int) =~= Seq::<TransactionRow>::empty());
    }
    0
}

/// Whether a scriptPubKey has an address form on this network.
pub uninterp spec fn script_addressable(script: Seq<u8>, network: int) -> bool;

/// The address string a scriptPubKey renders to on this network.
pub uninterp spec fn script_address(script: Seq<u8>, network: int) -> Seq<char>;

/// Relies on rust-bitcoin's `Address::from_script` through bdk: whether a
/// scriptPubKey has an address form on a network, and which address string it
/// renders to, are functions of the script bytes and the network alone.
#[verifier::external_body]
fn address_from_script(script: &Vec<u8>, network: &Network) -> (r: Option<String>)
    ensures
        r is Some <==> script_addressable(script@, net_code(*network)),
        r is Some ==> r->0@ == script_address(script@, net_code(*network)),
{
    let net = match network {
        Network::Bitcoin => bdk::bitcoin::Network::Bitcoin,
        Network::Testnet => bdk::bitcoin::Network::Testnet,
        Network::Signet => bdk::bitcoin::Network::Signet,
        Network::Regtest => bdk::bitcoin::Network::Regtest,
    };
    let s = bdk::bitcoin::Script::from(script.clone());
    bdk::bitcoin::Address::from_script(&s, net).map(|a| a.to_string())
}

/// View row `row` presents unspent record `rec`: same outpoint and value,
/// the address re-derived from the record's script on this network, and the
/// height the transaction view gives the record's transaction id.
pub open spec fn utxo_row_matches(
    row: UTXORow,
    rec: UTXORecord,
    tx_view: Seq<TransactionRow>,
    network: int,
) -> bool {
    &&& row.txid@ == rec.txid@
    &&& row.vout == rec.vout
    &&& row.address@ == script_address(rec.script@, network)
    &&& row.amount == rec.value
    &&& row.height == height_for(rec.txid@, tx_view)
}

/// The unspent records whose transaction view height is exactly `h`, in
/// stored order.
pub open spec fn utxos_at_height(
    recs: Seq<UTXORecord>,
    tx_view: Seq<TransactionRow>,
    h: u32,
) -> Seq<UTXORecord>
    decreases recs.len(),
{
    if recs.len() == 0 {
        Seq::empty()
    } else if height_for(recs.first().txid@, tx_view) == h {
        seq![recs.first()] + utxos_at_height(recs.drop_first(), tx_view, h)
    } else {
        utxos_at_height(recs.drop_first(), tx_view, h)
    }
}

proof fn lemma_matched_with_height(
    rows: Seq<UTXORow>,
    recs: Seq<UTXORecord>,
    tx_view: Seq<TransactionRow>,
    network: int,
    h: u32,
)
    requires
        rows.len() == recs.len(),
        forall|i: int| 0 <= i < recs.len() ==> utxo_row_matches(
            #[trigger] rows[i],
            recs[i],
            tx_view,
            network,
        ),
    ensures
        with_height(rows, h).len() == utxos_at_height(recs, tx_view, h).len(),
        forall|k: int| 0 <= k < with_height(rows, h).len() ==> utxo_row_matches(
            #[trigger] with_height(rows, h)[k],
            utxos_at_height(recs, tx_view, h)[k],
            tx_view,
            network,
        ),
    decreases rows.len(),
{
    if rows.len() > 0 {
        let rows1 = rows.drop_first();
        let recs1 = recs.drop_first();
        assert(utxo_row_matches(rows[0], recs[0], tx_view, network));
        assert forall|i: int| 0 <= i < recs1.len() implies utxo_row_matches(
            #[trigger] rows1[i],
            recs1[i],
            tx_view,
            network,
        ) by {
            assert(rows1[i] == rows[i + 1]);
            assert(recs1[i] == recs[i + 1]);
        }
        lemma_matched_with_height(rows1, recs1, tx_view, network, h);
        if rows.first().height_key() == h {
            assert(height_for(recs.first().txid@, tx_view) == h);
            assert(with_height(rows, h) == seq![rows.first()] + with_height(rows1, h));
            assert(utxos_at_height(recs, tx_view, h) == seq![recs.first()] + utxos_at_height(
                recs1,
                tx_view,
                h,
            ));
            assert forall|k: int| 0 <= k < with_height(rows, h).len() implies utxo_row_matches(
                #[trigger] with_height(rows, h)[k],
                utxos_at_height(recs, tx_view, h)[k],
                tx_view,
                network,
            ) by {
                if k > 0 {
                    assert(with_height(rows, h)[k] == with_height(rows1, h)[k - 1]);
                    assert(utxos_at_height(recs, tx_view, h)[k] == utxos_at_height(
                        recs1,
                        tx_view,
                        h,
                    )[k - 1]);
                }
            }
        } else {
            assert(height_for(recs.first().txid@, tx_view) != h);
            assert(with_height(rows, h) == with_height(rows1, h));
            assert(utxos_at_height(recs, tx_view, h) == utxos_at_height(recs1, tx_view, h));
        }
    }
}

/// Row sequence `rows` is the unspent-output view of `utxos` against
/// transaction view `tx_view`: one row per record, sorted by height
/// descending, and for every height the rows at that height present exactly
/// the records the store order gives at that height.
pub open spec fn utxo_rows_match(
    rows: Seq<UTXORow>,
    utxos: Seq<UTXORecord>,
    tx_view: Seq<TransactionRow>,
    network: int,
) -> bool {
    &&& rows.len() == utxos.len()
    &&& sorted_desc(rows)
    &&& (forall|h: u32|
        (#[trigger] with_height(rows, h)).len() == utxos_at_height(utxos, tx_view, h).len())
    &&& (forall|h: u32, k: int|
        0 <= k < with_height(rows, h).len() ==> utxo_row_matches(
            #[trigger] with_height(rows, h)[k],
            utxos_at_height(utxos, tx_view, h)[k],
            tx_view,
            network,
        ))
}

/// What `build_utxo_rows` returns: when every unspent script has an address
/// form on this network, the unspent-output view; otherwise the whole build
/// fails.
pub open spec fn utxo_rows_post(
    utxos: Seq<UTXORecord>,
    tx_view: Seq<TransactionRow>,
    network: int,
    r: Result<Vec<UTXORow>, ReconciliationError>,
) -> bool {
    if forall|i: int| 0 <= i < utxos.len() ==> script_addressable(
        (#[trigger] utxos[i]).script@,
        network,
    ) {
        &&& r is Ok
        &&& utxo_rows_match(r->Ok_0@, utxos, tx_view, network)
    } else {
        r == Err::<Vec<UTXORow>, ReconciliationError>(ReconciliationError::ScriptNotAddressable)
    }
}

/// Builds the unspent-output view against an already-built transaction view:
/// re-derives each owning address from its script on the configured network,
/// joins the confirmation height by transaction id with fallback 0, and
/// sorts by height descending, keeping stored order among equal heights.
pub fn build_utxo_rows(
    utxos: &Vec<UTXORecord>,
    tx_view: &Vec<TransactionRow>,
    network: &Network,
) -> (r: Result<Vec<UTXORow>, ReconciliationError>)
    ensures
        utxo_rows_post(utxos@, tx_view@, net_code(*network), r),
{
    let mut unsorted: Vec<UTXORow> = Vec::new();
    let mut i: usize = 0;
    while i < utxos.len()
        invariant
            0 <= i <= utxos@.len(),
            unsorted@.len() == i,
            forall|k: int| 0 <= k < i ==> utxo_row_matches(
                #[trigger] unsorted@[k],
                utxos@[k],
                tx_view@,
                net_code(*network),
            ),
            forall|k: int| 0 <= k < i ==> script_addressable(
                (#[trigger] utxos@[k]).script@,
                net_code(*network),
            ),
        decreases utxos@.len() - i,
    {
        match address_from_script(&utxos[i].script, network) {
            Some(address) => {
                let height = lookup_height(&utxos[i].txid, tx_view);
                unsorted.push(
                    UTXORow {
                        txid: utxos[i].txid.clone(),
                        vout: utxos[i].vout,
                        address,
                        amount: utxos[i].value,
                        height,
                    },
                );
            },
            None => {
                return Err(ReconciliationError::ScriptNotAddressable);
            },
        }
        i = i + 1;
    }
    let sorted = sort_desc_by_height(&unsorted);
    proof {
        assert forall|h: u32| (#[trigger] with_height(sorted@, h)).len() == utxos_at_height(
            utxos@,
            tx_view@,
            h,
        ).len() by {
            lemma_matched_with_height(unsorted@, utxos@, tx_view@, net_code(*network), h);
            assert(with_height(sorted@, h) == with_height(unsorted@, h));
        }
        assert forall|h: u32, k: int|
            0 <= k < with_height(sorted@, h).len() implies utxo_row_matches(
            #[trigger] with_height(sorted@, h)[k],
            utxos_at_height(utxos@, tx_view@, h)[k],
            tx_view@,
            net_code(*network),
        ) by {
            lemma_matched_with_height(unsorted@, utxos@, tx_view@, net_code(*network), h);
            assert(with_height(sorted@, h) == with_height(unsorted@, h));
        }
    }
    Ok(sorted)
}

/// Field-for-field equivalence of two address rows.
pub open spec fn address_row_eqv(a: AddressRow, b: AddressRow) -> bool {
    &&& a.index == b.index
    &&& a.role == b.role
    &&& a.address@ == b.address@
    &&& a.balance == b.balance
    &&& a.tx_count == b.tx_count
}

/// Field-for-field equivalence of two unspent-output rows.
pub open spec fn utxo_row_eqv(a: UTXORow, b: UTXORow) -> bool {
    &&& a.txid@ == b.txid@
    &&& a.vout == b.vout
    &&& a.address@ == b.address@
    &&& a.amount == b.amount
    &&& a.height == b.height
}

proof fn lemma_with_height_first(s: Seq<UTXORow>, h: u32)
    requires
        s.len() > 0,
        s[0].height_key() == h,
    ensures
        with_height(s, h).len() > 0,
        with_height(s, h)[0] == s[0],
{
    assert(with_height(s, h) == seq![s.first()] + with_height(s.drop_first(), h));
}

proof fn lemma_with_height_nonempty(s: Seq<UTXORow>, h: u32)
    requires
        with_height(s, h).len() > 0,
    ensures
        exists|i: int| 0 <= i < s.len() && (#[trigger] s[i]).height_key() == h,
    decreases s.len(),
{
    if s.len() > 0 {
        if s.first().height_key() == h {
            assert(s[0].height_key() == h);
        } else {
            lemma_with_height_nonempty(s.drop_first(), h);
            let i = choose|i: int|
                0 <= i < s.drop_first().len() && (#[trigger] s.drop_first()[i]).height_key() == h;
            assert(s[i + 1] == s.drop_first()[i]);
        }
    }
}

proof fn lemma_with_height_drop_first(s: Seq<UTXORow>, h: u32)
    requires
        s.len() > 0,
    ensures
        s[0].height_key() == h ==> with_height(s.drop_first(), h) == with_height(s, h).drop_first(),
        s[0].height_key() != h ==> with_height(s.drop_first(), h) == with_height(s, h),
{
    if s[0].height_key() == h {
        assert(with_height(s, h) == seq![s.first()] + with_height(s.drop_first(), h));
        assert((seq![s.first()] + with_height(s.drop_first(), h)).drop_first() =~= with_height(
            s.drop_first(),
            h,
        ));
    }
}

/// A sorted sequence is pinned by its per-height subsequences: two sorted
/// row sequences whose rows at every height agree pairwise agree pairwise as
/// wholes.
proof fn lemma_sorted_eqv_unique(s1: Seq<UTXORow>, s2: Seq<UTXORow>)
    requires
        sorted_desc(s1),
        sorted_desc(s2),
        s1.len() == s2.len(),
        forall|h: u32| (#[trigger] with_height(s1, h)).len() == with_height(s2, h).len(),
        forall|h: u32, k: int|
            0 <= k < with_height(s1, h).len() ==> utxo_row_eqv(
                #[trigger] with_height(s1, h)[k],
                with_height(s2, h)[k],
            ),
    ensures
        forall|i: int| 0 <= i < s1.len() ==> utxo_row_eqv(#[trigger] s1[i], s2[i]),
    decreases s1.len(),
{
    if s1.len() > 0 {
        let h1 = s1[0].height_key();
        let h2 = s2[0].height_key();
        lemma_with_height_first(s1, h1);
        assert(with_height(s2, h1).len() > 0);
        lemma_with_height_nonempty(s2, h1);
        let j1 = choose|j: int| 0 <= j < s2.len() && (#[trigger] s2[j]).height_key() == h1;
        assert(h1 <= h2);
        lemma_with_height_first(s2, h2);
        assert(with_height(s1, h2).len() > 0);
        lemma_with_height_nonempty(s1, h2);
        let j2 = choose|j: int| 0 <= j < s1.len() && (#[trigger] s1[j]).height_key() == h2;
        assert(h2 <= h1);
        let h = h1;
        lemma_with_height_first(s2, h);
        assert(utxo_row_eqv(with_height(s1, h)[0], with_height(s2, h)[0]));
        assert(utxo_row_eqv(s1[0], s2[0]));
        let t1 = s1.drop_first();
        let t2 = s2.drop_first();
        assert forall|i: int, j: int| 0 <= i < j < t1.len() implies t1[i].height_key()
            >= t1[j].height_key() by {
            assert(t1[i] == s1[i + 1]);
            assert(t1[j] == s1[j + 1]);
        }
        assert forall|i: int, j: int| 0 <= i < j < t2.len() implies t2[i].height_key()
            >= t2[j].height_key() by {
            assert(t2[i] == s2[i + 1]);
            assert(t2[j] == s2[j + 1]);
        }
        assert forall|hh: u32| (#[trigger] with_height(t1, hh)).len() == with_height(
            t2,
            hh,
        ).len() by {
            lemma_with_height_drop_first(s1, hh);
            lemma_with_height_drop_first(s2, hh);
        }
        assert forall|hh: u32, k: int|
            0 <= k < with_height(t1, hh).len() implies utxo_row_eqv(
            #[trigger] with_height(t1, hh)[k],
            with_height(t2, hh)[k],
        ) by {
            lemma_with_height_drop_first(s1, hh);
            lemma_with_height_drop_first(s2, hh);
            if hh == h {
                assert(with_height(t1, hh)[k] == with_height(s1, hh)[k + 1]);
                assert(with_height(t2, hh)[k] == with_height(s2, hh)[k + 1]);
            }
        }
        lemma_sorted_eqv_unique(t1, t2);
        assert forall|i: int| 0 <= i < s1.len() implies utxo_row_eqv(#[trigger] s1[i], s2[i]) by {
            if i > 0 {
                assert(s1[i] == t1[i - 1]);
                assert(s2[i] == t2[i - 1]);
            }
        }
    }
}

/// The published wallet view: the three row collections plus the current
/// receive address. Replaced wholesale by a successful rebuild, untouched by
/// a failed one.
pub struct WalletView {
    /// Receive addresses of the display window, in index order.
    pub external_rows: Vec<AddressRow>,
    /// Change addresses of the display window, in index order.
    pub internal_rows: Vec<AddressRow>,
    /// Unspent outputs, height descending.
    pub utxo_rows: Vec<UTXORow>,
    /// Confirmed transactions, height descending.
    pub transaction_rows: Vec<TransactionRow>,
    /// The next unused receive address, from the live issuance cursor.
    pub receive_address: String,
}

/// Whether a rebuild from these inputs succeeds: both batch answers arrived
/// and fit their windows, the receive address was issued, and every unspent
/// script has an address form on this network.
pub open spec fn rebuild_ok(
    ext_infos: Seq<AddressInfo>,
    int_infos: Seq<AddressInfo>,
    ext_batch: Result<BatchData, IndexerError>,
    int_batch: Result<BatchData, IndexerError>,
    receive: Result<AddressInfo, DerivationError>,
    utxos: Seq<UTXORecord>,
    network: int,
) -> bool {
    &&& ext_batch is Ok
    &&& ext_batch->Ok_0.counts@.len() == ext_infos.len()
    &&& ext_batch->Ok_0.balances@.len() == ext_infos.len()
    &&& int_batch is Ok
    &&& int_batch->Ok_0.counts@.len() == int_infos.len()
    &&& int_batch->Ok_0.balances@.len() == int_infos.len()
    &&& receive is Ok
    &&& (forall|i: int|
        0 <= i < utxos.len() ==> script_addressable((#[trigger] utxos[i]).script@, network))
}

/// The error a failed rebuild reports: the first failing step's, in rebuild
/// order — external batch, internal batch, receive address, script
/// reconciliation.
pub open spec fn rebuild_err(
    ext_infos: Seq<AddressInfo>,
    int_infos: Seq<AddressInfo>,
    ext_batch: Result<BatchData, IndexerError>,
    int_batch: Result<BatchData, IndexerError>,
    receive: Result<AddressInfo, DerivationError>,
) -> ViewError {
    if ext_batch is Err {
        ViewError::Indexer(ext_batch->Err_0)
    } else if ext_batch->Ok_0.counts@.len() != ext_infos.len() || ext_batch->Ok_0.balances@.len()
        != ext_infos.len() {
        ViewError::Indexer(IndexerError::SizeMismatch)
    } else if int_batch is Err {
        ViewError::Indexer(int_batch->Err_0)
    } else if int_batch->Ok_0.counts@.len() != int_infos.len() || int_batch->Ok_0.balances@.len()
        != int_infos.len() {
        ViewError::Indexer(IndexerError::SizeMismatch)
    } else if receive is Err {
        ViewError::Derivation(receive->Err_0)
    } else {
        ViewError::Reconciliation(ReconciliationError::ScriptNotAddressable)
    }
}

/// The collections a successful rebuild publishes, given its inputs.
pub open spec fn rebuild_view(
    post: WalletView,
    ext_infos: Seq<AddressInfo>,
    int_infos: Seq<AddressInfo>,
    ext_batch: BatchData,
    int_batch: BatchData,
    receive: AddressInfo,
    records: Seq<TransactionRecord>,
    utxos: Seq<UTXORecord>,
    network: int,
) -> bool {
    &&& address_rows_match(post.external_rows@, ext_infos, ext_batch.counts@, ext_batch.balances@)
    &&& address_rows_match(post.internal_rows@, int_infos, int_batch.counts@, int_batch.balances@)
    &&& post.transaction_rows@ == stable_sorted(confirmed_rows(records))
    &&& sorted_desc(post.transaction_rows@)
    &&& (forall|h: u32|
        #[trigger] with_height(post.transaction_rows@, h) == with_height(
            confirmed_rows(records),
            h,
        ))
    &&& utxo_rows_match(post.utxo_rows@, utxos, post.transaction_rows@, network)
    &&& post.receive_address@ == receive.address@
}

/// What `rebuild` does: on success the whole view is replaced by the
/// collections the inputs determine; on failure the first failing step's
/// error is reported and the previous view is untouched, field for field.
pub open spec fn rebuild_post(
    pre: WalletView,
    post: WalletView,
    ext_infos: Seq<AddressInfo>,
    int_infos: Seq<AddressInfo>,
    ext_batch: Result<BatchData, IndexerError>,
    int_batch: Result<BatchData, IndexerError>,
    receive: Result<AddressInfo, DerivationError>,
    records: Seq<TransactionRecord>,
    utxos: Seq<UTXORecord>,
    network: int,
    r: Result<(), ViewError>,
) -> bool {
    &&& (r is Ok <==> rebuild_ok(ext_infos, int_infos, ext_batch, int_batch, receive, utxos, network))
    &&& (r is Err ==> post == pre && r->Err_0 == rebuild_err(
        ext_infos,
        int_infos,
        ext_batch,
        int_batch,
        receive,
    ))
    &&& (r is Ok ==> rebuild_view(
        post,
        ext_infos,
        int_infos,
        ext_batch->Ok_0,
        int_batch->Ok_0,
        receive->Ok_0,
        records,
        utxos,
        network,
    ))
}

impl WalletView {
    /// An empty view: no rows, no receive address.
    pub fn new() -> (v: Self)
        ensures
            v.external_rows@ == Seq::<AddressRow>::empty(),
            v.internal_rows@ == Seq::<AddressRow>::empty(),
            v.utxo_rows@ == Seq::<UTXORow>::empty(),
            v.transaction_rows@ == Seq::<TransactionRow>::empty(),
            v.receive_address@ == Seq::<char>::empty(),
    {
        WalletView {
            external_rows: Vec::new(),
            internal_rows: Vec::new(),
            utxo_rows: Vec::new(),
            transaction_rows: Vec::new(),
            receive_address: String::new(),
        }
    }

    /// Rebuilds the whole view from one completed round of derivation, batch
    /// lookups and sync: joins the batch answers onto both address windows,
    /// rebuilds the transaction and unspent-output views, and swaps
    /// everything in together. On any step's failure the previous view stays
    /// exactly as it was and the step's error is reported.
    pub fn rebuild(
        &mut self,
        ext_infos: &Vec<AddressInfo>,
        int_infos: &Vec<AddressInfo>,
        ext_batch: &Result<BatchData, IndexerError>,
        int_batch: &Result<BatchData, IndexerError>,
        receive: &Result<AddressInfo, DerivationError>,
        records: &Vec<TransactionRecord>,
        utxos: &Vec<UTXORecord>,
        network: &Network,
    ) -> (r: Result<(), ViewError>)
        ensures
            rebuild_post(
                *old(self),
                *final(self),
                ext_infos@,
                int_infos@,
                *ext_batch,
                *int_batch,
                *receive,
                records@,
                utxos@,
                net_code(*network),
                r,
            ),
    {
        let ext_data = match ext_batch {
            Ok(d) => d,
            Err(e) => {
                return Err(ViewError::Indexer(*e));
            },
        };
        let ext_rows = match address_rows_for(ext_infos, &ext_data.counts, &ext_data.balances) {
            Ok(rows) => rows,
            Err(e) => {
                return Err(ViewError::Indexer(e));
            },
        };
        let int_data = match int_batch {
            Ok(d) => d,
            Err(e) => {
                return Err(ViewError::Indexer(*e));
            },
        };
        let int_rows = match address_rows_for(int_infos, &int_data.counts, &int_data.balances) {
            Ok(rows) => rows,
            Err(e) => {
                return Err(ViewError::Indexer(e));
            },
        };
        let receive_address = match receive {
            Ok(info) => info.address.clone(),
            Err(e) => {
                return Err(ViewError::Derivation(*e));
            },
        };
        let tx_rows = build_transaction_rows(records);
        let u_rows = match build_utxo_rows(utxos, &tx_rows, network) {
            Ok(rows) => rows,
            Err(e) => {
                return Err(ViewError::Reconciliation(e));
            },
        };
        self.external_rows = ext_rows;
        self.internal_rows = int_rows;
        self.transaction_rows = tx_rows;
        self.utxo_rows = u_rows;
        self.receive_address = receive_address;
        Ok(())
    }
}

/// Law: rebuilding is idempotent. Two consecutive rebuilds from identical
/// inputs — the same derived windows, batch answers, receive address and
/// synced records — leave identical row collections and receive address,
/// whether the rebuild succeeds (both publish the same view) or fails (both
/// leave the first view untouched).
pub proof fn lemma_rebuild_idempotent(
    v0: WalletView,
    v1: WalletView,
    v2: WalletView,
    ext_infos: Seq<AddressInfo>,
    int_infos: Seq<AddressInfo>,
    ext_batch: Result<BatchData, IndexerError>,
    int_batch: Result<BatchData, IndexerError>,
    receive: Result<AddressInfo, DerivationError>,
    records: Seq<TransactionRecord>,
    utxos: Seq<UTXORecord>,
    network: int,
    r1: Result<(), ViewError>,
    r2: Result<(), ViewError>,
)
    requires
        rebuild_post(
            v0,
            v1,
            ext_infos,
            int_infos,
            ext_batch,
            int_batch,
            receive,
            records,
            utxos,
            network,
            r1,
        ),
        rebuild_post(
            v1,
            v2,
            ext_infos,
            int_infos,
            ext_batch,
            int_batch,
            receive,
            records,
            utxos,
            network,
            r2,
        ),
    ensures
        r1 is Ok <==> r2 is Ok,
        r1 is Err ==> r1 == r2,
        v2.transaction_rows@ == v1.transaction_rows@,
        v2.external_rows@.len() == v1.external_rows@.len(),
        forall|i: int|
            0 <= i < v1.external_rows@.len() ==> address_row_eqv(
                #[trigger] v2.external_rows@[i],
                v1.external_rows@[i],
            ),
        v2.internal_rows@.len() == v1.internal_rows@.len(),
        forall|i: int|
            0 <= i < v1.internal_rows@.len() ==> address_row_eqv(
                #[trigger] v2.internal_rows@[i],
                v1.internal_rows@[i],
            ),
        v2.utxo_rows@.len() == v1.utxo_rows@.len(),
        forall|i: int|
            0 <= i < v1.utxo_rows@.len() ==> utxo_row_eqv(
                #[trigger] v2.utxo_rows@[i],
                v1.utxo_rows@[i],
            ),
        v2.receive_address@ == v1.receive_address@,
{
    if rebuild_ok(ext_infos, int_infos, ext_batch, int_batch, receive, utxos, network) {
        let tx = stable_sorted(confirmed_rows(records));
        assert(v1.transaction_rows@ == tx);
        assert(v2.transaction_rows@ == tx);
        assert forall|i: int|
            0 <= i < v1.external_rows@.len() implies address_row_eqv(
            #[trigger] v2.external_rows@[i],
            v1.external_rows@[i],
        ) by {
            assert(crate::indexer::address_row_matches(
                v1.external_rows@[i],
                ext_infos[i],
                ext_batch->Ok_0.counts@[i],
                ext_batch->Ok_0.balances@[i],
            ));
            assert(crate::indexer::address_row_matches(
                v2.external_rows@[i],
                ext_infos[i],
                ext_batch->Ok_0.counts@[i],
                ext_batch->Ok_0.balances@[i],
            ));
        }
        assert forall|i: int|
            0 <= i < v1.internal_rows@.len() implies address_row_eqv(
            #[trigger] v2.internal_rows@[i],
            v1.internal_rows@[i],
        ) by {
            assert(crate::indexer::address_row_matches(
                v1.internal_rows@[i],
                int_infos[i],
                int_batch->Ok_0.counts@[i],
                int_batch->Ok_0.balances@[i],
            ));
            assert(crate::indexer::address_row_matches(
                v2.internal_rows@[i],
                int_infos[i],
                int_batch->Ok_0.counts@[i],
                int_batch->Ok_0.balances@[i],
            ));
        }
        assert forall|h: u32| (#[trigger] with_height(v1.utxo_rows@, h)).len() == with_height(
            v2.utxo_rows@,
            h,
        ).len() by {
            assert(with_height(v1.utxo_rows@, h).len() == utxos_at_height(utxos, tx, h).len());
            assert(with_height(v2.utxo_rows@, h).len() == utxos_at_height(utxos, tx, h).len());
        }
        assert forall|h: u32, k: int|
            0 <= k < with_height(v1.utxo_rows@, h).len() implies utxo_row_eqv(
            #[trigger] with_height(v1.utxo_rows@, h)[k],
            with_height(v2.utxo_rows@, h)[k],
        ) by {
            assert(utxo_row_matches(
                with_height(v1.utxo_rows@, h)[k],
                utxos_at_height(utxos, tx, h)[k],
                tx,
                network,
            ));
            assert(utxo_row_matches(
                with_height(v2.utxo_rows@, h)[k],
                utxos_at_height(utxos, tx, h)[k],
                tx,
                network,
            ));
        }
        lemma_sorted_eqv_unique(v1.utxo_rows@, v2.utxo_rows@);
        assert forall|i: int|
            0 <= i < v1.utxo_rows@.len() implies utxo_row_eqv(
            #[trigger] v2.utxo_rows@[i],
            v1.utxo_rows@[i],
        ) by {
            assert(utxo_row_eqv(v1.utxo_rows@[i], v2.utxo_rows@[i]));
        }
    } else {
        let e = rebuild_err(ext_infos, int_infos, ext_batch, int_batch, receive);
        assert(r1 == Err::<(), ViewError>(e));
        assert(r2 == Err::<(), ViewError>(e));
        assert(v1 == v0);
        assert(v2 == v1);
    }
}

} // verus!
