//! Stable descending sort by confirmation height, shared by the transaction
//! and unspent-output view rows.
//!
//! The sorted order is pinned by the specification function [`stable_sorted`];
//! the lemmas below state the two facts presentation code relies on: the
//! result is sorted descending, and rows of equal height keep the relative
//! order the input gave them.

use vstd::prelude::*;
use crate::types::{TransactionRow, UTXORow};

verus! {

/// A row kind that carries a confirmation height to sort by.
pub trait HeightOrdered: Sized {
    /// The sort key.
    spec fn height_key(&self) -> u32;

    /// The sort key, computed.
    fn height_key_exec(&self) -> (k: u32)
        ensures
            k == self.height_key(),
    ;

    /// An independent copy, field for field.
    fn duplicate(&self) -> (r: Self)
        ensures
            r == *self,
    ;
}

impl HeightOrdered for TransactionRow {
    open spec fn height_key(&self) -> u32 {
        self.height
    }

    fn height_key_exec(&self) -> (k: u32) {
        self.height
    }

    fn duplicate(&self) -> (r: Self) {
        TransactionRow { txid: self.txid.clone(), net_amount: self.net_amount, height: self.height }
    }
}

impl HeightOrdered for UTXORow {
    open spec fn height_key(&self) -> u32 {
        self.height
    }

    fn height_key_exec(&self) -> (k: u32) {
        self.height
    }

    fn duplicate(&self) -> (r: Self) {
        UTXORow {
            txid: self.txid.clone(),
            vout: self.vout,
            address: self.address.clone(),
            amount: self.amount,
            height: self.height,
        }
    }
}

/// The rows of `s` at exactly height `h`, in the order `s` gives them.
pub open spec fn with_height<T: HeightOrdered>(s: Seq<T>, h: u32) -> Seq<T>
    decreases s.len(),
{
    if s.len() == 0 {
        Seq::empty()
    } else if s.first().height_key() == h {
        seq![s.first()] + with_height(s.drop_first(), h)
    } else {
        with_height(s.drop_first(), h)
    }
}

/// Heights never increase along the sequence.
pub open spec fn sorted_desc<T: HeightOrdered>(s: Seq<T>) -> bool {
    forall|i: int, j: int| 0 <= i < j < s.len() ==> s[i].height_key() >= s[j].height_key()
}

/// `x` inserted into `s` after every element whose height is at least
/// `x`'s own: the stable insertion position for a descending order.
pub open spec fn insert_desc<T: HeightOrdered>(s: Seq<T>, x: T) -> Seq<T>
    decreases s.len(),
{
    if s.len() == 0 {
        seq![x]
    } else if s.first().height_key() >= x.height_key() {
        seq![s.first()] + insert_desc(s.drop_first(), x)
    } else {
        seq![x] + s
    }
}

/// The stable descending reordering of `s`: each element in turn inserted
/// behind its equal-or-higher predecessors.
pub open spec fn stable_sorted<T: HeightOrdered>(s: Seq<T>) -> Seq<T>
    decreases s.len(),
{
    if s.len() == 0 {
        Seq::empty()
    } else {
        insert_desc(stable_sorted(s.drop_last()), s.last())
    }
}

proof fn lemma_with_height_none<T: HeightOrdered>(s: Seq<T>, h: u32)
    requires
        forall|i: int| 0 <= i < s.len() ==> s[i].height_key() != h,
    ensures
        with_height(s, h) == Seq::<T>::empty(),
    decreases s.len(),
{
    if s.len() > 0 {
        assert(s.first().height_key() != h);
        assert forall|i: int| 0 <= i < s.drop_first().len() implies s.drop_first()[
            i
        ].height_key() != h by {
            assert(s.drop_first()[i] == s[i + 1]);
        }
        lemma_with_height_none(s.drop_first(), h);
    }
}

proof fn lemma_with_height_push<T: HeightOrdered>(s: Seq<T>, x: T, h: u32)
    ensures
        x.height_key() == h ==> with_height(s.push(x), h) == with_height(s, h).push(x),
        x.height_key() != h ==> with_height(s.push(x), h) == with_height(s, h),
    decreases s.len(),
{
    let e = Seq::<T>::empty();
    if s.len() == 0 {
        assert(s.push(x).first() == x);
        assert(s.push(x).drop_first() =~= e);
        assert(with_height(e, h) == e);
        assert(with_height(s, h) == e);
        if x.height_key() == h {
            assert(with_height(s.push(x), h) == seq![x] + with_height(e, h));
            assert(with_height(s.push(x), h) =~= e.push(x));
        } else {
            assert(with_height(s.push(x), h) == with_height(e, h));
        }
    } else {
        assert(s.push(x).first() == s.first());
        assert(s.push(x).drop_first() =~= s.drop_first().push(x));
        lemma_with_height_push(s.drop_first(), x, h);
        if s.first().height_key() == h {
            assert(with_height(s.push(x), h) == seq![s.first()] + with_height(
                s.drop_first().push(x),
                h,
            ));
            assert(with_height(s, h) == seq![s.first()] + with_height(s.drop_first(), h));
            if x.height_key() == h {
                assert(with_height(s.push(x), h) =~= with_height(s, h).push(x));
            }
        } else {
            assert(with_height(s.push(x), h) == with_height(s.drop_first().push(x), h));
            assert(with_height(s, h) == with_height(s.drop_first(), h));
        }
    }
}

proof fn lemma_insert_desc_len<T: HeightOrdered>(s: Seq<T>, x: T)
    ensures
        insert_desc(s, x).len() == s.len() + 1,
    decreases s.len(),
{
    if s.len() > 0 && s.first().height_key() >= x.height_key() {
        lemma_insert_desc_len(s.drop_first(), x);
    }
}

proof fn lemma_insert_desc_keys_le<T: HeightOrdered>(s: Seq<T>, x: T, b: u32)
    requires
        forall|i: int| 0 <= i < s.len() ==> s[i].height_key() <= b,
        x.height_key() <= b,
    ensures
        forall|i: int| 0 <= i < insert_desc(s, x).len() ==> insert_desc(s, x)[i].height_key() <= b,
    decreases s.len(),
{
    if s.len() == 0 {
    } else if s.first().height_key() >= x.height_key() {
        let rest = s.drop_first();
        assert forall|i: int| 0 <= i < rest.len() implies rest[i].height_key() <= b by {
            assert(rest[i] == s[i + 1]);
        }
        lemma_insert_desc_keys_le(rest, x, b);
        assert forall|i: int| 0 <= i < insert_desc(s, x).len() implies insert_desc(s, x)[
            i
        ].height_key() <= b by {
            if i > 0 {
                assert(insert_desc(s, x)[i] == insert_desc(rest, x)[i - 1]);
            }
        }
    } else {
        assert forall|i: int| 0 <= i < insert_desc(s, x).len() implies insert_desc(s, x)[
            i
        ].height_key() <= b by {
            if i > 0 {
                assert(insert_desc(s, x)[i] == s[i - 1]);
            }
        }
    }
}

proof fn lemma_insert_desc_sorted<T: HeightOrdered>(s: Seq<T>, x: T)
    requires
        sorted_desc(s),
    ensures
        sorted_desc(insert_desc(s, x)),
    decreases s.len(),
{
    if s.len() == 0 {
    } else if s.first().height_key() >= x.height_key() {
        let rest = s.drop_first();
        assert forall|i: int, j: int| 0 <= i < j < rest.len() implies rest[i].height_key()
            >= rest[j].height_key() by {
            assert(rest[i] == s[i + 1]);
            assert(rest[j] == s[j + 1]);
        }
        lemma_insert_desc_sorted(rest, x);
        assert forall|i: int| 0 <= i < rest.len() implies rest[i].height_key()
            <= s.first().height_key() by {
            assert(rest[i] == s[i + 1]);
        }
        lemma_insert_desc_keys_le(rest, x, s.first().height_key());
        let r = insert_desc(s, x);
        assert(r == seq![s.first()] + insert_desc(rest, x));
        assert forall|i: int, j: int| 0 <= i < j < r.len() implies r[i].height_key()
            >= r[j].height_key() by {
            assert(r[j] == insert_desc(rest, x)[j - 1]);
            if i > 0 {
                assert(r[i] == insert_desc(rest, x)[i - 1]);
            }
        }
    } else {
        let r = insert_desc(s, x);
        assert(r == seq![x] + s);
        assert forall|i: int, j: int| 0 <= i < j < r.len() implies r[i].height_key()
            >= r[j].height_key() by {
            assert(r[j] == s[j - 1]);
            if i == 0 {
                if j > 1 {
                    assert(s[j - 1].height_key() <= s[0].height_key());
                }
            } else {
                assert(r[i] == s[i - 1]);
            }
        }
    }
}

proof fn lemma_insert_desc_with_height<T: HeightOrdered>(s: Seq<T>, x: T, h: u32)
    requires
        sorted_desc(s),
    ensures
        x.height_key() == h ==> with_height(insert_desc(s, x), h) == with_height(s, h).push(x),
        x.height_key() != h ==> with_height(insert_desc(s, x), h) == with_height(s, h),
    decreases s.len(),
{
    let e = Seq::<T>::empty();
    let r = insert_desc(s, x);
    if s.len() == 0 {
        assert(r == seq![x]);
        assert(r.first() == x);
        assert(r.drop_first() =~= e);
        assert(with_height(e, h) == e);
        assert(with_height(s, h) == e);
        if x.height_key() == h {
            assert(with_height(r, h) == seq![x] + with_height(e, h));
            assert(with_height(r, h) =~= e.push(x));
        } else {
            assert(with_height(r, h) == with_height(e, h));
        }
    } else if s.first().height_key() >= x.height_key() {
        let rest = s.drop_first();
        assert forall|i: int, j: int| 0 <= i < j < rest.len() implies rest[i].height_key()
            >= rest[j].height_key() by {
            assert(rest[i] == s[i + 1]);
            assert(rest[j] == s[j + 1]);
        }
        lemma_insert_desc_with_height(rest, x, h);
        assert(r == seq![s.first()] + insert_desc(rest, x));
        assert(r.len() == 1 + insert_desc(rest, x).len());
        assert(r.first() == s.first());
        assert(r.drop_first() =~= insert_desc(rest, x));
        if s.first().height_key() == h {
            assert(with_height(r, h) == seq![s.first()] + with_height(insert_desc(rest, x), h));
            assert(with_height(s, h) == seq![s.first()] + with_height(rest, h));
            if x.height_key() == h {
                assert(with_height(r, h) == seq![s.first()] + with_height(rest, h).push(x));
                assert(with_height(r, h) =~= (seq![s.first()] + with_height(rest, h)).push(x));
            }
        } else {
            assert(with_height(r, h) == with_height(insert_desc(rest, x), h));
            assert(with_height(s, h) == with_height(rest, h));
        }
    } else {
        assert(r == seq![x] + s);
        assert(r.first() == x);
        assert(r.drop_first() =~= s);
        assert forall|i: int| 0 <= i < s.len() implies s[i].height_key() < x.height_key() by {
            if i > 0 {
                assert(s[i].height_key() <= s[0].height_key());
            }
        }
        if x.height_key() == h {
            lemma_with_height_none(s, h);
            assert(with_height(r, h) == seq![x] + with_height(s, h));
            assert(with_height(r, h) =~= with_height(s, h).push(x));
        } else {
            assert(with_height(r, h) == with_height(s, h));
        }
    }
}

/// Sorting never loses or invents rows: the result has the input's length.
pub proof fn lemma_stable_sorted_len<T: HeightOrdered>(s: Seq<T>)
    ensures
        stable_sorted(s).len() == s.len(),
    decreases s.len(),
{
    if s.len() > 0 {
        lemma_stable_sorted_len(s.drop_last());
        lemma_insert_desc_len(stable_sorted(s.drop_last()), s.last());
    }
}

/// The stable reordering is sorted: heights never increase along it.
pub proof fn lemma_stable_sorted_sorted<T: HeightOrdered>(s: Seq<T>)
    ensures
        sorted_desc(stable_sorted(s)),
    decreases s.len(),
{
    if s.len() > 0 {
        lemma_stable_sorted_sorted(s.drop_last());
        lemma_insert_desc_sorted(stable_sorted(s.drop_last()), s.last());
    }
}

/// Law of sort stability: for every height, the rows at that height come out
/// of the sort exactly as the input ordered them.
pub proof fn lemma_stable_sorted_with_height<T: HeightOrdered>(s: Seq<T>, h: u32)
    ensures
        with_height(stable_sorted(s), h) == with_height(s, h),
    decreases s.len(),
{
    if s.len() == 0 {
        assert(stable_sorted(s) == Seq::<T>::empty());
    } else {
        let butlast = s.drop_last();
        let x = s.last();
        lemma_stable_sorted_with_height(butlast, h);
        lemma_stable_sorted_sorted(butlast);
        lemma_insert_desc_with_height(stable_sorted(butlast), x, h);
        assert(butlast.push(x) =~= s);
        lemma_with_height_push(butlast, x, h);
    }
}

proof fn lemma_insert_desc_at<T: HeightOrdered>(s: Seq<T>, x: T, p: int)
    requires
        sorted_desc(s),
        0 <= p <= s.len(),
        forall|i: int| 0 <= i < p ==> s[i].height_key() >= x.height_key(),
        p < s.len() ==> s[p].height_key() < x.height_key(),
    ensures
        insert_desc(s, x) == s.insert(p, x),
    decreases p,
{
    if p == 0 {
        if s.len() == 0 {
            assert(insert_desc(s, x) =~= s.insert(0, x));
        } else {
            assert(s[0].height_key() < x.height_key());
            assert(insert_desc(s, x) == seq![x] + s);
            assert(insert_desc(s, x) =~= s.insert(0, x));
        }
    } else {
        assert(s[0].height_key() >= x.height_key());
        let rest = s.drop_first();
        assert forall|i: int, j: int| 0 <= i < j < rest.len() implies rest[i].height_key()
            >= rest[j].height_key() by {
            assert(rest[i] == s[i + 1]);
            assert(rest[j] == s[j + 1]);
        }
        assert forall|i: int| 0 <= i < p - 1 implies rest[i].height_key() >= x.height_key() by {
            assert(rest[i] == s[i + 1]);
        }
        assert(p - 1 < rest.len() ==> rest[p - 1] == s[p]);
        lemma_insert_desc_at(rest, x, p - 1);
        assert(insert_desc(s, x) == seq![s.first()] + rest.insert(p - 1, x));
        assert(insert_desc(s, x) =~= s.insert(p, x));
    }
}

/// Reorders `rows` into descending height, keeping the input's relative order
/// among rows of equal height.
pub fn sort_desc_by_height<T: HeightOrdered>(rows: &Vec<T>) -> (out: Vec<T>)
    ensures
        out@ == stable_sorted(rows@),
        out@.len() == rows@.len(),
        sorted_desc(out@),
        forall|h: u32| with_height(out@, h) == with_height(rows@, h),
{
    let n = rows.len();
    let mut out: Vec<T> = Vec::new();
    let mut i: usize = 0;
    while i < n
        invariant
            n == rows@.len(),
            0 <= i <= n,
            out@ == stable_sorted(rows@.take(i as int)),
            sorted_desc(out@),
        decreases n - i,
    {
        let x = rows[i].duplicate();
        let xk = x.height_key_exec();
        let mut p: usize = 0;
        while p < out.len() && out[p].height_key_exec() >= xk
            invariant
                xk == x.height_key(),
                0 <= p <= out@.len(),
                forall|k: int| 0 <= k < p ==> out@[k].height_key() >= x.height_key(),
            decreases out.len() - p,
        {
            p = p + 1;
        }
        proof {
            lemma_insert_desc_at(out@, x, p as int);
        }
        let ghost prev = out@;
        out.insert(p, x);
        proof {
            assert(out@ == insert_desc(prev, x));
            assert(rows@.take(i as int + 1).drop_last() =~= rows@.take(i as int));
            assert(rows@.take(i as int + 1).last() == rows@[i as int]);
            lemma_insert_desc_sorted(prev, x);
        }
        i = i + 1;
    }
    proof {
        assert(rows@.take(n as int) =~= rows@);
        lemma_stable_sorted_len(rows@);
        assert forall|h: u32| with_height(out@, h) == with_height(rows@, h) by {
            lemma_stable_sorted_with_height(rows@, h);
        }
    }
    out
}

} // verus!
