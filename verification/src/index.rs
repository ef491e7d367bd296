//! Price index: the current-state table of best-known price per
//! (store, product) pair, keyed uniquely and upserted by propagation.

use vstd::prelude::*;

use crate::text::str_eq_str;

verus! {

/// One current-price row.
pub struct PriceIndexEntry {
    pub store_id: String,
    pub product_id: String,
    pub price: i64,
}

pub ghost struct PriceIndexEntryModel {
    pub store_id: Seq<char>,
    pub product_id: Seq<char>,
    pub price: int,
}

impl View for PriceIndexEntry {
    type V = PriceIndexEntryModel;

    open spec fn view(&self) -> PriceIndexEntryModel {
        PriceIndexEntryModel {
            store_id: self.store_id@,
            product_id: self.product_id@,
            price: self.price as int,
        }
    }
}

/// The key of a row.
pub open spec fn entry_key(e: PriceIndexEntryModel) -> (Seq<char>, Seq<char>) {
    (e.store_id, e.product_id)
}

/// The mapping a sequence of rows denotes, later rows winning.
pub open spec fn rows_as_map(s: Seq<PriceIndexEntryModel>) -> Map<(Seq<char>, Seq<char>), int>
    decreases s.len(),
{
    if s.len() == 0 {
        Map::empty()
    } else {
        rows_as_map(s.drop_last()).insert(entry_key(s.last()), s.last().price)
    }
}

/// A key is in the mapping exactly when some row carries it.
proof fn lemma_rows_as_map_contains(s: Seq<PriceIndexEntryModel>, k: (Seq<char>, Seq<char>))
    ensures
        rows_as_map(s).contains_key(k) <==> exists|i: int|
            0 <= i < s.len() && entry_key(#[trigger] s[i]) == k,
    decreases s.len(),
{
    if s.len() > 0 {
        lemma_rows_as_map_contains(s.drop_last(), k);
        if entry_key(s.last()) == k {
            assert(entry_key(s[s.len() - 1]) == k);
        } else if rows_as_map(s).contains_key(k) {
            let i = choose|i: int| 0 <= i < s.drop_last().len() && entry_key(
                #[trigger] s.drop_last()[i],
            ) == k;
            assert(entry_key(s[i]) == k);
        } else {
            assert forall|i: int| 0 <= i < s.len() implies entry_key(#[trigger] s[i]) != k by {
                if i < s.len() - 1 {
                    assert(s.drop_last()[i] == s[i]);
                }
            }
        }
    }
}

/// With unique keys, the mapping reads each row's price back.
proof fn lemma_rows_as_map_value(s: Seq<PriceIndexEntryModel>, i: int)
    requires
        forall|a: int, b: int|
            0 <= a < b < s.len() ==> entry_key(#[trigger] s[a]) != entry_key(#[trigger] s[b]),
        0 <= i < s.len(),
    ensures
        rows_as_map(s).contains_key(entry_key(s[i])),
        rows_as_map(s)[entry_key(s[i])] == s[i].price,
    decreases s.len(),
{
    if i == s.len() - 1 {
        assert(s.last() == s[i]);
    } else {
        let pre = s.drop_last();
        assert(pre[i] == s[i]);
        lemma_rows_as_map_value(pre, i);
        assert(entry_key(s.last()) != entry_key(s[i]));
    }
}

/// Overwriting row `i`'s price updates just that key in the mapping.
proof fn lemma_rows_as_map_set_price(s: Seq<PriceIndexEntryModel>, i: int, price: int)
    requires
        forall|a: int, b: int|
            0 <= a < b < s.len() ==> entry_key(#[trigger] s[a]) != entry_key(#[trigger] s[b]),
        0 <= i < s.len(),
    ensures
        rows_as_map(s.update(i, PriceIndexEntryModel { price, ..s[i] })) == rows_as_map(s).insert(
            entry_key(s[i]),
            price,
        ),
    decreases s.len(),
{
    let e = PriceIndexEntryModel { price, ..s[i] };
    let s2 = s.update(i, e);
    if i == s.len() - 1 {
        assert(s2.drop_last() =~= s.drop_last());
        assert(s2.last() == e);
        assert(rows_as_map(s2) =~= rows_as_map(s).insert(entry_key(s[i]), price));
    } else {
        let pre = s.drop_last();
        assert(pre[i] == s[i]);
        lemma_rows_as_map_set_price(pre, i, price);
        assert(s2.drop_last() =~= pre.update(i, e));
        assert(s2.last() == s.last());
        assert(entry_key(s.last()) != entry_key(s[i]));
        assert(rows_as_map(s2) =~= rows_as_map(s).insert(entry_key(s[i]), price));
    }
}

/// Dropping row `i` removes just that key from the mapping.
proof fn lemma_rows_as_map_remove(s: Seq<PriceIndexEntryModel>, i: int)
    requires
        forall|a: int, b: int|
            0 <= a < b < s.len() ==> entry_key(#[trigger] s[a]) != entry_key(#[trigger] s[b]),
        0 <= i < s.len(),
    ensures
        rows_as_map(s.remove(i)) == rows_as_map(s).remove(entry_key(s[i])),
    decreases s.len(),
{
    let s2 = s.remove(i);
    if i == s.len() - 1 {
        let pre = s.drop_last();
        assert(s2 =~= pre);
        lemma_rows_as_map_contains(pre, entry_key(s[i]));
        assert(forall|k: int| 0 <= k < pre.len() ==> entry_key(#[trigger] pre[k]) != entry_key(
            s[i],
        ));
        assert(rows_as_map(s2) =~= rows_as_map(s).remove(entry_key(s[i])));
    } else {
        let pre = s.drop_last();
        assert(pre[i] == s[i]);
        lemma_rows_as_map_remove(pre, i);
        assert(s2.drop_last() =~= pre.remove(i));
        assert(s2.last() == s.last());
        assert(entry_key(s.last()) != entry_key(s[i]));
        assert(rows_as_map(s2) =~= rows_as_map(s).remove(entry_key(s[i])));
    }
}

/// The current-price table.
pub struct PriceIndex {
    pub entries: Vec<PriceIndexEntry>,
}

impl PriceIndex {
    /// The rows, in storage order.
    pub open spec fn rows(&self) -> Seq<PriceIndexEntryModel> {
        self.entries@.map_values(|e: PriceIndexEntry| e@)
    }

    /// No two rows share a (store, product) key.
    pub open spec fn wf(&self) -> bool {
        forall|a: int, b: int|
            0 <= a < b < self.rows().len() ==> entry_key(#[trigger] self.rows()[a]) != entry_key(
                #[trigger] self.rows()[b],
            )
    }

    pub fn new() -> (r: PriceIndex)
        ensures
            r.rows() == Seq::<PriceIndexEntryModel>::empty(),
            r@ == Map::<(Seq<char>, Seq<char>), int>::empty(),
            r.wf(),
    {
        let r = PriceIndex { entries: Vec::new() };
        proof {
            assert(r.rows() =~= Seq::<PriceIndexEntryModel>::empty());
        }
        r
    }

    pub fn len(&self) -> (n: usize)
        ensures
            n == self.rows().len(),
    {
        self.entries.len()
    }

    /// The position of the row keyed (store, product), if any.
    fn find_pair(&self, store_id: &str, product_id: &str) -> (r: Option<usize>)
        ensures
            match r {
                Some(i) => i < self.rows().len() && entry_key(self.rows()[i as int]) == (
                    store_id@,
                    product_id@,
                ),
                None => forall|k: int|
                    0 <= k < self.rows().len() ==> entry_key(#[trigger] self.rows()[k]) != (
                        store_id@,
                        product_id@,
                    ),
            },
    {
        let n = self.entries.len();
        let mut i: usize = 0;
        while i < n
            invariant
                0 <= i <= n,
                n == self.rows().len(),
                forall|k: int|
                    0 <= k < i ==> entry_key(#[trigger] self.rows()[k]) != (store_id@, product_id@),
            decreases n - i,
        {
            if str_eq_str(self.entries[i].store_id.as_str(), store_id) && str_eq_str(
                self.entries[i].product_id.as_str(),
                product_id,
            ) {
                return Some(i);
            }
            i = i + 1;
        }
        None
    }

    /// The current price recorded for (store, product), if any.
    pub fn get(&self, store_id: &str, product_id: &str) -> (r: Option<i64>)
        requires
            self.wf(),
        ensures
            match r {
                Some(p) => self@.contains_key((store_id@, product_id@)) && p as int == self@[
                    (store_id@, product_id@)
                ],
                None => !self@.contains_key((store_id@, product_id@)),
            },
    {
        proof {
            lemma_rows_as_map_contains(self.rows(), (store_id@, product_id@));
        }
        match self.find_pair(store_id, product_id) {
            Some(i) => {
                proof {
                    lemma_rows_as_map_value(self.rows(), i as int);
                }
                Some(self.entries[i].price)
            },
            None => None,
        }
    }

    /// Inserts the pair when absent, otherwise overwrites its price
    /// unconditionally: the last completed propagation wins.
    pub fn upsert(&mut self, store_id: &str, product_id: &str, price: i64)
        requires
            old(self).wf(),
        ensures
            final(self).wf(),
            final(self)@ == old(self)@.insert((store_id@, product_id@), price as int),
    {
        match self.find_pair(store_id, product_id) {
            Some(i) => {
                let ghost rows = self.rows();
                self.entries[i].price = price;
                proof {
                    assert(self.rows() =~= rows.update(
                        i as int,
                        PriceIndexEntryModel { price: price as int, ..rows[i as int] },
                    ));
                    lemma_rows_as_map_set_price(rows, i as int, price as int);
                }
            },
            None => {
                let ghost rows = self.rows();
                self.entries.push(
                    PriceIndexEntry {
                        store_id: String::from_str(store_id),
                        product_id: String::from_str(product_id),
                        price,
                    },
                );
                proof {
                    let e = PriceIndexEntryModel {
                        store_id: store_id@,
                        product_id: product_id@,
                        price: price as int,
                    };
                    assert(self.rows() =~= rows.push(e));
                    assert(self.rows().drop_last() =~= rows);
                }
            },
        }
    }
}

impl PriceIndex {
    /// Drops the row keyed (store, product), reporting whether one existed.
    pub fn remove(&mut self, store_id: &str, product_id: &str) -> (r: bool)
        requires
            old(self).wf(),
        ensures
            final(self).wf(),
            r == old(self)@.contains_key((store_id@, product_id@)),
            final(self)@ == old(self)@.remove((store_id@, product_id@)),
    {
        proof {
            lemma_rows_as_map_contains(self.rows(), (store_id@, product_id@));
        }
        match self.find_pair(store_id, product_id) {
            Some(i) => {
                let ghost rows = self.rows();
                self.entries.remove(i);
                proof {
                    assert(self.rows() =~= rows.remove(i as int));
                    lemma_rows_as_map_remove(rows, i as int);
                    assert forall|a: int, b: int|
                        0 <= a < b < self.rows().len() implies entry_key(
                        #[trigger] self.rows()[a],
                    ) != entry_key(#[trigger] self.rows()[b]) by {
                        assert(self.rows()[a] == if a < i { rows[a] } else { rows[a + 1] });
                        assert(self.rows()[b] == if b < i { rows[b] } else { rows[b + 1] });
                    }
                }
                true
            },
            None => {
                proof {
                    assert(self@ =~= self@.remove((store_id@, product_id@)));
                }
                false
            },
        }
    }
}

impl View for PriceIndex {
    type V = Map<(Seq<char>, Seq<char>), int>;

    open spec fn view(&self) -> Map<(Seq<char>, Seq<char>), int> {
        rows_as_map(self.rows())
    }
}

} // verus!
