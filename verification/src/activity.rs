//! Activity log: the append-only, time-ordered ledger of price events, with
//! product and store display names denormalized at write time; and the small
//! name catalog those lookups read.

use vstd::prelude::*;

use crate::text::str_eq_str;

verus! {

/// The kind of a price event.
#[derive(Clone, Copy, Debug, PartialEq, Eq, Structural)]
pub enum ActivityKind {
    ItemAdded,
    PriceSet,
    PriceUpdated,
    ItemRemoved,
}

impl ActivityKind {
    /// The wire code of this kind.
    pub fn as_code(&self) -> (r: &'static str)
        ensures
            *self == ActivityKind::ItemAdded ==> r@ == "item_added"@,
            *self == ActivityKind::PriceSet ==> r@ == "price_set"@,
            *self == ActivityKind::PriceUpdated ==> r@ == "price_updated"@,
            *self == ActivityKind::ItemRemoved ==> r@ == "item_removed"@,
    {
        match self {
            ActivityKind::ItemAdded => "item_added",
            ActivityKind::PriceSet => "price_set",
            ActivityKind::PriceUpdated => "price_updated",
            ActivityKind::ItemRemoved => "item_removed",
        }
    }
}

/// One price event. Timestamps are milliseconds since the epoch; for
/// propagation-triggered entries they come from the receipt's transaction
/// date. Names are a snapshot taken at write time.
pub struct ActivityEntry {
    pub store_id: String,
    pub product_id: Option<String>,
    pub kind: ActivityKind,
    pub ts_ms: i64,
    pub price: Option<i64>,
    pub product_name: Option<String>,
    pub store_name: Option<String>,
}

pub ghost struct ActivityEntryModel {
    pub store_id: Seq<char>,
    pub product_id: Option<Seq<char>>,
    pub kind: ActivityKind,
    pub ts_ms: int,
    pub price: Option<int>,
    pub product_name: Option<Seq<char>>,
    pub store_name: Option<Seq<char>>,
}

impl View for ActivityEntry {
    type V = ActivityEntryModel;

    open spec fn view(&self) -> ActivityEntryModel {
        ActivityEntryModel {
            store_id: self.store_id@,
            product_id: crate::operation::opt_string_view(self.product_id),
            kind: self.kind,
            ts_ms: self.ts_ms as int,
            price: match self.price {
                Some(p) => Some(p as int),
                None => None,
            },
            product_name: crate::operation::opt_string_view(self.product_name),
            store_name: crate::operation::opt_string_view(self.store_name),
        }
    }
}

/// The append-only activity ledger.
pub struct ActivityLog {
    pub entries: Vec<ActivityEntry>,
}

impl View for ActivityLog {
    type V = Seq<ActivityEntryModel>;

    open spec fn view(&self) -> Seq<ActivityEntryModel> {
        self.entries@.map_values(|e: ActivityEntry| e@)
    }
}

impl ActivityLog {
    pub fn new() -> (r: ActivityLog)
        ensures
            r@ == Seq::<ActivityEntryModel>::empty(),
    {
        let r = ActivityLog { entries: Vec::new() };
        proof {
            assert(r@ =~= Seq::<ActivityEntryModel>::empty());
        }
        r
    }

    pub fn len(&self) -> (n: usize)
        ensures
            n == self@.len(),
    {
        self.entries.len()
    }

    /// Appends one entry; nothing is ever removed or rewritten.
    pub fn append(&mut self, e: ActivityEntry)
        ensures
            final(self)@ == old(self)@.push(e@),
    {
        let ghost em = e@;
        self.entries.push(e);
        proof {
            assert(self@ =~= old(self)@.push(em));
        }
    }
}

/// The name listed for `id`, earliest listing first.
pub open spec fn lookup_name(s: Seq<(Seq<char>, Seq<char>)>, id: Seq<char>) -> Option<Seq<char>>
    decreases s.len(),
{
    if s.len() == 0 {
        None
    } else if s[0].0 == id {
        Some(s[0].1)
    } else {
        lookup_name(s.drop_first(), id)
    }
}

/// Display names of products and stores, as (identifier, name) listings.
pub struct Catalog {
    pub products: Vec<(String, String)>,
    pub stores: Vec<(String, String)>,
}

impl Catalog {
    pub open spec fn products_model(&self) -> Seq<(Seq<char>, Seq<char>)> {
        self.products@.map_values(|p: (String, String)| (p.0@, p.1@))
    }

    pub open spec fn stores_model(&self) -> Seq<(Seq<char>, Seq<char>)> {
        self.stores@.map_values(|p: (String, String)| (p.0@, p.1@))
    }

    pub fn new() -> (r: Catalog)
        ensures
            r.products_model() == Seq::<(Seq<char>, Seq<char>)>::empty(),
            r.stores_model() == Seq::<(Seq<char>, Seq<char>)>::empty(),
    {
        let r = Catalog { products: Vec::new(), stores: Vec::new() };
        proof {
            assert(r.products_model() =~= Seq::<(Seq<char>, Seq<char>)>::empty());
            assert(r.stores_model() =~= Seq::<(Seq<char>, Seq<char>)>::empty());
        }
        r
    }

    pub fn add_product(&mut self, id: String, name: String)
        ensures
            final(self).products_model() == old(self).products_model().push((id@, name@)),
            final(self).stores_model() == old(self).stores_model(),
    {
        let ghost key = id@;
        let ghost val = name@;
        self.products.push((id, name));
        proof {
            assert(self.products_model() =~= old(self).products_model().push((key, val)));
        }
    }

    pub fn add_store(&mut self, id: String, name: String)
        ensures
            final(self).stores_model() == old(self).stores_model().push((id@, name@)),
            final(self).products_model() == old(self).products_model(),
    {
        let ghost key = id@;
        let ghost val = name@;
        self.stores.push((id, name));
        proof {
            assert(self.stores_model() =~= old(self).stores_model().push((key, val)));
        }
    }

    /// The display name listed for a product id.
    pub fn product_name(&self, id: &str) -> (r: Option<String>)
        ensures
            crate::operation::opt_string_view(r) == lookup_name(self.products_model(), id@),
    {
        lookup_in(&self.products, id)
    }

    /// The display name listed for a store id.
    pub fn store_name(&self, id: &str) -> (r: Option<String>)
        ensures
            crate::operation::opt_string_view(r) == lookup_name(self.stores_model(), id@),
    {
        lookup_in(&self.stores, id)
    }
}

/// First-match lookup in an (identifier, name) listing.
fn lookup_in(list: &Vec<(String, String)>, id: &str) -> (r: Option<String>)
    ensures
        crate::operation::opt_string_view(r) == lookup_name(
            list@.map_values(|p: (String, String)| (p.0@, p.1@)),
            id@,
        ),
{
    let ghost model = list@.map_values(|p: (String, String)| (p.0@, p.1@));
    proof {
        assert(model.skip(0) =~= model);
    }
    let n = list.len();
    let mut i: usize = 0;
    while i < n
        invariant
            0 <= i <= n,
            n == model.len(),
            model == list@.map_values(|p: (String, String)| (p.0@, p.1@)),
            lookup_name(model, id@) == lookup_name(model.skip(i as int), id@),
            forall|k: int| 0 <= k < i ==> model[k].0 != id@,
        decreases n - i,
    {
        proof {
            assert(model.skip(i as int)[0] == model[i as int]);
        }
        if str_eq_str(list[i].0.as_str(), id) {
            return Some(list[i].1.clone());
        }
        proof {
            assert(model.skip(i as int).drop_first() =~= model.skip(i + 1));
        }
        i = i + 1;
    }
    proof {
        assert(model.skip(n as int) =~= Seq::<(Seq<char>, Seq<char>)>::empty());
    }
    None
}

} // verus!
