//! Manual price maintenance: the admin operations that write the price index
//! directly, each leaving its own kind of entry in the activity log. Unlike
//! propagation these are dated by the wall clock, not a receipt.

use vstd::prelude::*;

use crate::activity::{ActivityEntry, ActivityEntryModel, ActivityKind, ActivityLog, Catalog, lookup_name};
use crate::index::PriceIndex;

verus! {

/// The activity entry one manual price operation appends.
pub open spec fn manual_entry(
    store_id: Seq<char>,
    product_id: Seq<char>,
    kind: ActivityKind,
    price: Option<int>,
    products: Seq<(Seq<char>, Seq<char>)>,
    stores: Seq<(Seq<char>, Seq<char>)>,
    now_ms: int,
) -> ActivityEntryModel {
    ActivityEntryModel {
        store_id,
        product_id: Some(product_id),
        kind,
        ts_ms: now_ms,
        price,
        product_name: lookup_name(products, product_id),
        store_name: lookup_name(stores, store_id),
    }
}

/// Builds one such entry.
fn make_entry(
    store_id: &str,
    product_id: &str,
    kind: ActivityKind,
    price: Option<i64>,
    catalog: &Catalog,
    now_ms: i64,
) -> (r: ActivityEntry)
    ensures
        r@ == manual_entry(
            store_id@,
            product_id@,
            kind,
            (match price {
                Some(p) => Some(p as int),
                None => None,
            }),
            catalog.products_model(),
            catalog.stores_model(),
            now_ms as int,
        ),
{
    ActivityEntry {
        store_id: String::from_str(store_id),
        product_id: Some(String::from_str(product_id)),
        kind,
        ts_ms: now_ms,
        price,
        product_name: catalog.product_name(product_id),
        store_name: catalog.store_name(store_id),
    }
}

/// Lists a product at a store: upserts the price unconditionally and logs an
/// item-added entry.
pub fn add_store_item(
    index: &mut PriceIndex,
    log: &mut ActivityLog,
    store_id: &str,
    product_id: &str,
    price: i64,
    catalog: &Catalog,
    now_ms: i64,
)
    requires
        old(index).wf(),
    ensures
        final(index).wf(),
        final(index)@ == old(index)@.insert((store_id@, product_id@), price as int),
        final(log)@ == old(log)@.push(
            manual_entry(
                store_id@,
                product_id@,
                ActivityKind::ItemAdded,
                Some(price as int),
                catalog.products_model(),
                catalog.stores_model(),
                now_ms as int,
            ),
        ),
{
    index.upsert(store_id, product_id, price);
    let entry = make_entry(store_id, product_id, ActivityKind::ItemAdded, Some(price), catalog, now_ms);
    log.append(entry);
}

/// Changes the price of a listed product: refused (changing nothing) when
/// the pair is not listed; otherwise the price is overwritten and a
/// price-updated entry is logged.
pub fn update_store_item(
    index: &mut PriceIndex,
    log: &mut ActivityLog,
    store_id: &str,
    product_id: &str,
    price: i64,
    catalog: &Catalog,
    now_ms: i64,
) -> (r: bool)
    requires
        old(index).wf(),
    ensures
        final(index).wf(),
        r == old(index)@.contains_key((store_id@, product_id@)),
        r ==> final(index)@ == old(index)@.insert((store_id@, product_id@), price as int)
            && final(log)@ == old(log)@.push(
            manual_entry(
                store_id@,
                product_id@,
                ActivityKind::PriceUpdated,
                Some(price as int),
                catalog.products_model(),
                catalog.stores_model(),
                now_ms as int,
            ),
        ),
        !r ==> final(index)@ == old(index)@ && final(log)@ == old(log)@,
{
    match index.get(store_id, product_id) {
        Some(_) => {
            index.upsert(store_id, product_id, price);
            let entry = make_entry(
                store_id,
                product_id,
                ActivityKind::PriceUpdated,
                Some(price),
                catalog,
                now_ms,
            );
            log.append(entry);
            true
        },
        None => false,
    }
}

/// Delists a product from a store: refused (changing nothing) when the pair
/// is not listed; otherwise the row is dropped and an item-removed entry,
/// with no price, is logged.
pub fn remove_store_item(
    index: &mut PriceIndex,
    log: &mut ActivityLog,
    store_id: &str,
    product_id: &str,
    catalog: &Catalog,
    now_ms: i64,
) -> (r: bool)
    requires
        old(index).wf(),
    ensures
        final(index).wf(),
        r == old(index)@.contains_key((store_id@, product_id@)),
        final(index)@ == old(index)@.remove((store_id@, product_id@)),
        r ==> final(log)@ == old(log)@.push(
            manual_entry(
                store_id@,
                product_id@,
                ActivityKind::ItemRemoved,
                None,
                catalog.products_model(),
                catalog.stores_model(),
                now_ms as int,
            ),
        ),
        !r ==> final(log)@ == old(log)@,
{
    if index.remove(store_id, product_id) {
        let entry = make_entry(store_id, product_id, ActivityKind::ItemRemoved, None, catalog, now_ms);
        log.append(entry);
        true
    } else {
        proof {
            assert(old(index)@ =~= old(index)@.remove((store_id@, product_id@)));
        }
        false
    }
}

} // verus!
