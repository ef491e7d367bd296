//! Price propagation: posting an operation writes each resolvable item's
//! price into the price index and appends one activity entry per item,
//! dated from the receipt's transaction date rather than the wall clock.
//!
//! Propagation runs before the status flag changes, so a retried crash simply
//! runs it again; the index ends in the same state (see
//! `lemma_propagation_idempotent`), and the activity log may gain
//! duplicate-looking entries by design.

use vstd::prelude::*;

use crate::activity::{ActivityEntry, ActivityEntryModel, ActivityKind, ActivityLog, Catalog, lookup_name};
use crate::index::PriceIndex;
use crate::operation::{
    Ledger, OpStatus, OperationItem, UpdateStatus, parse_status, status_of_code,
};

verus! {

/// What chrono's RFC 3339 parser makes of a date text, in milliseconds since
/// the epoch: a function of the text alone.
pub uninterp spec fn rfc3339_millis(s: Seq<char>) -> Option<i64>;

/// Relies on chrono's DateTime::parse_from_rfc3339 to read a date text, and
/// timestamp_millis to turn the parsed instant into epoch milliseconds.
#[verifier::external_body]
fn parse_rfc3339_ms(s: &str) -> (r: Option<i64>)
    ensures
        r == rfc3339_millis(s@),
{
    match chrono::DateTime::parse_from_rfc3339(s) {
        Ok(dt) => Some(dt.timestamp_millis()),
        Err(_) => None,
    }
}

/// The timestamp propagation stamps on activity entries: the operation's
/// transaction date when it parses, else the caller's clock reading.
pub open spec fn effective_ts(date: Seq<char>, fallback: int) -> int {
    match rfc3339_millis(date) {
        Some(ms) => ms as int,
        None => fallback,
    }
}

/// Resolves an RFC 3339 date text to epoch milliseconds, falling back to the
/// given clock reading.
pub fn resolve_ts(date: &str, fallback: i64) -> (r: i64)
    ensures
        r as int == effective_ts(date@, fallback as int),
{
    match parse_rfc3339_ms(date) {
        Some(ms) => ms,
        None => fallback,
    }
}

/// The product id an item propagates under: its typed field when present,
/// else the raw payload's id at the same position.
pub open spec fn resolved_product_id(
    items: Seq<crate::operation::OperationItemModel>,
    raw: Seq<Option<Seq<char>>>,
    idx: int,
) -> Option<Seq<char>> {
    if items[idx].product_id is Some {
        items[idx].product_id
    } else if 0 <= idx < raw.len() {
        raw[idx]
    } else {
        None
    }
}

/// The price index after the first `n` items are propagated, in item order.
pub open spec fn spec_propagate_index(
    m: Map<(Seq<char>, Seq<char>), int>,
    store: Seq<char>,
    items: Seq<crate::operation::OperationItemModel>,
    raw: Seq<Option<Seq<char>>>,
    n: int,
) -> Map<(Seq<char>, Seq<char>), int>
    decreases n,
{
    if n <= 0 {
        m
    } else {
        let prev = spec_propagate_index(m, store, items, raw, n - 1);
        match resolved_product_id(items, raw, n - 1) {
            Some(pid) => prev.insert((store, pid), items[n - 1].price),
            None => prev,
        }
    }
}

/// The activity entries propagation appends for the first `n` items: one
/// price-set entry per resolvable item, in item order.
pub open spec fn spec_propagate_entries(
    store: Seq<char>,
    items: Seq<crate::operation::OperationItemModel>,
    raw: Seq<Option<Seq<char>>>,
    ts: int,
    products: Seq<(Seq<char>, Seq<char>)>,
    stores: Seq<(Seq<char>, Seq<char>)>,
    n: int,
) -> Seq<ActivityEntryModel>
    decreases n,
{
    if n <= 0 {
        Seq::empty()
    } else {
        let prev = spec_propagate_entries(store, items, raw, ts, products, stores, n - 1);
        match resolved_product_id(items, raw, n - 1) {
            Some(pid) => prev.push(
                ActivityEntryModel {
                    store_id: store,
                    product_id: Some(pid),
                    kind: ActivityKind::PriceSet,
                    ts_ms: ts,
                    price: Some(items[n - 1].price),
                    product_name: lookup_name(products, pid),
                    store_name: lookup_name(stores, store),
                },
            ),
            None => prev,
        }
    }
}

/// Whether the state machine admits a move from `cur` to `target`: a posted
/// operation can only move to deleted (re-posting is a separate no-op), and
/// nothing leaves deleted.
pub open spec fn transition_allowed(cur: OpStatus, target: OpStatus) -> bool {
    match cur {
        OpStatus::Deleted => false,
        OpStatus::Posted => target == OpStatus::Posted || target == OpStatus::Deleted,
        OpStatus::Draft => true,
    }
}

/// Why a status change was refused.
#[derive(Clone, Copy, Debug, PartialEq, Eq, Structural)]
pub enum TransitionError {
    NotFound,
    /// Posting requires a store assignment.
    MissingStore,
    /// The move is outside the state machine.
    NotAllowed,
    /// The status wire code names no status.
    InvalidStatus,
}

/// Writes one operation's resolvable item prices into the index and appends
/// the matching activity entries, in item order. Safe to re-run: the index
/// ends the same, the log grows by the same entries again.
pub fn propagate_items(
    index: &mut PriceIndex,
    log: &mut ActivityLog,
    store_id: &str,
    items: &Vec<OperationItem>,
    raw_product_ids: &Vec<Option<String>>,
    catalog: &Catalog,
    ts: i64,
)
    requires
        old(index).wf(),
    ensures
        final(index).wf(),
        final(index)@ == spec_propagate_index(
            old(index)@,
            store_id@,
            items@.map_values(|it: OperationItem| it@),
            raw_product_ids@.map_values(|p: Option<String>| crate::operation::opt_string_view(p)),
            items@.len() as int,
        ),
        final(log)@ == old(log)@ + spec_propagate_entries(
            store_id@,
            items@.map_values(|it: OperationItem| it@),
            raw_product_ids@.map_values(|p: Option<String>| crate::operation::opt_string_view(p)),
            ts as int,
            catalog.products_model(),
            catalog.stores_model(),
            items@.len() as int,
        ),
{
    let ghost itemsm = items@.map_values(|it: OperationItem| it@);
    let ghost rawm = raw_product_ids@.map_values(
        |p: Option<String>| crate::operation::opt_string_view(p),
    );
    let n = items.len();
    let mut i: usize = 0;
    while i < n
        invariant
            0 <= i <= n,
            n == itemsm.len(),
            itemsm == items@.map_values(|it: OperationItem| it@),
            rawm == raw_product_ids@.map_values(
                |p: Option<String>| crate::operation::opt_string_view(p),
            ),
            index.wf(),
            index@ == spec_propagate_index(old(index)@, store_id@, itemsm, rawm, i as int),
            log@ == old(log)@ + spec_propagate_entries(
                store_id@,
                itemsm,
                rawm,
                ts as int,
                catalog.products_model(),
                catalog.stores_model(),
                i as int,
            ),
        decreases n - i,
    {
        let item = &items[i];
        let resolved: Option<&String> = match &item.product_id {
            Some(pid) => Some(pid),
            None => {
                if i < raw_product_ids.len() {
                    match &raw_product_ids[i] {
                        Some(pid) => Some(pid),
                        None => None,
                    }
                } else {
                    None
                }
            },
        };
        proof {
            assert(itemsm[i as int] == items@[i as int]@);
            assert(i < rawm.len() ==> rawm[i as int] == crate::operation::opt_string_view(
                raw_product_ids@[i as int],
            ));
        }
        match resolved {
            Some(pid) => {
                proof {
                    assert(resolved_product_id(itemsm, rawm, i as int) == Some(pid@));
                }
                index.upsert(store_id, pid.as_str(), item.price);
                let product_name = catalog.product_name(pid.as_str());
                let store_name = catalog.store_name(store_id);
                let entry = ActivityEntry {
                    store_id: String::from_str(store_id),
                    product_id: Some(pid.clone()),
                    kind: ActivityKind::PriceSet,
                    ts_ms: ts,
                    price: Some(item.price),
                    product_name,
                    store_name,
                };
                log.append(entry);
            },
            None => {
                proof {
                    assert(resolved_product_id(itemsm, rawm, i as int) is None);
                }
            },
        }
        proof {
            assert(log@ =~= old(log)@ + spec_propagate_entries(
                store_id@,
                itemsm,
                rawm,
                ts as int,
                catalog.products_model(),
                catalog.stores_model(),
                i + 1,
            ));
        }
        i = i + 1;
    }
}

/// Everything a status change promises, relating the ledger, index and log
/// before and after the call to its result.
pub open spec fn spec_transition_post(
    pre: crate::operation::LedgerModel,
    post: crate::operation::LedgerModel,
    pre_index: Map<(Seq<char>, Seq<char>), int>,
    post_index: Map<(Seq<char>, Seq<char>), int>,
    pre_log: Seq<ActivityEntryModel>,
    post_log: Seq<ActivityEntryModel>,
    products: Seq<(Seq<char>, Seq<char>)>,
    stores: Seq<(Seq<char>, Seq<char>)>,
    id: int,
    target: OpStatus,
    now_ms: int,
    r: Result<(), TransitionError>,
) -> bool {
    match r {
        Err(TransitionError::InvalidStatus) => false,
        Err(TransitionError::NotFound) => {
            &&& (forall|i: int| 0 <= i < pre.ops.len() ==> (#[trigger] pre.ops[i].id) != id)
            &&& post == pre
            &&& post_index == pre_index
            &&& post_log == pre_log
        },
        Err(TransitionError::NotAllowed) => {
            &&& (exists|i: int|
                0 <= i < pre.ops.len() && (#[trigger] pre.ops[i].id) == id && !transition_allowed(
                    pre.ops[i].status,
                    target,
                ))
            &&& post == pre
            &&& post_index == pre_index
            &&& post_log == pre_log
        },
        Err(TransitionError::MissingStore) => {
            &&& target == OpStatus::Posted
            &&& (exists|i: int|
                0 <= i < pre.ops.len() && (#[trigger] pre.ops[i].id) == id && pre.ops[i].status
                    == OpStatus::Draft && pre.ops[i].store_id is None)
            &&& post == pre
            &&& post_index == pre_index
            &&& post_log == pre_log
        },
        Ok(()) => exists|i: int|
            {
                &&& 0 <= i < pre.ops.len()
                &&& (#[trigger] pre.ops[i].id) == id
                &&& transition_allowed(pre.ops[i].status, target)
                &&& if target == OpStatus::Posted && pre.ops[i].status == OpStatus::Posted {
                    // Re-posting a posted operation is a no-op.
                    post == pre && post_index == pre_index && post_log == pre_log
                } else if target == OpStatus::Posted {
                    // Posting a draft: the store must be set; every
                    // resolvable item's price is upserted, one activity entry
                    // per item is appended, dated from the operation's date,
                    // and only then does the status flip.
                    &&& pre.ops[i].status == OpStatus::Draft
                    &&& pre.ops[i].store_id is Some
                    &&& post.ops == pre.ops.update(
                        i,
                        crate::operation::OperationModel { status: OpStatus::Posted, ..pre.ops[i] },
                    )
                    &&& post.next_id == pre.next_id
                    &&& post_index == spec_propagate_index(
                        pre_index,
                        pre.ops[i].store_id->Some_0,
                        pre.ops[i].items,
                        pre.ops[i].raw_product_ids,
                        pre.ops[i].items.len() as int,
                    )
                    &&& post_log == pre_log + spec_propagate_entries(
                        pre.ops[i].store_id->Some_0,
                        pre.ops[i].items,
                        pre.ops[i].raw_product_ids,
                        effective_ts(pre.ops[i].date, now_ms),
                        products,
                        stores,
                        pre.ops[i].items.len() as int,
                    )
                } else {
                    // Moving to draft (only from draft) or to deleted: no
                    // propagation.
                    &&& post.ops == pre.ops.update(
                        i,
                        crate::operation::OperationModel { status: target, ..pre.ops[i] },
                    )
                    &&& post.next_id == pre.next_id
                    &&& post_index == pre_index
                    &&& post_log == pre_log
                }
            },
    }
}

impl Ledger {
    /// Moves the operation with identifier `id` to `target`, propagating
    /// prices when a draft is posted. `now_ms` is the caller's clock reading,
    /// used only when the operation's date does not parse.
    pub fn transition(
        &mut self,
        id: u64,
        target: OpStatus,
        index: &mut PriceIndex,
        log: &mut ActivityLog,
        catalog: &Catalog,
        now_ms: i64,
    ) -> (r: Result<(), TransitionError>)
        requires
            old(self).wf(),
            old(index).wf(),
        ensures
            final(self).wf(),
            final(index).wf(),
            spec_transition_post(
                old(self)@,
                final(self)@,
                old(index)@,
                final(index)@,
                old(log)@,
                final(log)@,
                catalog.products_model(),
                catalog.stores_model(),
                id as int,
                target,
                now_ms as int,
                r,
            ),
    {
        let idx = match self.find_index(id) {
            Some(i) => i,
            None => {
                return Err(TransitionError::NotFound);
            },
        };
        let cur = self.ops[idx].status;
        let allowed = match cur {
            OpStatus::Deleted => false,
            OpStatus::Posted => target == OpStatus::Posted || target == OpStatus::Deleted,
            OpStatus::Draft => true,
        };
        if !allowed {
            return Err(TransitionError::NotAllowed);
        }
        let ghost pre_ops = self@.ops;
        if target == OpStatus::Posted {
            if cur == OpStatus::Posted {
                return Ok(());
            }
            if self.ops[idx].store_id.is_none() {
                return Err(TransitionError::MissingStore);
            }
            let op = &self.ops[idx];
            let store = match &op.store_id {
                Some(s) => s,
                None => {
                    return Err(TransitionError::MissingStore);
                },
            };
            let ts = resolve_ts(op.date.as_str(), now_ms);
            propagate_items(index, log, store.as_str(), &op.items, &op.raw_product_ids, catalog, ts);
            self.ops[idx].status = OpStatus::Posted;
            proof {
                assert(self@.ops =~= pre_ops.update(
                    idx as int,
                    crate::operation::OperationModel {
                        status: OpStatus::Posted,
                        ..pre_ops[idx as int]
                    },
                ));
            }
            Ok(())
        } else {
            self.ops[idx].status = target;
            proof {
                assert(self@.ops =~= pre_ops.update(
                    idx as int,
                    crate::operation::OperationModel { status: target, ..pre_ops[idx as int] },
                ));
            }
            Ok(())
        }
    }

    /// Applies a status request carried as a wire code, refusing unknown
    /// codes as invalid.
    pub fn update_status(
        &mut self,
        id: u64,
        body: &UpdateStatus,
        index: &mut PriceIndex,
        log: &mut ActivityLog,
        catalog: &Catalog,
        now_ms: i64,
    ) -> (r: Result<(), TransitionError>)
        requires
            old(self).wf(),
            old(index).wf(),
        ensures
            final(self).wf(),
            final(index).wf(),
            match status_of_code(body.status@) {
                None => {
                    &&& r == Err::<(), TransitionError>(TransitionError::InvalidStatus)
                    &&& final(self)@ == old(self)@
                    &&& final(index)@ == old(index)@
                    &&& final(log)@ == old(log)@
                },
                Some(target) => spec_transition_post(
                    old(self)@,
                    final(self)@,
                    old(index)@,
                    final(index)@,
                    old(log)@,
                    final(log)@,
                    catalog.products_model(),
                    catalog.stores_model(),
                    id as int,
                    target,
                    now_ms as int,
                    r,
                ),
            },
    {
        let target = match parse_status(body.status.as_str()) {
            Some(t) => t,
            None => {
                return Err(TransitionError::InvalidStatus);
            },
        };
        self.transition(id, target, index, log, catalog, now_ms)
    }
}

/// The keys propagation of the first `n` items writes.
pub open spec fn touched_keys(
    store: Seq<char>,
    items: Seq<crate::operation::OperationItemModel>,
    raw: Seq<Option<Seq<char>>>,
    n: int,
) -> Set<(Seq<char>, Seq<char>)>
    decreases n,
{
    if n <= 0 {
        Set::empty()
    } else {
        let prev = touched_keys(store, items, raw, n - 1);
        match resolved_product_id(items, raw, n - 1) {
            Some(pid) => prev.insert((store, pid)),
            None => prev,
        }
    }
}

/// Keys propagation does not write keep their prior binding.
proof fn lemma_propagate_untouched(
    m: Map<(Seq<char>, Seq<char>), int>,
    store: Seq<char>,
    items: Seq<crate::operation::OperationItemModel>,
    raw: Seq<Option<Seq<char>>>,
    n: int,
    k: (Seq<char>, Seq<char>),
)
    requires
        !touched_keys(store, items, raw, n).contains(k),
    ensures
        spec_propagate_index(m, store, items, raw, n).contains_key(k) == m.contains_key(k),
        m.contains_key(k) ==> spec_propagate_index(m, store, items, raw, n)[k] == m[k],
    decreases n,
{
    if n > 0 {
        lemma_propagate_untouched(m, store, items, raw, n - 1, k);
    }
}

/// On the keys propagation writes, the outcome does not depend on the index
/// it started from.
proof fn lemma_propagate_touched(
    m1: Map<(Seq<char>, Seq<char>), int>,
    m2: Map<(Seq<char>, Seq<char>), int>,
    store: Seq<char>,
    items: Seq<crate::operation::OperationItemModel>,
    raw: Seq<Option<Seq<char>>>,
    n: int,
    k: (Seq<char>, Seq<char>),
)
    requires
        touched_keys(store, items, raw, n).contains(k),
    ensures
        spec_propagate_index(m1, store, items, raw, n).contains_key(k),
        spec_propagate_index(m2, store, items, raw, n).contains_key(k),
        spec_propagate_index(m1, store, items, raw, n)[k] == spec_propagate_index(
            m2,
            store,
            items,
            raw,
            n,
        )[k],
    decreases n,
{
    if n > 0 {
        match resolved_product_id(items, raw, n - 1) {
            Some(pid) => {
                if k != (store, pid) {
                    lemma_propagate_touched(m1, m2, store, items, raw, n - 1, k);
                }
            },
            None => {
                lemma_propagate_touched(m1, m2, store, items, raw, n - 1, k);
            },
        }
    }
}

/// Propagation is idempotent on the price index: running the same
/// operation's items through it a second time (as a retried crash does)
/// leaves the index exactly as the first run left it, one binding per
/// (store, product) pair.
pub proof fn lemma_propagation_idempotent(
    m: Map<(Seq<char>, Seq<char>), int>,
    store: Seq<char>,
    items: Seq<crate::operation::OperationItemModel>,
    raw: Seq<Option<Seq<char>>>,
)
    ensures
        spec_propagate_index(
            spec_propagate_index(m, store, items, raw, items.len() as int),
            store,
            items,
            raw,
            items.len() as int,
        ) == spec_propagate_index(m, store, items, raw, items.len() as int),
{
    let n = items.len() as int;
    let m1 = spec_propagate_index(m, store, items, raw, n);
    let m2 = spec_propagate_index(m1, store, items, raw, n);
    assert forall|k: (Seq<char>, Seq<char>)| #[trigger]
        m2.contains_key(k) == m1.contains_key(k) && (m1.contains_key(k) ==> m2[k] == m1[k]) by {
        if touched_keys(store, items, raw, n).contains(k) {
            lemma_propagate_touched(m1, m, store, items, raw, n, k);
        } else {
            lemma_propagate_untouched(m1, store, items, raw, n, k);
        }
    }
    assert(m2 =~= m1);
}

/// The operation state machine in one statement: `posted` is reachable only
/// from `draft`; re-posting a posted operation is admitted (and the
/// transition contract makes it a no-op); nothing leaves `deleted`.
pub proof fn lemma_state_machine(cur: OpStatus, target: OpStatus)
    ensures
        transition_allowed(cur, target) && target == OpStatus::Posted && cur != OpStatus::Posted
            ==> cur == OpStatus::Draft,
        transition_allowed(OpStatus::Posted, OpStatus::Posted),
        cur == OpStatus::Deleted ==> !transition_allowed(cur, target),
        cur == OpStatus::Posted && target == OpStatus::Draft ==> !transition_allowed(cur, target),
{
}

} // verus!
