//! The ingestion pipeline end to end: receipt submission, the operation
//! state machine, and price propagation.

use pricecrowd::activity::{ActivityKind, ActivityLog, Catalog};
use pricecrowd::index::PriceIndex;
use pricecrowd::operation::{
    CreateOperationBody, Ledger, OpStatus, OperationItem, OperationUpdateBody, UpdateStatus,
};
use pricecrowd::propagate::{propagate_items, resolve_ts, TransitionError};
use pricecrowd::receipt::{QrData, ReceiptStore, SubmitStatus};

const QR: &str = "t=20240101T1200&fn=123&i=456&fp=789";
const DATE: &str = "2024-01-01T12:00:00+00:00";
const DATE_MS: i64 = 1704110400000;

fn draft_body(
    qr: Option<&str>,
    uploaded_by: Option<&str>,
    items: Vec<OperationItem>,
) -> CreateOperationBody {
    CreateOperationBody {
        date: DATE.to_string(),
        seller: "Shop".to_string(),
        amount: 8990,
        items,
        qr: qr.map(|s| s.to_string()),
        uploaded_by: uploaded_by.map(|s| s.to_string()),
        raw_product_ids: Vec::new(),
    }
}

fn milk_item() -> OperationItem {
    OperationItem {
        name: "Milk".to_string(),
        price: 8990,
        quantity: 1,
        product_id: Some("P1".to_string()),
    }
}

#[test]
fn submit_idempotent() {
    let mut store = ReceiptStore::new();
    assert_eq!(store.submit(QR, "alice".to_string(), "web".to_string(), 1), SubmitStatus::Accepted);
    assert_eq!(
        store.submit(QR, "bob".to_string(), "web".to_string(), 2),
        SubmitStatus::Duplicate
    );
    assert_eq!(store.len(), 1);
    assert_eq!(store.records[0].qr, QR);
    assert_eq!(store.records[0].submitted_by, "alice");
}

#[test]
fn submit_trims_payload() {
    let mut store = ReceiptStore::new();
    let padded = format!("  {}\n", QR);
    assert_eq!(
        store.submit(&padded, "a".to_string(), "web".to_string(), 1),
        SubmitStatus::Accepted
    );
    assert_eq!(store.submit(QR, "a".to_string(), "web".to_string(), 2), SubmitStatus::Duplicate);
}

#[test]
fn submit_rejects_malformed() {
    let mut store = ReceiptStore::new();
    // Too short.
    assert_eq!(
        store.submit("t=1&fn=2", "a".to_string(), "w".to_string(), 1),
        SubmitStatus::InvalidFormat
    );
    // No fiscal-number marker.
    assert_eq!(
        store.submit("t=20240101T1200&i=456&fp=789", "a".to_string(), "w".to_string(), 1),
        SubmitStatus::InvalidFormat
    );
    // No timestamp marker.
    assert_eq!(
        store.submit("x=20240101&fn=123&i=456&fp=9", "a".to_string(), "w".to_string(), 1),
        SubmitStatus::InvalidFormat
    );
    assert_eq!(store.len(), 0);
}

#[test]
fn submit_qr_data_defaults() {
    let mut store = ReceiptStore::new();
    let data = QrData { qr: QR.to_string(), user: None, source: None };
    assert_eq!(store.submit_qr_data(data, 7), SubmitStatus::Accepted);
    assert_eq!(store.records[0].submitted_by, "anonymous");
    assert_eq!(store.records[0].source, "telegram_webapp");
    assert_eq!(store.records[0].received_at, 7);
}

#[test]
fn submit_status_codes() {
    assert_eq!(SubmitStatus::Accepted.as_code(), "ok");
    assert_eq!(SubmitStatus::Duplicate.as_code(), "duplicate");
    assert_eq!(SubmitStatus::InvalidFormat.as_code(), "invalid_qr");
}

#[test]
fn list_recent_is_newest_first_and_bounded() {
    let mut store = ReceiptStore::new();
    for k in 0..5 {
        let qr = format!("t=20240101T120{}&fn=123&i=456&fp=789", k);
        assert_eq!(
            store.submit(&qr, "a".to_string(), "w".to_string(), k as i64),
            SubmitStatus::Accepted
        );
    }
    let recent = store.list_recent(3);
    assert_eq!(recent.len(), 3);
    assert_eq!(recent[0].received_at, 4);
    assert_eq!(recent[1].received_at, 3);
    assert_eq!(recent[2].received_at, 2);
}

#[test]
fn state_machine_posted_only_from_draft() {
    let mut lg = Ledger::new();
    let mut index = PriceIndex::new();
    let mut log = ActivityLog::new();
    let catalog = Catalog::new();

    let id = lg.create(draft_body(None, None, vec![milk_item()])).unwrap();
    // Posting without a store fails.
    assert_eq!(
        lg.transition(id, OpStatus::Posted, &mut index, &mut log, &catalog, 0),
        Err(TransitionError::MissingStore)
    );
    // Assign a store, post, and re-post: the second call is a no-op.
    lg.update(id, OperationUpdateBody { store_id: Some("S1".to_string()), items: None }).unwrap();
    assert_eq!(lg.transition(id, OpStatus::Posted, &mut index, &mut log, &catalog, 0), Ok(()));
    assert_eq!(lg.ops[0].status, OpStatus::Posted);
    assert_eq!(lg.transition(id, OpStatus::Posted, &mut index, &mut log, &catalog, 0), Ok(()));
    assert_eq!(log.len(), 1);
    // A posted operation cannot go back to draft.
    assert_eq!(
        lg.transition(id, OpStatus::Draft, &mut index, &mut log, &catalog, 0),
        Err(TransitionError::NotAllowed)
    );
    // Deletion is allowed from posted, and is terminal.
    assert_eq!(lg.transition(id, OpStatus::Deleted, &mut index, &mut log, &catalog, 0), Ok(()));
    for target in [OpStatus::Draft, OpStatus::Posted, OpStatus::Deleted] {
        assert_eq!(
            lg.transition(id, target, &mut index, &mut log, &catalog, 0),
            Err(TransitionError::NotAllowed)
        );
    }
}

#[test]
fn state_machine_unknown_ids_and_codes() {
    let mut lg = Ledger::new();
    let mut index = PriceIndex::new();
    let mut log = ActivityLog::new();
    let catalog = Catalog::new();
    assert_eq!(
        lg.transition(99, OpStatus::Posted, &mut index, &mut log, &catalog, 0),
        Err(TransitionError::NotFound)
    );
    let id = lg.create(draft_body(None, None, Vec::new())).unwrap();
    let body = UpdateStatus { status: "banana".to_string() };
    assert_eq!(
        lg.update_status(id, &body, &mut index, &mut log, &catalog, 0),
        Err(TransitionError::InvalidStatus)
    );
    let posted = UpdateStatus { status: "deleted".to_string() };
    assert_eq!(lg.update_status(id, &posted, &mut index, &mut log, &catalog, 0), Ok(()));
    assert_eq!(lg.ops[0].status, OpStatus::Deleted);
}

#[test]
fn propagation_idempotent_under_retry() {
    let mut index = PriceIndex::new();
    let mut log = ActivityLog::new();
    let catalog = Catalog::new();
    let items = vec![milk_item()];
    let raw: Vec<Option<String>> = Vec::new();
    // A crash after propagation but before the status write is retried by
    // running propagation again.
    propagate_items(&mut index, &mut log, "S1", &items, &raw, &catalog, DATE_MS);
    propagate_items(&mut index, &mut log, "S1", &items, &raw, &catalog, DATE_MS);
    assert_eq!(index.len(), 1);
    assert_eq!(index.get("S1", "P1"), Some(8990));
    // The audit log may gain duplicate-looking entries; that is by design.
    assert_eq!(log.len(), 2);
}

#[test]
fn propagation_last_write_wins() {
    let mut index = PriceIndex::new();
    let mut log = ActivityLog::new();
    let catalog = Catalog::new();
    let items = vec![
        OperationItem {
            name: "Milk".to_string(),
            price: 100,
            quantity: 1,
            product_id: Some("P1".to_string()),
        },
        OperationItem {
            name: "Milk again".to_string(),
            price: 120,
            quantity: 1,
            product_id: Some("P1".to_string()),
        },
    ];
    propagate_items(&mut index, &mut log, "S1", &items, &Vec::new(), &catalog, 5);
    assert_eq!(index.len(), 1);
    assert_eq!(index.get("S1", "P1"), Some(120));
    assert_eq!(log.len(), 2);
}

#[test]
fn propagation_raw_fallback_and_skip() {
    let mut index = PriceIndex::new();
    let mut log = ActivityLog::new();
    let catalog = Catalog::new();
    let items = vec![
        OperationItem { name: "a".to_string(), price: 10, quantity: 1, product_id: None },
        OperationItem { name: "b".to_string(), price: 20, quantity: 1, product_id: None },
    ];
    // The first item resolves through the raw payload; the second resolves
    // nowhere and is skipped silently.
    let raw = vec![Some("P9".to_string()), None];
    propagate_items(&mut index, &mut log, "S1", &items, &raw, &catalog, 5);
    assert_eq!(index.len(), 1);
    assert_eq!(index.get("S1", "P9"), Some(10));
    assert_eq!(index.get("S1", "P1"), None);
    assert_eq!(log.len(), 1);
}

#[test]
fn manual_price_maintenance() {
    let mut index = PriceIndex::new();
    let mut log = ActivityLog::new();
    let mut catalog = Catalog::new();
    catalog.add_product("P1".to_string(), "Milk".to_string());
    catalog.add_store("S1".to_string(), "Corner shop".to_string());

    // Changing or delisting an unlisted pair is refused.
    assert!(!pricecrowd::pricing::update_store_item(
        &mut index, &mut log, "S1", "P1", 100, &catalog, 1
    ));
    assert!(!pricecrowd::pricing::remove_store_item(&mut index, &mut log, "S1", "P1", &catalog, 1));
    assert_eq!(log.len(), 0);

    // Listing writes the price and an item-added entry dated by the clock.
    pricecrowd::pricing::add_store_item(&mut index, &mut log, "S1", "P1", 100, &catalog, 2);
    assert_eq!(index.get("S1", "P1"), Some(100));
    assert_eq!(log.entries[0].kind, ActivityKind::ItemAdded);
    assert_eq!(log.entries[0].ts_ms, 2);
    assert_eq!(log.entries[0].product_name.as_deref(), Some("Milk"));

    // A price change overwrites and logs a price-updated entry.
    assert!(pricecrowd::pricing::update_store_item(
        &mut index, &mut log, "S1", "P1", 120, &catalog, 3
    ));
    assert_eq!(index.get("S1", "P1"), Some(120));
    assert_eq!(log.entries[1].kind, ActivityKind::PriceUpdated);
    assert_eq!(log.entries[1].price, Some(120));

    // Delisting drops the row and logs an item-removed entry with no price.
    assert!(pricecrowd::pricing::remove_store_item(&mut index, &mut log, "S1", "P1", &catalog, 4));
    assert_eq!(index.get("S1", "P1"), None);
    assert_eq!(index.len(), 0);
    assert_eq!(log.entries[2].kind, ActivityKind::ItemRemoved);
    assert_eq!(log.entries[2].price, None);
    assert_eq!(log.len(), 3);
}

#[test]
fn conflict_single_draft_per_user() {
    let mut lg = Ledger::new();
    let mut index = PriceIndex::new();
    let mut log = ActivityLog::new();
    let catalog = Catalog::new();

    let id = lg.create(draft_body(None, Some("alice"), vec![milk_item()])).unwrap();
    assert_eq!(
        lg.create(draft_body(None, Some("alice"), Vec::new())),
        Err(pricecrowd::operation::CreateError::UserHasOperation)
    );
    // Another user is not affected.
    assert!(lg.create(draft_body(None, Some("bob"), Vec::new())).is_ok());
    // Once alice's draft is posted, she may create again.
    lg.update(id, OperationUpdateBody { store_id: Some("S1".to_string()), items: None }).unwrap();
    assert_eq!(lg.transition(id, OpStatus::Posted, &mut index, &mut log, &catalog, 0), Ok(()));
    let second = lg.create(draft_body(None, Some("alice"), Vec::new())).unwrap();
    // And once that draft is deleted, a third creation works too.
    assert_eq!(lg.transition(second, OpStatus::Deleted, &mut index, &mut log, &catalog, 0), Ok(()));
    assert!(lg.create(draft_body(None, Some("alice"), Vec::new())).is_ok());
}

#[test]
fn conflict_qr_used() {
    let mut lg = Ledger::new();
    lg.create(draft_body(Some(QR), None, Vec::new())).unwrap();
    assert_eq!(
        lg.create(draft_body(Some(QR), None, Vec::new())),
        Err(pricecrowd::operation::CreateError::QrUsed)
    );
    assert!(lg.create(draft_body(Some("t=other&fn=1&i=2&fp=3"), None, Vec::new())).is_ok());
}

#[test]
fn update_rules() {
    let mut lg = Ledger::new();
    let mut index = PriceIndex::new();
    let mut log = ActivityLog::new();
    let catalog = Catalog::new();

    let id = lg.create(draft_body(None, None, Vec::new())).unwrap();
    // An empty patch is refused.
    assert_eq!(
        lg.update(id, OperationUpdateBody { store_id: None, items: None }),
        Err(pricecrowd::operation::UpdateError::EmptyPatch)
    );
    // An unknown id is not found.
    assert_eq!(
        lg.update(99, OperationUpdateBody { store_id: Some("S1".to_string()), items: None }),
        Err(pricecrowd::operation::UpdateError::NotFound)
    );
    // Setting and clearing the store through the empty-string sentinel.
    lg.update(id, OperationUpdateBody { store_id: Some("S1".to_string()), items: None }).unwrap();
    assert_eq!(lg.ops[0].store_id.as_deref(), Some("S1"));
    lg.update(id, OperationUpdateBody { store_id: Some(String::new()), items: None }).unwrap();
    assert_eq!(lg.ops[0].store_id, None);
    // Replacing items.
    lg.update(id, OperationUpdateBody { store_id: None, items: Some(vec![milk_item()]) }).unwrap();
    assert_eq!(lg.ops[0].items.len(), 1);
    assert_eq!(lg.ops[0].items[0].price, 8990);
    // A non-draft operation is immutable.
    lg.transition(id, OpStatus::Deleted, &mut index, &mut log, &catalog, 0).unwrap();
    assert_eq!(
        lg.update(id, OperationUpdateBody { store_id: Some("S2".to_string()), items: None }),
        Err(pricecrowd::operation::UpdateError::NotDraft)
    );
}

#[test]
fn date_resolution_uses_receipt_date() {
    assert_eq!(resolve_ts(DATE, 42), DATE_MS);
    assert_eq!(resolve_ts("1996-12-19T16:39:57-08:00", 0), 851042397000);
    // A date that does not parse falls back to the caller's clock.
    assert_eq!(resolve_ts("20240101T1200", 42), 42);
    assert_eq!(resolve_ts("", 7), 7);
}

#[test]
fn end_to_end_scenario() {
    let mut store = ReceiptStore::new();
    let mut lg = Ledger::new();
    let mut index = PriceIndex::new();
    let mut log = ActivityLog::new();
    let mut catalog = Catalog::new();
    catalog.add_product("P1".to_string(), "Milk".to_string());
    catalog.add_store("S1".to_string(), "Corner shop".to_string());

    // Submit the QR payload.
    assert_eq!(
        store.submit(QR, "alice".to_string(), "web".to_string(), 1),
        SubmitStatus::Accepted
    );
    // Create the draft operation referencing it; the store is unset.
    let id = lg.create(draft_body(Some(QR), Some("alice"), vec![milk_item()])).unwrap();
    // Posting without a store is refused.
    let posted = UpdateStatus { status: "posted".to_string() };
    assert_eq!(
        lg.update_status(id, &posted, &mut index, &mut log, &catalog, 0),
        Err(TransitionError::MissingStore)
    );
    // Assign the store and post.
    lg.update(id, OperationUpdateBody { store_id: Some("S1".to_string()), items: None }).unwrap();
    assert_eq!(lg.update_status(id, &posted, &mut index, &mut log, &catalog, 0), Ok(()));
    // The price index now carries the item's price for (S1, P1).
    assert_eq!(index.get("S1", "P1"), Some(8990));
    assert_eq!(index.len(), 1);
    // The activity log has one price-set entry dated from the operation's
    // date, with the display names snapshotted.
    assert_eq!(log.len(), 1);
    let entry = &log.entries[0];
    assert_eq!(entry.kind, ActivityKind::PriceSet);
    assert_eq!(entry.ts_ms, DATE_MS);
    assert_eq!(entry.price, Some(8990));
    assert_eq!(entry.store_id, "S1");
    assert_eq!(entry.product_id.as_deref(), Some("P1"));
    assert_eq!(entry.product_name.as_deref(), Some("Milk"));
    assert_eq!(entry.store_name.as_deref(), Some("Corner shop"));
    assert_eq!(entry.kind.as_code(), "price_set");
}
