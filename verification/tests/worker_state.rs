//! The polling worker's state: cursor advancement, token rotation, message
//! classification, the log ring, and the status report.

use pricecrowd::receipt::{ReceiptStore, SubmitStatus};
use pricecrowd::worker::{
    classify_message, is_privacy_query, now_ms, parse_link_code, submit_webapp_qr, MessageAction,
    TelegramChat, TelegramMessage, TelegramUpdate, TelegramUser, WebAppData, WorkerState, MAX_LOGS,
};

const QR: &str = "t=20240101T1200&fn=123&i=456&fp=789";

fn update(id: Option<i64>) -> TelegramUpdate {
    TelegramUpdate { update_id: id, message: None }
}

fn message(text: Option<&str>, web_app_data: Option<&str>) -> TelegramMessage {
    TelegramMessage {
        message_id: 1,
        chat: TelegramChat { id: 5 },
        text: text.map(|s| s.to_string()),
        from: None,
        web_app_data: web_app_data.map(|s| WebAppData { data: s.to_string() }),
    }
}

#[test]
fn cursor_one_past_max_id() {
    let mut w = WorkerState::new();
    assert_eq!(w.offset, 0);
    w.observe_batch(&vec![update(Some(5)), update(None), update(Some(3))], 100);
    assert_eq!(w.offset, 6);
    assert_eq!(w.last_poll_ms, 100);
    // Later batches with increasing ids keep moving the cursor forward.
    w.observe_batch(&vec![update(Some(7)), update(Some(9))], 200);
    assert_eq!(w.offset, 10);
    // A batch of already-seen ids does not move it back.
    w.observe_batch(&vec![update(Some(2))], 300);
    assert_eq!(w.offset, 10);
    // An empty batch leaves it alone.
    w.observe_batch(&Vec::new(), 400);
    assert_eq!(w.offset, 10);
    assert_eq!(w.last_poll_ms, 400);
}

#[test]
fn cursor_advances_past_failed_dispatch() {
    // A message whose handler fails still advances the cursor: dispatch and
    // cursor movement are independent, so the failure is simulated by simply
    // not handling the message.
    let mut w = WorkerState::new();
    let batch = vec![update(Some(11)), update(Some(12))];
    let mut handled = 0;
    for u in &batch {
        if u.update_id == Some(11) {
            // The handler of the first message fails; nothing is retried.
            continue;
        }
        handled += 1;
    }
    w.observe_batch(&batch, 50);
    assert_eq!(handled, 1);
    assert_eq!(w.offset, 13);
}

#[test]
fn token_rotation_resets_cursor() {
    let mut w = WorkerState::new();
    // Disabled or token-less settings mean no poll and no reset.
    assert!(!w.note_settings(false, &Some("tok-a".to_string())));
    assert!(!w.note_settings(true, &None));
    // The first token claims the cursor.
    assert!(w.note_settings(true, &Some("tok-a".to_string())));
    w.observe_batch(&vec![update(Some(41))], 10);
    assert_eq!(w.offset, 42);
    // The same token keeps it.
    assert!(w.note_settings(true, &Some("tok-a".to_string())));
    assert_eq!(w.offset, 42);
    // A rotated token starts its own stream from zero.
    assert!(w.note_settings(true, &Some("tok-b".to_string())));
    assert_eq!(w.offset, 0);
}

#[test]
fn log_ring_is_bounded() {
    let mut w = WorkerState::new();
    for k in 0..(MAX_LOGS + 5) {
        let msg = format!("line {}", k);
        w.push_log("info", &msg, k as i64);
    }
    assert_eq!(w.logs.len(), MAX_LOGS);
    // The oldest lines fell out.
    assert_eq!(w.logs[0].message, "line 5");
    assert_eq!(w.logs[MAX_LOGS - 1].message, format!("line {}", MAX_LOGS + 4));
    assert_eq!(w.logs[0].level, "info");
}

#[test]
fn status_report() {
    let mut w = WorkerState::new();
    let st = w.bot_status(false, false);
    assert!(!st.enabled && !st.polling);
    assert_eq!(st.last_poll_ms, None);
    w.observe_batch(&Vec::new(), 123);
    let st = w.bot_status(true, true);
    assert!(st.enabled && st.webhook_enabled && st.polling);
    assert_eq!(st.last_poll_ms, Some(123));
}

#[test]
fn privacy_queries() {
    assert!(is_privacy_query("/privacy"));
    assert!(is_privacy_query("  /Policy  "));
    assert!(is_privacy_query("PRIVACY please"));
    assert!(is_privacy_query("Политика конфиденциальности"));
    assert!(!is_privacy_query("hello"));
    assert!(!is_privacy_query(""));
    assert!(!is_privacy_query("/link ABCDEF"));
}

#[test]
fn link_code_parsing() {
    assert_eq!(parse_link_code("/link abc123").as_deref(), Some("ABC123"));
    assert_eq!(parse_link_code("  /link  qqqq  ").as_deref(), Some("QQQQ"));
    assert_eq!(parse_link_code(" aB3k9Q ").as_deref(), Some("AB3K9Q"));
    assert_eq!(parse_link_code("abcdef7"), None);
    assert_eq!(parse_link_code("ab-cde"), None);
    assert_eq!(parse_link_code("hello world"), None);
    assert_eq!(parse_link_code(""), None);
}

#[test]
fn classification_order() {
    // An embedded payload wins over everything else.
    match classify_message(&message(Some("/privacy"), Some(QR))) {
        MessageAction::WebAppQr(q) => assert_eq!(q, QR),
        other => panic!("expected a mini-app payload, got {}", label(&other)),
    }
    assert!(matches!(classify_message(&message(Some("/privacy"), None)), MessageAction::Privacy));
    match classify_message(&message(Some("abc123"), None)) {
        MessageAction::LinkCode(c) => assert_eq!(c, "ABC123"),
        other => panic!("expected a link code, got {}", label(&other)),
    }
    assert!(matches!(classify_message(&message(Some("hi there"), None)), MessageAction::Prompt));
    assert!(matches!(classify_message(&message(None, None)), MessageAction::Prompt));
}

fn label(a: &MessageAction) -> &'static str {
    match a {
        MessageAction::WebAppQr(_) => "a mini-app payload",
        MessageAction::Privacy => "a privacy command",
        MessageAction::LinkCode(_) => "a link code",
        MessageAction::Prompt => "the generic prompt",
    }
}

#[test]
fn webapp_submission_names_the_sender() {
    let mut store = ReceiptStore::new();
    let named = TelegramUser {
        id: 7,
        first_name: None,
        username: Some("carol".to_string()),
    };
    assert_eq!(submit_webapp_qr(&mut store, QR, Some(&named), 1), SubmitStatus::Accepted);
    assert_eq!(store.records[0].submitted_by, "carol");
    assert_eq!(store.records[0].source, "telegram_bot");

    let anonymous = TelegramUser { id: -12, first_name: None, username: None };
    let qr2 = "t=20240202T1200&fn=999&i=456&fp=789";
    assert_eq!(submit_webapp_qr(&mut store, qr2, Some(&anonymous), 2), SubmitStatus::Accepted);
    assert_eq!(store.records[1].submitted_by, "-12");

    let qr3 = "t=20240303T1200&fn=777&i=456&fp=789";
    assert_eq!(submit_webapp_qr(&mut store, qr3, None, 3), SubmitStatus::Accepted);
    assert_eq!(store.records[2].submitted_by, "telegram");

    // A duplicate submitted through the chat is reported as such.
    assert_eq!(submit_webapp_qr(&mut store, QR, None, 4), SubmitStatus::Duplicate);
}

#[test]
fn clock_reads_nonnegative() {
    let t = now_ms();
    assert!(t >= 0);
}
