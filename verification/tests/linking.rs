//! The account-linking protocol: code issue, single-use consumption, expiry,
//! and the user directory around it.

use pricecrowd::linkcode::{link_account, LinkCodeStore, LINK_CODE_TTL_MS};
use pricecrowd::users::{apply_award, AwardPoints, UserDirectory, UserRecord, default_delta};

fn alice() -> UserRecord {
    UserRecord {
        username: "alice".to_string(),
        telegram_id: None,
        telegram_username: None,
        points: 0,
    }
}

#[test]
fn issue_code_shape() {
    let mut codes = LinkCodeStore::new();
    let resp = codes.issue("alice".to_string(), 1_000_000);
    assert_eq!(resp.code.len(), 6);
    assert!(resp.code.chars().all(|c| c.is_ascii_uppercase() || c.is_ascii_digit()));
    assert_eq!(resp.exp_ms, 1_000_000 + LINK_CODE_TTL_MS);
    assert_eq!(codes.codes.len(), 1);
    assert_eq!(codes.codes[0].username, "alice");
    assert!(!codes.codes[0].used);
}

#[test]
fn code_consumable_exactly_once() {
    let mut codes = LinkCodeStore::new();
    let resp = codes.issue("alice".to_string(), 0);
    assert_eq!(codes.consume(&resp.code, 10), Some("alice".to_string()));
    assert!(codes.codes[0].used);
    // The same code is refused afterwards.
    assert_eq!(codes.consume(&resp.code, 11), None);
}

#[test]
fn expired_code_is_refused() {
    let mut codes = LinkCodeStore::new();
    let resp = codes.issue("alice".to_string(), 0);
    // At and after the expiry instant the code no longer matches.
    assert_eq!(codes.consume(&resp.code, resp.exp_ms), None);
    assert_eq!(codes.consume(&resp.code, resp.exp_ms + 1), None);
    assert!(!codes.codes[0].used);
    // Just before expiry it still does.
    assert_eq!(codes.consume(&resp.code, resp.exp_ms - 1), Some("alice".to_string()));
}

#[test]
fn unknown_code_is_refused() {
    let mut codes = LinkCodeStore::new();
    codes.issue("alice".to_string(), 0);
    assert_eq!(codes.consume("NOSUCH", 1), None);
}

#[test]
fn link_account_binds_user_and_burns_code() {
    let mut codes = LinkCodeStore::new();
    let mut users = UserDirectory::new();
    assert!(users.add_user(alice()));
    let resp = codes.issue("alice".to_string(), 0);
    let tg_name = "alice_tg".to_string();
    assert!(link_account(&mut codes, &mut users, &resp.code, 42, Some(&tg_name), 10));
    assert_eq!(users.users[0].telegram_id, Some(42));
    assert_eq!(users.users[0].telegram_username.as_deref(), Some("alice_tg"));
    assert!(codes.codes[0].used);
    // A second attempt fails and changes nothing.
    assert!(!link_account(&mut codes, &mut users, &resp.code, 43, None, 11));
    assert_eq!(users.users[0].telegram_id, Some(42));
}

#[test]
fn link_status_and_unlink() {
    let mut users = UserDirectory::new();
    assert!(users.add_user(alice()));
    let st = users.link_status("alice").unwrap();
    assert!(!st.linked);
    assert_eq!(st.telegram_id, None);
    assert!(users.link_telegram("alice", 7, None));
    let st = users.link_status("alice").unwrap();
    assert!(st.linked);
    assert_eq!(st.telegram_id, Some(7));
    assert!(users.unlink_telegram("alice"));
    let st = users.link_status("alice").unwrap();
    assert!(!st.linked);
    assert!(users.link_status("nobody").is_none());
    assert!(!users.link_telegram("nobody", 7, None));
}

#[test]
fn duplicate_username_refused() {
    let mut users = UserDirectory::new();
    assert!(users.add_user(alice()));
    assert!(!users.add_user(alice()));
    assert_eq!(users.users.len(), 1);
}

#[test]
fn award_points_flows() {
    let mut users = UserDirectory::new();
    assert!(users.add_user(alice()));
    assert_eq!(default_delta(), 1);
    let grant = AwardPoints { username: "alice".to_string(), delta: default_delta() };
    assert_eq!(apply_award(&mut users, &grant), Some(true));
    assert_eq!(users.users[0].points, 1);
    let big = AwardPoints { username: "alice".to_string(), delta: 10 };
    assert_eq!(apply_award(&mut users, &big), Some(true));
    assert_eq!(users.users[0].points, 11);
    let unknown = AwardPoints { username: "bob".to_string(), delta: 1 };
    assert_eq!(apply_award(&mut users, &unknown), Some(false));
    let blank = AwardPoints { username: "   ".to_string(), delta: 1 };
    assert_eq!(apply_award(&mut users, &blank), None);
}

#[test]
fn award_points_clamps() {
    let mut users = UserDirectory::new();
    let mut rich = alice();
    rich.points = i64::MAX - 1;
    assert!(users.add_user(rich));
    assert!(users.award_points("alice", 5));
    assert_eq!(users.users[0].points, i64::MAX);
}

#[test]
fn ratings_sorted_by_points() {
    let mut users = UserDirectory::new();
    for (name, tg, points) in [
        ("alice", None, 5i64),
        ("bob", Some("bobby"), 9),
        ("carol", None, 7),
        ("dave", None, 9),
    ] {
        assert!(users.add_user(UserRecord {
            username: name.to_string(),
            telegram_id: None,
            telegram_username: tg.map(|s| s.to_string()),
            points,
        }));
    }
    let ranked = users.rank_users();
    assert_eq!(ranked.len(), 4);
    let points: Vec<i64> = ranked.iter().map(|r| r.points).collect();
    assert_eq!(points, vec![9, 9, 7, 5]);
    // The display name prefers the chat username.
    assert_eq!(ranked[0].name, "bobby");
    assert_eq!(ranked[1].name, "dave");
    assert_eq!(ranked[2].name, "carol");
    assert_eq!(ranked[3].name, "alice");
}
