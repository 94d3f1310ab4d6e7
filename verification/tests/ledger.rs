use feedback_ledger::render::{command_response, open_command_reply};
use feedback_ledger::store::Database;
use feedback_ledger::types::{Config, FbEntry, FeedbackChannel, OpenMessage, StoreError};
use feedback_ledger::workflow::{
    process_reply, process_request, handle_feedback_request, handle_feedback_reply,
    RequestOutcome,
};

const GUILD: u64 = 1;
const CHANNEL: u64 = 2;

fn config() -> Config {
    Config {
        client_id: 99,
        channels: vec![FeedbackChannel { guild: GUILD, channel: CHANNEL }],
        min_msg_len: 20,
        permission_timeout_days: 5,
    }
}

fn channel() -> FeedbackChannel {
    FeedbackChannel { guild: GUILD, channel: CHANNEL }
}

fn open_db(path: &str) -> Database {
    Database::open(path, &config()).unwrap()
}

/// Leaves the channel's open list empty, whatever an earlier run left
/// in the store file.
fn drain(db: &mut Database, ch: &FeedbackChannel) {
    let items = db.open_msgs(ch);
    for it in items {
        db.remove_open_msg(ch, &it).unwrap();
    }
}

/// Leaves (user, GUILD) without a credit.
fn drain_credit(db: &mut Database, user: u64) {
    db.take_feedback(user, GUILD).unwrap();
}

#[test]
fn credit_exclusivity() {
    let mut db = open_db("/tmp/feedback_ledger_test_p1.db");
    db.allow_feedback(10, GUILD, &FbEntry { last_reply: 1111 }).unwrap();
    db.allow_feedback(10, GUILD, &FbEntry { last_reply: 2222 }).unwrap();
    let first = db.take_feedback(10, GUILD).unwrap();
    assert_eq!(first, Some(FbEntry { last_reply: 2222 }));
    let second = db.take_feedback(10, GUILD).unwrap();
    assert_eq!(second, None);
}

#[test]
fn expired_credit_consumed() {
    let mut db = open_db("/tmp/feedback_ledger_test_p2.db");
    let ch = channel();
    drain(&mut db, &ch);
    db.allow_feedback(11, GUILD, &FbEntry { last_reply: 0 }).unwrap();
    // ten days later, with a five-day timeout: rejected, yet consumed
    let now: i64 = 10 * 86400;
    let outcome = process_request(&mut db, &ch, 11, 500, now, 5).unwrap();
    assert_eq!(outcome, RequestOutcome::Rejected);
    assert_eq!(db.take_feedback(11, GUILD).unwrap(), None);
    assert_eq!(db.open_msgs(&ch).len(), 0);
}

#[test]
fn open_list_fidelity() {
    let mut db = open_db("/tmp/feedback_ledger_test_p3.db");
    let ch = channel();
    drain(&mut db, &ch);
    let e1 = OpenMessage { user: 1, msg: 100 };
    let e2 = OpenMessage { user: 2, msg: 200 };
    let e3 = OpenMessage { user: 3, msg: 300 };
    db.add_open_msg(&ch, &e1).unwrap();
    db.add_open_msg(&ch, &e2).unwrap();
    db.add_open_msg(&ch, &e3).unwrap();
    db.remove_open_msg(&ch, &e2).unwrap();
    let rest = db.open_msgs(&ch);
    assert_eq!(rest, vec![e1, e3]);
}

#[test]
fn remove_absent_entry_is_an_error() {
    let mut db = open_db("/tmp/feedback_ledger_test_notfound.db");
    let ch = channel();
    drain(&mut db, &ch);
    let missing = OpenMessage { user: 8, msg: 800 };
    assert_eq!(db.remove_open_msg(&ch, &missing), Err(StoreError::NotFound));
}

#[test]
fn persist_failure_surfaces() {
    let r = Database::open("/tmp/no_such_directory_feedback_ledger/store.db", &config());
    assert_eq!(r.err(), Some(StoreError::Persist));
}

#[test]
fn idempotent_startup() {
    let path = "/tmp/feedback_ledger_test_p5.db";
    let mut db = open_db(path);
    let ch = channel();
    drain(&mut db, &ch);
    db.add_open_msg(&ch, &OpenMessage { user: 4, msg: 400 }).unwrap();
    drop(db);
    // initializing again on the same configuration keeps the list
    let db2 = open_db(path);
    assert_eq!(db2.open_msgs(&ch), vec![OpenMessage { user: 4, msg: 400 }]);
    drop(db2);
    let db3 = open_db(path);
    assert_eq!(db3.open_msgs(&ch), vec![OpenMessage { user: 4, msg: 400 }]);
}

#[test]
fn scenario_reject_without_credit() {
    let mut db = open_db("/tmp/feedback_ledger_test_scenario_a.db");
    let ch = channel();
    drain(&mut db, &ch);
    drain_credit(&mut db, 21);
    let now: i64 = 1_000_000;
    let outcome = process_request(&mut db, &ch, 21, 900, now, 5).unwrap();
    assert_eq!(outcome, RequestOutcome::Rejected);
    assert_eq!(db.open_msgs(&ch).len(), 0);
}

#[test]
fn scenario_accept_with_credit() {
    let mut db = open_db("/tmp/feedback_ledger_test_scenario_b.db");
    let ch = channel();
    drain(&mut db, &ch);
    let now: i64 = 30 * 86400;
    // credit granted one day ago, timeout five days
    db.allow_feedback(22, GUILD, &FbEntry { last_reply: now - 86400 }).unwrap();
    let outcome = process_request(&mut db, &ch, 22, 901, now, 5).unwrap();
    assert_eq!(outcome, RequestOutcome::Accepted);
    assert_eq!(db.open_msgs(&ch), vec![OpenMessage { user: 22, msg: 901 }]);
    assert_eq!(db.take_feedback(22, GUILD).unwrap(), None);
}

#[test]
fn scenario_reply_closes_and_grants() {
    let mut db = open_db("/tmp/feedback_ledger_test_scenario_c.db");
    let ch = channel();
    drain(&mut db, &ch);
    drain_credit(&mut db, 31);
    db.add_open_msg(&ch, &OpenMessage { user: 30, msg: 700 }).unwrap();
    let now: i64 = 55_555;
    process_reply(&mut db, &ch, 31, 30, 700, now).unwrap();
    assert_eq!(db.open_msgs(&ch).len(), 0);
    assert_eq!(db.take_feedback(31, GUILD).unwrap(), Some(FbEntry { last_reply: now }));
}

#[test]
fn scenario_open_listing() {
    let mut db = open_db("/tmp/feedback_ledger_test_scenario_d.db");
    let ch = channel();
    drain(&mut db, &ch);
    db.add_open_msg(&ch, &OpenMessage { user: 4, msg: 3 }).unwrap();
    let text = open_command_reply(&db, &ch);
    assert_eq!(
        text.as_str(),
        "Here is a list of posts that still need feedback:\n- https://discord.com/channels/1/2/3 from <@4>\n"
    );
    db.remove_open_msg(&ch, &OpenMessage { user: 4, msg: 3 }).unwrap();
    assert_eq!(open_command_reply(&db, &ch).as_str(), "No open messages...");
}

#[test]
fn unknown_command() {
    let mut db = open_db("/tmp/feedback_ledger_test_command.db");
    let ch = channel();
    drain(&mut db, &ch);
    assert_eq!(command_response(&db, &ch, "open").as_str(), "No open messages...");
    assert_eq!(command_response(&db, &ch, "close").as_str(), "not implemented, yikes");
}

#[test]
fn handlers_under_the_clock() {
    let mut db = open_db("/tmp/feedback_ledger_test_clock.db");
    let ch = channel();
    drain(&mut db, &ch);
    // a last_reply far in the future is fresh under any clock reading
    db.allow_feedback(41, GUILD, &FbEntry { last_reply: i64::MAX }).unwrap();
    let outcome = handle_feedback_request(&mut db, &ch, 41, 950, 5).unwrap();
    assert_eq!(outcome, RequestOutcome::Accepted);
    drain_credit(&mut db, 42);
    handle_feedback_reply(&mut db, &ch, 42, 41, 950).unwrap();
    assert_eq!(db.open_msgs(&ch).len(), 0);
    assert!(db.take_feedback(42, GUILD).unwrap().is_some());
}
