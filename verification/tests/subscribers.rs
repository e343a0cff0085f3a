use newsletter::db::{
    add_confirmed, confirm, confirmed_recipients, delete_by_email, find_by_email, insert_pending,
    last_send_at, migration, recent_sends, recent_subscribers, record_send, sent_html, set_pending,
    stats, table_has_column, unsubscribe_by_email, unsubscribe_by_token, AddOutcome, InsertError,
    Stats, UnsubOutcome,
};
use newsletter::tables::{Change, Database, SendRow, SubscriberRow};

fn empty() -> Database {
    Database::load(Vec::new(), Vec::new(), 0, 0).unwrap()
}

fn row(id: i64, email: &str, status: &str, list: &str) -> SubscriberRow {
    SubscriberRow {
        id,
        email: email.to_string(),
        status: status.to_string(),
        confirm_token: None,
        unsubscribe_token: format!("u{id}"),
        created_at: id * 10,
        confirmed_at: None,
        unsubscribed_at: None,
        ip: None,
        list: list.to_string(),
    }
}

fn send_row(id: i64, url: &str, at: i64, list: &str) -> SendRow {
    SendRow {
        id,
        post_url: url.to_string(),
        subject: None,
        sent_at: at,
        recipient_count: Some(id),
        body_html: None,
        list: list.to_string(),
    }
}

fn emails(db: &Database, list: &str) -> Vec<String> {
    confirmed_recipients(db, list).into_iter().map(|r| r.0).collect()
}

#[test]
fn double_opt_in() {
    let mut db = empty();
    assert_eq!(insert_pending(&mut db, "a@x.org", "c1", "u1", 100, "ip", "l"), Ok(()));
    assert_eq!(find_by_email(&db, "A@X.org", "l"), Some((1, "pending".to_string())));
    assert!(emails(&db, "l").is_empty());
    assert!(!confirm(&mut db, "other", 200));
    assert!(emails(&db, "l").is_empty());
    assert!(confirm(&mut db, "c1", 200));
    assert_eq!(confirmed_recipients(&db, "l"), [("a@x.org".to_string(), "u1".to_string())]);
    assert_eq!(db.subscriber(0).confirmed_at, Some(200));
    assert_eq!(db.subscriber(0).confirm_token, None);
}

#[test]
fn a_confirmation_link_works_once() {
    let mut db = empty();
    insert_pending(&mut db, "a@x.org", "c1", "u1", 100, "ip", "l").unwrap();
    assert!(confirm(&mut db, "c1", 200));
    assert!(!confirm(&mut db, "c1", 300));
    assert_eq!(db.subscriber(0).confirmed_at, Some(200));
}

#[test]
fn asking_again_brings_a_new_token() {
    let mut db = empty();
    insert_pending(&mut db, "a@x.org", "c1", "u1", 100, "ip", "l").unwrap();
    assert_eq!(unsubscribe_by_token(&mut db, "u1", 150), UnsubOutcome::Done);
    set_pending(&mut db, 1, "c2", "ip2");
    let r = db.subscriber(0);
    assert_eq!(r.status, "pending");
    assert_eq!(r.confirm_token.as_deref(), Some("c2"));
    assert_eq!(r.unsubscribed_at, None);
    assert_eq!(r.ip.as_deref(), Some("ip2"));
    assert_eq!(r.unsubscribe_token, "u1");
    assert!(!confirm(&mut db, "c1", 200));
    assert!(confirm(&mut db, "c2", 200));
    set_pending(&mut db, 7, "c3", "ip");
    assert_eq!(db.subscriber(0).status, "confirmed");
}

#[test]
fn an_address_is_on_a_list_once() {
    let mut db = empty();
    assert_eq!(insert_pending(&mut db, "a@x.org", "c1", "u1", 1, "ip", "l"), Ok(()));
    assert_eq!(
        insert_pending(&mut db, "A@X.ORG", "c2", "u2", 2, "ip", "l"),
        Err(InsertError::Taken)
    );
    assert_eq!(insert_pending(&mut db, "a@x.org", "c3", "u3", 3, "ip", "m"), Ok(()));
    assert_eq!(db.subscriber_count(), 2);
}

#[test]
fn a_full_table_takes_nobody() {
    let mut db = Database::load(Vec::new(), Vec::new(), i64::MAX, i64::MAX).unwrap();
    assert_eq!(
        insert_pending(&mut db, "a@x.org", "c1", "u1", 1, "ip", "l"),
        Err(InsertError::Full)
    );
    assert_eq!(add_confirmed(&mut db, "a@x.org", "u1", 1, "l"), Err(InsertError::Full));
    assert_eq!(record_send(&mut db, "p", "s", 1, 1, "b", "l"), Err(InsertError::Full));
    assert!(db.changes().is_empty());
}

#[test]
fn unsubscribing_by_token() {
    let mut db = empty();
    assert_eq!(add_confirmed(&mut db, "a@x.org", "u1", 1, "l"), Ok(AddOutcome::Added));
    assert_eq!(add_confirmed(&mut db, "b@x.org", "u2", 1, "l"), Ok(AddOutcome::Added));
    assert_eq!(unsubscribe_by_token(&mut db, "nobody", 5), UnsubOutcome::NotFound);
    assert_eq!(unsubscribe_by_token(&mut db, "u1", 5), UnsubOutcome::Done);
    assert_eq!(unsubscribe_by_token(&mut db, "u1", 6), UnsubOutcome::Already);
    assert_eq!(db.subscriber(0).unsubscribed_at, Some(5));
    assert_eq!(emails(&db, "l"), ["b@x.org"]);
}

#[test]
fn unsubscribing_by_address() {
    let mut db = empty();
    add_confirmed(&mut db, "a@x.org", "u1", 1, "l").unwrap();
    add_confirmed(&mut db, "a@x.org", "u2", 1, "m").unwrap();
    assert_eq!(unsubscribe_by_email(&mut db, "A@x.org", 5, "l"), 1);
    assert_eq!(unsubscribe_by_email(&mut db, "A@x.org", 6, "l"), 0);
    assert_eq!(unsubscribe_by_email(&mut db, "b@x.org", 6, "l"), 0);
    assert!(emails(&db, "l").is_empty());
    assert_eq!(emails(&db, "m"), ["a@x.org"]);
}

#[test]
fn deleting_by_address() {
    let mut db = empty();
    add_confirmed(&mut db, "a@x.org", "u1", 1, "l").unwrap();
    add_confirmed(&mut db, "b@x.org", "u2", 1, "l").unwrap();
    add_confirmed(&mut db, "a@x.org", "u3", 1, "m").unwrap();
    assert_eq!(delete_by_email(&mut db, "a@X.org", "l"), 1);
    assert_eq!(delete_by_email(&mut db, "a@X.org", "l"), 0);
    assert_eq!(find_by_email(&db, "a@x.org", "l"), None);
    assert_eq!(emails(&db, "l"), ["b@x.org"]);
    assert_eq!(emails(&db, "m"), ["a@x.org"]);
    // Ids are not given out twice.
    insert_pending(&mut db, "a@x.org", "c", "u", 9, "ip", "l").unwrap();
    assert_eq!(find_by_email(&db, "a@x.org", "l"), Some((4, "pending".to_string())));
}

#[test]
fn adding_by_hand() {
    let mut db = empty();
    assert_eq!(add_confirmed(&mut db, "a@x.org", "u1", 1, "l"), Ok(AddOutcome::Added));
    assert_eq!(add_confirmed(&mut db, "a@x.org", "u2", 2, "l"), Ok(AddOutcome::AlreadyConfirmed));
    let r = db.subscriber(0);
    assert_eq!(r.ip.as_deref(), Some("admin"));
    assert_eq!((r.created_at, r.confirmed_at), (1, Some(1)));
    unsubscribe_by_token(&mut db, "u1", 3);
    assert_eq!(add_confirmed(&mut db, "A@x.org", "u2", 4, "l"), Ok(AddOutcome::Reactivated));
    let r = db.subscriber(0);
    assert_eq!(r.unsubscribe_token, "u1");
    assert_eq!((r.created_at, r.confirmed_at, r.unsubscribed_at), (1, Some(4), None));
}

#[test]
fn numbers_of_a_list() {
    let rows = vec![
        row(1, "a", "confirmed", "l"),
        row(2, "b", "pending", "l"),
        row(3, "c", "unsubscribed", "l"),
        row(4, "d", "confirmed", "l"),
        row(5, "e", "bounced", "l"),
        row(6, "f", "confirmed", "m"),
    ];
    let db = Database::load(rows, Vec::new(), 6, 0).unwrap();
    assert_eq!(stats(&db, "l"), Stats { confirmed: 2, pending: 1, unsubscribed: 1, total: 5 });
    assert_eq!(stats(&db, "m"), Stats { confirmed: 1, pending: 0, unsubscribed: 0, total: 1 });
    assert_eq!(stats(&db, "n"), Stats::default());
}

#[test]
fn numbers_add_up() {
    let mut db = empty();
    for i in 0..6 {
        let n = i.to_string();
        insert_pending(&mut db, &n, &n, &n, 0, "ip", "l").unwrap();
    }
    confirm(&mut db, "1", 1);
    confirm(&mut db, "2", 1);
    unsubscribe_by_token(&mut db, "2", 2);
    let s = stats(&db, "l");
    assert_eq!(s.confirmed + s.pending + s.unsubscribed, s.total);
    assert_eq!(s.confirmed as usize, confirmed_recipients(&db, "l").len());
}

#[test]
fn newest_subscribers_first() {
    let mut rows = vec![
        row(1, "a", "confirmed", "l"),
        row(2, "b", "pending", "l"),
        row(3, "c", "pending", "m"),
        row(4, "d", "pending", "l"),
        row(5, "e", "pending", "l"),
    ];
    rows[0].created_at = 70;
    rows[4].created_at = 40;
    let db = Database::load(rows, Vec::new(), 5, 0).unwrap();
    let shown = |limit: i64| -> Vec<String> {
        recent_subscribers(&db, limit, "l").into_iter().map(|s| s.email).collect()
    };
    assert_eq!(shown(10), ["a", "d", "e", "b"]);
    assert_eq!(shown(2), ["a", "d"]);
    assert_eq!(shown(-1), ["a", "d", "e", "b"]);
    assert!(shown(0).is_empty());
}

#[test]
fn newest_sends_first() {
    let sends = vec![
        send_row(1, "p", 50, "l"),
        send_row(2, "q", 70, "l"),
        send_row(3, "p", 60, "m"),
        send_row(4, "p", 60, "l"),
    ];
    let db = Database::load(Vec::new(), sends, 0, 4).unwrap();
    let ids: Vec<i64> = recent_sends(&db, 50, "l").iter().map(|s| s.id).collect();
    assert_eq!(ids, [2, 4, 1]);
    assert_eq!(recent_sends(&db, 1, "l").len(), 1);
    assert_eq!(recent_sends(&db, 50, "l")[1].recipient_count, Some(4));
    assert_eq!(last_send_at(&db, "p", "l"), Some(60));
    assert_eq!(last_send_at(&db, "q", "m"), None);
}

#[test]
fn sends_are_recorded() {
    let mut db = empty();
    assert_eq!(last_send_at(&db, "p", "l"), None);
    assert_eq!(record_send(&mut db, "p", "subject", 9, 3, "<p>", "l"), Ok(()));
    assert_eq!(last_send_at(&db, "p", "l"), Some(9));
    assert_eq!(last_send_at(&db, "p", "m"), None);
    assert_eq!(sent_html(&db, 1).as_deref(), Some("<p>"));
    assert_eq!(sent_html(&db, 2), None);
    let r = &recent_sends(&db, 5, "l")[0];
    assert_eq!((r.id, r.sent_at, r.recipient_count), (1, 9, Some(3)));
    assert_eq!(r.subject.as_deref(), Some("subject"));
    let db = Database::load(Vec::new(), vec![send_row(1, "p", 1, "l")], 0, 1).unwrap();
    assert_eq!(sent_html(&db, 1), None);
}

#[test]
fn tables_out_of_order_are_not_loaded() {
    let two = |a: i64, b: i64| vec![row(a, "a", "pending", "l"), row(b, "b", "pending", "l")];
    assert!(Database::load(two(1, 2), Vec::new(), 2, 0).is_some());
    assert!(Database::load(two(2, 1), Vec::new(), 2, 0).is_none());
    assert!(Database::load(two(1, 1), Vec::new(), 2, 0).is_none());
    let sends = vec![send_row(2, "p", 1, "l"), send_row(1, "p", 1, "l")];
    assert!(Database::load(Vec::new(), sends, 0, 2).is_none());
}

#[test]
fn ids_go_on_behind_the_largest() {
    let mut db =
        Database::load(vec![row(5, "a", "pending", "l")], vec![send_row(7, "p", 1, "l")], 0, 3).unwrap();
    assert_eq!((db.last_subscriber(), db.top_subscriber()), (0, 5));
    assert_eq!((db.last_send(), db.top_send()), (3, 7));
    insert_pending(&mut db, "b", "c", "u", 1, "ip", "l").unwrap();
    record_send(&mut db, "q", "s", 1, 1, "b", "l").unwrap();
    assert_eq!((db.subscriber(1).id, db.sent(1).id), (6, 8));
    assert_eq!((db.last_subscriber(), db.last_send()), (6, 8));
    // The counter is ahead of the rows, or below zero.
    let mut db = Database::load(vec![row(5, "a", "pending", "l")], Vec::new(), 9, -4).unwrap();
    insert_pending(&mut db, "b", "c", "u", 1, "ip", "l").unwrap();
    record_send(&mut db, "q", "s", 1, 1, "b", "l").unwrap();
    assert_eq!((db.subscriber(1).id, db.sent(0).id), (10, 1));
    // The largest id is the last one.
    let mut db = Database::load(vec![row(i64::MAX, "a", "pending", "l")], Vec::new(), 0, 0).unwrap();
    assert_eq!(insert_pending(&mut db, "b", "c", "u", 1, "ip", "l"), Err(InsertError::Full));
}

#[test]
fn changes_bring_the_stored_tables_up_to_date() {
    let mut db = Database::load(
        vec![row(1, "a", "confirmed", "l"), row(2, "b", "confirmed", "l")],
        Vec::new(),
        2,
        0,
    )
    .unwrap();
    insert_pending(&mut db, "c", "c1", "u9", 5, "ip", "l").unwrap();
    unsubscribe_by_token(&mut db, "u1", 6);
    delete_by_email(&mut db, "b", "l");
    record_send(&mut db, "p", "s", 7, 1, "b", "l").unwrap();
    let changes = db.changes();
    assert_eq!(changes.len(), 4);
    assert!(matches!(&changes[0], Change::PutSubscriber(r) if r.id == 3 && r.email == "c"));
    assert!(matches!(&changes[1], Change::PutSubscriber(r) if r.id == 1 && r.status == "unsubscribed"));
    assert!(matches!(&changes[2], Change::RemoveSubscriber(2)));
    assert!(matches!(&changes[3], Change::PutSend(r) if r.id == 1 && r.post_url == "p"));
    assert_eq!((db.last_subscriber(), db.last_send()), (3, 1));
    assert_eq!(db.send_count(), 1);
    assert_eq!(db.sent(0).copy().post_url, "p");
    assert_eq!(db.subscriber(1).copy().email, "c");
}

#[test]
fn old_tables_are_brought_up_to_date() {
    let old: Vec<String> = ["id", "email", "status"].iter().map(|s| s.to_string()).collect();
    let mut new = old.clone();
    new.push("list".to_string());
    assert!(!table_has_column(&old, "list"));
    assert!(table_has_column(&new, "list"));
    assert!(migration(&old).unwrap().contains("ALTER TABLE subscribers RENAME TO subscribers_old"));
    assert!(migration(&new).is_none());
}

#[test]
fn the_stored_tables_take_what_the_library_writes() {
    let conn = rusqlite::Connection::open_in_memory().unwrap();
    conn.execute_batch(newsletter::db::SCHEMA).unwrap();
    conn.execute(newsletter::db::ADD_BODY_HTML, []).unwrap();
    conn.execute(newsletter::db::ADD_LIST, []).unwrap();
    conn.execute_batch(newsletter::db::MIGRATION).unwrap();
    let columns: Vec<String> = conn
        .prepare("PRAGMA table_info(subscribers)")
        .unwrap()
        .query_map([], |r| r.get::<_, String>(1))
        .unwrap()
        .map(|c| c.unwrap())
        .collect();
    assert!(migration(&columns).is_none());
}
