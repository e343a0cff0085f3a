//! The library's tables against SQLite: the same requests, as statements and as calls.

use newsletter::db::{
    add_confirmed, confirm, confirmed_recipients, delete_by_email, find_by_email, insert_pending,
    last_send_at, record_send, set_pending, stats, unsubscribe_by_email, unsubscribe_by_token,
    ADD_BODY_HTML, ADD_LIST, SCHEMA,
};
use newsletter::tables::{Change, Database, SendRow, SubscriberRow};
use rusqlite::{Connection, OptionalExtension};

const EMAILS: [&str; 11] = [
    "a@x.org",
    "A@X.ORG",
    "b@x.org",
    "\u{e9}@x.org",
    "\u{c9}@x.org",
    "b@x.org ",
    "c@x.org\0ab",
    "C@x.org\0cd",
    "c@x.org\0\u{e9}",
    "c@x.org\0abc",
    "c@x.org",
];
const LISTS: [&str; 2] = ["l", "m"];

fn open() -> Connection {
    let conn = Connection::open_in_memory().unwrap();
    conn.execute_batch(SCHEMA).unwrap();
    conn.execute(ADD_BODY_HTML, ()).unwrap();
    conn.execute(ADD_LIST, ()).unwrap();
    conn
}

fn dump(conn: &Connection) -> (Vec<String>, Vec<String>, i64, i64) {
    let last = |t: &str| -> i64 {
        conn.query_row("SELECT seq FROM sqlite_sequence WHERE name=?1", (t,), |r| r.get(0))
            .optional()
            .unwrap()
            .unwrap_or(0)
    };
    let (s, p) = rows(conn);
    (
        s.iter().map(|r| format!("{r:?}")).collect(),
        p.iter().map(|r| format!("{r:?}")).collect(),
        last("subscribers"),
        last("sends"),
    )
}

fn rows(conn: &Connection) -> (Vec<SubscriberRow>, Vec<SendRow>) {
    let subscribers = conn
        .prepare(
            "SELECT id, email, status, confirm_token, unsubscribe_token, created_at, confirmed_at,
                    unsubscribed_at, ip, list FROM subscribers ORDER BY id",
        )
        .unwrap()
        .query_map((), |r| {
            Ok(SubscriberRow {
                id: r.get(0)?,
                email: r.get(1)?,
                status: r.get(2)?,
                confirm_token: r.get(3)?,
                unsubscribe_token: r.get(4)?,
                created_at: r.get(5)?,
                confirmed_at: r.get(6)?,
                unsubscribed_at: r.get(7)?,
                ip: r.get(8)?,
                list: r.get(9)?,
            })
        })
        .unwrap()
        .map(|r| r.unwrap())
        .collect();
    let sends = conn
        .prepare("SELECT id, post_url, subject, sent_at, recipient_count, body_html, list FROM sends ORDER BY id")
        .unwrap()
        .query_map((), |r| {
            Ok(SendRow {
                id: r.get(0)?,
                post_url: r.get(1)?,
                subject: r.get(2)?,
                sent_at: r.get(3)?,
                recipient_count: r.get(4)?,
                body_html: r.get(5)?,
                list: r.get(6)?,
            })
        })
        .unwrap()
        .map(|r| r.unwrap())
        .collect();
    (subscribers, sends)
}

fn shown(db: &Database) -> (Vec<String>, Vec<String>, i64, i64) {
    (
        (0..db.subscriber_count()).map(|i| format!("{:?}", db.subscriber(i))).collect(),
        (0..db.send_count()).map(|i| format!("{:?}", db.sent(i))).collect(),
        db.last_subscriber(),
        db.last_send(),
    )
}

fn find(conn: &Connection, email: &str, list: &str) -> Option<(i64, String)> {
    conn.query_row(
        "SELECT id, status FROM subscribers WHERE email = ?1 COLLATE NOCASE AND list = ?2",
        (email, list),
        |r| Ok((r.get(0)?, r.get(1)?)),
    )
    .optional()
    .unwrap()
}

/// One request to both, chosen by a number; what both answered has to be the same.
fn step(conn: &Connection, db: &mut Database, n: u64, now: i64) {
    let email = EMAILS[(n / 16 % 11) as usize];
    let list = LISTS[(n / 176 % 2) as usize];
    let token = format!("c{}", n / 256 % 8);
    let unsub = format!("u{}", n / 256 % 16);
    let id = (n / 256 % 8) as i64;
    match n % 10 {
        0 | 1 => {
            let new = format!("u{}", db.last_subscriber());
            let stored = conn.execute(
                "INSERT INTO subscribers (email, status, confirm_token, unsubscribe_token, created_at, ip, list)
                 VALUES (?1, 'pending', ?2, ?3, ?4, ?5, ?6)",
                (email, &token, &new, now, "ip", list),
            );
            let added = insert_pending(db, email, &token, &new, now, "ip", list);
            assert_eq!(stored.is_ok(), added.is_ok());
        }
        2 => {
            conn.execute(
                "UPDATE subscribers SET status='pending', confirm_token=?1, unsubscribed_at=NULL, ip=?2 WHERE id=?3",
                (&token, "ip2", id),
            )
            .unwrap();
            set_pending(db, id, &token, "ip2");
        }
        3 | 4 => {
            let n = conn
                .execute(
                    "UPDATE subscribers SET status='confirmed', confirmed_at=?1, confirm_token=NULL WHERE confirm_token=?2",
                    (now, &token),
                )
                .unwrap();
            assert_eq!(confirm(db, &token, now), n > 0);
        }
        5 => {
            let row: Option<(i64, String)> = conn
                .query_row(
                    "SELECT id, status FROM subscribers WHERE unsubscribe_token = ?1",
                    (&unsub,),
                    |r| Ok((r.get(0)?, r.get(1)?)),
                )
                .optional()
                .unwrap();
            if let Some((id, status)) = row {
                if status != "unsubscribed" {
                    conn.execute(
                        "UPDATE subscribers SET status='unsubscribed', unsubscribed_at=?1 WHERE id=?2",
                        (now, id),
                    )
                    .unwrap();
                }
            }
            unsubscribe_by_token(db, &unsub, now);
        }
        6 => {
            let n = conn
                .execute(
                    "UPDATE subscribers SET status='unsubscribed', unsubscribed_at=?1
                      WHERE email=?2 COLLATE NOCASE AND list=?3 AND status!='unsubscribed'",
                    (now, email, list),
                )
                .unwrap();
            assert_eq!(unsubscribe_by_email(db, email, now, list), n);
        }
        7 => {
            let n = conn
                .execute(
                    "DELETE FROM subscribers WHERE email=?1 COLLATE NOCASE AND list=?2",
                    (email, list),
                )
                .unwrap();
            assert_eq!(delete_by_email(db, email, list), n);
        }
        8 => {
            let new = format!("u{}", db.last_subscriber());
            match find(conn, email, list) {
                Some((_, status)) if status == "confirmed" => {}
                Some((id, _)) => {
                    conn.execute(
                        "UPDATE subscribers SET status='confirmed', confirmed_at=?1, confirm_token=NULL, unsubscribed_at=NULL WHERE id=?2",
                        (now, id),
                    )
                    .unwrap();
                }
                None => {
                    conn.execute(
                        "INSERT INTO subscribers (email, status, confirm_token, unsubscribe_token, created_at, confirmed_at, ip, list)
                         VALUES (?1, 'confirmed', NULL, ?2, ?3, ?3, 'admin', ?4)",
                        (email, &new, now, list),
                    )
                    .unwrap();
                }
            }
            add_confirmed(db, email, &new, now, list).unwrap();
        }
        _ => {
            let at = now - (n / 256 % 100) as i64;
            conn.execute(
                "INSERT INTO sends (post_url, subject, sent_at, recipient_count, body_html, list) VALUES (?1, ?2, ?3, ?4, ?5, ?6)",
                (&token, "s", at, 3, "b", list),
            )
            .unwrap();
            record_send(db, &token, "s", at, 3, "b", list).unwrap();
        }
    }
    assert_eq!(find_by_email(db, email, list), find(conn, email, list));
    let last: Option<i64> = conn
        .query_row(
            "SELECT sent_at FROM sends WHERE post_url=?1 AND list=?2 ORDER BY sent_at DESC LIMIT 1",
            (&token, list),
            |r| r.get(0),
        )
        .optional()
        .unwrap();
    assert_eq!(last_send_at(db, &token, list), last);
    let recipients: Vec<(String, String)> = conn
        .prepare("SELECT email, unsubscribe_token FROM subscribers WHERE list=?1 AND status='confirmed' ORDER BY id")
        .unwrap()
        .query_map((list,), |r| Ok((r.get(0)?, r.get(1)?)))
        .unwrap()
        .map(|r| r.unwrap())
        .collect();
    assert_eq!(confirmed_recipients(db, list), recipients);
    let total: i64 = conn
        .query_row("SELECT COUNT(*) FROM subscribers WHERE list=?1", (list,), |r| r.get(0))
        .unwrap();
    assert_eq!(stats(db, list).total, total);
}

fn next(n: u64) -> u64 {
    n.wrapping_mul(6364136223846793005).wrapping_add(1442695040888963407)
}

#[test]
fn the_library_does_to_its_tables_what_the_statements_do() {
    let mut n: u64 = 7;
    for _ in 0..20 {
        let conn = open();
        let mut db = Database::load(Vec::new(), Vec::new(), 0, 0).unwrap();
        for i in 0..120 {
            n = next(n);
            if i % 10 == 9 {
                // A counter that was set back, or set below zero.
                let back = (n >> 40) as i64 % 8 - 2;
                conn.execute("UPDATE sqlite_sequence SET seq=?1", (back,)).unwrap();
                let (s, p) = rows(&conn);
                let (_, _, a, b) = dump(&conn);
                db = Database::load(s, p, a, b).unwrap();
            }
            step(&conn, &mut db, n >> 20, 1000 + i);
            assert_eq!(shown(&db), dump(&conn));
        }
    }
}

#[test]
fn addresses_that_differ_behind_a_nul_are_one_to_both() {
    let conn = open();
    let mut db = Database::load(Vec::new(), Vec::new(), 0, 0).unwrap();
    for email in EMAILS {
        let stored = conn.execute(
            "INSERT INTO subscribers (email, unsubscribe_token, created_at, list) VALUES (?1, 'u', 1, 'l')",
            (email,),
        );
        assert_eq!(stored.is_ok(), insert_pending(&mut db, email, "c", "u", 1, "ip", "l").is_ok());
        for other in EMAILS {
            assert_eq!(
                find(&conn, other, "l").map(|r| r.0),
                find_by_email(&db, other, "l").map(|r| r.0)
            );
        }
    }
}

#[test]
fn the_changes_written_to_sqlite_give_the_tables_of_the_library() {
    let mut n: u64 = 11;
    let reference = open();
    let conn = open();
    for i in 0..300 {
        n = next(n);
        let (s, p) = rows(&conn);
        let (_, _, a, b) = dump(&conn);
        let mut db = Database::load(s, p, a, b).unwrap();
        step(&reference, &mut db, n >> 20, 1000 + i);
        for c in db.changes() {
            match c {
                Change::PutSubscriber(r) => {
                    let updated = conn
                        .execute(
                            "UPDATE subscribers SET status=?2, confirm_token=?3, confirmed_at=?4,
                                 unsubscribed_at=?5, ip=?6 WHERE id=?1",
                            (
                                r.id,
                                &r.status,
                                &r.confirm_token,
                                r.confirmed_at,
                                r.unsubscribed_at,
                                &r.ip,
                            ),
                        )
                        .unwrap();
                    if updated > 0 {
                        continue;
                    }
                    conn.execute(
                        "INSERT INTO subscribers (id, email, status, confirm_token, unsubscribe_token,
                             created_at, confirmed_at, unsubscribed_at, ip, list)
                         VALUES (?1, ?2, ?3, ?4, ?5, ?6, ?7, ?8, ?9, ?10)",
                        (
                            r.id,
                            &r.email,
                            &r.status,
                            &r.confirm_token,
                            &r.unsubscribe_token,
                            r.created_at,
                            r.confirmed_at,
                            r.unsubscribed_at,
                            &r.ip,
                            &r.list,
                        ),
                    )
                    .unwrap();
                }
                Change::RemoveSubscriber(id) => {
                    conn.execute("DELETE FROM subscribers WHERE id=?1", (id,)).unwrap();
                }
                Change::PutSend(r) => {
                    conn.execute(
                        "INSERT INTO sends (id, post_url, subject, sent_at, recipient_count, body_html, list)
                         VALUES (?1, ?2, ?3, ?4, ?5, ?6, ?7)",
                        (
                            r.id,
                            &r.post_url,
                            &r.subject,
                            r.sent_at,
                            r.recipient_count,
                            &r.body_html,
                            &r.list,
                        ),
                    )
                    .unwrap();
                }
            }
        }
        assert_eq!(dump(&conn), dump(&reference));
    }
}
