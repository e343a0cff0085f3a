use newsletter::config::ListCfg;
use newsletter::db::{add_confirmed, last_send_at, sent_html, unsubscribe_by_token, InsertError};
use newsletter::mail::{post_email, wrap_custom};
use newsletter::posts::Post;
use newsletter::send::{
    exit_code, finish_custom, finish_post, send_custom, send_post, send_test, unsub_headers,
    unsub_url, SendError,
};
use newsletter::tables::Database;

const URL: &str = "https://n.example/";

fn lc() -> ListCfg {
    ListCfg {
        blog_url: "https://b.example".to_string(),
        blog_dir: "/srv".to_string(),
        from_email: "me@b.example".to_string(),
        from_name: "Me".to_string(),
    }
}

fn post() -> Post {
    Post {
        slug: "p".to_string(),
        title: "Title".to_string(),
        desc: "Desc".to_string(),
        url: "https://b.example/p/".to_string(),
    }
}

fn three() -> Database {
    let mut db = Database::load(Vec::new(), Vec::new(), 0, 0).unwrap();
    add_confirmed(&mut db, "a@x.org", "aa", 1, "l").unwrap();
    add_confirmed(&mut db, "b@x.org", "bb", 1, "l").unwrap();
    add_confirmed(&mut db, "c@x.org", "cc", 1, "m").unwrap();
    add_confirmed(&mut db, "d@x.org", "dd", 1, "l").unwrap();
    db
}

#[test]
fn every_subscriber_has_a_link() {
    assert_eq!(unsub_url(URL, "aa"), "https://n.example/unsubscribe?token=aa");
    assert_eq!(unsub_url("https://n.example", "aa"), unsub_url("https://n.example//", "aa"));
    assert_ne!(unsub_url(URL, "aa"), unsub_url(URL, "bb"));
}

#[test]
fn one_click_headers() {
    let h = unsub_headers("me@b.example", "https://n/u");
    assert_eq!(h.len(), 2);
    assert_eq!(h[0].0, "List-Unsubscribe");
    assert_eq!(h[0].1, "<https://n/u>, <mailto:me@b.example?subject=unsubscribe>");
    assert_eq!(h[1].0, "List-Unsubscribe-Post");
    assert_eq!(h[1].1, "List-Unsubscribe=One-Click");
}

#[test]
fn a_post_goes_to_each_confirmed_subscriber_once() {
    let mut db = three();
    unsubscribe_by_token(&mut db, "bb", 2);
    let mut b = send_post(&db, "l", &post(), false).ok().unwrap();
    let mut to: Vec<String> = Vec::new();
    while let Some(m) = b.next_post_mail(&lc(), URL, &post()) {
        let token = b.current().unwrap().1.clone();
        let link = unsub_url(URL, &token);
        let (html, text) = post_email("Title", "Desc", "https://b.example/p/", &link);
        assert_eq!(m.from, "Me <me@b.example>");
        assert_eq!(m.subject, "Title");
        assert_eq!(m.html, html);
        assert_eq!(m.text, text);
        assert_eq!(m.headers, unsub_headers("me@b.example", &link));
        b.mailed(m.to != "d@x.org");
        to.push(m.to);
    }
    assert_eq!(to, ["a@x.org", "d@x.org"]);
    assert!(b.current().is_none());
    let r = finish_post(&mut db, "l", URL, &post(), &b, 77).ok().unwrap();
    assert_eq!((r.sent, r.failed, r.recipients), (1, 1, 2));
    assert_eq!(r.sent + r.failed, r.recipients);
    assert_eq!(r.subject, "Title");
    assert_eq!(exit_code(&r), 1);
    let last = db.sent(0);
    assert_eq!(last.recipient_count, Some(1));
    assert_eq!(last.sent_at, 77);
    let page = post_email("Title", "Desc", "https://b.example/p/", &unsub_url(URL, "preview")).0;
    assert_eq!(sent_html(&db, 1), Some(page));
}

#[test]
fn a_post_is_sent_once_unless_forced() {
    let mut db = three();
    let mut b = send_post(&db, "l", &post(), false).ok().unwrap();
    while b.current().is_some() {
        b.mailed(true);
    }
    let r = finish_post(&mut db, "l", URL, &post(), &b, 77).ok().unwrap();
    assert_eq!((r.sent, r.failed, r.recipients), (3, 0, 3));
    let e = send_post(&db, "l", &post(), false).err().unwrap();
    assert_eq!(e, SendError::AlreadySent(77));
    assert_eq!(e.message(), "already sent at 77; pass force to send again");
    assert!(send_post(&db, "l", &post(), true).is_ok());
    assert!(send_post(&db, "m", &post(), false).is_ok());
    let mut other = post();
    other.url = "https://b.example/q/".to_string();
    assert!(send_post(&db, "l", &other, false).is_ok());
    unsubscribe_by_token(&mut db, "aa", 80);
    assert!(send_post(&db, "l", &post(), false).is_err());
}

#[test]
fn a_composed_mail_goes_out() {
    let mut db = three();
    let mut b = send_custom(&db, "m");
    let m = b.next_custom_mail(&lc(), URL, "Hi", "<p>x</p>").unwrap();
    assert_eq!(m.to, "c@x.org");
    let (html, text) = wrap_custom("<p>x</p>", "https://n.example/unsubscribe?token=cc");
    assert_eq!((&m.html, &m.text), (&html, &text));
    assert_eq!(m.subject, "Hi");
    assert_eq!(m.headers, unsub_headers("me@b.example", &unsub_url(URL, "cc")));
    assert_eq!(m.extra_headers(), Some(&m.headers));
    b.mailed(true);
    assert!(b.next_custom_mail(&lc(), URL, "Hi", "<p>x</p>").is_none());
    let r = finish_custom(&mut db, "m", URL, "Hi", "<p>x</p>", &b, 5).ok().unwrap();
    assert_eq!((r.sent, r.failed, r.recipients, exit_code(&r)), (1, 0, 1, 0));
    assert_eq!(b.sent_count(), 1);
    assert_eq!(last_send_at(&db, "(compose) Hi", "m"), Some(5));
    let page = wrap_custom("<p>x</p>", "https://n.example/unsubscribe?token=preview").0;
    assert_eq!(sent_html(&db, 1), Some(page));
}

#[test]
fn a_full_table_records_no_send() {
    let mut db = Database::load(Vec::new(), Vec::new(), 0, i64::MAX).unwrap();
    let b = send_custom(&db, "l");
    let e = finish_custom(&mut db, "l", URL, "Hi", "", &b, 5).err().unwrap();
    assert_eq!(e, InsertError::Full);
    let b = send_post(&db, "l", &post(), false).ok().unwrap();
    assert_eq!(finish_post(&mut db, "l", URL, &post(), &b, 5).err(), Some(InsertError::Full));
}

#[test]
fn a_test_mail_carries_the_preview_link_and_no_headers() {
    let m = send_test(&lc(), URL, "S", "<p>b</p>", "t@x.org");
    assert_eq!(m.from, "Me <me@b.example>");
    assert_eq!((m.to.as_str(), m.subject.as_str()), ("t@x.org", "S"));
    assert!(m.html.contains("<p>b</p>"));
    assert!(m.html.contains("\"https://n.example/unsubscribe?token=preview\""));
    assert_eq!(m.text, "<p>b</p>\n\n---\nUnsubscribe: https://n.example/unsubscribe?token=preview\n");
    assert!(m.headers.is_empty());
    assert!(m.extra_headers().is_none());
}
