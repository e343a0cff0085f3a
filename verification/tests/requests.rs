use newsletter::config::{config_from_env, Config, EnvVars, DEFAULT_LIST};
use newsletter::db::{add_confirmed, confirmed_recipients, find_by_email, record_send, Stats};
use newsletter::limiter::RateLimiter;
use newsletter::mail::{confirm_email, landing_page, wrap_custom};
use newsletter::posts::{seed_body, Post, PostError};
use newsletter::service::{
    admin_compose, admin_data, admin_delete, admin_failed, admin_ok, admin_preview, admin_refused,
    admin_send, admin_send_html, admin_unsub, affected, client_ip, confirm, confirm_failed,
    confirm_refused, jerr, jok, subscribe, subscribe_failed, subscribe_judged, subscribe_mailed,
    subscribe_record, subscribe_record_with, tested, turnstile_ok, unsubscribe_failed,
    unsubscribe_get, unsubscribe_post, unsubscribe_posted, unsubscribe_refused, valid_email,
    AdminHeaders, AdminSendStep, Challenge, Reply, SendHtmlStep, SubscribeForm, SubscribeStep,
};
use newsletter::tables::Database;

fn cfg() -> Config {
    config_from_env(&EnvVars {
        newsletter_addr: None,
        newsletter_db: None,
        newsletter_public_url: Some("https://n.example/".to_string()),
        newsletter_blog_url: None,
        newsletter_blog_dir: None,
        resend_api_key: None,
        smtp_pass: None,
        turnstile_secret: Some("secret".to_string()),
        newsletter_admin_token: Some("admin".to_string()),
        newsletter_from_email: None,
        newsletter_from_name: None,
    })
}

fn empty() -> Database {
    Database::load(Vec::new(), Vec::new(), 0, 0).unwrap()
}

fn form(email: &str, website: &str, turnstile: &str) -> SubscribeForm {
    SubscribeForm {
        email: email.to_string(),
        website_url: website.to_string(),
        turnstile: turnstile.to_string(),
    }
}

fn owner() -> AdminHeaders {
    AdminHeaders { authorization: Some("Bearer admin".to_string()), x_admin_token: None }
}

fn stranger() -> AdminHeaders {
    AdminHeaders { authorization: None, x_admin_token: None }
}

fn message(r: &Reply) -> (u16, bool, &str) {
    match r {
        Reply::Message { status, ok, message } => (*status, *ok, message),
        _ => panic!("no message: {r:?}"),
    }
}

fn page(r: &Reply) -> (u16, &str) {
    match r {
        Reply::Page { status, html } => (*status, html),
        _ => panic!("no page: {r:?}"),
    }
}

fn is_unauthorized(r: &Reply) -> bool {
    matches!(r, Reply::Error { status: 401, error } if error == "unauthorized")
}

#[test]
fn mail_addresses() {
    for good in ["a@b.c", " a@b.c ", "a@b@c.d", "\u{e9}@x.y", "a\t@b.c"] {
        assert!(valid_email(good), "{good}");
    }
    for bad in ["", "a", "@b.c", "a@", "a@b", "a@.b", "a@b.", "a b@c.d", "a@.", "a@b.c.", "a@b. c"] {
        assert!(!valid_email(bad), "{bad}");
    }
    let long = |n: usize| format!("{}@b.c", "a".repeat(n));
    assert!(valid_email(&long(250)));
    assert!(!valid_email(&long(251)));
    // The limit is on bytes.
    assert!(!valid_email(&format!("{}@b.c", "\u{e9}".repeat(126))));
    assert!(valid_email(&format!("{}@b.c", "\u{e9}".repeat(125))));
}

#[test]
fn the_first_forwarded_address_counts() {
    assert_eq!(client_ip(None), "unknown");
    assert_eq!(client_ip(Some("")), "unknown");
    assert_eq!(client_ip(Some(" , 1.2.3.4")), "unknown");
    assert_eq!(client_ip(Some(" 1.2.3.4 ,5.6.7.8")), "1.2.3.4");
    assert_eq!(client_ip(Some("1.2.3.4")), "1.2.3.4");
}

#[test]
fn the_owner_is_known_by_a_token() {
    let h = |a: Option<&str>, x: Option<&str>| AdminHeaders {
        authorization: a.map(str::to_string),
        x_admin_token: x.map(str::to_string),
    };
    assert!(admin_ok(&h(Some("Bearer t"), None), "t"));
    assert!(admin_ok(&h(Some("Bearer  t "), None), "t"));
    assert!(admin_ok(&h(None, Some("t")), "t"));
    assert!(admin_ok(&h(Some("Bearer x"), Some("t")), "t"));
    assert!(!admin_ok(&h(None, Some(" t")), "t"));
    assert!(!admin_ok(&h(Some("bearer t"), None), "t"));
    assert!(!admin_ok(&h(Some("t"), None), "t"));
    assert!(!admin_ok(&h(None, None), "t"));
    // Without a token the owner's requests are closed.
    assert!(!admin_ok(&h(Some("Bearer "), Some("")), ""));
    assert!(admin_refused(&owner(), &cfg()).is_none());
    assert!(is_unauthorized(&admin_refused(&stranger(), &cfg()).unwrap()));
}

#[test]
fn answers_have_a_status_and_a_message() {
    assert_eq!(message(&jok("m")), (200, true, "m"));
    assert_eq!(message(&jerr(418, "m")), (418, false, "m"));
}

#[test]
fn forms_that_go_no_further() {
    let mut l = RateLimiter::new();
    let mut ask = |f: SubscribeForm| match subscribe(&mut l, &cfg(), &f, Some("ip"), 0) {
        SubscribeStep::Reply(r) => r,
        SubscribeStep::Judge(_) => panic!("goes on"),
    };
    // None of these counts against the limit, so there can be more than five.
    for _ in 0..3 {
        assert_eq!(
            message(&ask(form("a@b.c", " spam ", "t"))),
            (200, true, "Thanks! Please check your email to confirm.")
        );
        assert_eq!(message(&ask(form("  ", " ", "t"))), (200, false, "Please enter your email address."));
        assert_eq!(message(&ask(form("a@b", "", "t"))), (200, false, "Please enter a valid email address."));
    }
    for _ in 0..5 {
        assert_eq!(
            message(&ask(form("a@b.c", "", ""))),
            (200, false, "Please complete the verification challenge and try again.")
        );
    }
    assert_eq!(
        message(&ask(form("a@b.c", "", "t"))),
        (429, false, "Too many attempts from this connection. Please wait a bit and try again.")
    );
}

#[test]
fn a_form_without_a_secret_is_not_configured() {
    let mut l = RateLimiter::new();
    let mut c = cfg();
    c.turnstile_secret = String::new();
    match subscribe(&mut l, &c, &form("a@b.c", "", ""), None, 0) {
        SubscribeStep::Reply(r) => assert_eq!(
            message(&r),
            (500, false, "The form is not fully configured yet. Please email jacob@stephens.page.")
        ),
        SubscribeStep::Judge(_) => panic!("goes on"),
    }
}

#[test]
fn a_complete_form_is_judged() {
    let mut l = RateLimiter::new();
    match subscribe(&mut l, &cfg(), &form(" a@b.c ", "", "resp"), Some("9.9.9.9, x"), 0) {
        SubscribeStep::Judge(c) => {
            assert_eq!(c.email, "a@b.c");
            assert_eq!(c.secret, "secret");
            assert_eq!(c.response, "resp");
            assert_eq!(c.remoteip, "9.9.9.9");
        }
        SubscribeStep::Reply(r) => panic!("{r:?}"),
    }
}

#[test]
fn a_challenge_is_passed_or_not() {
    assert!(turnstile_ok(Some(b"{\"success\": true}")));
    assert!(!turnstile_ok(Some(b"{\"success\": false}")));
    assert!(!turnstile_ok(Some(b"{\"success\": \"true\"}")));
    assert!(!turnstile_ok(Some(b"{\"other\": true}")));
    assert!(!turnstile_ok(Some(b"true")));
    assert!(!turnstile_ok(Some(b"")));
    assert!(!turnstile_ok(None));
    assert!(subscribe_judged(true).is_none());
    assert_eq!(
        message(&subscribe_judged(false).unwrap()),
        (200, false, "Verification failed. Please try the challenge again.")
    );
}

#[test]
fn a_new_subscriber_gets_a_link() {
    let mut db = empty();
    let m = subscribe_record_with(&mut db, &cfg(), "a@b.c", "ip", "c0", "u0", 5).ok().unwrap();
    let (html, text) = confirm_email("https://n.example/confirm?token=c0");
    assert_eq!(m.from, "Jacob Stephens <jacob@stephens.page>");
    assert_eq!(m.to, "a@b.c");
    assert_eq!(m.subject, "Confirm your subscription to Jacob Stephens' blog");
    assert_eq!(m.html, html);
    assert_eq!(m.text, text);
    assert!(m.headers.is_empty());
    let r = db.subscriber(0);
    assert_eq!((r.status.as_str(), r.list.as_str()), ("pending", DEFAULT_LIST));
    assert_eq!(r.confirm_token.as_deref(), Some("c0"));
    assert_eq!(r.unsubscribe_token, "u0");
    assert_eq!(r.created_at, 5);
    assert_eq!(r.ip.as_deref(), Some("ip"));
    // Asked again, there is a new link for the same subscriber.
    let m = subscribe_record_with(&mut db, &cfg(), "A@b.c", "ip2", "c1", "u1", 6).ok().unwrap();
    assert!(m.text.contains("token=c1"));
    assert_eq!(db.subscriber_count(), 1);
    assert_eq!(db.subscriber(0).unsubscribe_token, "u0");
}

#[test]
fn subscribing_touches_one_list() {
    let mut db = empty();
    add_confirmed(&mut db, "a@b.c", "u", 1, "other").unwrap();
    assert!(subscribe_record_with(&mut db, &cfg(), "a@b.c", "ip", "c0", "u0", 5).is_ok());
    assert_eq!(find_by_email(&db, "a@b.c", "other"), Some((1, "confirmed".to_string())));
    assert_eq!(find_by_email(&db, "a@b.c", DEFAULT_LIST), Some((2, "pending".to_string())));
    assert_eq!(confirmed_recipients(&db, "other").len(), 1);
}

#[test]
fn a_confirmed_subscriber_is_told_so() {
    let mut db = empty();
    add_confirmed(&mut db, "a@b.c", "u", 1, DEFAULT_LIST).unwrap();
    let before = db.changes().len();
    let r = subscribe_record_with(&mut db, &cfg(), "A@B.C", "ip", "c0", "u0", 5).err().unwrap();
    assert_eq!(message(&r), (200, true, "You're already subscribed - thanks for reading."));
    assert_eq!(db.changes().len(), before);
}

#[test]
fn a_full_table_is_something_wrong() {
    let mut db = Database::load(Vec::new(), Vec::new(), i64::MAX, 0).unwrap();
    let r = subscribe_record_with(&mut db, &cfg(), "a@b.c", "ip", "c0", "u0", 5).err().unwrap();
    let wrong = (500, false, "Something went wrong on our end. Please try again later.");
    assert_eq!(message(&r), wrong);
    assert_eq!(message(&subscribe_failed()), wrong);
}

#[test]
fn subscribing_with_new_tokens() {
    let mut db = empty();
    let c = Challenge {
        email: "a@b.c".to_string(),
        secret: String::new(),
        response: String::new(),
        remoteip: "ip".to_string(),
    };
    let m = subscribe_record(&mut db, &cfg(), &c, 5).ok().unwrap();
    let token = db.subscriber(0).confirm_token.clone().unwrap();
    assert_eq!(token.len(), 64);
    assert_eq!(db.subscriber(0).unsubscribe_token.len(), 64);
    assert_ne!(token, db.subscriber(0).unsubscribe_token);
    assert!(m.text.contains(&format!("https://n.example/confirm?token={token}\n")));
    assert!(confirmed_recipients(&db, DEFAULT_LIST).is_empty());
    let r = confirm(&mut db, &token, 9);
    assert!(page(&r).1.contains("<h1>You're subscribed</h1>"));
    assert_eq!(confirmed_recipients(&db, DEFAULT_LIST)[0].0, "a@b.c");
}

#[test]
fn the_mail_went_out_or_not() {
    assert_eq!(
        message(&subscribe_mailed(true)),
        (200, true, "Almost there - check your email and click the confirmation link.")
    );
    assert_eq!(
        message(&subscribe_mailed(false)),
        (502, false, "We could not send the confirmation email. Please try again later.")
    );
}

#[test]
fn confirmation_pages() {
    let mut db = empty();
    subscribe_record_with(&mut db, &cfg(), "a@b.c", "ip", "c0", "u0", 5).ok().unwrap();
    let bad = landing_page(
        "Invalid link",
        "That link doesn't look right",
        "<p>The confirmation link is missing or malformed. Try subscribing again from the blog.</p>",
    );
    assert_eq!(page(&confirm(&mut db, "", 6)), (400, bad.as_str()));
    assert_eq!(page(&confirm_refused("x y").unwrap()), (400, bad.as_str()));
    assert!(confirm_refused("c0").is_none());
    let used = landing_page(
        "Already confirmed",
        "You're all set",
        "<p>This link has already been used. If you've confirmed once, you're subscribed - nothing more to do.</p>",
    );
    assert_eq!(page(&confirm(&mut db, "ff", 6)), (200, used.as_str()));
    let done = landing_page(
        "Subscription confirmed",
        "You're subscribed",
        "<p>Thanks for confirming. You'll get an email when I publish a new post - nothing else.</p><p>Every email includes a one-click unsubscribe link if you ever change your mind.</p>",
    );
    assert_eq!(page(&confirm(&mut db, "c0", 6)), (200, done.as_str()));
    assert_eq!(page(&confirm(&mut db, "c0", 7)), (200, used.as_str()));
    let broken = landing_page(
        "Something went wrong",
        "Something went wrong",
        "<p>We couldn't confirm your subscription just now. Please try the link again shortly.</p>",
    );
    assert_eq!(page(&confirm_failed()), (500, broken.as_str()));
}

#[test]
fn unsubscribe_pages() {
    let mut db = empty();
    add_confirmed(&mut db, "a@b.c", "aa", 1, DEFAULT_LIST).unwrap();
    let bad = landing_page(
        "Invalid link",
        "That link doesn't look right",
        "<p>The unsubscribe link is missing or malformed. Email <a href=\"mailto:jacob@stephens.page\">jacob@stephens.page</a> and I'll remove you.</p>",
    );
    assert_eq!(page(&unsubscribe_get(&mut db, "preview", 5)), (400, bad.as_str()));
    assert_eq!(page(&unsubscribe_refused("").unwrap()), (400, bad.as_str()));
    assert!(unsubscribe_refused("aa").is_none());
    let unknown = landing_page(
        "Not found",
        "We couldn't find that subscription",
        "<p>This link doesn't match anyone on the list. You may already be removed.</p>",
    );
    assert_eq!(page(&unsubscribe_get(&mut db, "bb", 5)), (200, unknown.as_str()));
    let done = landing_page(
        "Unsubscribed",
        "You've been unsubscribed",
        "<p>You won't receive any more newsletter emails. Sorry to see you go - you're welcome back anytime from the blog.</p>",
    );
    assert_eq!(page(&unsubscribe_get(&mut db, "aa", 5)), (200, done.as_str()));
    assert_eq!(page(&unsubscribe_get(&mut db, "aa", 6)), (200, done.as_str()));
    assert!(confirmed_recipients(&db, DEFAULT_LIST).is_empty());
    let broken = landing_page(
        "Something went wrong",
        "Something went wrong",
        "<p>We couldn't process that just now. Please try again shortly.</p>",
    );
    assert_eq!(page(&unsubscribe_failed()), (500, broken.as_str()));
}

#[test]
fn one_click_is_always_ok() {
    let mut db = empty();
    add_confirmed(&mut db, "a@b.c", "aa", 1, DEFAULT_LIST).unwrap();
    for token in ["", "zz", "bb"] {
        let r = unsubscribe_post(&mut db, token, 5);
        assert!(matches!(&r, Reply::Text { status: 200, text } if text == "OK"));
        assert_eq!(confirmed_recipients(&db, DEFAULT_LIST).len(), 1);
    }
    unsubscribe_post(&mut db, "aa", 5);
    assert!(confirmed_recipients(&db, DEFAULT_LIST).is_empty());
    assert!(matches!(unsubscribe_posted(), Reply::Text { status: 200, .. }));
}

#[test]
fn the_dashboard() {
    let mut db = empty();
    add_confirmed(&mut db, "a@b.c", "aa", 1, DEFAULT_LIST).unwrap();
    add_confirmed(&mut db, "b@b.c", "bb", 2, "other").unwrap();
    record_send(&mut db, "p", "s", 3, 1, "h", DEFAULT_LIST).unwrap();
    assert!(is_unauthorized(&admin_data(&db, &stranger(), &cfg())));
    match admin_data(&db, &owner(), &cfg()) {
        Reply::Overview { stats, subscribers, sends } => {
            assert_eq!(stats, Stats { confirmed: 1, pending: 0, unsubscribed: 0, total: 1 });
            assert_eq!(subscribers.len(), 1);
            assert_eq!(subscribers[0].email, "a@b.c");
            assert_eq!(subscribers[0].status, "confirmed");
            assert_eq!(sends.len(), 1);
            assert_eq!(sends[0].post_url, "p");
        }
        r => panic!("{r:?}"),
    }
    assert!(matches!(&admin_failed("x"), Reply::Error { status: 500, error } if error == "x"));
}

#[test]
fn the_owner_takes_addresses_off() {
    let mut db = empty();
    add_confirmed(&mut db, "a@b.c", "aa", 1, DEFAULT_LIST).unwrap();
    assert!(is_unauthorized(&admin_unsub(&mut db, &stranger(), &cfg(), "a@b.c", 5)));
    assert!(is_unauthorized(&admin_delete(&mut db, &stranger(), &cfg(), "a@b.c")));
    assert_eq!(confirmed_recipients(&db, DEFAULT_LIST).len(), 1);
    let n = |r: Reply| match r {
        Reply::Affected { affected } => affected,
        r => panic!("{r:?}"),
    };
    assert_eq!(n(admin_unsub(&mut db, &owner(), &cfg(), " A@b.c ", 5)), 1);
    assert_eq!(n(admin_unsub(&mut db, &owner(), &cfg(), "a@b.c", 5)), 0);
    assert_eq!(n(admin_delete(&mut db, &owner(), &cfg(), " a@b.c")), 1);
    assert_eq!(n(admin_delete(&mut db, &owner(), &cfg(), "a@b.c")), 0);
    assert_eq!(find_by_email(&db, "a@b.c", DEFAULT_LIST), None);
    assert_eq!(n(affected(7)), 7);
}

#[test]
fn the_owner_sends_a_post() {
    match admin_send(&stranger(), &cfg(), "p", true) {
        AdminSendStep::Reply(r) => assert!(is_unauthorized(&r)),
        AdminSendStep::Start { .. } => panic!("starts"),
    }
    match admin_send(&owner(), &cfg(), "  ", true) {
        AdminSendStep::Reply(r) => assert_eq!(message(&r), (400, false, "Missing slug.")),
        AdminSendStep::Start { .. } => panic!("starts"),
    }
    for asked in [false, true] {
        match admin_send(&owner(), &cfg(), " my-post ", asked) {
            AdminSendStep::Start { slug, force, reply } => {
                assert_eq!(slug, "my-post");
                assert_eq!(force, asked);
                assert!(matches!(&reply, Reply::Started { message }
                    if message == "Sending \"my-post\" to confirmed subscribers."));
            }
            AdminSendStep::Reply(r) => panic!("{r:?}"),
        }
    }
}

#[test]
fn the_owner_drafts_a_mail() {
    let post = || Post {
        slug: "p".to_string(),
        title: "T".to_string(),
        desc: "D".to_string(),
        url: "https://b/p/".to_string(),
    };
    assert!(is_unauthorized(&admin_compose(&stranger(), &cfg(), Ok(post()))));
    match admin_compose(&owner(), &cfg(), Ok(post())) {
        Reply::Draft { subject, body_html } => {
            assert_eq!(subject, "T");
            assert_eq!(body_html, seed_body("T", "D", "https://b/p/"));
        }
        r => panic!("{r:?}"),
    }
    let r = admin_compose(&owner(), &cfg(), Err(PostError::InvalidSlug("X".to_string())));
    assert_eq!(message(&r), (400, false, "invalid slug: X"));
}

#[test]
fn the_owner_sees_a_preview() {
    let r = admin_preview(&stranger(), &cfg(), "<p>");
    assert!(matches!(&r, Reply::Text { status: 401, text } if text == "unauthorized"));
    let html = wrap_custom("<p>", "https://n.example/unsubscribe?token=preview").0;
    assert_eq!(page(&admin_preview(&owner(), &cfg(), "<p>")), (200, html.as_str()));
}

#[test]
fn the_owner_sends_a_composed_mail() {
    let ask = |h: AdminHeaders, subject: &str, body: &str, test: &str| {
        admin_send_html(&h, &cfg(), subject, body, test)
    };
    let reply = |s: SendHtmlStep| match s {
        SendHtmlStep::Reply(r) => r,
        s => panic!("{s:?}"),
    };
    assert!(is_unauthorized(&reply(ask(stranger(), "s", "b", ""))));
    assert_eq!(message(&reply(ask(owner(), " ", "b", ""))), (400, false, "Subject is required."));
    assert_eq!(message(&reply(ask(owner(), "s", " ", ""))), (400, false, "The email body is empty."));
    assert_eq!(message(&reply(ask(owner(), "s", "b", "x"))), (400, false, "Invalid test address."));
    match ask(owner(), " s ", " b ", " t@x.y ") {
        SendHtmlStep::Test { to, subject, body_html } => {
            assert_eq!((to.as_str(), subject.as_str(), body_html.as_str()), ("t@x.y", " s ", " b "));
        }
        s => panic!("{s:?}"),
    }
    match ask(owner(), " s ", " b ", " ") {
        SendHtmlStep::Start { subject, body_html, reply } => {
            assert_eq!((subject.as_str(), body_html.as_str()), (" s ", " b "));
            assert!(matches!(&reply, Reply::Started { message }
                if message == "Sending to confirmed subscribers."));
        }
        s => panic!("{s:?}"),
    }
}

#[test]
fn a_test_mail_went_out_or_not() {
    assert_eq!(message(&tested("t@x.y", Ok(()))), (200, true, "Test email sent to t@x.y."));
    assert_eq!(
        message(&tested("t@x.y", Err("resend: no"))),
        (502, false, "Test send failed: resend: no")
    );
}
