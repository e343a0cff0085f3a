//! What the service answers to each request, and what it does about it.
//!
//! A request that needs the network is handled in steps: each step says what to do next, and the
//! step after it is told what came of that.
use vstd::prelude::*;
use vstd::slice::slice_subrange;
use vstd::string::*;
use vstd::utf8::encode_utf8;

use crate::config;
use crate::config::{Config, DEFAULT_LIST};
use crate::db;
use crate::db::{SendRecord, Stats, Subscriber, UnsubOutcome};
use crate::json;
use crate::limiter;
use crate::limiter::{RateLimiter, WINDOW};
use crate::mail;
use crate::mail::{confirm_email, from_header, landing_page, wrap_custom, Email};
use crate::posts;
use crate::posts::{seed_body, Post, PostError};
use crate::send;
use crate::send::unsub_url;
use crate::tables;
use crate::tables::Database;
use crate::text;
use crate::text::{find_char, same, strip_prefix, to_chars, trim};
use crate::text_laws;
use crate::tokens;
use crate::tokens::{hexish, token};

verus! {

// ---------- Answers ----------

/// An answer to a request.
#[derive(Debug)]
pub enum Reply {
    /// A JSON object with `ok` and `message`.
    Message { status: u16, ok: bool, message: String },
    /// A JSON object with `error`.
    Error { status: u16, error: String },
    /// A page.
    Page { status: u16, html: String },
    /// Plain text.
    Text { status: u16, text: String },
    /// A JSON object with `ok`, which is true, and `affected`.
    Affected { affected: usize },
    /// A JSON object with `ok` and `started`, which are true, and `message`.
    Started { message: String },
    /// A JSON object with `ok`, which is true, `subject` and `body_html`.
    Draft { subject: String, body_html: String },
    /// A JSON object with `stats`, `subscribers` and `sends`.
    Overview { stats: Stats, subscribers: Vec<Subscriber>, sends: Vec<SendRecord> },
}

/// What an answer says.
#[verifier::ext_equal]
pub ghost enum ReplyView {
    Message { status: u16, ok: bool, message: Seq<char> },
    Error { status: u16, error: Seq<char> },
    Page { status: u16, html: Seq<char> },
    Text { status: u16, text: Seq<char> },
    Affected { affected: usize },
    Started { message: Seq<char> },
    Draft { subject: Seq<char>, body_html: Seq<char> },
    Overview {
        stats: Stats,
        subscribers: Seq<db::SubscriberView>,
        sends: Seq<db::SendRecordView>,
    },
}

impl View for Reply {
    type V = ReplyView;

    open spec fn view(&self) -> ReplyView {
        match self {
            Reply::Message { status, ok, message } => ReplyView::Message {
                status: *status,
                ok: *ok,
                message: message@,
            },
            Reply::Error { status, error } => ReplyView::Error { status: *status, error: error@ },
            Reply::Page { status, html } => ReplyView::Page { status: *status, html: html@ },
            Reply::Text { status, text } => ReplyView::Text { status: *status, text: text@ },
            Reply::Affected { affected } => ReplyView::Affected { affected: *affected },
            Reply::Started { message } => ReplyView::Started { message: message@ },
            Reply::Draft { subject, body_html } => ReplyView::Draft {
                subject: subject@,
                body_html: body_html@,
            },
            Reply::Overview { stats, subscribers, sends } => ReplyView::Overview {
                stats: *stats,
                subscribers: db::shown_views(subscribers@),
                sends: db::shown_send_views(sends@),
            },
        }
    }
}

/// The answer that all went well.
pub open spec fn good(message: Seq<char>) -> ReplyView {
    ReplyView::Message { status: 200, ok: true, message }
}

/// The answer that something is wrong.
pub open spec fn bad(status: u16, message: Seq<char>) -> ReplyView {
    ReplyView::Message { status, ok: false, message }
}

/// The answer that all went well.
pub fn jok(msg: &str) -> (r: Reply)
    ensures
        r@ == good(msg@),
{
    Reply::Message { status: 200, ok: true, message: msg.to_owned() }
}

/// The answer that something is wrong.
pub fn jerr(code: u16, msg: &str) -> (r: Reply)
    ensures
        r@ == bad(code, msg@),
{
    Reply::Message { status: code, ok: false, message: msg.to_owned() }
}

// ---------- Addresses and credentials ----------

/// A text that is taken for a mail address: without white space around it, at most 254 bytes
/// long, without a space, with something in front of the first `@`, and behind that a domain with a
/// dot that neither begins nor ends with one.
pub open spec fn is_email(s: Seq<char>) -> bool {
    let e = text::trimmed(s);
    &&& !e.contains(' ')
    &&& encode_utf8(e).len() <= 254
    &&& match e.index_of_first('@') {
        None => false,
        Some(at) => {
            let domain = e.skip(at + 1);
            &&& at > 0
            &&& domain.contains('.')
            &&& domain[0] != '.'
            &&& domain.last() != '.'
        },
    }
}

/// Whether a text is taken for a mail address.
pub fn valid_email(e: &str) -> (r: bool)
    ensures
        r == is_email(e@),
{
    let e: String = trim(e);
    let c: Vec<char> = to_chars(e.as_str());
    if find_char(c.as_slice(), ' ').is_some() || text::byte_len(e.as_str()) > 254 {
        return false;
    }
    match find_char(c.as_slice(), '@') {
        None => false,
        Some(at) => {
            assert(at < c.len());
            let domain: &[char] = slice_subrange(c.as_slice(), at + 1, c.len());
            assert(domain@ =~= c@.skip(at + 1));
            match find_char(domain, '.') {
                None => false,
                Some(_dot) => at > 0 && domain[0] != '.' && domain[domain.len() - 1] != '.',
            }
        },
    }
}

/// The address of the network that a request came from: the first one that the proxy names.
pub open spec fn origin(forwarded: Option<&str>) -> Seq<char> {
    match forwarded {
        None => "unknown"@,
        Some(s) => {
            let first = text::trimmed(text::before_first(s@, ','));
            if first.len() == 0 {
                "unknown"@
            } else {
                first
            }
        },
    }
}

/// The address of the network that a request came from, given what the proxy says in
/// `X-Forwarded-For`.
pub fn client_ip(forwarded: Option<&str>) -> (r: String)
    ensures
        r@ == origin(forwarded),
{
    match forwarded {
        None => "unknown".to_owned(),
        Some(s) => {
            let first: String = trim(text::head(s, ',').as_str());
            if first.as_str().is_empty() {
                "unknown".to_owned()
            } else {
                first
            }
        },
    }
}

/// The headers in which a request can carry the token of the owner.
#[derive(Debug)]
pub struct AdminHeaders {
    pub authorization: Option<String>,
    pub x_admin_token: Option<String>,
}

/// A request carries the token of the owner: as a bearer token or in a header of its own. Where no
/// token is set, no request does.
pub open spec fn is_admin(headers: AdminHeaders, token: Seq<char>) -> bool {
    &&& token.len() > 0
    &&& {
        ||| headers.authorization matches Some(s) && text::starts_with(s@, "Bearer "@)
            && text::trimmed(s@.skip("Bearer "@.len() as int)) == token
        ||| headers.x_admin_token matches Some(s) && s@ == token
    }
}

/// Where no token is set, the owner's requests are closed to everybody.
pub proof fn no_token_no_admin(headers: AdminHeaders)
    ensures
        !is_admin(headers, Seq::empty()),
{
}

/// Whether a request carries the token of the owner.
pub fn admin_ok(headers: &AdminHeaders, token: &str) -> (r: bool)
    ensures
        r == is_admin(*headers, token@),
{
    if token.is_empty() {
        return false;
    }
    let bearer: bool = match &headers.authorization {
        Some(s) => match strip_prefix(s.as_str(), "Bearer ") {
            Some(rest) => same(trim(rest.as_str()).as_str(), token),
            None => false,
        },
        None => false,
    };
    let own: bool = match &headers.x_admin_token {
        Some(s) => same(s.as_str(), token),
        None => false,
    };
    bearer || own
}

// ---------- Subscribing ----------

/// The form on the blog. The field for a website is a trap: people do not see it.
#[derive(Debug)]
pub struct SubscribeForm {
    pub email: String,
    pub website_url: String,
    pub turnstile: String,
}

/// A challenge that the service for such has to judge: its secret, the answer that came with the
/// form, and where the request came from. The address to subscribe comes with it.
#[derive(Debug)]
pub struct Challenge {
    pub email: String,
    pub secret: String,
    pub response: String,
    pub remoteip: String,
}

/// What a `Challenge` says.
#[verifier::ext_equal]
pub ghost struct ChallengeView {
    pub email: Seq<char>,
    pub secret: Seq<char>,
    pub response: Seq<char>,
    pub remoteip: Seq<char>,
}

impl View for Challenge {
    type V = ChallengeView;

    open spec fn view(&self) -> ChallengeView {
        ChallengeView {
            email: self.email@,
            secret: self.secret@,
            response: self.response@,
            remoteip: self.remoteip@,
        }
    }
}

/// What to do about a request to subscribe.
#[derive(Debug)]
pub enum SubscribeStep {
    /// Answer it.
    Reply(Reply),
    /// Have the challenge judged.
    Judge(Challenge),
}

/// What a `SubscribeStep` says.
#[verifier::ext_equal]
pub ghost enum SubscribeStepView {
    Reply(ReplyView),
    Judge(ChallengeView),
}

impl View for SubscribeStep {
    type V = SubscribeStepView;

    open spec fn view(&self) -> SubscribeStepView {
        match self {
            SubscribeStep::Reply(r) => SubscribeStepView::Reply(r@),
            SubscribeStep::Judge(c) => SubscribeStepView::Judge(c@),
        }
    }
}

/// What a form is answered that is not even counted: one that walked into the trap is told that all
/// went well, and one without a mail address what it lacks.
pub open spec fn form_refused(form: SubscribeForm) -> Option<ReplyView> {
    let email = text::trimmed(form.email@);
    if text::trimmed(form.website_url@).len() > 0 {
        Some(good("Thanks! Please check your email to confirm."@))
    } else if email.len() == 0 {
        Some(bad(200, "Please enter your email address."@))
    } else if !is_email(email) {
        Some(bad(200, "Please enter a valid email address."@))
    } else {
        None
    }
}

/// What to do about a form with a mail address, given whether its sender is within the limit.
pub open spec fn form_step(
    cfg: config::ConfigView,
    form: SubscribeForm,
    ip: Seq<char>,
    within_limit: bool,
) -> SubscribeStepView {
    if !within_limit {
        SubscribeStepView::Reply(
            bad(
                429,
                "Too many attempts from this connection. Please wait a bit and try again."@,
            ),
        )
    } else if cfg.turnstile_secret.len() == 0 {
        SubscribeStepView::Reply(
            bad(
                500,
                "The form is not fully configured yet. Please email jacob@stephens.page."@,
            ),
        )
    } else if form.turnstile@.len() == 0 {
        SubscribeStepView::Reply(
            bad(200, "Please complete the verification challenge and try again."@),
        )
    } else {
        SubscribeStepView::Judge(
            ChallengeView {
                email: text::trimmed(form.email@),
                secret: cfg.turnstile_secret,
                response: form.turnstile@,
                remoteip: ip,
            },
        )
    }
}

/// Takes up a request to subscribe.
pub fn subscribe(
    limiter: &mut RateLimiter,
    cfg: &Config,
    form: &SubscribeForm,
    forwarded: Option<&str>,
    now: i64,
) -> (r: SubscribeStep)
    requires
        old(limiter).wf(),
        now >= i64::MIN + WINDOW,
    ensures
        final(limiter).wf(),
        match form_refused(*form) {
            Some(reply) => r@ == SubscribeStepView::Reply(reply) && forall|ip: Seq<char>| #[trigger]
                final(limiter).attempts(ip) == old(limiter).attempts(ip),
            None => {
                let ip = origin(forwarded);
                let times = old(limiter).attempts(ip);
                &&& r@ == form_step(
                    cfg@,
                    *form,
                    ip,
                    limiter::fresh(times, now).len() < limiter::ATTEMPTS,
                )
                &&& final(limiter).attempts(ip) == limiter::after_attempt(times, now)
                &&& forall|other: Seq<char>|
                    other != ip ==> #[trigger] final(limiter).attempts(other) == old(
                        limiter,
                    ).attempts(other)
            },
        },
{
    let ip: String = client_ip(forwarded);
    if !trim(form.website_url.as_str()).as_str().is_empty() {
        return SubscribeStep::Reply(jok("Thanks! Please check your email to confirm."));
    }
    let email: String = trim(form.email.as_str());
    if email.as_str().is_empty() {
        return SubscribeStep::Reply(jerr(200, "Please enter your email address."));
    }
    if !valid_email(email.as_str()) {
        return SubscribeStep::Reply(jerr(200, "Please enter a valid email address."));
    }
    if !limiter.rate_ok(ip.as_str(), now) {
        return SubscribeStep::Reply(
            jerr(
                429,
                "Too many attempts from this connection. Please wait a bit and try again.",
            ),
        );
    }
    if cfg.turnstile_secret.as_str().is_empty() {
        return SubscribeStep::Reply(
            jerr(
                500,
                "The form is not fully configured yet. Please email jacob@stephens.page.",
            ),
        );
    }
    if form.turnstile.as_str().is_empty() {
        return SubscribeStep::Reply(
            jerr(200, "Please complete the verification challenge and try again."),
        );
    }
    SubscribeStep::Judge(
        Challenge {
            email,
            secret: cfg.turnstile_secret.clone(),
            response: form.turnstile.clone(),
            remoteip: ip,
        },
    )
}

/// Whether a challenge was passed, given the answer of the service that judged it; `None` where
/// there was no answer.
pub fn turnstile_ok(body: Option<&[u8]>) -> (r: bool)
    ensures
        r == match body {
            Some(b) => json::flag_of(json::json_member(b@, "success"@)),
            None => false,
        },
{
    match body {
        Some(b) => json::flag_member(b, "success"),
        None => false,
    }
}

/// What a request is answered whose challenge was judged; `None` where it goes on.
pub fn subscribe_judged(passed: bool) -> (r: Option<Reply>)
    ensures
        match r {
            Some(reply) => !passed && reply@ == bad(
                200,
                "Verification failed. Please try the challenge again."@,
            ),
            None => passed,
        },
{
    if passed {
        None
    } else {
        Some(jerr(200, "Verification failed. Please try the challenge again."))
    }
}

/// The answer that the tables could not be read or written.
pub open spec fn went_wrong() -> ReplyView {
    bad(500, "Something went wrong on our end. Please try again later."@)
}

/// The answer that the tables could not be read or written.
pub fn subscribe_failed() -> (r: Reply)
    ensures
        r@ == went_wrong(),
{
    jerr(500, "Something went wrong on our end. Please try again later.")
}

/// What someone is answered at once who asks to subscribe and has passed the challenge.
pub open spec fn subscribe_answered(t: tables::Tables, email: Seq<char>, list: Seq<char>) -> Option<
    ReplyView,
> {
    match db::entry(t.subscribers, email, list) {
        Some(row) => if row.status == db::confirmed() {
            Some(good("You're already subscribed - thanks for reading."@))
        } else {
            None
        },
        None => if t.top_subscriber() == i64::MAX {
            Some(went_wrong())
        } else {
            None
        },
    }
}

/// The tables after someone who passed the challenge asked to subscribe: nothing changes for who is
/// confirmed, and anyone else waits for confirmation under the new token.
pub open spec fn after_subscribe(
    t: tables::Tables,
    email: Seq<char>,
    confirm_token: Seq<char>,
    unsubscribe_token: Seq<char>,
    now: i64,
    ip: Seq<char>,
    list: Seq<char>,
) -> tables::Tables {
    match db::entry(t.subscribers, email, list) {
        Some(row) => if row.status == db::confirmed() {
            t
        } else {
            db::after_set_pending(t, row.id, confirm_token, ip)
        },
        None => if t.top_subscriber() == i64::MAX {
            t
        } else {
            db::after_insert_pending(t, email, confirm_token, unsubscribe_token, now, ip, list)
        },
    }
}

/// The link that confirms a subscription.
pub open spec fn confirm_link(public_url: Seq<char>, confirm_token: Seq<char>) -> Seq<char> {
    text::without_trailing(public_url, '/') + "/confirm?token="@ + confirm_token
}

/// The mail with the link that confirms a subscription.
pub open spec fn confirmation(
    cfg: config::ConfigView,
    email: Seq<char>,
    confirm_token: Seq<char>,
) -> mail::EmailView {
    let link = confirm_link(cfg.public_url, confirm_token);
    mail::EmailView {
        from: mail::sender(cfg.from_name, cfg.from_email),
        to: email,
        subject: "Confirm your subscription to Jacob Stephens' blog"@,
        html: mail::confirm_html(link),
        text: mail::confirm_text(link),
        headers: Seq::empty(),
    }
}

/// The mail with the link that confirms a subscription.
fn confirmation_mail(cfg: &Config, email: &str, confirm_token: &str) -> (r: Email)
    ensures
        r@ == confirmation(cfg@, email@, confirm_token@),
{
    let link: String = text::trim_end_char(cfg.public_url.as_str(), '/').concat(
        "/confirm?token=",
    ).concat(confirm_token);
    let (html, plain) = confirm_email(link.as_str());
    let headers: Vec<(String, String)> = Vec::new();
    assert(mail::header_views(headers@) =~= Seq::<(Seq<char>, Seq<char>)>::empty());
    Email {
        from: from_header(cfg.from_name.as_str(), cfg.from_email.as_str()),
        to: email.to_owned(),
        subject: "Confirm your subscription to Jacob Stephens' blog".to_owned(),
        html,
        text: plain,
        headers,
    }
}

/// Takes up someone who asks to subscribe and has passed the challenge, under the given tokens:
/// the mail to send, or the answer where none is sent.
pub fn subscribe_record_with(
    db: &mut Database,
    cfg: &Config,
    email: &str,
    ip: &str,
    confirm_token: &str,
    unsubscribe_token: &str,
    now: i64,
) -> (r: Result<Email, Reply>)
    requires
        old(db).wf(),
    ensures
        final(db).wf(),
        final(db).loaded() == old(db).loaded(),
        final(db)@ == after_subscribe(
            old(db)@,
            email@,
            confirm_token@,
            unsubscribe_token@,
            now,
            ip@,
            DEFAULT_LIST@,
        ),
        match r {
            Ok(m) => subscribe_answered(old(db)@, email@, DEFAULT_LIST@) is None && m@
                == confirmation(cfg@, email@, confirm_token@),
            Err(reply) => subscribe_answered(old(db)@, email@, DEFAULT_LIST@) == Some(reply@),
        },
{
    match db::find_by_email(db, email, DEFAULT_LIST) {
        Some((id, status)) => {
            if same(status.as_str(), "confirmed") {
                return Err(jok("You're already subscribed - thanks for reading."));
            }
            db::set_pending(db, id, confirm_token, ip);
        },
        None => {
            match db::insert_pending(
                db,
                email,
                confirm_token,
                unsubscribe_token,
                now,
                ip,
                DEFAULT_LIST,
            ) {
                Ok(()) => {},
                Err(_e) => {
                    return Err(subscribe_failed());
                },
            }
        },
    }
    Ok(confirmation_mail(cfg, email, confirm_token))
}

/// Takes up someone who asks to subscribe and has passed the challenge, under new tokens, each of 32
/// random bytes in hexadecimal notation.
pub fn subscribe_record(db: &mut Database, cfg: &Config, c: &Challenge, now: i64) -> (r: Result<
    Email,
    Reply,
>)
    requires
        old(db).wf(),
    ensures
        final(db).wf(),
        final(db).loaded() == old(db).loaded(),
        exists|a: Seq<u8>, b: Seq<u8>|
            a.len() == 32 && b.len() == 32 && final(db)@ == #[trigger] after_subscribe(
                old(db)@,
                c.email@,
                tokens::hex_text(a),
                tokens::hex_text(b),
                now,
                c.remoteip@,
                DEFAULT_LIST@,
            ) && match r {
                Ok(m) => subscribe_answered(old(db)@, c.email@, DEFAULT_LIST@) is None && m@
                    == confirmation(cfg@, c.email@, tokens::hex_text(a)),
                Err(reply) => subscribe_answered(old(db)@, c.email@, DEFAULT_LIST@) == Some(
                    reply@,
                ),
            },
{
    let confirm_token: String = token();
    let unsubscribe_token: String = token();
    subscribe_record_with(
        db,
        cfg,
        c.email.as_str(),
        c.remoteip.as_str(),
        confirm_token.as_str(),
        unsubscribe_token.as_str(),
        now,
    )
}

/// What someone is answered to whom the mail with the link went out, or did not.
pub fn subscribe_mailed(ok: bool) -> (r: Reply)
    ensures
        r@ == if ok {
            good("Almost there - check your email and click the confirmation link."@)
        } else {
            bad(502, "We could not send the confirmation email. Please try again later."@)
        },
{
    if ok {
        jok("Almost there - check your email and click the confirmation link.")
    } else {
        jerr(502, "We could not send the confirmation email. Please try again later.")
    }
}

// ---------- Confirming ----------

/// A page as an answer.
pub open spec fn page_reply(
    status: u16,
    title: Seq<char>,
    heading: Seq<char>,
    body_html: Seq<char>,
) -> ReplyView {
    ReplyView::Page { status, html: mail::page(title, heading, body_html) }
}

/// A page as an answer.
fn page(status: u16, title: &str, heading: &str, body_html: &str) -> (r: Reply)
    ensures
        r@ == page_reply(status, title@, heading@, body_html@),
{
    Reply::Page { status, html: landing_page(title, heading, body_html) }
}

/// The page for a confirmation link without a token.
pub open spec fn confirm_malformed() -> ReplyView {
    page_reply(
        400,
        "Invalid link"@,
        "That link doesn't look right"@,
        "<p>The confirmation link is missing or malformed. Try subscribing again from the blog.</p>"@,
    )
}

/// The page for a confirmation link that someone waited for.
pub open spec fn confirm_done() -> ReplyView {
    page_reply(
        200,
        "Subscription confirmed"@,
        "You're subscribed"@,
        "<p>Thanks for confirming. You'll get an email when I publish a new post - nothing else.</p><p>Every email includes a one-click unsubscribe link if you ever change your mind.</p>"@,
    )
}

/// The page for a confirmation link that nobody waits for.
pub open spec fn confirm_used() -> ReplyView {
    page_reply(
        200,
        "Already confirmed"@,
        "You're all set"@,
        "<p>This link has already been used. If you've confirmed once, you're subscribed - nothing more to do.</p>"@,
    )
}

/// The page for a confirmation that could not be stored.
pub open spec fn confirm_broken() -> ReplyView {
    page_reply(
        500,
        "Something went wrong"@,
        "Something went wrong"@,
        "<p>We couldn't confirm your subscription just now. Please try the link again shortly.</p>"@,
    )
}

/// What a confirmation link is answered that carries no token.
pub fn confirm_refused(token: &str) -> (r: Option<Reply>)
    ensures
        match r {
            Some(reply) => !tokens::is_token(token@) && reply@ == confirm_malformed(),
            None => tokens::is_token(token@),
        },
{
    if hexish(token) {
        None
    } else {
        Some(
            page(
                400,
                "Invalid link",
                "That link doesn't look right",
                "<p>The confirmation link is missing or malformed. Try subscribing again from the blog.</p>",
            ),
        )
    }
}

/// Follows a confirmation link.
pub fn confirm(db: &mut Database, token: &str, now: i64) -> (r: Reply)
    requires
        old(db).wf(),
    ensures
        final(db).wf(),
        final(db).loaded() == old(db).loaded(),
        if !tokens::is_token(token@) {
            r@ == confirm_malformed() && final(db)@ == old(db)@
        } else {
            &&& final(db)@ == db::after_confirm(old(db)@, token@, now)
            &&& r@ == if db::awaited(old(db)@.subscribers, token@) {
                confirm_done()
            } else {
                confirm_used()
            }
        },
{
    if let Some(reply) = confirm_refused(token) {
        return reply;
    }
    if db::confirm(db, token, now) {
        page(
            200,
            "Subscription confirmed",
            "You're subscribed",
            "<p>Thanks for confirming. You'll get an email when I publish a new post - nothing else.</p><p>Every email includes a one-click unsubscribe link if you ever change your mind.</p>",
        )
    } else {
        page(
            200,
            "Already confirmed",
            "You're all set",
            "<p>This link has already been used. If you've confirmed once, you're subscribed - nothing more to do.</p>",
        )
    }
}

/// What a confirmation link is answered where the tables could not be read or written.
pub fn confirm_failed() -> (r: Reply)
    ensures
        r@ == confirm_broken(),
{
    page(
        500,
        "Something went wrong",
        "Something went wrong",
        "<p>We couldn't confirm your subscription just now. Please try the link again shortly.</p>",
    )
}

// ---------- Unsubscribing ----------

/// The page for an unsubscribe link without a token.
pub open spec fn unsubscribe_malformed() -> ReplyView {
    page_reply(
        400,
        "Invalid link"@,
        "That link doesn't look right"@,
        "<p>The unsubscribe link is missing or malformed. Email <a href=\"mailto:jacob@stephens.page\">jacob@stephens.page</a> and I'll remove you.</p>"@,
    )
}

/// The page for an unsubscribe link that belongs to nobody.
pub open spec fn unsubscribe_unknown() -> ReplyView {
    page_reply(
        200,
        "Not found"@,
        "We couldn't find that subscription"@,
        "<p>This link doesn't match anyone on the list. You may already be removed.</p>"@,
    )
}

/// The page for an unsubscribe link that belongs to someone.
pub open spec fn unsubscribe_done() -> ReplyView {
    page_reply(
        200,
        "Unsubscribed"@,
        "You've been unsubscribed"@,
        "<p>You won't receive any more newsletter emails. Sorry to see you go - you're welcome back anytime from the blog.</p>"@,
    )
}

/// The page for a request to unsubscribe that could not be stored.
pub open spec fn unsubscribe_broken() -> ReplyView {
    page_reply(
        500,
        "Something went wrong"@,
        "Something went wrong"@,
        "<p>We couldn't process that just now. Please try again shortly.</p>"@,
    )
}

/// What an unsubscribe link is answered that carries no token.
pub fn unsubscribe_refused(token: &str) -> (r: Option<Reply>)
    ensures
        match r {
            Some(reply) => !tokens::is_token(token@) && reply@ == unsubscribe_malformed(),
            None => tokens::is_token(token@),
        },
{
    if hexish(token) {
        None
    } else {
        Some(
            page(
                400,
                "Invalid link",
                "That link doesn't look right",
                "<p>The unsubscribe link is missing or malformed. Email <a href=\"mailto:jacob@stephens.page\">jacob@stephens.page</a> and I'll remove you.</p>",
            ),
        )
    }
}

/// Follows an unsubscribe link.
pub fn unsubscribe_get(db: &mut Database, token: &str, now: i64) -> (r: Reply)
    requires
        old(db).wf(),
    ensures
        final(db).wf(),
        final(db).loaded() == old(db).loaded(),
        if !tokens::is_token(token@) {
            r@ == unsubscribe_malformed() && final(db)@ == old(db)@
        } else {
            &&& final(db)@ == db::after_unsubscribe_by_token(old(db)@, token@, now)
            &&& r@ == if db::token_owner(old(db)@.subscribers, token@) is None {
                unsubscribe_unknown()
            } else {
                unsubscribe_done()
            }
        },
{
    if let Some(reply) = unsubscribe_refused(token) {
        return reply;
    }
    match db::unsubscribe_by_token(db, token, now) {
        UnsubOutcome::NotFound => page(
            200,
            "Not found",
            "We couldn't find that subscription",
            "<p>This link doesn't match anyone on the list. You may already be removed.</p>",
        ),
        _ => page(
            200,
            "Unsubscribed",
            "You've been unsubscribed",
            "<p>You won't receive any more newsletter emails. Sorry to see you go - you're welcome back anytime from the blog.</p>",
        ),
    }
}

/// What an unsubscribe link is answered where the tables could not be read or written.
pub fn unsubscribe_failed() -> (r: Reply)
    ensures
        r@ == unsubscribe_broken(),
{
    page(
        500,
        "Something went wrong",
        "Something went wrong",
        "<p>We couldn't process that just now. Please try again shortly.</p>",
    )
}

/// The answer to every request to unsubscribe with one click.
pub open spec fn one_click_answer() -> ReplyView {
    ReplyView::Text { status: 200, text: "OK"@ }
}

/// The answer to every request to unsubscribe with one click, whatever came of it.
pub fn unsubscribe_posted() -> (r: Reply)
    ensures
        r@ == one_click_answer(),
{
    Reply::Text { status: 200, text: "OK".to_owned() }
}

/// Unsubscribes with one click.
pub fn unsubscribe_post(db: &mut Database, token: &str, now: i64) -> (r: Reply)
    requires
        old(db).wf(),
    ensures
        final(db).wf(),
        final(db).loaded() == old(db).loaded(),
        final(db)@ == if tokens::is_token(token@) {
            db::after_unsubscribe_by_token(old(db)@, token@, now)
        } else {
            old(db)@
        },
        r@ == one_click_answer(),
{
    if hexish(token) {
        let _outcome: UnsubOutcome = db::unsubscribe_by_token(db, token, now);
    }
    unsubscribe_posted()
}

// ---------- The owner's requests ----------

/// The answer to a request that does not carry the token of the owner.
pub open spec fn unauthorized() -> ReplyView {
    ReplyView::Error { status: 401, error: "unauthorized"@ }
}

/// What a request is answered that does not carry the token of the owner.
pub fn admin_refused(headers: &AdminHeaders, cfg: &Config) -> (r: Option<Reply>)
    ensures
        match r {
            Some(reply) => !is_admin(*headers, cfg.admin_token@) && reply@ == unauthorized(),
            None => is_admin(*headers, cfg.admin_token@),
        },
{
    if admin_ok(headers, cfg.admin_token.as_str()) {
        None
    } else {
        Some(Reply::Error { status: 401, error: "unauthorized".to_owned() })
    }
}

/// The answer to the dashboard where the tables could not be read.
pub fn admin_failed(cause: &str) -> (r: Reply)
    ensures
        r@ == (ReplyView::Error { status: 500, error: cause@ }),
{
    Reply::Error { status: 500, error: cause.to_owned() }
}

/// The numbers, the newest subscribers and the newest sends, for the dashboard.
pub fn admin_data(db: &Database, headers: &AdminHeaders, cfg: &Config) -> (r: Reply)
    requires
        db@.subscribers.len() <= i64::MAX,
    ensures
        if !is_admin(*headers, cfg.admin_token@) {
            r@ == unauthorized()
        } else {
            &&& r@ matches ReplyView::Overview { stats, subscribers, sends }
            &&& stats.confirmed == db::in_state(
                db@.subscribers,
                DEFAULT_LIST@,
                db::confirmed(),
            ).len()
            &&& stats.pending == db::in_state(db@.subscribers, DEFAULT_LIST@, db::pending()).len()
            &&& stats.unsubscribed == db::in_state(
                db@.subscribers,
                DEFAULT_LIST@,
                db::unsubscribed(),
            ).len()
            &&& stats.total == db::on_list(db@.subscribers, DEFAULT_LIST@).len()
            &&& db::recent_subscribers_of(db@.subscribers, 1000, DEFAULT_LIST@, subscribers)
            &&& db::recent_sends_of(db@.sends, 50, DEFAULT_LIST@, sends)
        },
{
    if let Some(reply) = admin_refused(headers, cfg) {
        return reply;
    }
    Reply::Overview {
        stats: db::stats(db, DEFAULT_LIST),
        subscribers: db::recent_subscribers(db, 1000, DEFAULT_LIST),
        sends: db::recent_sends(db, 50, DEFAULT_LIST),
    }
}

/// The answer with the number of subscribers that a request touched.
pub fn affected(n: usize) -> (r: Reply)
    ensures
        r@ == (ReplyView::Affected { affected: n }),
{
    Reply::Affected { affected: n }
}

/// Opts an address out at the owner's request.
pub fn admin_unsub(
    db: &mut Database,
    headers: &AdminHeaders,
    cfg: &Config,
    email: &str,
    now: i64,
) -> (r: Reply)
    requires
        old(db).wf(),
    ensures
        final(db).wf(),
        final(db).loaded() == old(db).loaded(),
        if !is_admin(*headers, cfg.admin_token@) {
            r@ == unauthorized() && final(db)@ == old(db)@
        } else {
            let address = text::trimmed(email@);
            &&& final(db)@ == db::after_unsubscribe_by_email(
                old(db)@,
                address,
                now,
                DEFAULT_LIST@,
            )
            &&& r@ matches ReplyView::Affected { affected }
            &&& affected == old(db)@.subscribers.filter(
                |row: tables::SubscriberRowView| db::is_active_entry(row, address, DEFAULT_LIST@),
            ).len()
        },
        is_admin(*headers, cfg.admin_token@) && text_laws::tight(email@) ==> final(db)@
            == db::after_unsubscribe_by_email(old(db)@, email@, now, DEFAULT_LIST@),
{
    proof {
        if text_laws::tight(email@) {
            text_laws::tight_stays(email@);
        }
    }
    if let Some(reply) = admin_refused(headers, cfg) {
        return reply;
    }
    let address: String = trim(email);
    affected(db::unsubscribe_by_email(db, address.as_str(), now, DEFAULT_LIST))
}

/// Removes an address at the owner's request.
pub fn admin_delete(db: &mut Database, headers: &AdminHeaders, cfg: &Config, email: &str) -> (r:
    Reply)
    requires
        old(db).wf(),
    ensures
        final(db).wf(),
        final(db).loaded() == old(db).loaded(),
        if !is_admin(*headers, cfg.admin_token@) {
            r@ == unauthorized() && final(db)@ == old(db)@
        } else {
            &&& final(db)@ == db::after_delete_by_email(
                old(db)@,
                text::trimmed(email@),
                DEFAULT_LIST@,
            )
            &&& r@ matches ReplyView::Affected { affected }
            &&& affected == old(db)@.subscribers.len() - final(db)@.subscribers.len()
        },
        is_admin(*headers, cfg.admin_token@) && text_laws::tight(email@) ==> final(db)@
            == db::after_delete_by_email(old(db)@, email@, DEFAULT_LIST@),
{
    proof {
        if text_laws::tight(email@) {
            text_laws::tight_stays(email@);
        }
    }
    if let Some(reply) = admin_refused(headers, cfg) {
        return reply;
    }
    let address: String = trim(email);
    affected(db::delete_by_email(db, address.as_str(), DEFAULT_LIST))
}

/// What to do about the owner's request to send a post.
#[derive(Debug)]
pub enum AdminSendStep {
    /// Answer it.
    Reply(Reply),
    /// Start to send the post, even if it was sent before where that is forced, and give the answer
    /// meanwhile.
    Start { slug: String, force: bool, reply: Reply },
}

/// The answer that a post is being sent.
pub open spec fn sending(slug: Seq<char>) -> ReplyView {
    ReplyView::Started { message: "Sending \""@ + slug + "\" to confirmed subscribers."@ }
}

/// Takes up the owner's request to send a post.
pub fn admin_send(headers: &AdminHeaders, cfg: &Config, slug: &str, force: bool) -> (r:
    AdminSendStep)
    ensures
        match r {
            AdminSendStep::Reply(reply) => if !is_admin(*headers, cfg.admin_token@) {
                reply@ == unauthorized()
            } else {
                text::trimmed(slug@).len() == 0 && reply@ == bad(400, "Missing slug."@)
            },
            AdminSendStep::Start { slug: name, force: forced, reply } => {
                &&& is_admin(*headers, cfg.admin_token@)
                &&& forced == force
                &&& name@ == text::trimmed(slug@)
                &&& name@.len() > 0
                &&& reply@ == sending(name@)
            },
        },
        text_laws::tight(slug@) && slug@.len() > 0 && is_admin(*headers, cfg.admin_token@) ==> (
        r matches AdminSendStep::Start { slug: name, force: forced, reply } && name@ == slug@),
{
    proof {
        if text_laws::tight(slug@) {
            text_laws::tight_stays(slug@);
        }
    }
    if let Some(reply) = admin_refused(headers, cfg) {
        return AdminSendStep::Reply(reply);
    }
    let name: String = trim(slug);
    if name.as_str().is_empty() {
        return AdminSendStep::Reply(jerr(400, "Missing slug."));
    }
    let message: String = "Sending \"".to_owned().concat(name.as_str()).concat(
        "\" to confirmed subscribers.",
    );
    AdminSendStep::Start { slug: name, force, reply: Reply::Started { message } }
}

/// Answers the owner's request for the draft of a mail about a post, given the post or why there is
/// none.
pub fn admin_compose(headers: &AdminHeaders, cfg: &Config, post: Result<Post, PostError>) -> (r:
    Reply)
    ensures
        r@ == if !is_admin(*headers, cfg.admin_token@) {
            unauthorized()
        } else {
            match post {
                Ok(p) => ReplyView::Draft {
                    subject: p.title@,
                    body_html: posts::draft(p.title@, p.desc@, p.url@),
                },
                Err(e) => bad(400, posts::post_error_text(e@)),
            }
        },
{
    if let Some(reply) = admin_refused(headers, cfg) {
        return reply;
    }
    match post {
        Ok(p) => {
            let body_html: String = seed_body(p.title.as_str(), p.desc.as_str(), p.url.as_str());
            Reply::Draft { subject: p.title, body_html }
        },
        Err(e) => jerr(400, e.message().as_str()),
    }
}

/// Answers the owner's request to see a composed mail, given its body. Its link to unsubscribe
/// belongs to nobody.
pub fn admin_preview(headers: &AdminHeaders, cfg: &Config, body_html: &str) -> (r: Reply)
    ensures
        r@ == if !is_admin(*headers, cfg.admin_token@) {
            ReplyView::Text { status: 401, text: "unauthorized"@ }
        } else {
            ReplyView::Page {
                status: 200,
                html: mail::custom_html(
                    body_html@,
                    send::unsub_link(cfg.public_url@, "preview"@),
                ),
            }
        },
{
    if !admin_ok(headers, cfg.admin_token.as_str()) {
        return Reply::Text { status: 401, text: "unauthorized".to_owned() };
    }
    let link: String = unsub_url(cfg.public_url.as_str(), "preview");
    let (html, _plain) = wrap_custom(body_html, link.as_str());
    Reply::Page { status: 200, html }
}

/// What to do about the owner's request to send a composed mail.
#[derive(Debug)]
pub enum SendHtmlStep {
    /// Answer it.
    Reply(Reply),
    /// Send the mail to this address only.
    Test { to: String, subject: String, body_html: String },
    /// Start to send the mail to the confirmed subscribers, and give the answer meanwhile.
    Start { subject: String, body_html: String, reply: Reply },
}

/// What a `SendHtmlStep` says.
#[verifier::ext_equal]
pub ghost enum SendHtmlStepView {
    Reply(ReplyView),
    Test { to: Seq<char>, subject: Seq<char>, body_html: Seq<char> },
    Start { subject: Seq<char>, body_html: Seq<char>, reply: ReplyView },
}

impl View for SendHtmlStep {
    type V = SendHtmlStepView;

    open spec fn view(&self) -> SendHtmlStepView {
        match self {
            SendHtmlStep::Reply(r) => SendHtmlStepView::Reply(r@),
            SendHtmlStep::Test { to, subject, body_html } => SendHtmlStepView::Test {
                to: to@,
                subject: subject@,
                body_html: body_html@,
            },
            SendHtmlStep::Start { subject, body_html, reply } => SendHtmlStepView::Start {
                subject: subject@,
                body_html: body_html@,
                reply: reply@,
            },
        }
    }
}

/// What to do about the owner's request to send a composed mail: with an address to test it on, it
/// goes there only.
pub open spec fn send_html_step(
    admin: bool,
    subject: Seq<char>,
    body_html: Seq<char>,
    test_email: Seq<char>,
) -> SendHtmlStepView {
    let test = text::trimmed(test_email);
    if !admin {
        SendHtmlStepView::Reply(unauthorized())
    } else if text::trimmed(subject).len() == 0 {
        SendHtmlStepView::Reply(bad(400, "Subject is required."@))
    } else if text::trimmed(body_html).len() == 0 {
        SendHtmlStepView::Reply(bad(400, "The email body is empty."@))
    } else if test.len() == 0 {
        SendHtmlStepView::Start {
            subject,
            body_html,
            reply: ReplyView::Started { message: "Sending to confirmed subscribers."@ },
        }
    } else if !is_email(test) {
        SendHtmlStepView::Reply(bad(400, "Invalid test address."@))
    } else {
        SendHtmlStepView::Test { to: test, subject, body_html }
    }
}

/// Takes up the owner's request to send a composed mail.
pub fn admin_send_html(
    headers: &AdminHeaders,
    cfg: &Config,
    subject: &str,
    body_html: &str,
    test_email: &str,
) -> (r: SendHtmlStep)
    ensures
        r@ == send_html_step(
            is_admin(*headers, cfg.admin_token@),
            subject@,
            body_html@,
            test_email@,
        ),
{
    if let Some(reply) = admin_refused(headers, cfg) {
        return SendHtmlStep::Reply(reply);
    }
    if trim(subject).as_str().is_empty() {
        return SendHtmlStep::Reply(jerr(400, "Subject is required."));
    }
    if trim(body_html).as_str().is_empty() {
        return SendHtmlStep::Reply(jerr(400, "The email body is empty."));
    }
    let test: String = trim(test_email);
    if !test.as_str().is_empty() {
        if !valid_email(test.as_str()) {
            return SendHtmlStep::Reply(jerr(400, "Invalid test address."));
        }
        return SendHtmlStep::Test {
            to: test,
            subject: subject.to_owned(),
            body_html: body_html.to_owned(),
        };
    }
    SendHtmlStep::Start {
        subject: subject.to_owned(),
        body_html: body_html.to_owned(),
        reply: Reply::Started { message: "Sending to confirmed subscribers.".to_owned() },
    }
}

/// What the owner is answered about a composed mail that went to one address, or did not.
pub fn tested(to: &str, outcome: Result<(), &str>) -> (r: Reply)
    ensures
        r@ == match outcome {
            Ok(()) => good("Test email sent to "@ + to@ + "."@),
            Err(e) => bad(502, "Test send failed: "@ + e@),
        },
{
    match outcome {
        Ok(()) => jok("Test email sent to ".to_owned().concat(to).concat(".").as_str()),
        Err(e) => jerr(502, "Test send failed: ".to_owned().concat(e).as_str()),
    }
}

} // verus!
