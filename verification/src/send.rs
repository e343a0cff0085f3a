//! Sending posts and composed mails to the confirmed subscribers of a list.
use vstd::prelude::*;
use vstd::string::*;

use crate::config::ListCfg;
use crate::db;
use crate::db::{confirmed_recipients, last_send_at, record_send, InsertError};
use crate::mail;
use crate::mail::{from_header, post_email, wrap_custom, Email};
use crate::posts::Post;
use crate::tables;
use crate::tables::Database;
use crate::text;

verus! {

// ---------- Links to unsubscribe ----------

/// The link that opts a subscriber out.
pub open spec fn unsub_link(public_url: Seq<char>, token: Seq<char>) -> Seq<char> {
    text::without_trailing(public_url, '/') + "/unsubscribe?token="@ + token
}

/// The link that opts a subscriber out.
pub fn unsub_url(public_url: &str, token: &str) -> (r: String)
    ensures
        r@ == unsub_link(public_url@, token@),
{
    text::trim_end_char(public_url, '/').concat("/unsubscribe?token=").concat(token)
}

/// Subscribers with different tokens have different links.
pub proof fn unsub_links_differ(public_url: Seq<char>, a: Seq<char>, b: Seq<char>)
    requires
        unsub_link(public_url, a) == unsub_link(public_url, b),
    ensures
        a == b,
{
    let front = text::without_trailing(public_url, '/') + "/unsubscribe?token="@;
    assert((front + a).skip(front.len() as int) =~= a);
    assert((front + b).skip(front.len() as int) =~= b);
}

/// The headers for unsubscribing with one click.
pub open spec fn one_click_headers(from_email: Seq<char>, unsub_url: Seq<char>) -> Seq<
    (Seq<char>, Seq<char>),
> {
    seq![
        (
            "List-Unsubscribe"@,
            "<"@ + unsub_url + ">, <mailto:"@ + from_email + "?subject=unsubscribe>"@,
        ),
        ("List-Unsubscribe-Post"@, "List-Unsubscribe=One-Click"@),
    ]
}

/// The headers for unsubscribing with one click (RFC 8058).
pub fn unsub_headers(from_email: &str, unsub_url: &str) -> (r: Vec<(String, String)>)
    ensures
        mail::header_views(r@) == one_click_headers(from_email@, unsub_url@),
{
    let mut h: Vec<(String, String)> = Vec::new();
    h.push(
        (
            "List-Unsubscribe".to_owned(),
            "<".to_owned().concat(unsub_url).concat(">, <mailto:").concat(from_email).concat(
                "?subject=unsubscribe>",
            ),
        ),
    );
    h.push(("List-Unsubscribe-Post".to_owned(), "List-Unsubscribe=One-Click".to_owned()));
    assert(mail::header_views(h@) =~= one_click_headers(from_email@, unsub_url@));
    h
}

// ---------- The mails of a send ----------

/// A mail to one recipient of a send: it carries the recipient's own link to unsubscribe.
pub open spec fn broadcast_mail(
    lc: ListCfg,
    public_url: Seq<char>,
    subject: Seq<char>,
    html: Seq<char>,
    plain: Seq<char>,
    recipient: (Seq<char>, Seq<char>),
) -> mail::EmailView {
    mail::EmailView {
        from: mail::sender(lc.from_name@, lc.from_email@),
        to: recipient.0,
        subject,
        html,
        text: plain,
        headers: one_click_headers(lc.from_email@, unsub_link(public_url, recipient.1)),
    }
}

/// The mail about a post to one recipient.
pub open spec fn post_mail(
    lc: ListCfg,
    public_url: Seq<char>,
    title: Seq<char>,
    desc: Seq<char>,
    post_url: Seq<char>,
    recipient: (Seq<char>, Seq<char>),
) -> mail::EmailView {
    let link = unsub_link(public_url, recipient.1);
    broadcast_mail(
        lc,
        public_url,
        title,
        mail::post_html(title, desc, post_url, link),
        mail::post_text(title, desc, post_url, link),
        recipient,
    )
}

/// A composed mail to one recipient.
pub open spec fn custom_mail(
    lc: ListCfg,
    public_url: Seq<char>,
    subject: Seq<char>,
    body_html: Seq<char>,
    recipient: (Seq<char>, Seq<char>),
) -> mail::EmailView {
    let link = unsub_link(public_url, recipient.1);
    broadcast_mail(
        lc,
        public_url,
        subject,
        mail::custom_html(body_html, link),
        mail::custom_text(body_html, link),
        recipient,
    )
}

/// Two headers for unsubscribing that are the same carry the same link.
proof fn headers_tell_links_apart(from_email: Seq<char>, x: Seq<char>, y: Seq<char>)
    requires
        one_click_headers(from_email, x) == one_click_headers(from_email, y),
    ensures
        x == y,
{
    let tail = ">, <mailto:"@ + from_email + "?subject=unsubscribe>"@;
    let first = "<"@ + x + ">, <mailto:"@ + from_email + "?subject=unsubscribe>"@;
    let second = "<"@ + y + ">, <mailto:"@ + from_email + "?subject=unsubscribe>"@;
    let front = "<"@.len() as int;
    assert(one_click_headers(from_email, x)[0].1 == first);
    assert(one_click_headers(from_email, y)[0].1 == second);
    assert(first.len() == front + x.len() + tail.len());
    assert(second.len() == front + y.len() + tail.len());
    assert(first.subrange(front, front + x.len()) =~= x);
    assert(second.subrange(front, front + y.len()) =~= y);
}

/// Everybody gets their own link: mails about a post to recipients with different tokens carry
/// different headers for unsubscribing.
pub proof fn everybody_gets_their_own_link(
    lc: ListCfg,
    public_url: Seq<char>,
    title: Seq<char>,
    desc: Seq<char>,
    post_url: Seq<char>,
    a: (Seq<char>, Seq<char>),
    b: (Seq<char>, Seq<char>),
)
    requires
        post_mail(lc, public_url, title, desc, post_url, a).headers == post_mail(
            lc,
            public_url,
            title,
            desc,
            post_url,
            b,
        ).headers,
    ensures
        a.1 == b.1,
{
    headers_tell_links_apart(
        lc.from_email@,
        unsub_link(public_url, a.1),
        unsub_link(public_url, b.1),
    );
    unsub_links_differ(public_url, a.1, b.1);
}

/// Everybody gets their own link: composed mails to recipients with different tokens carry different
/// headers for unsubscribing.
pub proof fn composed_mails_carry_own_links(
    lc: ListCfg,
    public_url: Seq<char>,
    subject: Seq<char>,
    body_html: Seq<char>,
    a: (Seq<char>, Seq<char>),
    b: (Seq<char>, Seq<char>),
)
    requires
        custom_mail(lc, public_url, subject, body_html, a).headers == custom_mail(
            lc,
            public_url,
            subject,
            body_html,
            b,
        ).headers,
    ensures
        a.1 == b.1,
{
    headers_tell_links_apart(
        lc.from_email@,
        unsub_link(public_url, a.1),
        unsub_link(public_url, b.1),
    );
    unsub_links_differ(public_url, a.1, b.1);
}

/// A mail to one recipient of a send.
fn mail_to(
    lc: &ListCfg,
    public_url: &str,
    subject: &str,
    html: String,
    plain: String,
    recipient: &(String, String),
) -> (r: Email)
    ensures
        r@ == broadcast_mail(
            *lc,
            public_url@,
            subject@,
            html@,
            plain@,
            (recipient.0@, recipient.1@),
        ),
{
    let link: String = unsub_url(public_url, recipient.1.as_str());
    Email {
        from: from_header(lc.from_name.as_str(), lc.from_email.as_str()),
        to: recipient.0.clone(),
        subject: subject.to_owned(),
        html,
        text: plain,
        headers: unsub_headers(lc.from_email.as_str(), link.as_str()),
    }
}

/// A single composed mail to one address, which is on no list: its link to unsubscribe belongs to
/// nobody, and it carries no headers for unsubscribing.
pub open spec fn test_mail(
    lc: ListCfg,
    public_url: Seq<char>,
    subject: Seq<char>,
    body_html: Seq<char>,
    to: Seq<char>,
) -> mail::EmailView {
    let link = unsub_link(public_url, "preview"@);
    mail::EmailView {
        from: mail::sender(lc.from_name@, lc.from_email@),
        to,
        subject,
        html: mail::custom_html(body_html, link),
        text: mail::custom_text(body_html, link),
        headers: Seq::empty(),
    }
}

/// A single composed mail to one address.
pub fn send_test(lc: &ListCfg, public_url: &str, subject: &str, body_html: &str, to: &str) -> (r:
    Email)
    ensures
        r@ == test_mail(*lc, public_url@, subject@, body_html@, to@),
{
    let link: String = unsub_url(public_url, "preview");
    let (html, plain) = wrap_custom(body_html, link.as_str());
    let headers: Vec<(String, String)> = Vec::new();
    assert(mail::header_views(headers@) =~= Seq::<(Seq<char>, Seq<char>)>::empty());
    Email {
        from: from_header(lc.from_name.as_str(), lc.from_email.as_str()),
        to: to.to_owned(),
        subject: subject.to_owned(),
        html,
        text: plain,
        headers,
    }
}

// ---------- The course of a send ----------

/// What a send came to.
#[derive(Debug)]
pub struct SendResult {
    pub sent: usize,
    pub failed: usize,
    pub subject: String,
    pub recipients: usize,
}

/// Why a post is not sent.
#[derive(Debug, Clone, Copy, PartialEq, Eq, Structural)]
pub enum SendError {
    /// It was sent before, at this time.
    AlreadySent(i64),
}

/// A `SendError` in words.
pub open spec fn send_error_text(e: SendError) -> Seq<char> {
    match e {
        SendError::AlreadySent(at) => "already sent at "@ + text::decimal_int(at as int)
            + "; pass force to send again"@,
    }
}

impl SendError {
    /// The error in words.
    pub fn message(&self) -> (r: String)
        ensures
            r@ == send_error_text(*self),
    {
        match self {
            SendError::AlreadySent(at) => "already sent at ".to_owned().concat(
                text::int_text(*at).as_str(),
            ).concat("; pass force to send again"),
        }
    }
}

/// A send under way: to whom it goes, and how many mails went out and failed so far.
#[derive(Debug)]
pub struct Broadcast {
    recipients: Vec<(String, String)>,
    sent: usize,
    failed: usize,
}

impl Broadcast {
    /// To whom the send goes, each with the token to unsubscribe.
    pub closed spec fn recipients(&self) -> Seq<(Seq<char>, Seq<char>)> {
        db::recipient_views(self.recipients@)
    }

    /// How many mails went out.
    pub closed spec fn sent(&self) -> nat {
        self.sent as nat
    }

    /// How many mails failed.
    pub closed spec fn failed(&self) -> nat {
        self.failed as nat
    }

    /// How many recipients were dealt with.
    pub open spec fn progress(&self) -> int {
        self.sent() + self.failed() as int
    }

    /// No more recipients were dealt with than there are.
    pub open spec fn wf(&self) -> bool {
        self.progress() <= self.recipients().len()
    }

    /// The send before and after a mail went out, or failed: it is the turn of the next recipient.
    pub open spec fn turned(&self, next: &Broadcast, ok: bool) -> bool {
        &&& next.recipients() == self.recipients()
        &&& next.sent() == self.sent() + if ok {
            1nat
        } else {
            0
        }
        &&& next.failed() == self.failed() + if ok {
            0nat
        } else {
            1
        }
    }

    /// A send to some recipients, none of whom was dealt with.
    fn start(recipients: Vec<(String, String)>) -> (r: Broadcast)
        ensures
            r.wf(),
            r.recipients() == db::recipient_views(recipients@),
            r.sent() == 0,
            r.failed() == 0,
    {
        Broadcast { recipients, sent: 0, failed: 0 }
    }

    /// The recipient whose turn it is, with the token to unsubscribe; `None` where all were dealt
    /// with.
    pub fn current(&self) -> (r: Option<&(String, String)>)
        requires
            self.wf(),
        ensures
            match r {
                Some(p) => self.progress() < self.recipients().len() && (p.0@, p.1@)
                    == self.recipients()[self.progress()],
                None => self.progress() == self.recipients().len(),
            },
    {
        let n: usize = self.recipients.len();
        let k: usize = self.sent + self.failed;
        if k < n {
            Some(&self.recipients[k])
        } else {
            None
        }
    }

    /// The mail about a post to the recipient whose turn it is.
    pub fn next_post_mail(&self, lc: &ListCfg, public_url: &str, post: &Post) -> (r: Option<Email>)
        requires
            self.wf(),
        ensures
            match r {
                Some(m) => self.progress() < self.recipients().len() && m@ == post_mail(
                    *lc,
                    public_url@,
                    post.title@,
                    post.desc@,
                    post.url@,
                    self.recipients()[self.progress()],
                ),
                None => self.progress() == self.recipients().len(),
            },
    {
        match self.current() {
            None => None,
            Some(p) => {
                let link: String = unsub_url(public_url, p.1.as_str());
                let (html, plain) = post_email(
                    post.title.as_str(),
                    post.desc.as_str(),
                    post.url.as_str(),
                    link.as_str(),
                );
                Some(mail_to(lc, public_url, post.title.as_str(), html, plain, p))
            },
        }
    }

    /// A composed mail to the recipient whose turn it is.
    pub fn next_custom_mail(
        &self,
        lc: &ListCfg,
        public_url: &str,
        subject: &str,
        body_html: &str,
    ) -> (r: Option<Email>)
        requires
            self.wf(),
        ensures
            match r {
                Some(m) => self.progress() < self.recipients().len() && m@ == custom_mail(
                    *lc,
                    public_url@,
                    subject@,
                    body_html@,
                    self.recipients()[self.progress()],
                ),
                None => self.progress() == self.recipients().len(),
            },
    {
        match self.current() {
            None => None,
            Some(p) => {
                let link: String = unsub_url(public_url, p.1.as_str());
                let (html, plain) = wrap_custom(body_html, link.as_str());
                Some(mail_to(lc, public_url, subject, html, plain, p))
            },
        }
    }

    /// Takes note of whether the mail to the recipient whose turn it was went out. Then it is the
    /// turn of the next one.
    pub fn mailed(&mut self, ok: bool)
        requires
            old(self).wf(),
            old(self).progress() < old(self).recipients().len(),
        ensures
            final(self).wf(),
            old(self).turned(final(self), ok),
    {
        assert(self.sent + self.failed < self.recipients.len());
        if ok {
            self.sent = self.sent + 1;
        } else {
            self.failed = self.failed + 1;
        }
    }

    /// What the send came to, once all recipients were dealt with.
    pub fn result(&self, subject: &str) -> (r: SendResult)
        requires
            self.progress() == self.recipients().len(),
        ensures
            r.sent == self.sent(),
            r.failed == self.failed(),
            r.subject@ == subject@,
            r.recipients == self.recipients().len(),
            r.sent + r.failed == r.recipients,
    {
        SendResult {
            sent: self.sent,
            failed: self.failed,
            subject: subject.to_owned(),
            recipients: self.recipients.len(),
        }
    }

    /// How many mails went out.
    pub fn sent_count(&self) -> (r: usize)
        ensures
            r == self.sent(),
    {
        self.sent
    }
}

/// The course of a send: it starts with nobody dealt with, and goes on by one mail at a time, each of
/// which went out or failed.
pub open spec fn is_course(states: Seq<Broadcast>, outcomes: Seq<bool>) -> bool {
    &&& states.len() == outcomes.len() + 1
    &&& states[0].sent() == 0
    &&& states[0].failed() == 0
    &&& forall|i: int|
        0 <= i < outcomes.len() ==> states[i].turned(&states[i + 1], #[trigger] outcomes[i])
}

/// How many of some mails went out, or how many failed.
pub open spec fn count_of(outcomes: Seq<bool>, ok: bool) -> nat {
    outcomes.filter(|o: bool| o == ok).len()
}

/// A mail that went out counts as sent, one that failed counts as failed, and neither as both; to whom
/// the send goes stays.
pub proof fn each_mail_counts_once(before: Broadcast, after: Broadcast, ok: bool)
    requires
        before.turned(&after, ok),
    ensures
        after.recipients() == before.recipients(),
        after.progress() == before.progress() + 1,
        ok ==> after.sent() == before.sent() + 1 && after.failed() == before.failed(),
        !ok ==> after.failed() == before.failed() + 1 && after.sent() == before.sent(),
{
}

/// Every recipient has one turn, in order: after `i` mails it is the turn of the recipient at place
/// `i`. When all had theirs, each mail is counted once, as sent or as failed.
pub proof fn everybody_has_one_turn(states: Seq<Broadcast>, outcomes: Seq<bool>, i: int)
    requires
        is_course(states, outcomes),
        0 <= i <= outcomes.len(),
    ensures
        states[i].recipients() == states[0].recipients(),
        states[i].progress() == i,
        states[i].sent() == count_of(outcomes.take(i), true),
        states[i].failed() == count_of(outcomes.take(i), false),
    decreases i,
{
    reveal(Seq::filter);
    if i > 0 {
        everybody_has_one_turn(states, outcomes, i - 1);
        assert(states[i - 1].turned(&states[i - 1 + 1], outcomes[i - 1]));
        assert(outcomes.take(i).drop_last() =~= outcomes.take(i - 1));
        assert(outcomes.take(i).last() == outcomes[i - 1]);
    }
}

// ---------- Sending a post ----------

/// Why a post is not sent to a list: without force, because it was sent before.
pub open spec fn send_refused(
    t: tables::Tables,
    post_url: Seq<char>,
    list: Seq<char>,
    force: bool,
) -> Option<SendError> {
    match db::last_sent(t.sends, post_url, list) {
        Some(at) if !force => Some(SendError::AlreadySent(at)),
        _ => None,
    }
}

/// Begins to send a post to the confirmed subscribers of a list, unless it was sent before.
pub fn send_post(db: &Database, list: &str, post: &Post, force: bool) -> (r: Result<
    Broadcast,
    SendError,
>)
    ensures
        match r {
            Ok(b) => {
                &&& send_refused(db@, post.url@, list@, force) is None
                &&& b.wf()
                &&& b.recipients() == db::recipients(db@.subscribers, list@)
                &&& b.sent() == 0
                &&& b.failed() == 0
            },
            Err(e) => send_refused(db@, post.url@, list@, force) == Some(e),
        },
{
    if !force {
        if let Some(at) = last_send_at(db, post.url.as_str(), list) {
            return Err(SendError::AlreadySent(at));
        }
    }
    Ok(Broadcast::start(confirmed_recipients(db, list)))
}

/// The page that a send of a post is recorded with: the mail, with a link to unsubscribe that
/// belongs to nobody.
pub open spec fn post_record(
    public_url: Seq<char>,
    title: Seq<char>,
    desc: Seq<char>,
    post_url: Seq<char>,
) -> Seq<char> {
    mail::post_html(title, desc, post_url, unsub_link(public_url, "preview"@))
}

/// Records that a post was sent to all confirmed subscribers of a list, with the number of mails that
/// went out.
pub fn finish_post(
    db: &mut Database,
    list: &str,
    public_url: &str,
    post: &Post,
    b: &Broadcast,
    now: i64,
) -> (r: Result<SendResult, InsertError>)
    requires
        old(db).wf(),
        b.progress() == b.recipients().len(),
    ensures
        final(db).wf(),
        final(db).loaded() == old(db).loaded(),
        match r {
            Ok(s) => {
                &&& old(db)@.top_send() < i64::MAX
                &&& final(db)@ == db::after_record_send(
                    old(db)@,
                    post.url@,
                    post.title@,
                    now,
                    b.sent() as i64,
                    post_record(public_url@, post.title@, post.desc@, post.url@),
                    list@,
                )
                &&& s.sent == b.sent()
                &&& s.failed == b.failed()
                &&& s.recipients == b.recipients().len()
                &&& s.sent + s.failed == s.recipients
                &&& s.subject@ == post.title@
            },
            Err(e) => old(db)@.top_send() == i64::MAX && e == InsertError::Full && final(db)@
                == old(db)@,
        },
{
    let link: String = unsub_url(public_url, "preview");
    let (page, _plain) = post_email(
        post.title.as_str(),
        post.desc.as_str(),
        post.url.as_str(),
        link.as_str(),
    );
    match record_send(
        db,
        post.url.as_str(),
        post.title.as_str(),
        now,
        b.sent_count() as i64,
        page.as_str(),
        list,
    ) {
        Ok(()) => Ok(b.result(post.title.as_str())),
        Err(e) => Err(e),
    }
}

// ---------- Sending a composed mail ----------

/// Begins to send a composed mail to the confirmed subscribers of a list.
pub fn send_custom(db: &Database, list: &str) -> (r: Broadcast)
    ensures
        r.wf(),
        r.recipients() == db::recipients(db@.subscribers, list@),
        r.sent() == 0,
        r.failed() == 0,
{
    Broadcast::start(confirmed_recipients(db, list))
}

/// The page that a send of a composed mail is recorded with: the mail, with a link to unsubscribe
/// that belongs to nobody.
pub open spec fn custom_record(public_url: Seq<char>, body_html: Seq<char>) -> Seq<char> {
    mail::custom_html(body_html, unsub_link(public_url, "preview"@))
}

/// Records that a composed mail was sent to all confirmed subscribers of a list, with the number of
/// mails that went out.
pub fn finish_custom(
    db: &mut Database,
    list: &str,
    public_url: &str,
    subject: &str,
    body_html: &str,
    b: &Broadcast,
    now: i64,
) -> (r: Result<SendResult, InsertError>)
    requires
        old(db).wf(),
        b.progress() == b.recipients().len(),
    ensures
        final(db).wf(),
        final(db).loaded() == old(db).loaded(),
        match r {
            Ok(s) => {
                &&& old(db)@.top_send() < i64::MAX
                &&& final(db)@ == db::after_record_send(
                    old(db)@,
                    "(compose) "@ + subject@,
                    subject@,
                    now,
                    b.sent() as i64,
                    custom_record(public_url@, body_html@),
                    list@,
                )
                &&& s.sent == b.sent()
                &&& s.failed == b.failed()
                &&& s.recipients == b.recipients().len()
                &&& s.sent + s.failed == s.recipients
                &&& s.subject@ == subject@
            },
            Err(e) => old(db)@.top_send() == i64::MAX && e == InsertError::Full && final(db)@
                == old(db)@,
        },
{
    let link: String = unsub_url(public_url, "preview");
    let (page, _plain) = wrap_custom(body_html, link.as_str());
    let name: String = "(compose) ".to_owned().concat(subject);
    match record_send(db, name.as_str(), subject, now, b.sent_count() as i64, page.as_str(), list) {
        Ok(()) => Ok(b.result(subject)),
        Err(e) => Err(e),
    }
}

/// The exit code of the program after a send: failure where a mail failed.
pub fn exit_code(r: &SendResult) -> (code: i32)
    ensures
        code == if r.failed > 0 {
            1i32
        } else {
            0
        },
        code == 0 <==> r.failed == 0,
{
    if r.failed > 0 {
        1
    } else {
        0
    }
}

} // verus!
