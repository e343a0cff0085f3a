//! What the types of the library say is what their fields hold, each in its place.
use vstd::prelude::*;

use crate::config;
use crate::config::{Command, Config};
use crate::db;
use crate::db::{SendRecord, Subscriber};
use crate::json;
use crate::json::Member;
use crate::mail;
use crate::mail::Email;
use crate::posts;
use crate::posts::{Post, PostError};
use crate::service;
use crate::service::{Challenge, Reply, SendHtmlStep, SubscribeStep};
use crate::tables;
use crate::tables::{Change, SendRow, SubscriberRow};
use crate::text;

verus! {

/// An optional text says what it holds.
pub proof fn optional_texts(s: String)
    ensures
        text::opt_view(Some(s)) == Some(s@),
        text::opt_view(None) is None,
{
}

/// A row of subscribers says what its columns hold.
pub proof fn rows_of_subscribers(r: SubscriberRow)
    ensures
        r@.id == r.id,
        r@.email == r.email@,
        r@.status == r.status@,
        r@.confirm_token == text::opt_view(r.confirm_token),
        r@.unsubscribe_token == r.unsubscribe_token@,
        r@.created_at == r.created_at,
        r@.confirmed_at == r.confirmed_at,
        r@.unsubscribed_at == r.unsubscribed_at,
        r@.ip == text::opt_view(r.ip),
        r@.list == r.list@,
{
}

/// A row of sends says what its columns hold.
pub proof fn rows_of_sends(r: SendRow)
    ensures
        r@.id == r.id,
        r@.post_url == r.post_url@,
        r@.subject == text::opt_view(r.subject),
        r@.sent_at == r.sent_at,
        r@.recipient_count == r.recipient_count,
        r@.body_html == text::opt_view(r.body_html),
        r@.list == r.list@,
{
}

/// A change says which row it puts where, or which it removes.
pub proof fn changes(s: SubscriberRow, id: i64, r: SendRow)
    ensures
        Change::PutSubscriber(s)@ == tables::ChangeView::PutSubscriber(s@),
        Change::RemoveSubscriber(id)@ == tables::ChangeView::RemoveSubscriber(id),
        Change::PutSend(r)@ == tables::ChangeView::PutSend(r@),
{
}

/// A subscriber that the dashboard shows says what its fields hold.
pub proof fn shown_subscribers(s: Subscriber)
    ensures
        s@.email == s.email@,
        s@.status == s.status@,
        s@.created_at == s.created_at,
        s@.confirmed_at == s.confirmed_at,
        s@.unsubscribed_at == s.unsubscribed_at,
{
}

/// A send that the dashboard shows says what its fields hold.
pub proof fn shown_sends(s: SendRecord)
    ensures
        s@.id == s.id,
        s@.post_url == s.post_url@,
        s@.subject == text::opt_view(s.subject),
        s@.sent_at == s.sent_at,
        s@.recipient_count == s.recipient_count,
{
}

/// A mail says what its fields hold.
pub proof fn mails(m: Email)
    ensures
        m@.from == m.from@,
        m@.to == m.to@,
        m@.subject == m.subject@,
        m@.html == m.html@,
        m@.text == m.text@,
        m@.headers.len() == m.headers@.len(),
        forall|i: int|
            0 <= i < m.headers@.len() ==> #[trigger] m@.headers[i] == (
                m.headers@[i].0@,
                m.headers@[i].1@,
            ),
{
}

/// The settings say what their fields hold.
pub proof fn settings(c: Config)
    ensures
        c@.addr == c.addr@,
        c@.db_path == c.db_path@,
        c@.public_url == c.public_url@,
        c@.blog_url == c.blog_url@,
        c@.blog_dir == c.blog_dir@,
        c@.resend_key == c.resend_key@,
        c@.turnstile_secret == c.turnstile_secret@,
        c@.admin_token == c.admin_token@,
        c@.from_email == c.from_email@,
        c@.from_name == c.from_name@,
{
}

/// A command says what it asks for.
pub proof fn commands(slug: String, force: bool)
    ensures
        (Command::Send { slug, force })@ == (config::CommandView::Send { slug: slug@, force }),
        Command::Serve@ == config::CommandView::Serve,
        Command::Usage@ == config::CommandView::Usage,
{
}

/// A post says what its fields hold.
pub proof fn posts_read(p: Post)
    ensures
        p@.slug == p.slug@,
        p@.title == p.title@,
        p@.desc == p.desc@,
        p@.url == p.url@,
{
}

/// The reason why a post cannot be sent says what it is about.
pub proof fn reasons(s: String, cause: String)
    ensures
        PostError::InvalidSlug(s)@ == posts::PostErrorView::InvalidSlug(s@),
        PostError::NotPublished(s)@ == posts::PostErrorView::NotPublished(s@),
        (PostError::Unreadable { file: s, cause })@ == (posts::PostErrorView::Unreadable {
            file: s@,
            cause: cause@,
        }),
{
}

/// What a JSON object holds says what it is.
pub proof fn members(s: String, b: bool)
    ensures
        Member::Text(s)@ == json::MemberView::Text(s@),
        Member::Flag(b)@ == json::MemberView::Flag(b),
        Member::Other@ == json::MemberView::Other,
{
}

/// A challenge says what its fields hold.
pub proof fn challenges(c: Challenge)
    ensures
        c@.email == c.email@,
        c@.secret == c.secret@,
        c@.response == c.response@,
        c@.remoteip == c.remoteip@,
{
}

/// An answer says its kind and what its fields hold.
pub proof fn answers(
    status: u16,
    ok: bool,
    s: String,
    body: String,
    affected: usize,
    stats: db::Stats,
    subscribers: Vec<Subscriber>,
    sends: Vec<SendRecord>,
)
    ensures
        (Reply::Message { status, ok, message: s })@ == (service::ReplyView::Message {
            status,
            ok,
            message: s@,
        }),
        (Reply::Error { status, error: s })@ == (service::ReplyView::Error { status, error: s@ }),
        (Reply::Page { status, html: s })@ == (service::ReplyView::Page { status, html: s@ }),
        (Reply::Text { status, text: s })@ == (service::ReplyView::Text { status, text: s@ }),
        (Reply::Affected { affected })@ == (service::ReplyView::Affected { affected }),
        (Reply::Started { message: s })@ == (service::ReplyView::Started { message: s@ }),
        (Reply::Draft { subject: s, body_html: body })@ == (service::ReplyView::Draft {
            subject: s@,
            body_html: body@,
        }),
        (Reply::Overview { stats, subscribers, sends })@ matches service::ReplyView::Overview {
            stats: a,
            subscribers: b,
            sends: c,
        } && a == stats && b.len() == subscribers@.len() && c.len() == sends@.len() && (forall|
            i: int,
        |
            0 <= i < b.len() ==> #[trigger] b[i] == subscribers@[i]@) && (forall|i: int|
            0 <= i < c.len() ==> #[trigger] c[i] == sends@[i]@),
{
}

/// A step says what to do next, and with what.
pub proof fn steps(r: Reply, c: Challenge, a: String, b: String, d: String)
    ensures
        SubscribeStep::Reply(r)@ == service::SubscribeStepView::Reply(r@),
        SubscribeStep::Judge(c)@ == service::SubscribeStepView::Judge(c@),
        SendHtmlStep::Reply(r)@ == service::SendHtmlStepView::Reply(r@),
        (SendHtmlStep::Test { to: a, subject: b, body_html: d })@ == (
        service::SendHtmlStepView::Test { to: a@, subject: b@, body_html: d@ }),
        (SendHtmlStep::Start { subject: b, body_html: d, reply: r })@ == (
        service::SendHtmlStepView::Start { subject: b@, body_html: d@, reply: r@ }),
{
}

/// Several of a kind say what each of them says, in their order.
pub proof fn in_their_order(
    rows: Seq<SubscriberRow>,
    sends: Seq<SendRow>,
    list: Seq<Change>,
    pairs: Seq<(String, String)>,
    texts: Seq<String>,
    i: int,
)
    ensures
        tables::subscriber_views(rows).len() == rows.len(),
        0 <= i < rows.len() ==> tables::subscriber_views(rows)[i] == rows[i]@,
        tables::send_views(sends).len() == sends.len(),
        0 <= i < sends.len() ==> tables::send_views(sends)[i] == sends[i]@,
        tables::change_views(list).len() == list.len(),
        0 <= i < list.len() ==> tables::change_views(list)[i] == list[i]@,
        db::recipient_views(pairs).len() == pairs.len(),
        0 <= i < pairs.len() ==> db::recipient_views(pairs)[i] == (pairs[i].0@, pairs[i].1@),
        mail::header_views(pairs).len() == pairs.len(),
        0 <= i < pairs.len() ==> mail::header_views(pairs)[i] == (pairs[i].0@, pairs[i].1@),
        posts::text_views(texts).len() == texts.len(),
        0 <= i < texts.len() ==> posts::text_views(texts)[i] == texts[i]@,
{
}

/// What is shown says what each item says, in their order.
pub proof fn shown_in_their_order(subscribers: Seq<Subscriber>, sends: Seq<SendRecord>, i: int)
    ensures
        db::shown_views(subscribers).len() == subscribers.len(),
        0 <= i < subscribers.len() ==> db::shown_views(subscribers)[i] == subscribers[i]@,
        db::shown_send_views(sends).len() == sends.len(),
        0 <= i < sends.len() ==> db::shown_send_views(sends)[i] == sends[i]@,
{
}

/// A page that was read says its text, and a result says what it holds.
pub proof fn pages_and_results(page: &str, s: String)
    ensures
        posts::page_view(Some(page)) == Some(page@),
        posts::page_view(None) is None,
        mail::result_view(Ok(s)) == Ok::<Seq<char>, Seq<char>>(s@),
        mail::result_view(Err(s)) == Err::<Seq<char>, Seq<char>>(s@),
{
}

} // verus!
