//! What each operation does to the rows, field by field, and what each question to the tables is
//! answered.
use vstd::prelude::*;

use crate::db;
use crate::send;
use crate::service;
use crate::tables;
use crate::text;
use crate::text_laws;

verus! {

// ---------- Whose row it is ----------

/// A row is that of an address on a list exactly where it is on that list and holds that address at
/// all places, up to the case of ASCII letters.
pub proof fn whose_row_it_is(r: tables::SubscriberRowView, email: Seq<char>, list: Seq<char>)
    requires
        text_laws::free_of(r.email, '\0'),
        text_laws::free_of(email, '\0'),
    ensures
        db::is_entry(r, email, list) <==> {
            &&& r.list == list
            &&& r.email.len() == email.len()
            &&& forall|i: int|
                0 <= i < email.len() ==> text_laws::same_letter(#[trigger] r.email[i], email[i])
        },
{
    text_laws::alike_place_by_place(r.email, email);
}

/// Addresses that differ at some place in more than the case of a letter are never taken for one: to
/// remove one, to opt it out or to look it up leaves the row of the other as it was.
pub proof fn addresses_are_kept_apart(
    t: tables::Tables,
    i: int,
    email: Seq<char>,
    list: Seq<char>,
    now: i64,
    k: int,
)
    requires
        0 <= i < t.subscribers.len(),
        text_laws::free_of(t.subscribers[i].email, '\0'),
        text_laws::free_of(email, '\0'),
        0 <= k < email.len(),
        t.subscribers[i].email.len() != email.len() || !text_laws::same_letter(
            t.subscribers[i].email[k],
            email[k],
        ),
    ensures
        db::after_unsubscribe_by_email(t, email, now, list).subscribers[i] == t.subscribers[i],
        db::after_delete_by_email(t, email, list).subscribers.contains(t.subscribers[i]),
        db::entry(t.subscribers, email, list) != Some(t.subscribers[i]),
{
    let r = t.subscribers[i];
    whose_row_it_is(r, email, list);
    assert(!db::is_entry(r, email, list));
    let keep = |r: tables::SubscriberRowView| !db::is_entry(r, email, list);
    tables::filter_places(t.subscribers, keep);
    assert(keep(t.subscribers[i]));
    let pred = |x: tables::SubscriberRowView| db::is_entry(x, email, list);
    db::first_row_found(t.subscribers, pred);
}

/// The row of an address on a list is the first that is on the list with that address; there is none
/// where no row is.
pub proof fn the_row_of_an_address(
    rows: Seq<tables::SubscriberRowView>,
    email: Seq<char>,
    list: Seq<char>,
    i: int,
)
    requires
        0 <= i <= rows.len(),
        forall|j: int|
            0 <= j < i ==> (#[trigger] rows[j]).list != list || !text::alike(rows[j].email, email),
        i < rows.len() ==> rows[i].list == list && text::alike(rows[i].email, email),
    ensures
        i < rows.len() ==> db::entry(rows, email, list) == Some(rows[i]),
        i == rows.len() ==> db::entry(rows, email, list) is None,
{
    let pred = |x: tables::SubscriberRowView| db::is_entry(x, email, list);
    assert forall|j: int| 0 <= j < i implies !pred(#[trigger] rows[j]) by {}
    db::first_row_is_first(rows, pred, i);
}

/// The row that an unsubscribe link belongs to is the first that carries its token; there is none
/// where no row does.
pub proof fn the_row_of_a_link(rows: Seq<tables::SubscriberRowView>, token: Seq<char>, i: int)
    requires
        0 <= i <= rows.len(),
        forall|j: int| 0 <= j < i ==> (#[trigger] rows[j]).unsubscribe_token != token,
        i < rows.len() ==> rows[i].unsubscribe_token == token,
    ensures
        i < rows.len() ==> db::token_owner(rows, token) == Some(rows[i]),
        i == rows.len() ==> db::token_owner(rows, token) is None,
{
    let pred = |x: tables::SubscriberRowView| x.unsubscribe_token == token;
    assert forall|j: int| 0 <= j < i implies !pred(#[trigger] rows[j]) by {}
    db::first_row_is_first(rows, pred, i);
}

// ---------- What operations do to rows ----------

/// Two rows are those of one subscriber, by id, address, list, link and time of asking.
pub open spec fn same_person(a: tables::SubscriberRowView, b: tables::SubscriberRowView) -> bool {
    &&& a.id == b.id
    &&& a.email == b.email
    &&& a.list == b.list
    &&& a.unsubscribe_token == b.unsubscribe_token
    &&& a.created_at == b.created_at
}

/// Nothing but the rows of subscribers differs, and there are as many.
pub open spec fn only_rows_differ(t: tables::Tables, u: tables::Tables) -> bool {
    &&& u.subscribers.len() == t.subscribers.len()
    &&& u.sends == t.sends
    &&& u.last_subscriber == t.last_subscriber
    &&& u.last_send == t.last_send
}

/// To ask again makes the row with the id wait for the new token, from the new place, as if it had
/// never opted out; when it was confirmed before is kept. Every other row stays.
pub proof fn asking_again(t: tables::Tables, id: i64, token: Seq<char>, ip: Seq<char>, i: int)
    requires
        0 <= i < t.subscribers.len(),
    ensures
        ({
            let u = db::after_set_pending(t, id, token, ip);
            let old_row = t.subscribers[i];
            let row = u.subscribers[i];
            &&& only_rows_differ(t, u)
            &&& same_person(row, old_row)
            &&& old_row.id != id ==> row == old_row
            &&& old_row.id == id ==> {
                &&& row.status == "pending"@
                &&& row.confirm_token == Some(token)
                &&& row.confirmed_at == old_row.confirmed_at
                &&& row.unsubscribed_at is None
                &&& row.ip == Some(ip)
            }
        }),
{
}

/// To ask for the first time adds one row behind all others, under an id that no row has, which waits
/// for the token. Every other row stays.
pub proof fn asking_first(
    t: tables::Tables,
    email: Seq<char>,
    token: Seq<char>,
    link: Seq<char>,
    now: i64,
    ip: Seq<char>,
    list: Seq<char>,
)
    requires
        t.ordered(),
        db::insert_error(t, email, list) is None,
    ensures
        ({
            let u = db::after_insert_pending(t, email, token, link, now, ip, list);
            let row = u.subscribers.last();
            &&& u.subscribers.drop_last() == t.subscribers
            &&& u.sends == t.sends
            &&& u.last_send == t.last_send
            &&& u.last_subscriber == row.id
            &&& row.id == t.top_subscriber() + 1
            &&& row.id > t.last_subscriber
            &&& row.id > 0 || t.subscribers.len() > 0
            &&& forall|i: int| 0 <= i < t.subscribers.len() ==> (#[trigger] t.subscribers[i]).id < row.id
            &&& row.email == email
            &&& row.list == list
            &&& row.status == "pending"@
            &&& row.confirm_token == Some(token)
            &&& row.unsubscribe_token == link
            &&& row.created_at == now
            &&& row.confirmed_at is None
            &&& row.unsubscribed_at is None
            &&& row.ip == Some(ip)
        }),
{
    let u = db::after_insert_pending(t, email, token, link, now, ip, list);
    assert(u.subscribers.drop_last() =~= t.subscribers);
    next_is_behind_all(t);
}

/// A new row is refused exactly where no id is left or the address is on the list.
pub proof fn when_a_row_is_refused(t: tables::Tables, email: Seq<char>, list: Seq<char>)
    ensures
        db::insert_error(t, email, list) is None <==> t.top_subscriber() < i64::MAX && db::entry(
            t.subscribers,
            email,
            list,
        ) is None,
        db::insert_error(t, email, list) == Some(db::InsertError::Full) <==> t.top_subscriber()
            == i64::MAX,
{
}

/// To follow a confirmation link confirms, now, every row that waits for its token, which is used up
/// with that; whether the row ever opted out is kept. Every other row stays.
pub proof fn following_a_confirmation_link(t: tables::Tables, token: Seq<char>, now: i64, i: int)
    requires
        0 <= i < t.subscribers.len(),
    ensures
        ({
            let u = db::after_confirm(t, token, now);
            let old_row = t.subscribers[i];
            let row = u.subscribers[i];
            &&& only_rows_differ(t, u)
            &&& same_person(row, old_row)
            &&& old_row.confirm_token != Some(token) ==> row == old_row
            &&& old_row.confirm_token == Some(token) ==> {
                &&& row.status == "confirmed"@
                &&& row.confirmed_at == Some(now)
                &&& row.confirm_token is None
                &&& row.unsubscribed_at == old_row.unsubscribed_at
                &&& row.ip == old_row.ip
            }
        }),
{
}

/// Somebody waits for a token exactly where a row carries it.
pub proof fn when_a_token_is_awaited(rows: Seq<tables::SubscriberRowView>, token: Seq<char>)
    ensures
        db::awaited(rows, token) <==> exists|i: int|
            0 <= i < rows.len() && (#[trigger] rows[i]).confirm_token == Some(token),
{
    if db::awaited(rows, token) {
        let i = choose|i: int| 0 <= i < rows.len() && db::awaits(#[trigger] rows[i], token);
        assert(rows[i].confirm_token == Some(token));
    }
    if exists|i: int| 0 <= i < rows.len() && (#[trigger] rows[i]).confirm_token == Some(token) {
        let i = choose|i: int|
            0 <= i < rows.len() && (#[trigger] rows[i]).confirm_token == Some(token);
        assert(db::awaits(rows[i], token));
    }
}

/// What opting out makes of a row: the state and the time, and nothing else.
pub open spec fn opted_out(
    row: tables::SubscriberRowView,
    old_row: tables::SubscriberRowView,
    now: i64,
) -> bool {
    &&& same_person(row, old_row)
    &&& row.status == "unsubscribed"@
    &&& row.unsubscribed_at == Some(now)
    &&& row.confirmed_at == old_row.confirmed_at
    &&& row.confirm_token == old_row.confirm_token
    &&& row.ip == old_row.ip
}

/// To follow an unsubscribe link opts out, now, the first row that carries its token, unless it has
/// opted out before. Every other row stays.
pub proof fn following_an_unsubscribe_link(
    t: tables::Tables,
    token: Seq<char>,
    now: i64,
    i: int,
    j: int,
)
    requires
        t.ordered(),
        0 <= i < t.subscribers.len(),
        t.subscribers[i].unsubscribe_token == token,
        forall|k: int| 0 <= k < i ==> (#[trigger] t.subscribers[k]).unsubscribe_token != token,
        0 <= j < t.subscribers.len(),
        j != i,
    ensures
        ({
            let u = db::after_unsubscribe_by_token(t, token, now);
            let was = t.subscribers[i].status == "unsubscribed"@;
            &&& only_rows_differ(t, u)
            &&& u.subscribers[j] == t.subscribers[j]
            &&& was ==> u == t
            &&& !was ==> opted_out(u.subscribers[i], t.subscribers[i], now)
            &&& db::unsub_outcome(t.subscribers, token) == if was {
                db::UnsubOutcome::Already
            } else {
                db::UnsubOutcome::Done
            }
        }),
{
    the_row_of_a_link(t.subscribers, token, i);
    db::with_row_at(
        t.subscribers,
        i,
        |x: tables::SubscriberRowView| db::made_unsubscribed(x, now),
    );
}

/// The one subscriber there is opts out likewise.
pub proof fn the_only_subscriber_opts_out(t: tables::Tables, token: Seq<char>, now: i64)
    requires
        t.subscribers.len() == 1,
        t.subscribers[0].unsubscribe_token == token,
        t.subscribers[0].status != "unsubscribed"@,
    ensures
        ({
            let u = db::after_unsubscribe_by_token(t, token, now);
            &&& only_rows_differ(t, u)
            &&& opted_out(u.subscribers[0], t.subscribers[0], now)
            &&& db::unsub_outcome(t.subscribers, token) == db::UnsubOutcome::Done
        }),
{
    the_row_of_a_link(t.subscribers, token, 0);
    db::with_row_at(
        t.subscribers,
        0,
        |x: tables::SubscriberRowView| db::made_unsubscribed(x, now),
    );
}

/// An unsubscribe link that belongs to nobody changes nothing.
pub proof fn an_unknown_link_changes_nothing(t: tables::Tables, token: Seq<char>, now: i64)
    requires
        forall|k: int|
            0 <= k < t.subscribers.len() ==> (#[trigger] t.subscribers[k]).unsubscribe_token
                != token,
    ensures
        db::after_unsubscribe_by_token(t, token, now) == t,
        db::unsub_outcome(t.subscribers, token) == db::UnsubOutcome::NotFound,
{
    the_row_of_a_link(t.subscribers, token, t.subscribers.len() as int);
}

/// To opt an address out of a list opts out, now, every row of it there that has not opted out yet.
/// Every other row stays.
pub proof fn opting_an_address_out(
    t: tables::Tables,
    email: Seq<char>,
    now: i64,
    list: Seq<char>,
    i: int,
)
    requires
        0 <= i < t.subscribers.len(),
    ensures
        ({
            let u = db::after_unsubscribe_by_email(t, email, now, list);
            let r = t.subscribers[i];
            let meant = r.list == list && text::alike(r.email, email) && r.status
                != "unsubscribed"@;
            &&& only_rows_differ(t, u)
            &&& meant ==> opted_out(u.subscribers[i], r, now)
            &&& !meant ==> u.subscribers[i] == r
        }),
{
}

/// To remove an address from a list takes its rows away, and keeps all others as they are and in
/// their order; said of one more row behind.
pub proof fn removing_an_address(
    t: tables::Tables,
    r: tables::SubscriberRowView,
    email: Seq<char>,
    list: Seq<char>,
)
    ensures
        ({
            let more = tables::Tables { subscribers: t.subscribers.push(r), ..t };
            let u = db::after_delete_by_email(t, email, list);
            let v = db::after_delete_by_email(more, email, list);
            let gone = r.list == list && text::alike(r.email, email);
            &&& gone ==> v.subscribers == u.subscribers
            &&& !gone ==> v.subscribers == u.subscribers.push(r)
            &&& u.sends == t.sends
            &&& u.last_subscriber == t.last_subscriber
            &&& u.last_send == t.last_send
            &&& t.subscribers.len() == 0 ==> u.subscribers.len() == 0
        }),
{
    reveal(Seq::filter);
    tables::filter_of_push(
        t.subscribers,
        r,
        |x: tables::SubscriberRowView| !db::is_entry(x, email, list),
    );
}

/// The owner adds an address that is not on the list as one more row, confirmed now.
pub proof fn adding_a_new_address(
    t: tables::Tables,
    email: Seq<char>,
    link: Seq<char>,
    now: i64,
    list: Seq<char>,
)
    requires
        t.ordered(),
        db::insert_error(t, email, list) is None,
    ensures
        ({
            let u = db::after_add_confirmed(t, email, link, now, list);
            let row = u.subscribers.last();
            &&& db::add_outcome(t, email, list) == Ok::<_, db::InsertError>(db::AddOutcome::Added)
            &&& u.subscribers.drop_last() == t.subscribers
            &&& u.sends == t.sends
            &&& u.last_send == t.last_send
            &&& u.last_subscriber == row.id
            &&& row.id == t.top_subscriber() + 1
            &&& row.id > t.last_subscriber
            &&& forall|i: int| 0 <= i < t.subscribers.len() ==> (#[trigger] t.subscribers[i]).id < row.id
            &&& row.email == email
            &&& row.list == list
            &&& row.status == "confirmed"@
            &&& row.confirm_token is None
            &&& row.unsubscribe_token == link
            &&& row.created_at == now
            &&& row.confirmed_at == Some(now)
            &&& row.unsubscribed_at is None
            &&& row.ip == Some("admin"@)
        }),
{
    let u = db::after_add_confirmed(t, email, link, now, list);
    assert(u.subscribers.drop_last() =~= t.subscribers);
    next_is_behind_all(t);
}

/// The owner adds an address that is on the list: its row is confirmed now, as if it had never opted
/// out, unless it is confirmed. Every other row stays.
pub proof fn adding_a_known_address(
    t: tables::Tables,
    email: Seq<char>,
    link: Seq<char>,
    now: i64,
    list: Seq<char>,
    i: int,
    j: int,
)
    requires
        t.ordered(),
        0 <= i < t.subscribers.len(),
        t.subscribers[i].list == list,
        text::alike(t.subscribers[i].email, email),
        forall|k: int|
            0 <= k < i ==> (#[trigger] t.subscribers[k]).list != list || !text::alike(
                t.subscribers[k].email,
                email,
            ),
        0 <= j < t.subscribers.len(),
    ensures
        ({
            let u = db::after_add_confirmed(t, email, link, now, list);
            let old_row = t.subscribers[i];
            let row = u.subscribers[i];
            let was = old_row.status == "confirmed"@;
            &&& only_rows_differ(t, u)
            &&& j != i ==> u.subscribers[j] == t.subscribers[j]
            &&& was ==> u == t && db::add_outcome(t, email, list) == Ok::<_, db::InsertError>(
                db::AddOutcome::AlreadyConfirmed,
            )
            &&& !was ==> {
                &&& db::add_outcome(t, email, list) == Ok::<_, db::InsertError>(
                    db::AddOutcome::Reactivated,
                )
                &&& same_person(row, old_row)
                &&& row.status == "confirmed"@
                &&& row.confirmed_at == Some(now)
                &&& row.confirm_token is None
                &&& row.unsubscribed_at is None
                &&& row.ip == old_row.ip
            }
        }),
{
    the_row_of_an_address(t.subscribers, email, list, i);
    db::with_row_at(
        t.subscribers,
        i,
        |x: tables::SubscriberRowView| db::made_reactivated(x, now),
    );
}

/// Where no id is left, a new address is not added and nothing changes.
pub proof fn adding_to_a_full_table(
    t: tables::Tables,
    email: Seq<char>,
    link: Seq<char>,
    now: i64,
    list: Seq<char>,
)
    requires
        db::entry(t.subscribers, email, list) is None,
        t.top_subscriber() == i64::MAX,
    ensures
        db::after_add_confirmed(t, email, link, now, list) == t,
        db::add_outcome(t, email, list) == Err::<db::AddOutcome, _>(db::InsertError::Full),
{
}

/// A send is recorded as one more row, under an id that none has, with all that is said of it. The
/// subscribers stay.
pub proof fn recording_a_send(
    t: tables::Tables,
    post_url: Seq<char>,
    subject: Seq<char>,
    now: i64,
    count: i64,
    body_html: Seq<char>,
    list: Seq<char>,
)
    requires
        t.ordered(),
        t.top_send() < i64::MAX,
    ensures
        ({
            let u = db::after_record_send(t, post_url, subject, now, count, body_html, list);
            let row = u.sends.last();
            &&& u.subscribers == t.subscribers
            &&& u.last_subscriber == t.last_subscriber
            &&& u.sends.drop_last() == t.sends
            &&& u.last_send == row.id
            &&& row.id == t.top_send() + 1
            &&& row.id > t.last_send
            &&& forall|i: int| 0 <= i < t.sends.len() ==> (#[trigger] t.sends[i]).id < row.id
            &&& row.post_url == post_url
            &&& row.subject == Some(subject)
            &&& row.sent_at == now
            &&& row.recipient_count == Some(count)
            &&& row.body_html == Some(body_html)
            &&& row.list == list
        }),
{
    let u = db::after_record_send(t, post_url, subject, now, count, body_html, list);
    assert(u.sends.drop_last() =~= t.sends);
    next_is_behind_all(t);
}

/// The id behind which the next row comes is the largest that is there or was given out, and not
/// below zero for an empty table.
pub proof fn next_is_behind_all(t: tables::Tables)
    requires
        t.ordered(),
    ensures
        t.top_subscriber() >= t.last_subscriber,
        forall|i: int|
            0 <= i < t.subscribers.len() ==> (#[trigger] t.subscribers[i]).id <= t.top_subscriber(),
        t.subscribers.len() == 0 ==> t.top_subscriber() >= 0,
        ({
            ||| t.top_subscriber() == t.last_subscriber
            ||| t.subscribers.len() == 0 && t.top_subscriber() == 0
            ||| t.subscribers.len() > 0 && t.top_subscriber() == t.subscribers.last().id
        }),
        t.top_send() >= t.last_send,
        forall|i: int| 0 <= i < t.sends.len() ==> (#[trigger] t.sends[i]).id <= t.top_send(),
        t.sends.len() == 0 ==> t.top_send() >= 0,
        ({
            ||| t.top_send() == t.last_send
            ||| t.sends.len() == 0 && t.top_send() == 0
            ||| t.sends.len() > 0 && t.top_send() == t.sends.last().id
        }),
{
    assert forall|i: int| 0 <= i < t.subscribers.len() implies (#[trigger] t.subscribers[i]).id
        <= t.top_subscriber() by {
        let n = t.subscribers.len() - 1;
        if i < n {
            assert(t.subscribers[i].id < t.subscribers[n].id);
        }
    }
    assert forall|i: int| 0 <= i < t.sends.len() implies (#[trigger] t.sends[i]).id
        <= t.top_send() by {
        let n = t.sends.len() - 1;
        if i < n {
            assert(t.sends[i].id < t.sends[n].id);
        }
    }
}

// ---------- Asking for a subscription ----------

/// Whoever asks and is not known gets one more row, as `asking_first` says of it; and where no id is
/// left, is told that something went wrong, and nothing changes.
pub proof fn a_stranger_asks(
    t: tables::Tables,
    email: Seq<char>,
    token: Seq<char>,
    link: Seq<char>,
    now: i64,
    ip: Seq<char>,
    list: Seq<char>,
)
    requires
        forall|k: int|
            0 <= k < t.subscribers.len() ==> (#[trigger] t.subscribers[k]).list != list
                || !text::alike(t.subscribers[k].email, email),
    ensures
        t.top_subscriber() < i64::MAX ==> {
            &&& service::after_subscribe(t, email, token, link, now, ip, list)
                == db::after_insert_pending(t, email, token, link, now, ip, list)
            &&& db::insert_error(t, email, list) is None
            &&& service::subscribe_answered(t, email, list) is None
        },
        t.top_subscriber() == i64::MAX ==> {
            &&& service::after_subscribe(t, email, token, link, now, ip, list) == t
            &&& service::subscribe_answered(t, email, list) matches Some(
                service::ReplyView::Message { status, ok, message },
            )
            &&& status == 500
            &&& !ok
        },
{
    the_row_of_an_address(t.subscribers, email, list, t.subscribers.len() as int);
}

/// Whoever asks and is known but not confirmed is asked to confirm with the new token, as
/// `asking_again` says of the row; whoever is confirmed is told so, and nothing changes.
pub proof fn a_known_subscriber_asks(
    t: tables::Tables,
    email: Seq<char>,
    token: Seq<char>,
    link: Seq<char>,
    now: i64,
    ip: Seq<char>,
    list: Seq<char>,
    i: int,
)
    requires
        0 <= i < t.subscribers.len(),
        t.subscribers[i].list == list,
        text::alike(t.subscribers[i].email, email),
        forall|k: int|
            0 <= k < i ==> (#[trigger] t.subscribers[k]).list != list || !text::alike(
                t.subscribers[k].email,
                email,
            ),
    ensures
        t.subscribers[i].status == "confirmed"@ ==> {
            &&& service::after_subscribe(t, email, token, link, now, ip, list) == t
            &&& service::subscribe_answered(t, email, list) matches Some(
                service::ReplyView::Message { status, ok, message },
            )
            &&& status == 200
            &&& ok
        },
        t.subscribers[i].status != "confirmed"@ ==> {
            &&& service::after_subscribe(t, email, token, link, now, ip, list)
                == db::after_set_pending(t, t.subscribers[i].id, token, ip)
            &&& service::subscribe_answered(t, email, list) is None
        },
{
    the_row_of_an_address(t.subscribers, email, list, i);
}

// ---------- Counting and listing ----------

/// One more row counts for its own list and its own state, and for nothing else; no rows count for
/// nothing.
pub proof fn counting_one_more(
    rows: Seq<tables::SubscriberRowView>,
    r: tables::SubscriberRowView,
    list: Seq<char>,
    status: Seq<char>,
)
    ensures
        db::on_list(rows.push(r), list) == if r.list == list {
            db::on_list(rows, list).push(r)
        } else {
            db::on_list(rows, list)
        },
        db::in_state(rows.push(r), list, status) == if r.list == list && r.status == status {
            db::in_state(rows, list, status).push(r)
        } else {
            db::in_state(rows, list, status)
        },
        rows.len() == 0 ==> db::on_list(rows, list).len() == 0 && db::in_state(
            rows,
            list,
            status,
        ).len() == 0,
        db::pending() == "pending"@,
        db::confirmed() == "confirmed"@,
        db::unsubscribed() == "unsubscribed"@,
{
    reveal(Seq::filter);
    tables::filter_of_push(rows, r, |x: tables::SubscriberRowView| x.list == list);
    tables::filter_of_push(
        rows,
        r,
        |x: tables::SubscriberRowView| x.list == list && x.status == status,
    );
}

/// One more row is mailed, at the end, where it is confirmed and on the list: to its address, with its
/// link.
pub proof fn mailing_one_more(
    rows: Seq<tables::SubscriberRowView>,
    r: tables::SubscriberRowView,
    list: Seq<char>,
)
    ensures
        db::recipients(rows.push(r), list) == if r.list == list && r.status == "confirmed"@ {
            db::recipients(rows, list).push((r.email, r.unsubscribe_token))
        } else {
            db::recipients(rows, list)
        },
        rows.len() == 0 ==> db::recipients(rows, list).len() == 0,
{
    counting_one_more(rows, r, list, db::confirmed());
    let pair = |x: tables::SubscriberRowView| (x.email, x.unsubscribe_token);
    let before = db::in_state(rows, list, db::confirmed());
    assert(before.push(r).map_values(pair) =~= before.map_values(pair).push(pair(r)));
}

/// What the dashboard shows of a subscriber: the address, the state, and when the subscriber asked,
/// confirmed and opted out, each in its place.
pub open spec fn shows(s: db::SubscriberView, r: tables::SubscriberRowView) -> bool {
    &&& s.email == r.email
    &&& s.status == r.status
    &&& s.created_at == r.created_at
    &&& s.confirmed_at == r.confirmed_at
    &&& s.unsubscribed_at == r.unsubscribed_at
}

/// What the dashboard shows are rows of the list, field by field.
pub proof fn shown_subscribers_are_rows(
    rows: Seq<tables::SubscriberRowView>,
    limit: i64,
    list: Seq<char>,
    out: Seq<db::SubscriberView>,
    k: int,
) -> (i: int)
    requires
        db::recent_subscribers_of(rows, limit, list, out),
        0 <= k < out.len(),
    ensures
        0 <= i < rows.len(),
        rows[i].list == list,
        shows(out[k], rows[i]),
{
    let mine = db::on_list(rows, list);
    let times = db::created_times(mine);
    let order = choose|order: Seq<int>| #[trigger]
        db::newest_first(times, limit, order) && out == order.map_values(
            |k: int| db::shown(mine[k]),
        );
    let places = tables::filter_places(rows, |r: tables::SubscriberRowView| r.list == list);
    assert(0 <= order[k] < mine.len());
    let i = places[order[k]];
    assert(mine[order[k]] == rows[i]);
    i
}

/// The dashboard shows the newest subscribers first, no more than the limit, and all of the list where
/// there are not more; who is not shown is no newer than anyone who is.
pub proof fn the_newest_subscribers_are_shown(
    rows: Seq<tables::SubscriberRowView>,
    limit: i64,
    list: Seq<char>,
    out: Seq<db::SubscriberView>,
)
    requires
        db::recent_subscribers_of(rows, limit, list, out),
    ensures
        forall|k: int, m: int|
            0 <= k < m < out.len() ==> (#[trigger] out[k]).created_at >= (
            #[trigger] out[m]).created_at,
        limit >= 0 ==> out.len() <= limit,
        out.len() <= db::on_list(rows, list).len(),
        limit < 0 || out.len() < limit ==> out.len() == db::on_list(rows, list).len(),
{
    let mine = db::on_list(rows, list);
    let times = db::created_times(mine);
    let order = choose|order: Seq<int>| #[trigger]
        db::newest_first(times, limit, order) && out == order.map_values(
            |k: int| db::shown(mine[k]),
        );
    assert forall|k: int, m: int| 0 <= k < m < out.len() implies (#[trigger] out[k]).created_at >= (
    #[trigger] out[m]).created_at by {
        assert(db::newer(times, order[k], order[m]));
        assert(times[order[k]] == mine[order[k]].created_at);
        assert(times[order[m]] == mine[order[m]].created_at);
    }
    db::newest_len(times, order);
    if limit < 0 || out.len() < limit {
        all_places_are_as_many(times.len() as int, order);
    }
}

/// A sequence in which every place below `n` stands has at least `n` items.
proof fn all_places_are_as_many(n: int, order: Seq<int>)
    requires
        n >= 0,
        forall|j: int| 0 <= j < n ==> #[trigger] order.contains(j),
    ensures
        order.len() >= n,
{
    let range = vstd::set_lib::set_int_range(0, n);
    vstd::set_lib::lemma_int_range(0, n);
    assert(range.subset_of(order.to_set())) by {
        assert forall|j: int| range.contains(j) implies order.to_set().contains(j) by {
            assert(order.contains(j));
        }
    }
    order.lemma_cardinality_of_set();
    vstd::set_lib::lemma_len_subset(range, order.to_set());
}

/// Every subscriber of the list is shown, or is no newer than anyone who is shown, and the list is cut
/// at the limit.
pub proof fn who_is_shown(
    rows: Seq<tables::SubscriberRowView>,
    limit: i64,
    list: Seq<char>,
    out: Seq<db::SubscriberView>,
    i: int,
) -> (k: int)
    requires
        db::recent_subscribers_of(rows, limit, list, out),
        0 <= i < rows.len(),
        rows[i].list == list,
    ensures
        ({
            ||| 0 <= k < out.len() && shows(out[k], rows[i])
            ||| {
                &&& limit >= 0
                &&& out.len() == limit
                &&& forall|m: int|
                    0 <= m < out.len() ==> (#[trigger] out[m]).created_at >= rows[i].created_at
            }
        }),
{
    let mine = db::on_list(rows, list);
    let times = db::created_times(mine);
    let order = choose|order: Seq<int>| #[trigger]
        db::newest_first(times, limit, order) && out == order.map_values(
            |k: int| db::shown(mine[k]),
        );
    let pred = |r: tables::SubscriberRowView| r.list == list;
    tables::filter_places(rows, pred);
    assert(pred(rows[i]));
    let j = mine.index_of(rows[i]);
    if order.contains(j) {
        let k = order.index_of(j);
        assert(out[k] == db::shown(mine[j]));
        k
    } else {
        assert forall|m: int| 0 <= m < out.len() implies (#[trigger] out[m]).created_at
            >= rows[i].created_at by {
            assert(db::newer(times, order[m], j));
            assert(times[order[m]] == mine[order[m]].created_at);
            assert(times[j] == mine[j].created_at);
        }
        0
    }
}

/// Someone who follows a confirmation link is shown with the time of that, and, having never opted
/// out, with no time for that; unless the list is cut.
pub proof fn a_confirmed_subscriber_is_shown(
    t: tables::Tables,
    token: Seq<char>,
    now: i64,
    limit: i64,
    out: Seq<db::SubscriberView>,
    i: int,
) -> (k: int)
    requires
        0 <= i < t.subscribers.len(),
        t.subscribers[i].confirm_token == Some(token),
        t.subscribers[i].unsubscribed_at is None,
        db::recent_subscribers_of(
            db::after_confirm(t, token, now).subscribers,
            limit,
            t.subscribers[i].list,
            out,
        ),
    ensures
        ({
            ||| {
                &&& 0 <= k < out.len()
                &&& out[k].email == t.subscribers[i].email
                &&& out[k].status == "confirmed"@
                &&& out[k].created_at == t.subscribers[i].created_at
                &&& out[k].confirmed_at == Some(now)
                &&& out[k].unsubscribed_at is None
            }
            ||| limit >= 0 && out.len() == limit
        }),
{
    following_a_confirmation_link(t, token, now, i);
    who_is_shown(
        db::after_confirm(t, token, now).subscribers,
        limit,
        t.subscribers[i].list,
        out,
        i,
    )
}

// ---------- Sends ----------

/// What the dashboard shows of a send: the id, the address of the post, the subject, the time and the
/// number of mails, each in its place.
pub open spec fn shows_send(s: db::SendRecordView, r: tables::SendRowView) -> bool {
    &&& s.id == r.id
    &&& s.post_url == r.post_url
    &&& s.subject == r.subject
    &&& s.sent_at == r.sent_at
    &&& s.recipient_count == r.recipient_count
}

/// What the dashboard shows of sends are rows of the list, field by field.
pub proof fn shown_sends_are_rows(
    rows: Seq<tables::SendRowView>,
    limit: i64,
    list: Seq<char>,
    out: Seq<db::SendRecordView>,
    k: int,
) -> (i: int)
    requires
        db::recent_sends_of(rows, limit, list, out),
        0 <= k < out.len(),
    ensures
        0 <= i < rows.len(),
        rows[i].list == list,
        shows_send(out[k], rows[i]),
{
    let mine = db::sends_to(rows, list);
    let times = db::sent_times(mine);
    let order = choose|order: Seq<int>| #[trigger]
        db::newest_first(times, limit, order) && out == order.map_values(
            |k: int| db::shown_send(mine[k]),
        );
    let places = tables::filter_places(rows, |r: tables::SendRowView| r.list == list);
    assert(0 <= order[k] < mine.len());
    let i = places[order[k]];
    assert(mine[order[k]] == rows[i]);
    i
}

/// The dashboard shows the newest sends first, no more than the limit, and all of the list where there
/// are not more.
pub proof fn the_newest_sends_are_shown(
    rows: Seq<tables::SendRowView>,
    limit: i64,
    list: Seq<char>,
    out: Seq<db::SendRecordView>,
)
    requires
        db::recent_sends_of(rows, limit, list, out),
    ensures
        forall|k: int, m: int|
            0 <= k < m < out.len() ==> (#[trigger] out[k]).sent_at >= (#[trigger] out[m]).sent_at,
        limit >= 0 ==> out.len() <= limit,
        out.len() <= db::sends_to(rows, list).len(),
        limit < 0 || out.len() < limit ==> out.len() == db::sends_to(rows, list).len(),
{
    let mine = db::sends_to(rows, list);
    let times = db::sent_times(mine);
    let order = choose|order: Seq<int>| #[trigger]
        db::newest_first(times, limit, order) && out == order.map_values(
            |k: int| db::shown_send(mine[k]),
        );
    assert forall|k: int, m: int| 0 <= k < m < out.len() implies (#[trigger] out[k]).sent_at >= (
    #[trigger] out[m]).sent_at by {
        assert(db::newer(times, order[k], order[m]));
        assert(times[order[k]] == mine[order[k]].sent_at);
        assert(times[order[m]] == mine[order[m]].sent_at);
    }
    db::newest_len(times, order);
    if limit < 0 || out.len() < limit {
        all_places_are_as_many(times.len() as int, order);
    }
}

/// Every send to the list is shown, or is no newer than any that is shown, and the list is cut at the
/// limit.
pub proof fn which_sends_are_shown(
    rows: Seq<tables::SendRowView>,
    limit: i64,
    list: Seq<char>,
    out: Seq<db::SendRecordView>,
    i: int,
) -> (k: int)
    requires
        db::recent_sends_of(rows, limit, list, out),
        0 <= i < rows.len(),
        rows[i].list == list,
    ensures
        ({
            ||| 0 <= k < out.len() && shows_send(out[k], rows[i])
            ||| {
                &&& limit >= 0
                &&& out.len() == limit
                &&& forall|m: int|
                    0 <= m < out.len() ==> (#[trigger] out[m]).sent_at >= rows[i].sent_at
            }
        }),
{
    let mine = db::sends_to(rows, list);
    let times = db::sent_times(mine);
    let order = choose|order: Seq<int>| #[trigger]
        db::newest_first(times, limit, order) && out == order.map_values(
            |k: int| db::shown_send(mine[k]),
        );
    let pred = |r: tables::SendRowView| r.list == list;
    tables::filter_places(rows, pred);
    assert(pred(rows[i]));
    let j = mine.index_of(rows[i]);
    if order.contains(j) {
        let k = order.index_of(j);
        assert(out[k] == db::shown_send(mine[j]));
        k
    } else {
        assert forall|m: int| 0 <= m < out.len() implies (#[trigger] out[m]).sent_at
            >= rows[i].sent_at by {
            assert(db::newer(times, order[m], j));
            assert(times[order[m]] == mine[order[m]].sent_at);
            assert(times[j] == mine[j].sent_at);
        }
        0
    }
}

/// One more send counts for its own list alone.
pub proof fn counting_one_more_send(
    rows: Seq<tables::SendRowView>,
    r: tables::SendRowView,
    list: Seq<char>,
)
    ensures
        db::sends_to(rows.push(r), list) == if r.list == list {
            db::sends_to(rows, list).push(r)
        } else {
            db::sends_to(rows, list)
        },
        rows.len() == 0 ==> db::sends_to(rows, list).len() == 0,
{
    reveal(Seq::filter);
    tables::filter_of_push(rows, r, |x: tables::SendRowView| x.list == list);
}

/// When a post was last sent to a list: at the latest time of all its sends there, and never where it
/// has none.
pub proof fn when_a_post_was_last_sent(
    rows: Seq<tables::SendRowView>,
    post_url: Seq<char>,
    list: Seq<char>,
) -> (i: int)
    ensures
        match db::last_sent(rows, post_url, list) {
            Some(at) => {
                &&& 0 <= i < rows.len()
                &&& rows[i].post_url == post_url
                &&& rows[i].list == list
                &&& rows[i].sent_at == at
                &&& forall|j: int|
                    0 <= j < rows.len() && (#[trigger] rows[j]).post_url == post_url && rows[j].list
                        == list ==> rows[j].sent_at <= at
            },
            None => forall|j: int|
                0 <= j < rows.len() ==> (#[trigger] rows[j]).post_url != post_url || rows[j].list
                    != list,
        },
    decreases rows.len(),
{
    if rows.len() == 0 {
        0
    } else {
        let front = rows.drop_last();
        let i = when_a_post_was_last_sent(front, post_url, list);
        let n = rows.len() - 1;
        assert forall|j: int| 0 <= j < n implies #[trigger] rows[j] == front[j] by {}
        assert(rows[n] == rows.last());
        match db::last_sent(front, post_url, list) {
            Some(at) => {
                if rows[n].post_url == post_url && rows[n].list == list && rows[n].sent_at > at {
                    n
                } else {
                    assert(rows[i] == front[i]);
                    i
                }
            },
            None => n,
        }
    }
}

/// A post is refused exactly where that is not forced and it was sent to the list before; the refusal
/// names the latest time at which it was.
pub proof fn when_a_post_is_refused(
    t: tables::Tables,
    post_url: Seq<char>,
    list: Seq<char>,
    force: bool,
) -> (i: int)
    ensures
        match send::send_refused(t, post_url, list, force) {
            Some(send::SendError::AlreadySent(at)) => {
                &&& !force
                &&& 0 <= i < t.sends.len()
                &&& t.sends[i].post_url == post_url
                &&& t.sends[i].list == list
                &&& t.sends[i].sent_at == at
                &&& forall|j: int|
                    0 <= j < t.sends.len() && (#[trigger] t.sends[j]).post_url == post_url
                        && t.sends[j].list == list ==> t.sends[j].sent_at <= at
            },
            None => force || forall|j: int|
                0 <= j < t.sends.len() ==> (#[trigger] t.sends[j]).post_url != post_url
                    || t.sends[j].list != list,
        },
{
    when_a_post_was_last_sent(t.sends, post_url, list)
}

/// The page of a send is the one that its row holds, and none where no row has the id.
pub proof fn the_page_of_a_send(rows: Seq<tables::SendRowView>, i: int, id: i64)
    requires
        0 <= i <= rows.len(),
        forall|j: int| 0 <= j < i ==> (#[trigger] rows[j]).id != id,
        i < rows.len() ==> rows[i].id == id,
    ensures
        i < rows.len() ==> db::page_of(rows, id) == rows[i].body_html,
        i == rows.len() ==> db::page_of(rows, id) is None,
    decreases rows.len(),
{
    if rows.len() > 0 && i > 0 {
        assert(rows[0].id != id);
        let rest = rows.skip(1);
        assert forall|j: int| 0 <= j < i - 1 implies (#[trigger] rest[j]).id != id by {
            assert(rest[j] == rows[j + 1]);
        }
        the_page_of_a_send(rest, i - 1, id);
    }
}

// ---------- Changes ----------

/// To put a row over one with its id changes that row alone; and the counter stays.
pub proof fn putting_over_a_row(t: tables::Tables, row: tables::SubscriberRowView, i: int, j: int)
    requires
        t.ordered(),
        0 <= i < t.subscribers.len(),
        t.subscribers[i].id == row.id,
        0 <= j < t.subscribers.len(),
    ensures
        ({
            let u = tables::changed(t, tables::ChangeView::PutSubscriber(row));
            &&& only_rows_differ(t, u)
            &&& u.subscribers[i] == row
            &&& j != i ==> u.subscribers[j] == t.subscribers[j]
        }),
{
    assert(tables::has_subscriber(t.subscribers, row.id));
    if j < i {
        assert(t.subscribers[j].id < t.subscribers[i].id);
    } else if i < j {
        assert(t.subscribers[i].id < t.subscribers[j].id);
    }
}

/// To put a send over one with its id changes that send alone; and the counter stays.
pub proof fn putting_over_a_send(t: tables::Tables, row: tables::SendRowView, i: int, j: int)
    requires
        t.ordered(),
        0 <= i < t.sends.len(),
        t.sends[i].id == row.id,
        0 <= j < t.sends.len(),
    ensures
        ({
            let u = tables::changed(t, tables::ChangeView::PutSend(row));
            &&& u.subscribers == t.subscribers
            &&& u.last_subscriber == t.last_subscriber
            &&& u.last_send == t.last_send
            &&& u.sends.len() == t.sends.len()
            &&& u.sends[i] == row
            &&& j != i ==> u.sends[j] == t.sends[j]
        }),
{
    assert(tables::has_send(t.sends, row.id));
    if j < i {
        assert(t.sends[j].id < t.sends[i].id);
    } else if i < j {
        assert(t.sends[i].id < t.sends[j].id);
    }
}

/// To put a row with an id that none has puts it behind all others; the counter is not behind it.
pub proof fn putting_a_new_row(
    t: tables::Tables,
    row: tables::SubscriberRowView,
    sent: tables::SendRowView,
)
    requires
        forall|i: int| 0 <= i < t.subscribers.len() ==> (#[trigger] t.subscribers[i]).id != row.id,
        forall|i: int| 0 <= i < t.sends.len() ==> (#[trigger] t.sends[i]).id != sent.id,
    ensures
        ({
            let u = tables::changed(t, tables::ChangeView::PutSubscriber(row));
            &&& u.subscribers == t.subscribers.push(row)
            &&& u.sends == t.sends
            &&& u.last_send == t.last_send
            &&& u.last_subscriber >= row.id && u.last_subscriber >= t.last_subscriber
            &&& u.last_subscriber == row.id || u.last_subscriber == t.last_subscriber
        }),
        ({
            let u = tables::changed(t, tables::ChangeView::PutSend(sent));
            &&& u.sends == t.sends.push(sent)
            &&& u.subscribers == t.subscribers
            &&& u.last_subscriber == t.last_subscriber
            &&& u.last_send >= sent.id && u.last_send >= t.last_send
            &&& u.last_send == sent.id || u.last_send == t.last_send
        }),
{
    assert(!tables::has_subscriber(t.subscribers, row.id));
    assert(!tables::has_send(t.sends, sent.id));
}

/// To remove a row takes away what has its id, and keeps all others as they are and in their order;
/// said of one more row behind.
pub proof fn removing_a_row(t: tables::Tables, r: tables::SubscriberRowView, id: i64)
    ensures
        ({
            let more = tables::Tables { subscribers: t.subscribers.push(r), ..t };
            let u = tables::changed(t, tables::ChangeView::RemoveSubscriber(id));
            let v = tables::changed(more, tables::ChangeView::RemoveSubscriber(id));
            &&& r.id == id ==> v.subscribers == u.subscribers
            &&& r.id != id ==> v.subscribers == u.subscribers.push(r)
            &&& u.sends == t.sends
            &&& u.last_subscriber == t.last_subscriber
            &&& u.last_send == t.last_send
            &&& t.subscribers.len() == 0 ==> u.subscribers.len() == 0
        }),
{
    reveal(Seq::filter);
    tables::filter_of_push(t.subscribers, r, |x: tables::SubscriberRowView| x.id != id);
}

/// Changes are made one after the other, in their order.
pub proof fn changes_are_made_in_order(
    t: tables::Tables,
    a: Seq<tables::ChangeView>,
    b: Seq<tables::ChangeView>,
)
    ensures
        tables::replayed(t, a + b) == tables::replayed(tables::replayed(t, a), b),
        tables::replayed(t, Seq::empty()) == t,
    decreases b.len(),
{
    if b.len() == 0 {
        assert(a + b =~= a);
    } else {
        changes_are_made_in_order(t, a, b.drop_last());
        assert((a + b).drop_last() =~= a + b.drop_last());
        assert((a + b).last() == b.last());
    }
}

} // verus!
