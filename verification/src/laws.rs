//! What holds of the service as a whole, whatever is asked of it and in whatever order.
use vstd::prelude::*;

use crate::db;
use crate::send;
use crate::service;
use crate::tables;
use crate::text;

verus! {

// ---------- What can be asked of the tables ----------

/// Something that changes the tables.
pub ghost enum Operation {
    SetPending { id: i64, confirm_token: Seq<char>, ip: Seq<char> },
    InsertPending {
        email: Seq<char>,
        confirm_token: Seq<char>,
        unsubscribe_token: Seq<char>,
        now: i64,
        ip: Seq<char>,
        list: Seq<char>,
    },
    Confirm { token: Seq<char>, now: i64 },
    UnsubscribeByToken { token: Seq<char>, now: i64 },
    UnsubscribeByEmail { email: Seq<char>, now: i64, list: Seq<char> },
    DeleteByEmail { email: Seq<char>, list: Seq<char> },
    AddConfirmed { email: Seq<char>, unsubscribe_token: Seq<char>, now: i64, list: Seq<char> },
    RecordSend {
        post_url: Seq<char>,
        subject: Seq<char>,
        now: i64,
        count: i64,
        body_html: Seq<char>,
        list: Seq<char>,
    },
}

/// The tables after an operation. One that is refused changes nothing.
pub open spec fn after(t: tables::Tables, op: Operation) -> tables::Tables {
    match op {
        Operation::SetPending { id, confirm_token, ip } => db::after_set_pending(
            t,
            id,
            confirm_token,
            ip,
        ),
        Operation::InsertPending { email, confirm_token, unsubscribe_token, now, ip, list } =>
            if db::insert_error(t, email, list) is None {
                db::after_insert_pending(
                    t,
                    email,
                    confirm_token,
                    unsubscribe_token,
                    now,
                    ip,
                    list,
                )
            } else {
                t
            },
        Operation::Confirm { token, now } => db::after_confirm(t, token, now),
        Operation::UnsubscribeByToken { token, now } => db::after_unsubscribe_by_token(
            t,
            token,
            now,
        ),
        Operation::UnsubscribeByEmail { email, now, list } => db::after_unsubscribe_by_email(
            t,
            email,
            now,
            list,
        ),
        Operation::DeleteByEmail { email, list } => db::after_delete_by_email(t, email, list),
        Operation::AddConfirmed { email, unsubscribe_token, now, list } => db::after_add_confirmed(
            t,
            email,
            unsubscribe_token,
            now,
            list,
        ),
        Operation::RecordSend { post_url, subject, now, count, body_html, list } =>
            if t.top_send() < i64::MAX {
                db::after_record_send(t, post_url, subject, now, count, body_html, list)
            } else {
                t
            },
    }
}

/// The tables after a series of operations.
pub open spec fn after_all(t: tables::Tables, ops: Seq<Operation>) -> tables::Tables
    decreases ops.len(),
{
    if ops.len() == 0 {
        t
    } else {
        after(after_all(t, ops.drop_last()), ops.last())
    }
}

/// Two rows are those of one subscriber: neither who it is nor how it opts out ever changes.
pub open spec fn same_subscriber(a: tables::SubscriberRowView, b: tables::SubscriberRowView) -> bool {
    &&& a.id == b.id
    &&& a.email == b.email
    &&& a.list == b.list
    &&& a.unsubscribe_token == b.unsubscribe_token
    &&& a.created_at == b.created_at
}

/// A row that an operation brings.
pub open spec fn brought(t: tables::Tables, op: Operation, r: tables::SubscriberRowView) -> bool {
    let id = (t.top_subscriber() + 1) as i64;
    match op {
        Operation::InsertPending { email, confirm_token, unsubscribe_token, now, ip, list } => {
            db::insert_error(t, email, list) is None && r == db::new_pending(
                id,
                email,
                confirm_token,
                unsubscribe_token,
                now,
                ip,
                list,
            )
        },
        Operation::AddConfirmed { email, unsubscribe_token, now, list } => {
            db::insert_error(t, email, list) is None && r == db::new_confirmed(
                id,
                email,
                unsubscribe_token,
                now,
                list,
            )
        },
        _ => false,
    }
}

/// What an operation makes of the row of a subscriber who was there before.
pub open spec fn reworked(
    t: tables::Tables,
    op: Operation,
    r: tables::SubscriberRowView,
) -> tables::SubscriberRowView {
    match op {
        Operation::SetPending { id, confirm_token, ip } => if r.id == id {
            db::made_pending(r, confirm_token, ip)
        } else {
            r
        },
        Operation::Confirm { token, now } => if db::awaits(r, token) {
            db::made_confirmed(r, now)
        } else {
            r
        },
        Operation::UnsubscribeByToken { token, now } => match db::token_owner(
            t.subscribers,
            token,
        ) {
            Some(o) => if r.id == o.id && o.status != db::unsubscribed() {
                db::made_unsubscribed(r, now)
            } else {
                r
            },
            None => r,
        },
        Operation::UnsubscribeByEmail { email, now, list } => if db::is_active_entry(
            r,
            email,
            list,
        ) {
            db::made_unsubscribed(r, now)
        } else {
            r
        },
        Operation::AddConfirmed { email, unsubscribe_token, now, list } => match db::entry(
            t.subscribers,
            email,
            list,
        ) {
            Some(o) => if r.id == o.id && o.status != db::confirmed() {
                db::made_reactivated(r, now)
            } else {
                r
            },
            None => r,
        },
        _ => r,
    }
}

/// The rows after an operation that removes none: those from before, each reworked, or those from
/// before and behind them the one that the operation brings.
proof fn rows_after(t: tables::Tables, op: Operation)
    ensures
        op is DeleteByEmail || {
            ||| after(t, op).subscribers == t.subscribers.map_values(
                |r: tables::SubscriberRowView| reworked(t, op, r),
            )
            ||| exists|r: tables::SubscriberRowView| #[trigger]
                brought(t, op, r) && after(t, op).subscribers == t.subscribers.push(r)
        },
{
    let f = |r: tables::SubscriberRowView| reworked(t, op, r);
    let mapped = t.subscribers.map_values(f);
    let id = (t.top_subscriber() + 1) as i64;
    match op {
        Operation::InsertPending { email, confirm_token, unsubscribe_token, now, ip, list } => {
            let r = db::new_pending(
                id,
                email,
                confirm_token,
                unsubscribe_token,
                now,
                ip,
                list,
            );
            if db::insert_error(t, email, list) is None {
                assert(brought(t, op, r));
            } else {
                assert(after(t, op).subscribers =~= mapped);
            }
        },
        Operation::AddConfirmed { email, unsubscribe_token, now, list } => {
            let r = db::new_confirmed(id, email, unsubscribe_token, now, list);
            if db::insert_error(t, email, list) is None {
                assert(brought(t, op, r));
            } else {
                assert(after(t, op).subscribers =~= mapped);
            }
        },
        Operation::DeleteByEmail { email, list } => {},
        _ => {
            assert(after(t, op).subscribers =~= mapped);
        },
    }
}

/// Where a row after an operation comes from: the operation brought it, or it was there before.
pub proof fn origin_of_row(t: tables::Tables, op: Operation, i: int) -> (j: int)
    requires
        0 <= i < after(t, op).subscribers.len(),
    ensures
        ({
            let r = after(t, op).subscribers[i];
            ||| brought(t, op, r)
            ||| 0 <= j < t.subscribers.len() && r == reworked(t, op, t.subscribers[j])
        }),
{
    rows_after(t, op);
    let r = after(t, op).subscribers[i];
    match op {
        Operation::DeleteByEmail { email, list } => {
            let keep = |r: tables::SubscriberRowView| !db::is_entry(r, email, list);
            let places = tables::filter_places(t.subscribers, keep);
            places[i]
        },
        _ => {
            i
        },
    }
}

/// An operation leaves alone who a subscriber is.
pub proof fn subscribers_stay_themselves(
    t: tables::Tables,
    op: Operation,
    r: tables::SubscriberRowView,
)
    ensures
        same_subscriber(r, reworked(t, op, r)),
{
}

// ---------- An address is on a list once ----------

/// No address is on a list twice.
pub open spec fn no_address_twice(rows: Seq<tables::SubscriberRowView>) -> bool {
    forall|i: int, j: int|
        0 <= i < j < rows.len() ==> !db::is_entry(
            #[trigger] rows[i],
            (#[trigger] rows[j]).email,
            rows[j].list,
        )
}

/// No operation puts an address on a list twice.
pub proof fn addresses_stay_apart(t: tables::Tables, op: Operation)
    requires
        no_address_twice(t.subscribers),
    ensures
        no_address_twice(after(t, op).subscribers),
{
    let rows = t.subscribers;
    let out = after(t, op).subscribers;
    rows_after(t, op);
    match op {
        Operation::DeleteByEmail { email, list } => {
            let places = tables::filter_places(
                rows,
                |r: tables::SubscriberRowView| !db::is_entry(r, email, list),
            );
            assert forall|i: int, j: int| 0 <= i < j < out.len() implies !db::is_entry(
                #[trigger] out[i],
                (#[trigger] out[j]).email,
                out[j].list,
            ) by {
                assert(places[i] < places[j]);
                assert(out[i] == rows[places[i]] && out[j] == rows[places[j]]);
            }
        },
        _ => {
            let f = |r: tables::SubscriberRowView| reworked(t, op, r);
            assert forall|i: int, j: int| 0 <= i < j < out.len() implies !db::is_entry(
                #[trigger] out[i],
                (#[trigger] out[j]).email,
                out[j].list,
            ) by {
                if out == rows.map_values(f) {
                    assert(!db::is_entry(rows[i], rows[j].email, rows[j].list));
                    assert(out[i] == reworked(t, op, rows[i]));
                    assert(out[j] == reworked(t, op, rows[j]));
                } else if j < rows.len() {
                    assert(!db::is_entry(rows[i], rows[j].email, rows[j].list));
                    assert(out[i] == rows[i] && out[j] == rows[j]);
                } else {
                    let r = choose|r: tables::SubscriberRowView| #[trigger]
                        brought(t, op, r) && out == rows.push(r);
                    assert(out[j] == r && out[i] == rows[i]);
                    let pred = |x: tables::SubscriberRowView| db::is_entry(x, r.email, r.list);
                    assert(db::entry(rows, r.email, r.list) is None);
                    db::first_row_found(rows, pred);
                    assert(!pred(rows[i]));
                }
            }
        },
    }
}

/// Where no address is on a list twice, none gets a mail of one send twice.
pub proof fn nobody_is_mailed_twice(
    rows: Seq<tables::SubscriberRowView>,
    list: Seq<char>,
    i: int,
    j: int,
)
    requires
        no_address_twice(rows),
        0 <= i < j < db::recipients(rows, list).len(),
    ensures
        !text::alike(db::recipients(rows, list)[i].0, db::recipients(rows, list)[j].0),
{
    let pred = |r: tables::SubscriberRowView| r.list == list && r.status == db::confirmed();
    let places = tables::filter_places(rows, pred);
    assert(places[i] < places[j]);
    assert(!db::is_entry(rows[places[i]], rows[places[j]].email, rows[places[j]].list));
    assert(pred(rows[places[i]]) && pred(rows[places[j]]));
}

// ---------- Double opt-in ----------

/// Every operation keeps the tables in order.
pub proof fn order_is_kept(t: tables::Tables, op: Operation)
    requires
        t.ordered(),
    ensures
        after(t, op).ordered(),
{
    let rows = t.subscribers;
    let out = after(t, op).subscribers;
    rows_after(t, op);
    match op {
        Operation::DeleteByEmail { email, list } => {
            let places = tables::filter_places(
                rows,
                |r: tables::SubscriberRowView| !db::is_entry(r, email, list),
            );
            assert forall|i: int, j: int| 0 <= i < j < out.len() implies out[i].id < out[j].id by {
                assert(places[i] < places[j]);
                assert(out[i] == rows[places[i]] && out[j] == rows[places[j]]);
            }
        },
        _ => {
            assert forall|i: int, j: int| 0 <= i < j < out.len() implies out[i].id < out[j].id by {
                assert(rows[i].id == out[i].id);
                if j < rows.len() {
                    assert(rows[j].id == out[j].id);
                }
            }
        },
    }
}

/// An operation asks a subscriber to confirm with this token.
pub open spec fn asks(op: Operation, r: tables::SubscriberRowView, token: Seq<char>) -> bool {
    match op {
        Operation::SetPending { id, confirm_token, ip } => r.id == id && confirm_token == token,
        Operation::InsertPending { email, confirm_token, unsubscribe_token, now, ip, list } => {
            r.email == email && r.list == list && confirm_token == token
        },
        _ => false,
    }
}

/// An operation follows the confirmation link with this token.
pub open spec fn follows(op: Operation, token: Seq<char>) -> bool {
    op matches Operation::Confirm { token: followed, now } && followed == token
}

/// An operation is that of the owner of a list, who adds the subscriber by hand.
pub open spec fn adds(op: Operation, r: tables::SubscriberRowView) -> bool {
    op matches Operation::AddConfirmed { email, unsubscribe_token, now, list } && db::is_entry(
        r,
        email,
        list,
    )
}

/// Some operation asked the subscriber to confirm with this token.
pub open spec fn was_asked(
    ops: Seq<Operation>,
    r: tables::SubscriberRowView,
    token: Seq<char>,
) -> bool {
    exists|i: int| 0 <= i < ops.len() && asks(#[trigger] ops[i], r, token)
}

/// The subscriber was asked to confirm with a token, and later the link with that token was
/// followed; or the owner of the list added the subscriber by hand.
pub open spec fn consented(ops: Seq<Operation>, r: tables::SubscriberRowView) -> bool {
    ||| exists|j: int| 0 <= j < ops.len() && adds(#[trigger] ops[j], r)
    ||| exists|j: int, token: Seq<char>|
        0 <= j < ops.len() && #[trigger] follows(ops[j], token) && was_asked(ops.take(j), r, token)
}

/// Double opt-in: whatever was done to a table that was empty at first, whoever is confirmed was
/// asked to confirm and then followed the link, or was added by the owner of the list. And a
/// subscriber waits only for a token that went out to this very subscriber.
pub proof fn nobody_is_confirmed_unasked(t: tables::Tables, ops: Seq<Operation>, k: int)
    requires
        t.ordered(),
        t.subscribers.len() == 0,
        0 <= k < after_all(t, ops).subscribers.len(),
    ensures
        ({
            let r = after_all(t, ops).subscribers[k];
            &&& r.status == db::confirmed() ==> consented(ops, r)
            &&& r.confirm_token matches Some(token) ==> was_asked(ops, r, token)
        }),
    decreases ops.len(),
{
    let past = ops.drop_last();
    let op = ops.last();
    let n = past.len() as int;
    let prev = after_all(t, past);
    let r = after_all(t, ops).subscribers[k];
    db::states_differ();
    all_in_order(t, past);
    let j = origin_of_row(prev, op, k);
    assert(ops[n] == op);
    assert(ops.take(n) =~= past);
    if brought(prev, op, r) {
        match op {
            Operation::AddConfirmed { email, unsubscribe_token, now, list } => {
                assert(adds(ops[n], r));
            },
            _ => {
                assert(asks(ops[n], r, r.confirm_token->0));
            },
        }
    } else {
        let p = prev.subscribers[j];
        nobody_is_confirmed_unasked(t, past, j);
        subscribers_stay_themselves(prev, op, p);
        assert forall|token: Seq<char>| #[trigger] was_asked(past, p, token) implies was_asked(
            ops,
            r,
            token,
        ) && was_asked(past, r, token) by {
            let i = choose|i: int| 0 <= i < past.len() && asks(#[trigger] past[i], p, token);
            assert(asks(past[i], r, token));
            assert(ops[i] == past[i]);
        }
        if p.status == db::confirmed() {
            if exists|m: int| 0 <= m < past.len() && adds(#[trigger] past[m], p) {
                let m = choose|m: int| 0 <= m < past.len() && adds(#[trigger] past[m], p);
                assert(ops[m] == past[m]);
                assert(adds(ops[m], r));
            } else {
                let (m, token) = choose|m: int, token: Seq<char>|
                    0 <= m < past.len() && #[trigger] follows(past[m], token) && was_asked(
                        past.take(m),
                        p,
                        token,
                    );
                let i = choose|i: int|
                    0 <= i < past.take(m).len() && asks(#[trigger] past.take(m)[i], p, token);
                assert(asks(ops.take(m)[i], r, token));
                assert(follows(ops[m], token));
            }
            assert(consented(ops, r));
        }
        match op {
            Operation::Confirm { token, now } => {
                if db::awaits(p, token) {
                    assert(follows(ops[n], token));
                }
            },
            Operation::AddConfirmed { email, unsubscribe_token, now, list } => {
                let pred = |x: tables::SubscriberRowView| db::is_entry(x, email, list);
                let e = db::first_row_found(prev.subscribers, pred);
                if db::entry(prev.subscribers, email, list) is Some {
                    if p.id == prev.subscribers[e].id {
                        assert(j == e);
                        assert(adds(ops[n], r));
                    }
                }
            },
            Operation::SetPending { id, confirm_token, ip } => {
                if p.id == id {
                    assert(asks(ops[n], r, confirm_token));
                }
            },
            _ => {},
        }
    }
}

/// Every series of operations keeps the tables in order.
pub proof fn all_in_order(t: tables::Tables, ops: Seq<Operation>)
    requires
        t.ordered(),
    ensures
        after_all(t, ops).ordered(),
    decreases ops.len(),
{
    if ops.len() > 0 {
        all_in_order(t, ops.drop_last());
        order_is_kept(after_all(t, ops.drop_last()), ops.last());
    }
}

/// To ask for a subscription does one of the operations at most, with the token that goes out.
pub proof fn asking_is_one_operation(
    t: tables::Tables,
    email: Seq<char>,
    confirm_token: Seq<char>,
    unsubscribe_token: Seq<char>,
    now: i64,
    ip: Seq<char>,
    list: Seq<char>,
)
    ensures
        ({
            let asked = service::after_subscribe(
                t,
                email,
                confirm_token,
                unsubscribe_token,
                now,
                ip,
                list,
            );
            match db::entry(t.subscribers, email, list) {
                Some(r) if r.status == db::confirmed() => asked == t,
                Some(r) => asked == after(
                    t,
                    (Operation::SetPending { id: r.id, confirm_token, ip }),
                ),
                None => asked == after(
                    t,
                    (Operation::InsertPending {
                        email,
                        confirm_token,
                        unsubscribe_token,
                        now,
                        ip,
                        list,
                    }),
                ),
            }
        }),
{
}

/// To ask for a subscription puts nobody on the list that mail goes to, and takes nobody off it.
pub proof fn asking_sends_no_mail(
    t: tables::Tables,
    email: Seq<char>,
    confirm_token: Seq<char>,
    unsubscribe_token: Seq<char>,
    now: i64,
    ip: Seq<char>,
    list: Seq<char>,
    other: Seq<char>,
)
    requires
        t.ordered(),
    ensures
        db::recipients(
            service::after_subscribe(
                t,
                email,
                confirm_token,
                unsubscribe_token,
                now,
                ip,
                list,
            ).subscribers,
            other,
        ) == db::recipients(t.subscribers, other),
{
    let rows = t.subscribers;
    let pred = |r: tables::SubscriberRowView| r.list == other && r.status == db::confirmed();
    db::states_differ();
    match db::entry(rows, email, list) {
        Some(e) => {
            if e.status != db::confirmed() {
                let i = db::first_row_found(
                    rows,
                    |r: tables::SubscriberRowView| db::is_entry(r, email, list),
                );
                let f = |r: tables::SubscriberRowView| db::made_pending(r, confirm_token, ip);
                db::with_row_at(rows, i, f);
                filter_skips(rows, i, f(e), pred);
            }
        },
        None => {
            if t.top_subscriber() != i64::MAX {
                let id = (t.top_subscriber() + 1) as i64;
                tables::filter_of_push(
                    rows,
                    db::new_pending(id, email, confirm_token, unsubscribe_token, now, ip, list),
                    pred,
                );
            }
        },
    }
}

/// To change an item that does not pass a filter into another that does not leaves what passes as
/// it was.
proof fn filter_skips<A>(s: Seq<A>, i: int, a: A, pred: spec_fn(A) -> bool)
    requires
        0 <= i < s.len(),
        !pred(s[i]),
        !pred(a),
    ensures
        s.update(i, a).filter(pred) == s.filter(pred),
    decreases s.len(),
{
    reveal(Seq::filter);
    let front = s.drop_last();
    if i == front.len() {
        assert(s.update(i, a).drop_last() =~= front);
    } else {
        assert(s.update(i, a).drop_last() =~= front.update(i, a));
        filter_skips(front, i, a, pred);
    }
}

/// To ask for a subscription to one list leaves the subscribers of every other list as they were.
pub proof fn asking_touches_one_list(
    t: tables::Tables,
    email: Seq<char>,
    confirm_token: Seq<char>,
    unsubscribe_token: Seq<char>,
    now: i64,
    ip: Seq<char>,
    list: Seq<char>,
    other: Seq<char>,
)
    requires
        t.ordered(),
        other != list,
    ensures
        ({
            let asked = service::after_subscribe(
                t,
                email,
                confirm_token,
                unsubscribe_token,
                now,
                ip,
                list,
            );
            &&& db::on_list(asked.subscribers, other) == db::on_list(t.subscribers, other)
            &&& asked.sends == t.sends
        }),
{
    let rows = t.subscribers;
    let pred = |r: tables::SubscriberRowView| r.list == other;
    match db::entry(rows, email, list) {
        Some(e) => {
            if e.status != db::confirmed() {
                let i = db::first_row_found(
                    rows,
                    |r: tables::SubscriberRowView| db::is_entry(r, email, list),
                );
                let f = |r: tables::SubscriberRowView| db::made_pending(r, confirm_token, ip);
                db::with_row_at(rows, i, f);
                filter_skips(rows, i, f(e), pred);
            }
        },
        None => {
            if t.top_subscriber() != i64::MAX {
                let id = (t.top_subscriber() + 1) as i64;
                tables::filter_of_push(
                    rows,
                    db::new_pending(id, email, confirm_token, unsubscribe_token, now, ip, list),
                    pred,
                );
            }
        },
    }
}

/// Whoever asked for a subscription, and was not turned away, waits for the link that went out; and
/// once it is followed, mail goes to the address, with its own token to unsubscribe.
pub proof fn following_the_link_subscribes(
    t: tables::Tables,
    email: Seq<char>,
    confirm_token: Seq<char>,
    unsubscribe_token: Seq<char>,
    now: i64,
    ip: Seq<char>,
    list: Seq<char>,
    later: i64,
)
    requires
        t.ordered(),
        service::subscribe_answered(t, email, list) is None,
    ensures
        ({
            let asked = service::after_subscribe(
                t,
                email,
                confirm_token,
                unsubscribe_token,
                now,
                ip,
                list,
            );
            let done = db::after_confirm(asked, confirm_token, later);
            &&& db::awaited(asked.subscribers, confirm_token)
            &&& db::entry(asked.subscribers, email, list) matches Some(r)
            &&& r.status == db::pending()
            &&& db::awaits(r, confirm_token)
            &&& db::entry(done.subscribers, email, list) == Some(db::made_confirmed(r, later))
            &&& db::recipients(done.subscribers, list).contains((r.email, r.unsubscribe_token))
        }),
{
    let rows = t.subscribers;
    let asked = service::after_subscribe(
        t,
        email,
        confirm_token,
        unsubscribe_token,
        now,
        ip,
        list,
    );
    let done = db::after_confirm(asked, confirm_token, later);
    let entry = |r: tables::SubscriberRowView| db::is_entry(r, email, list);
    let i = match db::entry(rows, email, list) {
        Some(e) => first_place(rows, entry),
        None => rows.len() as int,
    };
    db::first_row_found(rows, entry);
    if i < rows.len() {
        let f = |r: tables::SubscriberRowView| db::made_pending(r, confirm_token, ip);
        db::with_row_at(rows, i, f);
    } else {
        assert(text::alike(email, email));
    }
    let r = asked.subscribers[i];
    assert(db::awaits(r, confirm_token));
    assert forall|j: int| 0 <= j < i implies !entry(#[trigger] asked.subscribers[j]) by {
        assert(asked.subscribers[j] == rows[j]);
    }
    db::first_row_is_first(asked.subscribers, entry, i);
    assert forall|j: int| 0 <= j < i implies !entry(#[trigger] done.subscribers[j]) by {
        assert(!entry(asked.subscribers[j]));
    }
    assert(done.subscribers[i] == db::made_confirmed(r, later));
    db::first_row_is_first(done.subscribers, entry, i);
    listed_is_mailed(done.subscribers, list, i);
}

/// The place of the first row that meets a condition.
proof fn first_place(
    rows: Seq<tables::SubscriberRowView>,
    pred: spec_fn(tables::SubscriberRowView) -> bool,
) -> (i: int)
    requires
        db::first_row(rows, pred) is Some,
    ensures
        0 <= i < rows.len(),
        db::first_row(rows, pred) == Some(rows[i]),
        pred(rows[i]),
        forall|j: int| 0 <= j < i ==> !pred(#[trigger] rows[j]),
    decreases rows.len(),
{
    if pred(rows[0]) {
        0
    } else {
        let rest = rows.skip(1);
        let k = first_place(rest, pred);
        assert forall|j: int| 0 <= j < k + 1 implies !pred(#[trigger] rows[j]) by {
            if j > 0 {
                assert(rest[j - 1] == rows[j]);
            }
        }
        k + 1
    }
}

/// Mail to a list goes to each of its confirmed subscribers.
pub proof fn listed_is_mailed(rows: Seq<tables::SubscriberRowView>, list: Seq<char>, i: int)
    requires
        0 <= i < rows.len(),
        rows[i].list == list,
        rows[i].status == db::confirmed(),
    ensures
        db::recipients(rows, list).contains((rows[i].email, rows[i].unsubscribe_token)),
{
    let pred = |r: tables::SubscriberRowView| r.list == list && r.status == db::confirmed();
    tables::filter_places(rows, pred);
    assert(pred(rows[i]));
    let k = rows.filter(pred).index_of(rows[i]);
    assert(db::recipients(rows, list)[k] == (rows[i].email, rows[i].unsubscribe_token));
}

/// Mail to a list goes to its confirmed subscribers only.
pub proof fn mailed_is_listed(rows: Seq<tables::SubscriberRowView>, list: Seq<char>, k: int) -> (i: int)
    requires
        0 <= k < db::recipients(rows, list).len(),
    ensures
        0 <= i < rows.len(),
        rows[i].list == list,
        rows[i].status == db::confirmed(),
        db::recipients(rows, list)[k] == (rows[i].email, rows[i].unsubscribe_token),
{
    let pred = |r: tables::SubscriberRowView| r.list == list && r.status == db::confirmed();
    let places = tables::filter_places(rows, pred);
    assert(pred(rows[places[k]]));
    places[k]
}

/// A confirmation link works once: nobody waits for its token after it was followed, and to follow
/// it again changes nothing.
pub proof fn a_link_works_once(t: tables::Tables, token: Seq<char>, now: i64, later: i64)
    ensures
        ({
            let done = db::after_confirm(t, token, now);
            &&& !db::awaited(done.subscribers, token)
            &&& db::after_confirm(done, token, later) == done
        }),
{
    let done = db::after_confirm(t, token, now);
    assert forall|i: int| 0 <= i < done.subscribers.len() implies !db::awaits(
        #[trigger] done.subscribers[i],
        token,
    ) by {
        assert(db::awaits(t.subscribers[i], token) || !db::awaits(t.subscribers[i], token));
    }
    assert(db::after_confirm(done, token, later).subscribers =~= done.subscribers);
}

// ---------- Opting out ----------

/// An unsubscribe link that belongs to one subscriber opts that subscriber out and nobody else: no
/// mail to any list goes there any more. To follow it again changes nothing.
pub proof fn a_link_opts_out(t: tables::Tables, token: Seq<char>, now: i64, later: i64, i: int)
    requires
        t.ordered(),
        0 <= i < t.subscribers.len(),
        t.subscribers[i].unsubscribe_token == token,
        forall|j: int|
            0 <= j < t.subscribers.len() && j != i ==> (
            #[trigger] t.subscribers[j]).unsubscribe_token != token,
    ensures
        ({
            let done = db::after_unsubscribe_by_token(t, token, now);
            &&& done.subscribers.len() == t.subscribers.len()
            &&& done.subscribers[i].status == db::unsubscribed()
            &&& forall|j: int|
                0 <= j < t.subscribers.len() && j != i ==> done.subscribers[j]
                    == #[trigger] t.subscribers[j]
            &&& forall|list: Seq<char>, k: int|
                0 <= k < db::recipients(done.subscribers, list).len() ==> (
                #[trigger] db::recipients(done.subscribers, list)[k]).1 != token
            &&& db::unsub_outcome(done.subscribers, token) == db::UnsubOutcome::Already
            &&& db::after_unsubscribe_by_token(done, token, later) == done
        }),
{
    let rows = t.subscribers;
    let done = db::after_unsubscribe_by_token(t, token, now);
    let owns = |r: tables::SubscriberRowView| r.unsubscribe_token == token;
    db::states_differ();
    db::first_row_is_first(rows, owns, i);
    db::with_row_at(
        rows,
        i,
        |x: tables::SubscriberRowView| db::made_unsubscribed(x, now),
    );
    assert forall|j: int| 0 <= j < rows.len() && j != i implies done.subscribers[j]
        == #[trigger] rows[j] by {}
    assert forall|j: int| 0 <= j < i implies !owns(#[trigger] done.subscribers[j]) by {
        assert(done.subscribers[j] == rows[j]);
    }
    db::first_row_is_first(done.subscribers, owns, i);
    assert forall|list: Seq<char>, k: int|
        0 <= k < db::recipients(done.subscribers, list).len() implies (
    #[trigger] db::recipients(done.subscribers, list)[k]).1 != token by {
        let m = mailed_is_listed(done.subscribers, list, k);
        if m != i {
            assert(done.subscribers[m] == rows[m]);
        }
    }
}

/// After an address was opted out of a list, no mail to the list goes there, and to opt it out again
/// changes nothing. Every other row stays as it was.
pub proof fn an_address_is_opted_out(
    t: tables::Tables,
    email: Seq<char>,
    now: i64,
    list: Seq<char>,
    later: i64,
)
    ensures
        ({
            let done = db::after_unsubscribe_by_email(t, email, now, list);
            &&& forall|k: int|
                0 <= k < db::recipients(done.subscribers, list).len() ==> !text::alike(
                    (#[trigger] db::recipients(done.subscribers, list)[k]).0,
                    email,
                )
            &&& forall|i: int|
                0 <= i < t.subscribers.len() && !db::is_entry(t.subscribers[i], email, list)
                    ==> done.subscribers[i] == #[trigger] t.subscribers[i]
            &&& db::after_unsubscribe_by_email(done, email, later, list) == done
        }),
{
    let done = db::after_unsubscribe_by_email(t, email, now, list);
    db::states_differ();
    assert forall|i: int| 0 <= i < done.subscribers.len() implies !db::is_active_entry(
        #[trigger] done.subscribers[i],
        email,
        list,
    ) by {
        assert(db::is_active_entry(t.subscribers[i], email, list) || !db::is_active_entry(
            t.subscribers[i],
            email,
            list,
        ));
    }
    assert forall|k: int|
        0 <= k < db::recipients(done.subscribers, list).len() implies !text::alike(
        (#[trigger] db::recipients(done.subscribers, list)[k]).0,
        email,
    ) by {
        let m = mailed_is_listed(done.subscribers, list, k);
        assert(!db::is_active_entry(done.subscribers[m], email, list));
    }
    assert(db::after_unsubscribe_by_email(done, email, later, list).subscribers
        =~= done.subscribers);
}

/// After an address was removed from a list it is not on it, and every other row is still there, in
/// the same order.
pub proof fn an_address_is_removed(t: tables::Tables, email: Seq<char>, list: Seq<char>)
    ensures
        ({
            let done = db::after_delete_by_email(t, email, list);
            &&& db::entry(done.subscribers, email, list) is None
            &&& forall|i: int|
                0 <= i < t.subscribers.len() && !db::is_entry(
                    #[trigger] t.subscribers[i],
                    email,
                    list,
                ) ==> done.subscribers.contains(t.subscribers[i])
            &&& db::after_delete_by_email(done, email, list) == done
        }),
{
    let done = db::after_delete_by_email(t, email, list);
    let keep = |r: tables::SubscriberRowView| !db::is_entry(r, email, list);
    let places = tables::filter_places(t.subscribers, keep);
    assert forall|i: int| 0 <= i < done.subscribers.len() implies keep(
        #[trigger] done.subscribers[i],
    ) by {
        assert(keep(t.subscribers[places[i]]));
    }
    let entry = |r: tables::SubscriberRowView| db::is_entry(r, email, list);
    assert forall|i: int| 0 <= i < done.subscribers.len() implies !entry(
        #[trigger] done.subscribers[i],
    ) by {
        assert(keep(done.subscribers[i]));
    }
    db::first_row_is_first(done.subscribers, entry, done.subscribers.len() as int);
    tables::filter_keeps_all(done.subscribers, keep);
}

// ---------- Lists ----------

/// The list that an operation is about, where it is about one.
pub open spec fn list_of(op: Operation) -> Option<Seq<char>> {
    match op {
        Operation::InsertPending { email, confirm_token, unsubscribe_token, now, ip, list } => Some(
            list,
        ),
        Operation::UnsubscribeByEmail { email, now, list } => Some(list),
        Operation::DeleteByEmail { email, list } => Some(list),
        Operation::AddConfirmed { email, unsubscribe_token, now, list } => Some(list),
        Operation::RecordSend { post_url, subject, now, count, body_html, list } => Some(list),
        _ => None,
    }
}

/// A filter sees nothing of a change to items that do not pass it.
proof fn filter_of_changed<A>(s: Seq<A>, f: spec_fn(A) -> A, pred: spec_fn(A) -> bool)
    requires
        forall|i: int|
            0 <= i < s.len() ==> pred(f(#[trigger] s[i])) == pred(s[i]) && (pred(s[i]) ==> f(s[i])
                == s[i]),
    ensures
        s.map_values(f).filter(pred) == s.filter(pred),
    decreases s.len(),
{
    reveal(Seq::filter);
    if s.len() > 0 {
        let front = s.drop_last();
        assert forall|i: int| 0 <= i < front.len() implies pred(f(#[trigger] front[i])) == pred(
            front[i],
        ) && (pred(front[i]) ==> f(front[i]) == front[i]) by {
            assert(front[i] == s[i]);
        }
        filter_of_changed(front, f, pred);
        assert(s.map_values(f).drop_last() =~= front.map_values(f));
        assert(s[s.len() - 1] == s.last());
    }
}

/// A filter sees nothing of an earlier one that all pass who pass it.
proof fn filter_of_filtered<A>(s: Seq<A>, keep: spec_fn(A) -> bool, pred: spec_fn(A) -> bool)
    requires
        forall|i: int| 0 <= i < s.len() && pred(#[trigger] s[i]) ==> keep(s[i]),
    ensures
        s.filter(keep).filter(pred) == s.filter(pred),
    decreases s.len(),
{
    reveal(Seq::filter);
    if s.len() > 0 {
        let front = s.drop_last();
        assert forall|i: int| 0 <= i < front.len() && pred(#[trigger] front[i]) implies keep(
            front[i],
        ) by {
            assert(front[i] == s[i]);
        }
        filter_of_filtered(front, keep, pred);
        assert(s[s.len() - 1] == s.last());
        if keep(s.last()) {
            tables::filter_of_push(front.filter(keep), s.last(), pred);
        }
    }
}

/// What is done to one list leaves the subscribers of every other list, and the sends to it, as they
/// were.
pub proof fn lists_stay_apart(t: tables::Tables, op: Operation, other: Seq<char>)
    requires
        t.ordered(),
        list_of(op) matches Some(list) && list != other,
    ensures
        db::on_list(after(t, op).subscribers, other) == db::on_list(t.subscribers, other),
        db::sends_to(after(t, op).sends, other) == db::sends_to(t.sends, other),
{
    let rows = t.subscribers;
    let pred = |r: tables::SubscriberRowView| r.list == other;
    let f = |r: tables::SubscriberRowView| reworked(t, op, r);
    rows_after(t, op);
    match op {
        Operation::DeleteByEmail { email, list } => {
            filter_of_filtered(
                rows,
                |r: tables::SubscriberRowView| !db::is_entry(r, email, list),
                pred,
            );
        },
        _ => {
            if after(t, op).subscribers == rows.map_values(f) {
                assert forall|i: int| 0 <= i < rows.len() implies pred(f(#[trigger] rows[i]))
                    == pred(rows[i]) && (pred(rows[i]) ==> f(rows[i]) == rows[i]) by {
                    if op is AddConfirmed {
                        let entry = |x: tables::SubscriberRowView|
                            db::is_entry(x, op->AddConfirmed_email, op->AddConfirmed_list);
                        let e = db::first_row_found(rows, entry);
                        if db::first_row(rows, entry) is Some && rows[i].id == rows[e].id {
                            assert(i == e);
                        }
                    }
                }
                filter_of_changed(rows, f, pred);
            } else {
                let r = choose|r: tables::SubscriberRowView| #[trigger]
                    brought(t, op, r) && after(t, op).subscribers == rows.push(r);
                tables::filter_of_push(rows, r, pred);
            }
        },
    }
    if op is RecordSend && t.top_send() < i64::MAX {
        let sent = |r: tables::SendRowView| r.list == other;
        tables::filter_of_push(t.sends, after(t, op).sends.last(), sent);
        assert(after(t, op).sends =~= t.sends.push(after(t, op).sends.last()));
    }
}

// ---------- Sending once ----------

/// A post that was sent to a list is not sent to it again, unless that is forced; whether another
/// post goes out, or this one to another list, stays as it was.
pub proof fn a_post_is_sent_once(
    t: tables::Tables,
    post_url: Seq<char>,
    subject: Seq<char>,
    now: i64,
    count: i64,
    body_html: Seq<char>,
    list: Seq<char>,
)
    ensures
        ({
            let done = db::after_record_send(t, post_url, subject, now, count, body_html, list);
            &&& send::send_refused(done, post_url, list, false) matches Some(
                send::SendError::AlreadySent(at),
            )
            &&& at >= now
            &&& send::send_refused(done, post_url, list, true) is None
            &&& forall|url: Seq<char>, other: Seq<char>, force: bool|
                url != post_url || other != list ==> #[trigger] send::send_refused(
                    done,
                    url,
                    other,
                    force,
                ) == send::send_refused(t, url, other, force)
        }),
{
    let done = db::after_record_send(t, post_url, subject, now, count, body_html, list);
    assert(done.sends.drop_last() =~= t.sends);
}

/// Nothing makes the service forget that a post was sent to a list.
pub proof fn a_sent_post_stays_sent(
    t: tables::Tables,
    op: Operation,
    post_url: Seq<char>,
    list: Seq<char>,
)
    requires
        send::send_refused(t, post_url, list, false) is Some,
    ensures
        send::send_refused(after(t, op), post_url, list, false) is Some,
{
    if op is RecordSend && t.top_send() < i64::MAX {
        assert(after(t, op).sends.drop_last() =~= t.sends);
    }
}

// ---------- The numbers ----------

/// Every subscriber is in one of the three states.
pub open spec fn states_known(rows: Seq<tables::SubscriberRowView>) -> bool {
    forall|i: int|
        0 <= i < rows.len() ==> {
            ||| (#[trigger] rows[i]).status == db::pending()
            ||| rows[i].status == db::confirmed()
            ||| rows[i].status == db::unsubscribed()
        }
}

/// No operation brings a subscriber into any other state.
pub proof fn states_stay_known(t: tables::Tables, op: Operation)
    requires
        states_known(t.subscribers),
    ensures
        states_known(after(t, op).subscribers),
{
    let out = after(t, op).subscribers;
    assert forall|i: int| 0 <= i < out.len() implies {
        ||| (#[trigger] out[i]).status == db::pending()
        ||| out[i].status == db::confirmed()
        ||| out[i].status == db::unsubscribed()
    } by {
        let j = origin_of_row(t, op, i);
        if !brought(t, op, out[i]) {
            assert(out[i] == reworked(t, op, t.subscribers[j]));
        }
    }
}

/// Where every subscriber is in one of the three states, the numbers for a list add up.
pub proof fn the_numbers_add_up(rows: Seq<tables::SubscriberRowView>, list: Seq<char>)
    requires
        states_known(rows),
    ensures
        db::in_state(rows, list, db::confirmed()).len() + db::in_state(
            rows,
            list,
            db::pending(),
        ).len() + db::in_state(rows, list, db::unsubscribed()).len() == db::on_list(
            rows,
            list,
        ).len(),
    decreases rows.len(),
{
    reveal(Seq::filter);
    db::states_differ();
    if rows.len() > 0 {
        assert(rows[rows.len() - 1] == rows.last());
        assert forall|i: int| 0 <= i < rows.drop_last().len() implies {
            ||| (#[trigger] rows.drop_last()[i]).status == db::pending()
            ||| rows.drop_last()[i].status == db::confirmed()
            ||| rows.drop_last()[i].status == db::unsubscribed()
        } by {
            assert(rows.drop_last()[i] == rows[i]);
        }
        the_numbers_add_up(rows.drop_last(), list);
    }
}

/// The number of confirmed subscribers of a list is the number of mails that a send to it makes.
pub proof fn confirmed_are_recipients(rows: Seq<tables::SubscriberRowView>, list: Seq<char>)
    ensures
        db::recipients(rows, list).len() == db::in_state(rows, list, db::confirmed()).len(),
{
}

} // verus!
