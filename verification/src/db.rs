//! The rules for subscribers and sends.
//!
//! One service backs several blogs. Every subscriber and every send belongs to a list; the same
//! address may be on more than one list, but only once on each.
use vstd::prelude::*;
use vstd::string::*;

use crate::tables;
use crate::tables::{Database, SendRow, SubscriberRow};
use crate::text;
use crate::text::{copy_opt, is_alike, same};

verus! {

// ---------- What the service hands out ----------

/// A subscriber as the dashboard shows it.
#[derive(Debug)]
pub struct Subscriber {
    pub email: String,
    pub status: String,
    pub created_at: i64,
    pub confirmed_at: Option<i64>,
    pub unsubscribed_at: Option<i64>,
}

/// What a `Subscriber` says.
#[verifier::ext_equal]
pub ghost struct SubscriberView {
    pub email: Seq<char>,
    pub status: Seq<char>,
    pub created_at: i64,
    pub confirmed_at: Option<i64>,
    pub unsubscribed_at: Option<i64>,
}

impl View for Subscriber {
    type V = SubscriberView;

    open spec fn view(&self) -> SubscriberView {
        SubscriberView {
            email: self.email@,
            status: self.status@,
            created_at: self.created_at,
            confirmed_at: self.confirmed_at,
            unsubscribed_at: self.unsubscribed_at,
        }
    }
}

/// How many subscribers of a list are in which state.
#[derive(Debug, Clone, Copy, PartialEq, Eq, Structural)]
pub struct Stats {
    pub confirmed: i64,
    pub pending: i64,
    pub unsubscribed: i64,
    pub total: i64,
}

/// A send as the dashboard shows it.
#[derive(Debug)]
pub struct SendRecord {
    pub id: i64,
    pub post_url: String,
    pub subject: Option<String>,
    pub sent_at: i64,
    pub recipient_count: Option<i64>,
}

/// What a `SendRecord` says.
#[verifier::ext_equal]
pub ghost struct SendRecordView {
    pub id: i64,
    pub post_url: Seq<char>,
    pub subject: Option<Seq<char>>,
    pub sent_at: i64,
    pub recipient_count: Option<i64>,
}

impl View for SendRecord {
    type V = SendRecordView;

    open spec fn view(&self) -> SendRecordView {
        SendRecordView {
            id: self.id,
            post_url: self.post_url@,
            subject: text::opt_view(self.subject),
            sent_at: self.sent_at,
            recipient_count: self.recipient_count,
        }
    }
}

/// What became of a request to add a subscriber.
#[derive(Debug, Clone, Copy, PartialEq, Eq, Structural)]
pub enum AddOutcome {
    Added,
    Reactivated,
    AlreadyConfirmed,
}

/// What became of a request to unsubscribe.
#[derive(Debug, Clone, Copy, PartialEq, Eq, Structural)]
pub enum UnsubOutcome {
    Done,
    Already,
    NotFound,
}

/// Why a row was not added.
#[derive(Debug, Clone, Copy, PartialEq, Eq, Structural)]
pub enum InsertError {
    /// The table has given out its last id.
    Full,
    /// The address is already on the list.
    Taken,
}

// ---------- States of a subscriber ----------

/// The state of a subscriber who has not confirmed.
pub open spec fn pending() -> Seq<char> {
    "pending"@
}

/// The state of a subscriber who gets mail.
pub open spec fn confirmed() -> Seq<char> {
    "confirmed"@
}

/// The state of a subscriber who opted out.
pub open spec fn unsubscribed() -> Seq<char> {
    "unsubscribed"@
}

/// The three states are told apart.
pub proof fn states_differ()
    ensures
        pending() != confirmed(),
        pending() != unsubscribed(),
        confirmed() != unsubscribed(),
{
    reveal_strlit("pending");
    reveal_strlit("confirmed");
    reveal_strlit("unsubscribed");
    assert(pending()[0] == 'p');
    assert(confirmed()[0] == 'c');
    assert(unsubscribed()[0] == 'u');
}

/// The row after a new request to subscribe.
pub open spec fn made_pending(
    r: tables::SubscriberRowView,
    token: Seq<char>,
    ip: Seq<char>,
) -> tables::SubscriberRowView {
    tables::SubscriberRowView {
        status: pending(),
        confirm_token: Some(token),
        unsubscribed_at: None,
        ip: Some(ip),
        ..r
    }
}

/// The row after its confirmation link was followed.
pub open spec fn made_confirmed(r: tables::SubscriberRowView, now: i64) -> tables::SubscriberRowView {
    tables::SubscriberRowView { status: confirmed(), confirmed_at: Some(now), confirm_token: None, ..r }
}

/// The row after the owner of the list put it back.
pub open spec fn made_reactivated(r: tables::SubscriberRowView, now: i64) -> tables::SubscriberRowView {
    tables::SubscriberRowView { unsubscribed_at: None, ..made_confirmed(r, now) }
}

/// The row after the subscriber opted out.
pub open spec fn made_unsubscribed(r: tables::SubscriberRowView, now: i64) -> tables::SubscriberRowView {
    tables::SubscriberRowView { status: unsubscribed(), unsubscribed_at: Some(now), ..r }
}

/// A row for someone who asked to subscribe for the first time.
pub open spec fn new_pending(
    id: i64,
    email: Seq<char>,
    confirm_token: Seq<char>,
    unsubscribe_token: Seq<char>,
    now: i64,
    ip: Seq<char>,
    list: Seq<char>,
) -> tables::SubscriberRowView {
    tables::SubscriberRowView {
        id,
        email,
        status: pending(),
        confirm_token: Some(confirm_token),
        unsubscribe_token,
        created_at: now,
        confirmed_at: None,
        unsubscribed_at: None,
        ip: Some(ip),
        list,
    }
}

/// A row for someone whom the owner of the list added.
pub open spec fn new_confirmed(
    id: i64,
    email: Seq<char>,
    unsubscribe_token: Seq<char>,
    now: i64,
    list: Seq<char>,
) -> tables::SubscriberRowView {
    tables::SubscriberRowView {
        id,
        email,
        status: confirmed(),
        confirm_token: None,
        unsubscribe_token,
        created_at: now,
        confirmed_at: Some(now),
        unsubscribed_at: None,
        ip: Some("admin"@),
        list,
    }
}

// ---------- Which rows are meant ----------

/// The row is that of an address on a list. Case does not tell addresses apart, nor does what
/// stands behind a NUL.
pub open spec fn is_entry(r: tables::SubscriberRowView, email: Seq<char>, list: Seq<char>) -> bool {
    text::alike(r.email, email) && r.list == list
}

/// The first row that meets a condition.
pub open spec fn first_row(
    rows: Seq<tables::SubscriberRowView>,
    pred: spec_fn(tables::SubscriberRowView) -> bool,
) -> Option<tables::SubscriberRowView>
    decreases rows.len(),
{
    if rows.len() == 0 {
        None
    } else if pred(rows[0]) {
        Some(rows[0])
    } else {
        first_row(rows.skip(1), pred)
    }
}

/// The row of an address on a list.
pub open spec fn entry(
    rows: Seq<tables::SubscriberRowView>,
    email: Seq<char>,
    list: Seq<char>,
) -> Option<tables::SubscriberRowView> {
    first_row(rows, |r: tables::SubscriberRowView| is_entry(r, email, list))
}

/// The row that an unsubscribe link belongs to.
pub open spec fn token_owner(rows: Seq<tables::SubscriberRowView>, token: Seq<char>) -> Option<
    tables::SubscriberRowView,
> {
    first_row(rows, |r: tables::SubscriberRowView| r.unsubscribe_token == token)
}

/// `first_row` is the row at the first place that meets the condition.
pub proof fn first_row_is_first(
    rows: Seq<tables::SubscriberRowView>,
    pred: spec_fn(tables::SubscriberRowView) -> bool,
    i: int,
)
    requires
        0 <= i <= rows.len(),
        forall|j: int| 0 <= j < i ==> !pred(#[trigger] rows[j]),
        i < rows.len() ==> pred(rows[i]),
    ensures
        first_row(rows, pred) == if i < rows.len() {
            Some(rows[i])
        } else {
            None
        },
    decreases rows.len(),
{
    if i > 0 {
        assert(!pred(rows[0]));
        let rest = rows.skip(1);
        assert forall|j: int| 0 <= j < i - 1 implies !pred(#[trigger] rest[j]) by {
            assert(rest[j] == rows[j + 1]);
        }
        first_row_is_first(rest, pred, i - 1);
    }
}

/// Where `first_row` finds a row, it meets the condition and stands in the table; where it finds
/// none, none does.
pub proof fn first_row_found(
    rows: Seq<tables::SubscriberRowView>,
    pred: spec_fn(tables::SubscriberRowView) -> bool,
) -> (i: int)
    ensures
        match first_row(rows, pred) {
            Some(r) => 0 <= i < rows.len() && rows[i] == r && pred(r),
            None => forall|j: int| 0 <= j < rows.len() ==> !pred(#[trigger] rows[j]),
        },
    decreases rows.len(),
{
    if rows.len() == 0 {
        0
    } else if pred(rows[0]) {
        0
    } else {
        let rest = rows.skip(1);
        let k = first_row_found(rest, pred);
        assert forall|j: int| first_row(rest, pred) is None && 0 <= j < rows.len() implies !pred(
            #[trigger] rows[j],
        ) by {
            if j > 0 {
                assert(rest[j - 1] == rows[j]);
            }
        }
        k + 1
    }
}

/// The place of the row of an address on a list.
fn place_of_entry(db: &Database, email: &str, list: &str) -> (r: Option<usize>)
    ensures
        match r {
            Some(i) => i < db@.subscribers.len() && entry(db@.subscribers, email@, list@) == Some(
                db@.subscribers[i as int],
            ),
            None => entry(db@.subscribers, email@, list@) is None,
        },
{
    let ghost pred = |r: tables::SubscriberRowView| is_entry(r, email@, list@);
    let n: usize = db.subscriber_count();
    let mut i: usize = 0;
    while i < n
        invariant
            i <= n,
            n == db@.subscribers.len(),
            pred == (|r: tables::SubscriberRowView| is_entry(r, email@, list@)),
            forall|j: int| 0 <= j < i ==> !pred(#[trigger] db@.subscribers[j]),
        decreases n - i,
    {
        let row: &SubscriberRow = db.subscriber(i);
        if is_alike(row.email.as_str(), email) && same(row.list.as_str(), list) {
            proof {
                first_row_is_first(db@.subscribers, pred, i as int);
            }
            return Some(i);
        }
        i += 1;
    }
    proof {
        first_row_is_first(db@.subscribers, pred, n as int);
    }
    None
}

/// The place of the row that an unsubscribe link belongs to.
fn place_of_token(db: &Database, token: &str) -> (r: Option<usize>)
    ensures
        match r {
            Some(i) => i < db@.subscribers.len() && token_owner(db@.subscribers, token@) == Some(
                db@.subscribers[i as int],
            ),
            None => token_owner(db@.subscribers, token@) is None,
        },
{
    let ghost pred = |r: tables::SubscriberRowView| r.unsubscribe_token == token@;
    let n: usize = db.subscriber_count();
    let mut i: usize = 0;
    while i < n
        invariant
            i <= n,
            n == db@.subscribers.len(),
            pred == (|r: tables::SubscriberRowView| r.unsubscribe_token == token@),
            forall|j: int| 0 <= j < i ==> !pred(#[trigger] db@.subscribers[j]),
        decreases n - i,
    {
        let row: &SubscriberRow = db.subscriber(i);
        if same(row.unsubscribe_token.as_str(), token) {
            proof {
                first_row_is_first(db@.subscribers, pred, i as int);
            }
            return Some(i);
        }
        i += 1;
    }
    proof {
        first_row_is_first(db@.subscribers, pred, n as int);
    }
    None
}

/// `rows` with the row of some id changed.
pub open spec fn with_row(
    rows: Seq<tables::SubscriberRowView>,
    id: i64,
    f: spec_fn(tables::SubscriberRowView) -> tables::SubscriberRowView,
) -> Seq<tables::SubscriberRowView> {
    rows.map_values(
        |r: tables::SubscriberRowView|
            if r.id == id {
                f(r)
            } else {
                r
            },
    )
}

/// To change the row of some id is to change it at its place.
pub proof fn with_row_at(
    rows: Seq<tables::SubscriberRowView>,
    i: int,
    f: spec_fn(tables::SubscriberRowView) -> tables::SubscriberRowView,
)
    requires
        tables::subscribers_ordered(rows),
        0 <= i < rows.len(),
    ensures
        with_row(rows, rows[i].id, f) == rows.update(i, f(rows[i])),
{
    assert forall|j: int| 0 <= j < rows.len() && j != i implies rows[j].id != rows[i].id by {
        if j < i {
            assert(rows[j].id < rows[i].id);
        } else {
            assert(rows[i].id < rows[j].id);
        }
    }
    assert(with_row(rows, rows[i].id, f) =~= rows.update(i, f(rows[i])));
}

// ---------- Looking up and subscribing ----------

/// The id and the state of an address on a list.
pub fn find_by_email(db: &Database, email: &str, list: &str) -> (r: Option<(i64, String)>)
    ensures
        match r {
            Some((id, status)) => entry(db@.subscribers, email@, list@) matches Some(row)
                && row.id == id && row.status == status@,
            None => entry(db@.subscribers, email@, list@) is None,
        },
{
    match place_of_entry(db, email, list) {
        Some(i) => {
            let row: &SubscriberRow = db.subscriber(i);
            Some((row.id, row.status.clone()))
        },
        None => None,
    }
}

/// The tables after a new request to subscribe by someone who is in them.
pub open spec fn after_set_pending(
    t: tables::Tables,
    id: i64,
    confirm_token: Seq<char>,
    ip: Seq<char>,
) -> tables::Tables {
    tables::Tables {
        subscribers: with_row(
            t.subscribers,
            id,
            |r: tables::SubscriberRowView| made_pending(r, confirm_token, ip),
        ),
        ..t
    }
}

/// Makes a subscriber wait for confirmation, under a new token.
pub fn set_pending(db: &mut Database, id: i64, confirm_token: &str, ip: &str)
    requires
        old(db).wf(),
    ensures
        final(db).wf(),
        final(db).loaded() == old(db).loaded(),
        final(db)@ == after_set_pending(old(db)@, id, confirm_token@, ip@),
{
    let ghost before = db@;
    let ghost f = |r: tables::SubscriberRowView| made_pending(r, confirm_token@, ip@);
    let n: usize = db.subscriber_count();
    let mut i: usize = 0;
    while i < n
        invariant
            i <= n,
            n == db@.subscribers.len(),
            db.wf(),
            db@ == before,
            db.loaded() == old(db).loaded(),
            before == old(db)@,
            f == (|r: tables::SubscriberRowView| made_pending(r, confirm_token@, ip@)),
            forall|j: int| 0 <= j < i ==> (#[trigger] before.subscribers[j]).id != id,
        decreases n - i,
    {
        if db.subscriber(i).id == id {
            let mut row: SubscriberRow = db.subscriber(i).copy();
            row.status = "pending".to_owned();
            row.confirm_token = Some(confirm_token.to_owned());
            row.unsubscribed_at = None;
            row.ip = Some(ip.to_owned());
            assert(row@ == f(before.subscribers[i as int]));
            db.rewrite(i, row);
            proof {
                with_row_at(before.subscribers, i as int, f);
            }
            return ;
        }
        i += 1;
    }
    assert(with_row(before.subscribers, id, f) =~= before.subscribers);
}

/// The tables after a first request to subscribe.
pub open spec fn after_insert_pending(
    t: tables::Tables,
    email: Seq<char>,
    confirm_token: Seq<char>,
    unsubscribe_token: Seq<char>,
    now: i64,
    ip: Seq<char>,
    list: Seq<char>,
) -> tables::Tables {
    let id = (t.top_subscriber() + 1) as i64;
    tables::Tables {
        subscribers: t.subscribers.push(
            new_pending(id, email, confirm_token, unsubscribe_token, now, ip, list),
        ),
        last_subscriber: id,
        ..t
    }
}

/// Why a new row for an address on a list would be refused.
pub open spec fn insert_error(t: tables::Tables, email: Seq<char>, list: Seq<char>) -> Option<
    InsertError,
> {
    if t.top_subscriber() == i64::MAX {
        Some(InsertError::Full)
    } else if entry(t.subscribers, email, list) is Some {
        Some(InsertError::Taken)
    } else {
        None
    }
}

/// Adds someone who waits for confirmation.
pub fn insert_pending(
    db: &mut Database,
    email: &str,
    confirm_token: &str,
    unsubscribe_token: &str,
    now: i64,
    ip: &str,
    list: &str,
) -> (r: Result<(), InsertError>)
    requires
        old(db).wf(),
    ensures
        final(db).wf(),
        final(db).loaded() == old(db).loaded(),
        match r {
            Ok(()) => insert_error(old(db)@, email@, list@) is None && final(db)@
                == after_insert_pending(
                old(db)@,
                email@,
                confirm_token@,
                unsubscribe_token@,
                now,
                ip@,
                list@,
            ),
            Err(e) => insert_error(old(db)@, email@, list@) == Some(e) && final(db)@ == old(db)@,
        },
{
    if db.top_subscriber() == i64::MAX {
        return Err(InsertError::Full);
    }
    if place_of_entry(db, email, list).is_some() {
        return Err(InsertError::Taken);
    }
    let row: SubscriberRow = SubscriberRow {
        id: db.top_subscriber() + 1,
        email: email.to_owned(),
        status: "pending".to_owned(),
        confirm_token: Some(confirm_token.to_owned()),
        unsubscribe_token: unsubscribe_token.to_owned(),
        created_at: now,
        confirmed_at: None,
        unsubscribed_at: None,
        ip: Some(ip.to_owned()),
        list: list.to_owned(),
    };
    db.add_subscriber(row);
    Ok(())
}

// ---------- Confirming ----------

/// The row waits for the confirmation link with this token.
pub open spec fn awaits(r: tables::SubscriberRowView, token: Seq<char>) -> bool {
    r.confirm_token == Some(token)
}

/// The tables after a confirmation link was followed.
pub open spec fn after_confirm(t: tables::Tables, token: Seq<char>, now: i64) -> tables::Tables {
    tables::Tables {
        subscribers: t.subscribers.map_values(
            |r: tables::SubscriberRowView|
                if awaits(r, token) {
                    made_confirmed(r, now)
                } else {
                    r
                },
        ),
        ..t
    }
}

/// Some row waits for the confirmation link with this token.
pub open spec fn awaited(rows: Seq<tables::SubscriberRowView>, token: Seq<char>) -> bool {
    exists|i: int| 0 <= i < rows.len() && awaits(#[trigger] rows[i], token)
}

/// Confirms whoever waits for this token, and says whether anyone did.
pub fn confirm(db: &mut Database, token: &str, now: i64) -> (r: bool)
    requires
        old(db).wf(),
    ensures
        final(db).wf(),
        final(db).loaded() == old(db).loaded(),
        final(db)@ == after_confirm(old(db)@, token@, now),
        r == awaited(old(db)@.subscribers, token@),
{
    let ghost before = db@;
    let ghost f = |r: tables::SubscriberRowView|
        if awaits(r, token@) {
            made_confirmed(r, now)
        } else {
            r
        };
    let n: usize = db.subscriber_count();
    let mut i: usize = 0;
    let mut any: bool = false;
    while i < n
        invariant
            i <= n,
            n == before.subscribers.len(),
            db.wf(),
            db.loaded() == old(db).loaded(),
            before == old(db)@,
            f == (|r: tables::SubscriberRowView|
                if awaits(r, token@) {
                    made_confirmed(r, now)
                } else {
                    r
                }),
            db@ == (tables::Tables {
                subscribers: before.subscribers.take(i as int).map_values(f)
                    + before.subscribers.skip(i as int),
                ..before
            }),
            any == exists|j: int| 0 <= j < i && awaits(#[trigger] before.subscribers[j], token@),
        decreases n - i,
    {
        let ghost row_before = before.subscribers[i as int];
        assert(db@.subscribers[i as int] == row_before);
        let waiting: bool = match &db.subscriber(i).confirm_token {
            Some(t) => same(t.as_str(), token),
            None => false,
        };
        assert(waiting == awaits(row_before, token@));
        if waiting {
            let mut row: SubscriberRow = db.subscriber(i).copy();
            row.status = "confirmed".to_owned();
            row.confirmed_at = Some(now);
            row.confirm_token = None;
            assert(row@ == f(row_before));
            db.rewrite(i, row);
            any = true;
        }
        i += 1;
        assert(db@.subscribers =~= before.subscribers.take(i as int).map_values(f)
            + before.subscribers.skip(i as int));
    }
    assert(db@.subscribers =~= before.subscribers.map_values(f));
    any
}

// ---------- Unsubscribing ----------

/// What a request to unsubscribe with this token comes to.
pub open spec fn unsub_outcome(rows: Seq<tables::SubscriberRowView>, token: Seq<char>) -> UnsubOutcome {
    match token_owner(rows, token) {
        None => UnsubOutcome::NotFound,
        Some(r) => if r.status == unsubscribed() {
            UnsubOutcome::Already
        } else {
            UnsubOutcome::Done
        },
    }
}

/// The tables after an unsubscribe link was followed.
pub open spec fn after_unsubscribe_by_token(t: tables::Tables, token: Seq<char>, now: i64) -> tables::Tables {
    match token_owner(t.subscribers, token) {
        Some(r) => if r.status == unsubscribed() {
            t
        } else {
            tables::Tables {
                subscribers: with_row(
                    t.subscribers,
                    r.id,
                    |x: tables::SubscriberRowView| made_unsubscribed(x, now),
                ),
                ..t
            }
        },
        None => t,
    }
}

/// Opts out the subscriber whom the token belongs to.
pub fn unsubscribe_by_token(db: &mut Database, token: &str, now: i64) -> (r: UnsubOutcome)
    requires
        old(db).wf(),
    ensures
        final(db).wf(),
        final(db).loaded() == old(db).loaded(),
        r == unsub_outcome(old(db)@.subscribers, token@),
        final(db)@ == after_unsubscribe_by_token(old(db)@, token@, now),
{
    match place_of_token(db, token) {
        None => UnsubOutcome::NotFound,
        Some(i) => {
            if same(db.subscriber(i).status.as_str(), "unsubscribed") {
                return UnsubOutcome::Already;
            }
            let ghost before = db@;
            let ghost f = |x: tables::SubscriberRowView| made_unsubscribed(x, now);
            let mut row: SubscriberRow = db.subscriber(i).copy();
            row.status = "unsubscribed".to_owned();
            row.unsubscribed_at = Some(now);
            assert(row@ == f(before.subscribers[i as int]));
            db.rewrite(i, row);
            proof {
                with_row_at(before.subscribers, i as int, f);
            }
            UnsubOutcome::Done
        },
    }
}

/// The row is that of an address on a list that has not opted out.
pub open spec fn is_active_entry(r: tables::SubscriberRowView, email: Seq<char>, list: Seq<char>) -> bool {
    is_entry(r, email, list) && r.status != unsubscribed()
}

/// The tables after the owner of the list opted an address out.
pub open spec fn after_unsubscribe_by_email(
    t: tables::Tables,
    email: Seq<char>,
    now: i64,
    list: Seq<char>,
) -> tables::Tables {
    tables::Tables {
        subscribers: t.subscribers.map_values(
            |r: tables::SubscriberRowView|
                if is_active_entry(r, email, list) {
                    made_unsubscribed(r, now)
                } else {
                    r
                },
        ),
        ..t
    }
}

/// Opts an address on a list out, and says how many rows that changed.
pub fn unsubscribe_by_email(db: &mut Database, email: &str, now: i64, list: &str) -> (r: usize)
    requires
        old(db).wf(),
    ensures
        final(db).wf(),
        final(db).loaded() == old(db).loaded(),
        final(db)@ == after_unsubscribe_by_email(old(db)@, email@, now, list@),
        r == old(db)@.subscribers.filter(
            |r: tables::SubscriberRowView| is_active_entry(r, email@, list@),
        ).len(),
{
    let ghost before = db@;
    let ghost p = |r: tables::SubscriberRowView| is_active_entry(r, email@, list@);
    let ghost f = |r: tables::SubscriberRowView|
        if is_active_entry(r, email@, list@) {
            made_unsubscribed(r, now)
        } else {
            r
        };
    let n: usize = db.subscriber_count();
    let mut i: usize = 0;
    let mut count: usize = 0;
    proof {
        reveal(Seq::filter);
    }
    while i < n
        invariant
            i <= n,
            count <= i,
            n == before.subscribers.len(),
            db.wf(),
            db.loaded() == old(db).loaded(),
            before == old(db)@,
            p == (|r: tables::SubscriberRowView| is_active_entry(r, email@, list@)),
            f == (|r: tables::SubscriberRowView|
                if is_active_entry(r, email@, list@) {
                    made_unsubscribed(r, now)
                } else {
                    r
                }),
            db@ == (tables::Tables {
                subscribers: before.subscribers.take(i as int).map_values(f)
                    + before.subscribers.skip(i as int),
                ..before
            }),
            count == before.subscribers.take(i as int).filter(p).len(),
        decreases n - i,
    {
        let ghost row_before = before.subscribers[i as int];
        assert(db@.subscribers[i as int] == row_before);
        let active: bool = {
            let row: &SubscriberRow = db.subscriber(i);
            is_alike(row.email.as_str(), email) && same(row.list.as_str(), list) && !same(
                row.status.as_str(),
                "unsubscribed",
            )
        };
        assert(active == p(row_before));
        if active {
            let mut row: SubscriberRow = db.subscriber(i).copy();
            row.status = "unsubscribed".to_owned();
            row.unsubscribed_at = Some(now);
            assert(row@ == f(row_before));
            db.rewrite(i, row);
            count += 1;
        }
        proof {
            tables::filter_of_push(before.subscribers.take(i as int), row_before, p);
            assert(before.subscribers.take(i as int).push(row_before)
                =~= before.subscribers.take(i + 1));
        }
        i += 1;
        assert(db@.subscribers =~= before.subscribers.take(i as int).map_values(f)
            + before.subscribers.skip(i as int));
    }
    assert(before.subscribers.take(n as int) =~= before.subscribers);
    assert(db@.subscribers =~= before.subscribers.map_values(f));
    count
}

/// The tables after an address was removed from a list.
pub open spec fn after_delete_by_email(t: tables::Tables, email: Seq<char>, list: Seq<char>) -> tables::Tables {
    tables::Tables {
        subscribers: t.subscribers.filter(
            |r: tables::SubscriberRowView| !is_entry(r, email, list),
        ),
        ..t
    }
}

/// Removes an address from a list, and says how many rows that took away.
pub fn delete_by_email(db: &mut Database, email: &str, list: &str) -> (r: usize)
    requires
        old(db).wf(),
    ensures
        final(db).wf(),
        final(db).loaded() == old(db).loaded(),
        final(db)@ == after_delete_by_email(old(db)@, email@, list@),
        r == old(db)@.subscribers.len() - final(db)@.subscribers.len(),
{
    let ghost before = db@;
    let ghost keep = |r: tables::SubscriberRowView| !is_entry(r, email@, list@);
    let mut i: usize = 0;
    let mut count: usize = 0;
    let n: usize = db.subscriber_count();
    let mut seen: usize = 0;
    proof {
        reveal(Seq::filter);
    }
    while seen < n
        invariant
            seen <= n,
            i + count == seen,
            n == before.subscribers.len(),
            db.wf(),
            db.loaded() == old(db).loaded(),
            before == old(db)@,
            keep == (|r: tables::SubscriberRowView| !is_entry(r, email@, list@)),
            i == before.subscribers.take(seen as int).filter(keep).len(),
            db@ == (tables::Tables {
                subscribers: before.subscribers.take(seen as int).filter(keep)
                    + before.subscribers.skip(seen as int),
                ..before
            }),
        decreases n - seen,
    {
        let ghost row_before = before.subscribers[seen as int];
        let ghost kept = before.subscribers.take(seen as int).filter(keep);
        let ghost rest = before.subscribers.skip(seen as int);
        assert(db@.subscribers[i as int] == row_before);
        let gone: bool = {
            let row: &SubscriberRow = db.subscriber(i);
            is_alike(row.email.as_str(), email) && same(row.list.as_str(), list)
        };
        assert(gone == !keep(row_before));
        proof {
            tables::filter_of_push(before.subscribers.take(seen as int), row_before, keep);
            assert(before.subscribers.take(seen as int).push(row_before)
                =~= before.subscribers.take(seen + 1));
        }
        if gone {
            db.remove_subscriber(i);
            count += 1;
            assert((kept + rest).remove(i as int) =~= kept + before.subscribers.skip(seen + 1));
        } else {
            i += 1;
            assert(kept + rest =~= kept.push(row_before) + before.subscribers.skip(seen + 1));
        }
        seen += 1;
    }
    assert(before.subscribers.take(n as int) =~= before.subscribers);
    assert(db@.subscribers =~= before.subscribers.filter(keep));
    count
}

// ---------- Adding by hand ----------

/// What a request to add an address to a list comes to.
pub open spec fn add_outcome(t: tables::Tables, email: Seq<char>, list: Seq<char>) -> Result<
    AddOutcome,
    InsertError,
> {
    match entry(t.subscribers, email, list) {
        Some(r) => if r.status == confirmed() {
            Ok(AddOutcome::AlreadyConfirmed)
        } else {
            Ok(AddOutcome::Reactivated)
        },
        None => if t.top_subscriber() == i64::MAX {
            Err(InsertError::Full)
        } else {
            Ok(AddOutcome::Added)
        },
    }
}

/// The tables after the owner of the list added an address.
pub open spec fn after_add_confirmed(
    t: tables::Tables,
    email: Seq<char>,
    unsubscribe_token: Seq<char>,
    now: i64,
    list: Seq<char>,
) -> tables::Tables {
    match entry(t.subscribers, email, list) {
        Some(r) => if r.status == confirmed() {
            t
        } else {
            tables::Tables {
                subscribers: with_row(
                    t.subscribers,
                    r.id,
                    |x: tables::SubscriberRowView| made_reactivated(x, now),
                ),
                ..t
            }
        },
        None => if t.top_subscriber() == i64::MAX {
            t
        } else {
            let id = (t.top_subscriber() + 1) as i64;
            tables::Tables {
                subscribers: t.subscribers.push(
                    new_confirmed(id, email, unsubscribe_token, now, list),
                ),
                last_subscriber: id,
                ..t
            }
        },
    }
}

/// Puts an address on a list as already confirmed.
pub fn add_confirmed(
    db: &mut Database,
    email: &str,
    unsubscribe_token: &str,
    now: i64,
    list: &str,
) -> (r: Result<AddOutcome, InsertError>)
    requires
        old(db).wf(),
    ensures
        final(db).wf(),
        final(db).loaded() == old(db).loaded(),
        r == add_outcome(old(db)@, email@, list@),
        final(db)@ == after_add_confirmed(old(db)@, email@, unsubscribe_token@, now, list@),
{
    match place_of_entry(db, email, list) {
        Some(i) => {
            if same(db.subscriber(i).status.as_str(), "confirmed") {
                return Ok(AddOutcome::AlreadyConfirmed);
            }
            let ghost before = db@;
            let ghost f = |x: tables::SubscriberRowView| made_reactivated(x, now);
            let mut row: SubscriberRow = db.subscriber(i).copy();
            row.status = "confirmed".to_owned();
            row.confirmed_at = Some(now);
            row.confirm_token = None;
            row.unsubscribed_at = None;
            assert(row@ == f(before.subscribers[i as int]));
            db.rewrite(i, row);
            proof {
                with_row_at(before.subscribers, i as int, f);
            }
            Ok(AddOutcome::Reactivated)
        },
        None => {
            if db.top_subscriber() == i64::MAX {
                return Err(InsertError::Full);
            }
            let row: SubscriberRow = SubscriberRow {
                id: db.top_subscriber() + 1,
                email: email.to_owned(),
                status: "confirmed".to_owned(),
                confirm_token: None,
                unsubscribe_token: unsubscribe_token.to_owned(),
                created_at: now,
                confirmed_at: Some(now),
                unsubscribed_at: None,
                ip: Some("admin".to_owned()),
                list: list.to_owned(),
            };
            db.add_subscriber(row);
            Ok(AddOutcome::Added)
        },
    }
}

// ---------- Counting ----------

/// The rows of a list.
pub open spec fn on_list(rows: Seq<tables::SubscriberRowView>, list: Seq<char>) -> Seq<
    tables::SubscriberRowView,
> {
    rows.filter(|r: tables::SubscriberRowView| r.list == list)
}

/// The rows of a list that are in some state.
pub open spec fn in_state(
    rows: Seq<tables::SubscriberRowView>,
    list: Seq<char>,
    status: Seq<char>,
) -> Seq<tables::SubscriberRowView> {
    rows.filter(|r: tables::SubscriberRowView| r.list == list && r.status == status)
}

impl Default for Stats {
    /// No subscribers at all.
    fn default() -> (r: Stats)
        ensures
            r == (Stats { confirmed: 0, pending: 0, unsubscribed: 0, total: 0 }),
    {
        Stats { confirmed: 0, pending: 0, unsubscribed: 0, total: 0 }
    }
}

/// How many subscribers of a list are in which state, and how many there are in all.
pub fn stats(db: &Database, list: &str) -> (r: Stats)
    requires
        db@.subscribers.len() <= i64::MAX,
    ensures
        r.confirmed == in_state(db@.subscribers, list@, confirmed()).len(),
        r.pending == in_state(db@.subscribers, list@, pending()).len(),
        r.unsubscribed == in_state(db@.subscribers, list@, unsubscribed()).len(),
        r.total == on_list(db@.subscribers, list@).len(),
{
    let ghost rows = db@.subscribers;
    let ghost all = |r: tables::SubscriberRowView| r.list == list@;
    let ghost c = |r: tables::SubscriberRowView| r.list == list@ && r.status == confirmed();
    let ghost p = |r: tables::SubscriberRowView| r.list == list@ && r.status == pending();
    let ghost u = |r: tables::SubscriberRowView| r.list == list@ && r.status == unsubscribed();
    let n: usize = db.subscriber_count();
    let mut s: Stats = Stats { confirmed: 0, pending: 0, unsubscribed: 0, total: 0 };
    let mut i: usize = 0;
    proof {
        reveal(Seq::filter);
        states_differ();
    }
    while i < n
        invariant
            i <= n,
            n == rows.len(),
            n <= i64::MAX,
            rows == db@.subscribers,
            pending() != confirmed(),
            pending() != unsubscribed(),
            confirmed() != unsubscribed(),
            all == (|r: tables::SubscriberRowView| r.list == list@),
            c == (|r: tables::SubscriberRowView| r.list == list@ && r.status == confirmed()),
            p == (|r: tables::SubscriberRowView| r.list == list@ && r.status == pending()),
            u == (|r: tables::SubscriberRowView| r.list == list@ && r.status == unsubscribed()),
            0 <= s.confirmed <= i,
            0 <= s.pending <= i,
            0 <= s.unsubscribed <= i,
            0 <= s.total <= i,
            s.confirmed == rows.take(i as int).filter(c).len(),
            s.pending == rows.take(i as int).filter(p).len(),
            s.unsubscribed == rows.take(i as int).filter(u).len(),
            s.total == rows.take(i as int).filter(all).len(),
        decreases n - i,
    {
        proof {
            tables::filter_of_push(rows.take(i as int), rows[i as int], all);
            tables::filter_of_push(rows.take(i as int), rows[i as int], c);
            tables::filter_of_push(rows.take(i as int), rows[i as int], p);
            tables::filter_of_push(rows.take(i as int), rows[i as int], u);
            assert(rows.take(i as int).push(rows[i as int]) =~= rows.take(i + 1));
        }
        let row: &SubscriberRow = db.subscriber(i);
        if same(row.list.as_str(), list) {
            let status: &str = row.status.as_str();
            if same(status, "confirmed") {
                s.confirmed = s.confirmed + 1;
            } else if same(status, "pending") {
                s.pending = s.pending + 1;
            } else if same(status, "unsubscribed") {
                s.unsubscribed = s.unsubscribed + 1;
            }
            s.total = s.total + 1;
        }
        i += 1;
    }
    assert(rows.take(n as int) =~= rows);
    s
}

// ---------- The newest rows ----------

/// The item at place `a` comes before that at place `b`: it is newer, or as new and stands first.
pub open spec fn newer(times: Seq<i64>, a: int, b: int) -> bool {
    times[a] > times[b] || (times[a] == times[b] && a < b)
}

/// `order` holds the places of the newest items, the newest first: as many as `limit` says, or all
/// of them where it is negative or larger than their number.
pub open spec fn newest_first(times: Seq<i64>, limit: i64, order: Seq<int>) -> bool {
    &&& forall|k: int| 0 <= k < order.len() ==> 0 <= #[trigger] order[k] < times.len()
    &&& forall|k: int, m: int|
        0 <= k < m < order.len() ==> newer(times, #[trigger] order[k], #[trigger] order[m])
    &&& forall|j: int, k: int|
        0 <= j < times.len() && !order.contains(j) && 0 <= k < order.len() ==> #[trigger] newer(
            times,
            order[k],
            j,
        )
    &&& limit >= 0 ==> order.len() <= limit
    &&& (limit < 0 || order.len() < limit) ==> forall|j: int|
        0 <= j < times.len() ==> #[trigger] order.contains(j)
}

/// The places of the newest items.
fn newest(times: &Vec<i64>, limit: i64) -> (r: Vec<usize>)
    ensures
        newest_first(times@, limit, r@.map_values(|k: usize| k as int)),
{
    let n: usize = times.len();
    let mut out: Vec<usize> = Vec::new();
    let ghost mut order: Seq<int> = Seq::empty();
    proof {
        assert(out@.map_values(|k: usize| k as int) =~= order);
    }
    // Every item that is not yet in `order` comes after the last one that is.
    loop
        invariant
            n == times@.len(),
            out@.len() <= n,
            order == out@.map_values(|k: usize| k as int),
            forall|k: int| 0 <= k < order.len() ==> 0 <= #[trigger] order[k] < n,
            forall|k: int, m: int|
                0 <= k < m < order.len() ==> newer(times@, #[trigger] order[k], #[trigger] order[m]),
            forall|j: int, k: int|
                0 <= j < n && !order.contains(j) && 0 <= k < order.len() ==> #[trigger] newer(
                    times@,
                    order[k],
                    j,
                ),
            limit >= 0 ==> out@.len() <= limit,
        ensures
            newest_first(times@, limit, out@.map_values(|k: usize| k as int)),
        decreases n - out@.len(),
    {
        if limit >= 0 && out.len() as u64 >= limit as u64 {
            break ;
        }
        let mut best: Option<usize> = None;
        let mut j: usize = 0;
        while j < n
            invariant
                j <= n,
                n == times@.len(),
                order == out@.map_values(|k: usize| k as int),
                forall|k: int| 0 <= k < order.len() ==> 0 <= #[trigger] order[k] < n,
                forall|k: int, m: int|
                    0 <= k < m < order.len() ==> newer(
                        times@,
                        #[trigger] order[k],
                        #[trigger] order[m],
                    ),
                forall|j: int, k: int|
                    0 <= j < n && !order.contains(j) && 0 <= k < order.len() ==> #[trigger] newer(
                        times@,
                        order[k],
                        j,
                    ),
                match best {
                    Some(b) => b < j && !order.contains(b as int) && forall|a: int|
                        0 <= a < j && a != b && !order.contains(a) ==> #[trigger] newer(
                            times@,
                            b as int,
                            a,
                        ),
                    None => forall|a: int| 0 <= a < j ==> #[trigger] order.contains(a),
                },
            decreases n - j,
        {
            let open: bool = match out.len() {
                0 => true,
                m => {
                    let last: usize = out[m - 1];
                    assert(order[m - 1] == last);
                    times[last] > times[j] || (times[last] == times[j] && last < j)
                },
            };
            proof {
                if out@.len() > 0 {
                    let e = order.len() - 1;
                    assert(order[e] == out@[e]);
                    if open && order.contains(j as int) {
                        let k = choose|k: int| 0 <= k < order.len() && order[k] == j;
                        if k < e {
                            assert(newer(times@, order[k], order[e]));
                        }
                        assert(false);
                    }
                    if !open && !order.contains(j as int) {
                        assert(newer(times@, order[e], j as int));
                        assert(false);
                    }
                } else {
                    assert(!order.contains(j as int));
                }
            }
            assert(open == !order.contains(j as int));
            if open {
                best = match best {
                    None => Some(j),
                    Some(b) => if times[j] > times[b] {
                        proof {
                            assert forall|a: int|
                                0 <= a < j && !order.contains(a) implies #[trigger] newer(
                                times@,
                                j as int,
                                a,
                            ) by {
                                assert(a == b || newer(times@, b as int, a));
                            }
                        }
                        Some(j)
                    } else {
                        Some(b)
                    },
                };
            }
            j += 1;
        }
        match best {
            None => {
                break ;
            },
            Some(b) => {
                let ghost before = order;
                out.push(b);
                proof {
                    order = order.push(b as int);
                    assert(out@.map_values(|k: usize| k as int) =~= order);
                    assert forall|i: int| order.contains(i) == (before.contains(i) || i == b) by {
                        if before.contains(i) {
                            let k = choose|k: int| 0 <= k < before.len() && before[k] == i;
                            assert(order[k] == i);
                        }
                        if i == b {
                            assert(order[before.len() as int] == i);
                        }
                        if order.contains(i) {
                            let k = choose|k: int| 0 <= k < order.len() && order[k] == i;
                            if k < before.len() {
                                assert(before[k] == i);
                            }
                        }
                    }
                    assert forall|k: int, m: int| 0 <= k < m < order.len() implies newer(
                        times@,
                        #[trigger] order[k],
                        #[trigger] order[m],
                    ) by {
                        if m == before.len() {
                            assert(!before.contains(b as int));
                            assert(newer(times@, before[k], b as int));
                        } else {
                            assert(newer(times@, before[k], before[m]));
                        }
                    }
                    assert forall|j: int, k: int|
                        0 <= j < n && !order.contains(j) && 0 <= k
                            < order.len() implies #[trigger] newer(times@, order[k], j) by {
                        assert(!before.contains(j));
                        if k < before.len() {
                            assert(newer(times@, before[k], j));
                        }
                    }
                    newest_len(times@, order);
                }
            },
        }
    }
    out
}

/// Places in a strict order are distinct, so there are no more of them than items.
pub proof fn newest_len(times: Seq<i64>, order: Seq<int>)
    requires
        forall|k: int| 0 <= k < order.len() ==> 0 <= #[trigger] order[k] < times.len(),
        forall|k: int, m: int|
            0 <= k < m < order.len() ==> newer(times, #[trigger] order[k], #[trigger] order[m]),
    ensures
        order.len() <= times.len(),
{
    assert(order.no_duplicates()) by {
        assert forall|k: int, m: int| 0 <= k < order.len() && 0 <= m < order.len() && k != m implies order[k]
            != order[m] by {
            if k < m {
                assert(newer(times, order[k], order[m]));
            } else {
                assert(newer(times, order[m], order[k]));
            }
        }
    }
    order.unique_seq_to_set();
    let range = vstd::set_lib::set_int_range(0, times.len() as int);
    vstd::set_lib::lemma_int_range(0, times.len() as int);
    assert(order.to_set().subset_of(range));
    vstd::set_lib::lemma_len_subset(order.to_set(), range);
}

/// Two orders of the newest items are the same: `newest_first` leaves no choice.
pub proof fn newest_first_is_unique(times: Seq<i64>, limit: i64, a: Seq<int>, b: Seq<int>)
    requires
        newest_first(times, limit, a),
        newest_first(times, limit, b),
    ensures
        a == b,
{
    if a.len() < b.len() {
        newest_first_prefix(times, limit, a, b, a.len() as int);
        let j = b[a.len() as int];
        assert(a.contains(j));
        let k = choose|k: int| 0 <= k < a.len() && a[k] == j;
        assert(b[k] == a[k]);
        assert(newer(times, b[k], b[a.len() as int]));
        assert(false);
    } else if b.len() < a.len() {
        newest_first_prefix(times, limit, a, b, b.len() as int);
        let j = a[b.len() as int];
        assert(b.contains(j));
        let k = choose|k: int| 0 <= k < b.len() && b[k] == j;
        assert(newer(times, a[k], a[b.len() as int]));
        assert(false);
    } else {
        newest_first_prefix(times, limit, a, b, a.len() as int);
        assert(a =~= b);
    }
}

/// Two orders of the newest items agree on their first `n` places.
proof fn newest_first_prefix(times: Seq<i64>, limit: i64, a: Seq<int>, b: Seq<int>, n: int)
    requires
        newest_first(times, limit, a),
        newest_first(times, limit, b),
        0 <= n <= a.len(),
        n <= b.len(),
    ensures
        forall|k: int| 0 <= k < n ==> a[k] == b[k],
    decreases n,
{
    if n > 0 {
        newest_first_prefix(times, limit, a, b, n - 1);
        let x = a[n - 1];
        let y = b[n - 1];
        if x != y {
            assert(b.contains(x) || newer(times, y, x));
            assert(a.contains(y) || newer(times, x, y));
            if b.contains(x) {
                let m = choose|m: int| 0 <= m < b.len() && b[m] == x;
                if m < n - 1 {
                    assert(newer(times, a[m], a[n - 1]));
                } else {
                    assert(newer(times, b[n - 1], b[m]));
                }
            }
            if a.contains(y) {
                let m = choose|m: int| 0 <= m < a.len() && a[m] == y;
                if m < n - 1 {
                    assert(newer(times, b[m], b[n - 1]));
                } else {
                    assert(newer(times, a[n - 1], a[m]));
                }
            }
            assert(newer(times, x, y) && newer(times, y, x));
            assert(false);
        }
    }
}

// ---------- Reading for the dashboard and for sends ----------

/// What the dashboard shows of a subscriber.
pub open spec fn shown(r: tables::SubscriberRowView) -> SubscriberView {
    SubscriberView {
        email: r.email,
        status: r.status,
        created_at: r.created_at,
        confirmed_at: r.confirmed_at,
        unsubscribed_at: r.unsubscribed_at,
    }
}

/// When some subscribers first asked.
pub open spec fn created_times(rows: Seq<tables::SubscriberRowView>) -> Seq<i64> {
    rows.map_values(|r: tables::SubscriberRowView| r.created_at)
}

/// `out` shows the newest subscribers of a list, the newest first, at most `limit` of them unless
/// that is negative.
pub open spec fn recent_subscribers_of(
    rows: Seq<tables::SubscriberRowView>,
    limit: i64,
    list: Seq<char>,
    out: Seq<SubscriberView>,
) -> bool {
    exists|order: Seq<int>| #[trigger]
        newest_first(created_times(on_list(rows, list)), limit, order) && out == order.map_values(
            |k: int| shown(on_list(rows, list)[k]),
        )
}

/// What some subscribers say.
pub open spec fn shown_views(s: Seq<Subscriber>) -> Seq<SubscriberView> {
    s.map_values(|x: Subscriber| x@)
}

/// The newest subscribers of a list, the newest first, at most `limit` of them unless that is
/// negative.
pub fn recent_subscribers(db: &Database, limit: i64, list: &str) -> (r: Vec<Subscriber>)
    ensures
        recent_subscribers_of(db@.subscribers, limit, list@, shown_views(r@)),
{
    let ghost rows = db@.subscribers;
    let ghost pred = |r: tables::SubscriberRowView| r.list == list@;
    let ghost mine = on_list(rows, list@);
    let mut places: Vec<usize> = Vec::new();
    let mut times: Vec<i64> = Vec::new();
    let n: usize = db.subscriber_count();
    let mut i: usize = 0;
    proof {
        reveal(Seq::filter);
    }
    while i < n
        invariant
            i <= n,
            n == rows.len(),
            rows == db@.subscribers,
            pred == (|r: tables::SubscriberRowView| r.list == list@),
            places@.len() == rows.take(i as int).filter(pred).len(),
            times@.len() == places@.len(),
            forall|k: int|
                0 <= k < places@.len() ==> (#[trigger] places@[k]) < n && rows[places@[k] as int]
                    == rows.take(i as int).filter(pred)[k],
            forall|k: int|
                0 <= k < places@.len() ==> #[trigger] times@[k] == rows.take(i as int).filter(
                    pred,
                )[k].created_at,
        decreases n - i,
    {
        proof {
            tables::filter_of_push(rows.take(i as int), rows[i as int], pred);
            assert(rows.take(i as int).push(rows[i as int]) =~= rows.take(i + 1));
        }
        let row: &SubscriberRow = db.subscriber(i);
        if same(row.list.as_str(), list) {
            places.push(i);
            times.push(row.created_at);
        }
        i += 1;
    }
    assert(rows.take(n as int) =~= rows);
    assert(times@ =~= created_times(mine));
    let order: Vec<usize> = newest(&times, limit);
    let ghost places_of = order@.map_values(|k: usize| k as int);
    let mut out: Vec<Subscriber> = Vec::new();
    let mut k: usize = 0;
    while k < order.len()
        invariant
            k <= order@.len(),
            n == rows.len(),
            rows == db@.subscribers,
            places@.len() == mine.len(),
            places_of == order@.map_values(|k: usize| k as int),
            newest_first(times@, limit, places_of),
            times@.len() == mine.len(),
            forall|k: int|
                0 <= k < places@.len() ==> (#[trigger] places@[k]) < n && rows[places@[k] as int]
                    == mine[k],
            out@.len() == k,
            forall|m: int| 0 <= m < k ==> (#[trigger] out@[m])@ == shown(mine[places_of[m]]),
        decreases order@.len() - k,
    {
        assert(0 <= places_of[k as int] < mine.len());
        let row: &SubscriberRow = db.subscriber(places[order[k]]);
        out.push(
            Subscriber {
                email: row.email.clone(),
                status: row.status.clone(),
                created_at: row.created_at,
                confirmed_at: row.confirmed_at,
                unsubscribed_at: row.unsubscribed_at,
            },
        );
        k += 1;
    }
    assert(shown_views(out@) =~= places_of.map_values(|k: int| shown(mine[k])));
    out
}

/// The addresses that get what is sent to a list, each with its token to unsubscribe.
pub open spec fn recipients(rows: Seq<tables::SubscriberRowView>, list: Seq<char>) -> Seq<
    (Seq<char>, Seq<char>),
> {
    in_state(rows, list, confirmed()).map_values(
        |r: tables::SubscriberRowView| (r.email, r.unsubscribe_token),
    )
}

/// What some recipients say.
pub open spec fn recipient_views(s: Seq<(String, String)>) -> Seq<(Seq<char>, Seq<char>)> {
    s.map_values(|p: (String, String)| (p.0@, p.1@))
}

/// The addresses that get what is sent to a list, each with its token to unsubscribe, in the order
/// in which they came.
pub fn confirmed_recipients(db: &Database, list: &str) -> (r: Vec<(String, String)>)
    ensures
        recipient_views(r@) == recipients(db@.subscribers, list@),
{
    let ghost rows = db@.subscribers;
    let ghost pred = |r: tables::SubscriberRowView| r.list == list@ && r.status == confirmed();
    let ghost pair = |r: tables::SubscriberRowView| (r.email, r.unsubscribe_token);
    let mut out: Vec<(String, String)> = Vec::new();
    let n: usize = db.subscriber_count();
    let mut i: usize = 0;
    proof {
        reveal(Seq::filter);
        assert(recipient_views(out@) =~= rows.take(0).filter(pred).map_values(pair));
    }
    while i < n
        invariant
            i <= n,
            n == rows.len(),
            rows == db@.subscribers,
            pred == (|r: tables::SubscriberRowView| r.list == list@ && r.status == confirmed()),
            pair == (|r: tables::SubscriberRowView| (r.email, r.unsubscribe_token)),
            recipient_views(out@) == rows.take(i as int).filter(pred).map_values(pair),
        decreases n - i,
    {
        let ghost seen = rows.take(i as int).filter(pred);
        let ghost so_far = out@;
        proof {
            tables::filter_of_push(rows.take(i as int), rows[i as int], pred);
            assert(rows.take(i as int).push(rows[i as int]) =~= rows.take(i + 1));
        }
        let row: &SubscriberRow = db.subscriber(i);
        if same(row.list.as_str(), list) && same(row.status.as_str(), "confirmed") {
            out.push((row.email.clone(), row.unsubscribe_token.clone()));
            assert(recipient_views(out@) =~= recipient_views(so_far).push(pair(rows[i as int])));
            assert(seen.push(rows[i as int]).map_values(pair) =~= seen.map_values(pair).push(
                pair(rows[i as int]),
            ));
        }
        i += 1;
    }
    assert(rows.take(n as int) =~= rows);
    out
}

// ---------- Sends ----------

/// What the dashboard shows of a send.
pub open spec fn shown_send(r: tables::SendRowView) -> SendRecordView {
    SendRecordView {
        id: r.id,
        post_url: r.post_url,
        subject: r.subject,
        sent_at: r.sent_at,
        recipient_count: r.recipient_count,
    }
}

/// The sends to a list.
pub open spec fn sends_to(rows: Seq<tables::SendRowView>, list: Seq<char>) -> Seq<
    tables::SendRowView,
> {
    rows.filter(|r: tables::SendRowView| r.list == list)
}

/// When some sends took place.
pub open spec fn sent_times(rows: Seq<tables::SendRowView>) -> Seq<i64> {
    rows.map_values(|r: tables::SendRowView| r.sent_at)
}

/// `out` shows the newest sends to a list, the newest first, at most `limit` of them unless that is
/// negative.
pub open spec fn recent_sends_of(
    rows: Seq<tables::SendRowView>,
    limit: i64,
    list: Seq<char>,
    out: Seq<SendRecordView>,
) -> bool {
    exists|order: Seq<int>| #[trigger]
        newest_first(sent_times(sends_to(rows, list)), limit, order) && out == order.map_values(
            |k: int| shown_send(sends_to(rows, list)[k]),
        )
}

/// What some sends say.
pub open spec fn shown_send_views(s: Seq<SendRecord>) -> Seq<SendRecordView> {
    s.map_values(|x: SendRecord| x@)
}

/// The newest sends to a list, the newest first, at most `limit` of them unless that is negative.
pub fn recent_sends(db: &Database, limit: i64, list: &str) -> (r: Vec<SendRecord>)
    ensures
        recent_sends_of(db@.sends, limit, list@, shown_send_views(r@)),
{
    let ghost rows = db@.sends;
    let ghost pred = |r: tables::SendRowView| r.list == list@;
    let ghost mine = sends_to(rows, list@);
    let mut places: Vec<usize> = Vec::new();
    let mut times: Vec<i64> = Vec::new();
    let n: usize = db.send_count();
    let mut i: usize = 0;
    proof {
        reveal(Seq::filter);
    }
    while i < n
        invariant
            i <= n,
            n == rows.len(),
            rows == db@.sends,
            pred == (|r: tables::SendRowView| r.list == list@),
            places@.len() == rows.take(i as int).filter(pred).len(),
            times@.len() == places@.len(),
            forall|k: int|
                0 <= k < places@.len() ==> (#[trigger] places@[k]) < n && rows[places@[k] as int]
                    == rows.take(i as int).filter(pred)[k],
            forall|k: int|
                0 <= k < places@.len() ==> #[trigger] times@[k] == rows.take(i as int).filter(
                    pred,
                )[k].sent_at,
        decreases n - i,
    {
        proof {
            tables::filter_of_push(rows.take(i as int), rows[i as int], pred);
            assert(rows.take(i as int).push(rows[i as int]) =~= rows.take(i + 1));
        }
        let row: &SendRow = db.sent(i);
        if same(row.list.as_str(), list) {
            places.push(i);
            times.push(row.sent_at);
        }
        i += 1;
    }
    assert(rows.take(n as int) =~= rows);
    assert(times@ =~= sent_times(mine));
    let order: Vec<usize> = newest(&times, limit);
    let ghost places_of = order@.map_values(|k: usize| k as int);
    let mut out: Vec<SendRecord> = Vec::new();
    let mut k: usize = 0;
    while k < order.len()
        invariant
            k <= order@.len(),
            n == rows.len(),
            rows == db@.sends,
            places@.len() == mine.len(),
            places_of == order@.map_values(|k: usize| k as int),
            newest_first(times@, limit, places_of),
            times@.len() == mine.len(),
            forall|k: int|
                0 <= k < places@.len() ==> (#[trigger] places@[k]) < n && rows[places@[k] as int]
                    == mine[k],
            out@.len() == k,
            forall|m: int| 0 <= m < k ==> (#[trigger] out@[m])@ == shown_send(mine[places_of[m]]),
        decreases order@.len() - k,
    {
        assert(0 <= places_of[k as int] < mine.len());
        let row: &SendRow = db.sent(places[order[k]]);
        out.push(
            SendRecord {
                id: row.id,
                post_url: row.post_url.clone(),
                subject: copy_opt(&row.subject),
                sent_at: row.sent_at,
                recipient_count: row.recipient_count,
            },
        );
        k += 1;
    }
    assert(shown_send_views(out@) =~= places_of.map_values(|k: int| shown_send(mine[k])));
    out
}

/// The row is that of a send of a post to a list.
pub open spec fn is_send_of(r: tables::SendRowView, post_url: Seq<char>, list: Seq<char>) -> bool {
    r.post_url == post_url && r.list == list
}

/// When a post was last sent to a list.
pub open spec fn last_sent(
    rows: Seq<tables::SendRowView>,
    post_url: Seq<char>,
    list: Seq<char>,
) -> Option<i64>
    decreases rows.len(),
{
    if rows.len() == 0 {
        None
    } else {
        let before = last_sent(rows.drop_last(), post_url, list);
        if is_send_of(rows.last(), post_url, list) {
            match before {
                Some(at) => Some(tables::later(at, rows.last().sent_at)),
                None => Some(rows.last().sent_at),
            }
        } else {
            before
        }
    }
}

/// When a post was last sent to a list, if it ever was.
pub fn last_send_at(db: &Database, post_url: &str, list: &str) -> (r: Option<i64>)
    ensures
        r == last_sent(db@.sends, post_url@, list@),
{
    let ghost rows = db@.sends;
    let n: usize = db.send_count();
    let mut latest: Option<i64> = None;
    let mut i: usize = 0;
    while i < n
        invariant
            i <= n,
            n == rows.len(),
            rows == db@.sends,
            latest == last_sent(rows.take(i as int), post_url@, list@),
        decreases n - i,
    {
        assert(rows.take(i + 1).drop_last() =~= rows.take(i as int));
        let row: &SendRow = db.sent(i);
        if same(row.post_url.as_str(), post_url) && same(row.list.as_str(), list) {
            latest = match latest {
                Some(at) => if at < row.sent_at {
                    Some(row.sent_at)
                } else {
                    Some(at)
                },
                None => Some(row.sent_at),
            };
        }
        i += 1;
    }
    assert(rows.take(n as int) =~= rows);
    latest
}

/// The tables after a send was recorded.
pub open spec fn after_record_send(
    t: tables::Tables,
    post_url: Seq<char>,
    subject: Seq<char>,
    now: i64,
    count: i64,
    body_html: Seq<char>,
    list: Seq<char>,
) -> tables::Tables {
    let id = (t.top_send() + 1) as i64;
    tables::Tables {
        sends: t.sends.push(
            tables::SendRowView {
                id,
                post_url,
                subject: Some(subject),
                sent_at: now,
                recipient_count: Some(count),
                body_html: Some(body_html),
                list,
            },
        ),
        last_send: id,
        ..t
    }
}

/// Records a send to a list.
pub fn record_send(
    db: &mut Database,
    post_url: &str,
    subject: &str,
    now: i64,
    count: i64,
    body_html: &str,
    list: &str,
) -> (r: Result<(), InsertError>)
    requires
        old(db).wf(),
    ensures
        final(db).wf(),
        final(db).loaded() == old(db).loaded(),
        match r {
            Ok(()) => old(db)@.top_send() < i64::MAX && final(db)@ == after_record_send(
                old(db)@,
                post_url@,
                subject@,
                now,
                count,
                body_html@,
                list@,
            ),
            Err(e) => old(db)@.top_send() == i64::MAX && e == InsertError::Full && final(db)@
                == old(db)@,
        },
{
    if db.top_send() == i64::MAX {
        return Err(InsertError::Full);
    }
    let row: SendRow = SendRow {
        id: db.top_send() + 1,
        post_url: post_url.to_owned(),
        subject: Some(subject.to_owned()),
        sent_at: now,
        recipient_count: Some(count),
        body_html: Some(body_html.to_owned()),
        list: list.to_owned(),
    };
    db.add_send(row);
    Ok(())
}

/// The page that a send was recorded with.
pub open spec fn page_of(rows: Seq<tables::SendRowView>, id: i64) -> Option<Seq<char>>
    decreases rows.len(),
{
    if rows.len() == 0 {
        None
    } else if rows[0].id == id {
        rows[0].body_html
    } else {
        page_of(rows.skip(1), id)
    }
}

/// The page that a send was recorded with, if there is one.
pub fn sent_html(db: &Database, id: i64) -> (r: Option<String>)
    ensures
        text::opt_view(r) == page_of(db@.sends, id),
{
    let ghost rows = db@.sends;
    let n: usize = db.send_count();
    let mut i: usize = 0;
    assert(rows.skip(0) =~= rows);
    while i < n
        invariant
            i <= n,
            n == rows.len(),
            rows == db@.sends,
            page_of(rows.skip(i as int), id) == page_of(rows, id),
        decreases n - i,
    {
        assert(rows.skip(i as int).skip(1) =~= rows.skip(i + 1));
        let row: &SendRow = db.sent(i);
        if row.id == id {
            return copy_opt(&row.body_html);
        }
        i += 1;
    }
    None
}

// ---------- The stored tables ----------

/// Whether a stored table has a column.
pub fn table_has_column(columns: &Vec<String>, column: &str) -> (r: bool)
    ensures
        r == exists|i: int| 0 <= i < columns@.len() && (#[trigger] columns@[i])@ == column@,
{
    let mut i: usize = 0;
    while i < columns.len()
        invariant
            i <= columns@.len(),
            forall|j: int| 0 <= j < i ==> (#[trigger] columns@[j])@ != column@,
        decreases columns@.len() - i,
    {
        if same(columns[i].as_str(), column) {
            return true;
        }
        i += 1;
    }
    false
}

/// Creates the two tables where they are missing.
pub const SCHEMA: &'static str = "
CREATE TABLE IF NOT EXISTS subscribers (
    id                INTEGER PRIMARY KEY AUTOINCREMENT,
    email             TEXT NOT NULL COLLATE NOCASE,
    status            TEXT NOT NULL DEFAULT 'pending',
    confirm_token     TEXT,
    unsubscribe_token TEXT NOT NULL,
    created_at        INTEGER NOT NULL,
    confirmed_at      INTEGER,
    unsubscribed_at   INTEGER,
    ip                TEXT,
    list              TEXT NOT NULL DEFAULT 'stephens',
    UNIQUE(email, list)
);
CREATE TABLE IF NOT EXISTS sends (
    id              INTEGER PRIMARY KEY AUTOINCREMENT,
    post_url        TEXT NOT NULL,
    subject         TEXT,
    sent_at         INTEGER NOT NULL,
    recipient_count INTEGER
);
";

/// Gives the table of sends the page that was sent. Fails where it has it.
pub const ADD_BODY_HTML: &'static str = "ALTER TABLE sends ADD COLUMN body_html TEXT";

/// Gives the table of sends its list. Fails where it has it.
pub const ADD_LIST: &'static str =
    "ALTER TABLE sends ADD COLUMN list TEXT NOT NULL DEFAULT 'stephens'";

/// Puts every subscriber of a table from before there were lists on the first list.
pub const MIGRATION: &'static str = "
BEGIN;
ALTER TABLE subscribers RENAME TO subscribers_old;
CREATE TABLE subscribers (
    id                INTEGER PRIMARY KEY AUTOINCREMENT,
    email             TEXT NOT NULL COLLATE NOCASE,
    status            TEXT NOT NULL DEFAULT 'pending',
    confirm_token     TEXT,
    unsubscribe_token TEXT NOT NULL,
    created_at        INTEGER NOT NULL,
    confirmed_at      INTEGER,
    unsubscribed_at   INTEGER,
    ip                TEXT,
    list              TEXT NOT NULL DEFAULT 'stephens',
    UNIQUE(email, list)
);
INSERT INTO subscribers (id,email,status,confirm_token,unsubscribe_token,created_at,confirmed_at,unsubscribed_at,ip,list)
    SELECT id,email,status,confirm_token,unsubscribe_token,created_at,confirmed_at,unsubscribed_at,ip,'stephens' FROM subscribers_old;
DROP TABLE subscribers_old;
COMMIT;
";

/// What brings the table of subscribers up to date, given its columns; nothing where it has lists.
pub fn migration(columns: &Vec<String>) -> (r: Option<&'static str>)
    ensures
        match r {
            Some(sql) => sql@ == MIGRATION@ && forall|i: int|
                0 <= i < columns@.len() ==> (#[trigger] columns@[i])@ != "list"@,
            None => exists|i: int| 0 <= i < columns@.len() && (#[trigger] columns@[i])@ == "list"@,
        },
{
    if table_has_column(columns, "list") {
        None
    } else {
        Some(MIGRATION)
    }
}

} // verus!
