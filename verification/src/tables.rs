//! The subscribers and the sends as the service keeps them, and the journal of changes that
//! brings the stored tables up to date.
use vstd::prelude::*;
use vstd::string::*;

use crate::text;
use crate::text::copy_opt;

verus! {

// ---------- Rows ----------

/// One row of the table of subscribers.
#[derive(Debug)]
pub struct SubscriberRow {
    pub id: i64,
    pub email: String,
    pub status: String,
    pub confirm_token: Option<String>,
    pub unsubscribe_token: String,
    pub created_at: i64,
    pub confirmed_at: Option<i64>,
    pub unsubscribed_at: Option<i64>,
    pub ip: Option<String>,
    pub list: String,
}

/// What a row of the table of subscribers says.
#[verifier::ext_equal]
pub ghost struct SubscriberRowView {
    pub id: i64,
    pub email: Seq<char>,
    pub status: Seq<char>,
    pub confirm_token: Option<Seq<char>>,
    pub unsubscribe_token: Seq<char>,
    pub created_at: i64,
    pub confirmed_at: Option<i64>,
    pub unsubscribed_at: Option<i64>,
    pub ip: Option<Seq<char>>,
    pub list: Seq<char>,
}

/// One row of the table of sends.
#[derive(Debug)]
pub struct SendRow {
    pub id: i64,
    pub post_url: String,
    pub subject: Option<String>,
    pub sent_at: i64,
    pub recipient_count: Option<i64>,
    pub body_html: Option<String>,
    pub list: String,
}

/// What a row of the table of sends says.
#[verifier::ext_equal]
pub ghost struct SendRowView {
    pub id: i64,
    pub post_url: Seq<char>,
    pub subject: Option<Seq<char>>,
    pub sent_at: i64,
    pub recipient_count: Option<i64>,
    pub body_html: Option<Seq<char>>,
    pub list: Seq<char>,
}

impl View for SubscriberRow {
    type V = SubscriberRowView;

    open spec fn view(&self) -> SubscriberRowView {
        SubscriberRowView {
            id: self.id,
            email: self.email@,
            status: self.status@,
            confirm_token: text::opt_view(self.confirm_token),
            unsubscribe_token: self.unsubscribe_token@,
            created_at: self.created_at,
            confirmed_at: self.confirmed_at,
            unsubscribed_at: self.unsubscribed_at,
            ip: text::opt_view(self.ip),
            list: self.list@,
        }
    }
}

impl View for SendRow {
    type V = SendRowView;

    open spec fn view(&self) -> SendRowView {
        SendRowView {
            id: self.id,
            post_url: self.post_url@,
            subject: text::opt_view(self.subject),
            sent_at: self.sent_at,
            recipient_count: self.recipient_count,
            body_html: text::opt_view(self.body_html),
            list: self.list@,
        }
    }
}

impl SubscriberRow {
    /// A row that says the same.
    pub fn copy(&self) -> (r: SubscriberRow)
        ensures
            r@ == self@,
    {
        SubscriberRow {
            id: self.id,
            email: self.email.clone(),
            status: self.status.clone(),
            confirm_token: copy_opt(&self.confirm_token),
            unsubscribe_token: self.unsubscribe_token.clone(),
            created_at: self.created_at,
            confirmed_at: self.confirmed_at,
            unsubscribed_at: self.unsubscribed_at,
            ip: copy_opt(&self.ip),
            list: self.list.clone(),
        }
    }
}

impl SendRow {
    /// A row that says the same.
    pub fn copy(&self) -> (r: SendRow)
        ensures
            r@ == self@,
    {
        SendRow {
            id: self.id,
            post_url: self.post_url.clone(),
            subject: copy_opt(&self.subject),
            sent_at: self.sent_at,
            recipient_count: self.recipient_count,
            body_html: copy_opt(&self.body_html),
            list: self.list.clone(),
        }
    }
}

// ---------- Tables ----------

/// The contents of the two tables, each in the order of its ids, and the counter that the stored
/// tables keep of the ids that each has given out.
#[verifier::ext_equal]
pub ghost struct Tables {
    pub subscribers: Seq<SubscriberRowView>,
    pub sends: Seq<SendRowView>,
    pub last_subscriber: i64,
    pub last_send: i64,
}

/// The rows of subscribers stand in the order of their ids.
pub open spec fn subscribers_ordered(rows: Seq<SubscriberRowView>) -> bool {
    forall|i: int, j: int| 0 <= i < j < rows.len() ==> rows[i].id < rows[j].id
}

/// The rows of sends stand in the order of their ids.
pub open spec fn sends_ordered(rows: Seq<SendRowView>) -> bool {
    forall|i: int, j: int| 0 <= i < j < rows.len() ==> rows[i].id < rows[j].id
}

/// The larger of two numbers.
pub open spec fn later(a: i64, b: i64) -> i64 {
    if a < b {
        b
    } else {
        a
    }
}

impl Tables {
    /// Both tables are in order.
    pub open spec fn ordered(self) -> bool {
        &&& subscribers_ordered(self.subscribers)
        &&& sends_ordered(self.sends)
    }

    /// The id behind which the next subscriber comes: the largest that is there or was given out.
    pub open spec fn top_subscriber(self) -> i64 {
        later(
            self.last_subscriber,
            if self.subscribers.len() == 0 {
                0
            } else {
                self.subscribers.last().id
            },
        )
    }

    /// The id behind which the next send comes: the largest that is there or was given out.
    pub open spec fn top_send(self) -> i64 {
        later(
            self.last_send,
            if self.sends.len() == 0 {
                0
            } else {
                self.sends.last().id
            },
        )
    }
}

// ---------- Changes ----------

/// One change to a stored table.
#[derive(Debug)]
pub enum Change {
    /// Write this row over the one with its id, or behind all others where there is none.
    PutSubscriber(SubscriberRow),
    /// Remove the row with this id.
    RemoveSubscriber(i64),
    /// Write this row over the one with its id, or behind all others where there is none.
    PutSend(SendRow),
}

/// What a change says.
#[verifier::ext_equal]
pub ghost enum ChangeView {
    PutSubscriber(SubscriberRowView),
    RemoveSubscriber(i64),
    PutSend(SendRowView),
}

impl View for Change {
    type V = ChangeView;

    open spec fn view(&self) -> ChangeView {
        match self {
            Change::PutSubscriber(r) => ChangeView::PutSubscriber(r@),
            Change::RemoveSubscriber(id) => ChangeView::RemoveSubscriber(*id),
            Change::PutSend(r) => ChangeView::PutSend(r@),
        }
    }
}

/// Some row of subscribers has this id.
pub open spec fn has_subscriber(rows: Seq<SubscriberRowView>, id: i64) -> bool {
    exists|i: int| 0 <= i < rows.len() && (#[trigger] rows[i]).id == id
}

/// Some row of sends has this id.
pub open spec fn has_send(rows: Seq<SendRowView>, id: i64) -> bool {
    exists|i: int| 0 <= i < rows.len() && (#[trigger] rows[i]).id == id
}

/// `rows` with `row` written over the one with its id, or behind all others.
pub open spec fn put_subscriber(
    rows: Seq<SubscriberRowView>,
    row: SubscriberRowView,
) -> Seq<SubscriberRowView> {
    if has_subscriber(rows, row.id) {
        rows.map_values(
            |r: SubscriberRowView|
                if r.id == row.id {
                    row
                } else {
                    r
                },
        )
    } else {
        rows.push(row)
    }
}

/// `rows` with `row` written over the one with its id, or behind all others.
pub open spec fn put_send(rows: Seq<SendRowView>, row: SendRowView) -> Seq<SendRowView> {
    if has_send(rows, row.id) {
        rows.map_values(
            |r: SendRowView|
                if r.id == row.id {
                    row
                } else {
                    r
                },
        )
    } else {
        rows.push(row)
    }
}

/// The tables after one change. A row that is written over leaves the counter as it is.
pub open spec fn changed(t: Tables, c: ChangeView) -> Tables {
    match c {
        ChangeView::PutSubscriber(row) => Tables {
            subscribers: put_subscriber(t.subscribers, row),
            last_subscriber: if has_subscriber(t.subscribers, row.id) {
                t.last_subscriber
            } else {
                later(t.last_subscriber, row.id)
            },
            ..t
        },
        ChangeView::RemoveSubscriber(id) => Tables {
            subscribers: t.subscribers.filter(|r: SubscriberRowView| r.id != id),
            ..t
        },
        ChangeView::PutSend(row) => Tables {
            sends: put_send(t.sends, row),
            last_send: if has_send(t.sends, row.id) {
                t.last_send
            } else {
                later(t.last_send, row.id)
            },
            ..t
        },
    }
}

/// The tables after a series of changes.
pub open spec fn replayed(t: Tables, changes: Seq<ChangeView>) -> Tables
    decreases changes.len(),
{
    if changes.len() == 0 {
        t
    } else {
        changed(replayed(t, changes.drop_last()), changes.last())
    }
}

// ---------- Facts about rows ----------

/// A filter that every item passes leaves the sequence as it is.
pub proof fn filter_keeps_all<A>(s: Seq<A>, pred: spec_fn(A) -> bool)
    requires
        forall|i: int| 0 <= i < s.len() ==> pred(#[trigger] s[i]),
    ensures
        s.filter(pred) == s,
    decreases s.len(),
{
    reveal(Seq::filter);
    if s.len() > 0 {
        assert forall|i: int| 0 <= i < s.drop_last().len() implies pred(
            #[trigger] s.drop_last()[i],
        ) by {
            assert(s.drop_last()[i] == s[i]);
        }
        filter_keeps_all(s.drop_last(), pred);
        assert(pred(s[s.len() - 1]));
        assert(s.drop_last().push(s.last()) =~= s);
    }
}

/// What a filter makes of a sequence with one more item behind.
pub proof fn filter_of_push<A>(s: Seq<A>, a: A, pred: spec_fn(A) -> bool)
    ensures
        s.push(a).filter(pred) == if pred(a) {
            s.filter(pred).push(a)
        } else {
            s.filter(pred)
        },
{
    reveal(Seq::filter);
    assert(s.push(a).drop_last() =~= s);
}

/// Where the items that pass a filter stood before: in the same order.
pub proof fn filter_places<A>(s: Seq<A>, pred: spec_fn(A) -> bool) -> (places: Seq<int>)
    ensures
        places.len() == s.filter(pred).len(),
        forall|k: int|
            0 <= k < places.len() ==> 0 <= (#[trigger] places[k]) < s.len() && s.filter(pred)[k]
                == s[places[k]] && pred(s[places[k]]),
        forall|k: int, m: int|
            0 <= k < m < places.len() ==> (#[trigger] places[k]) < (#[trigger] places[m]),
        forall|i: int|
            0 <= i < s.len() && pred(#[trigger] s[i]) ==> s.filter(pred).contains(s[i]),
    decreases s.len(),
{
    reveal(Seq::filter);
    if s.len() == 0 {
        Seq::empty()
    } else {
        let front = s.drop_last();
        let before = filter_places(front, pred);
        let out = s.filter(pred);
        let places = if pred(s.last()) {
            before.push(s.len() - 1)
        } else {
            before
        };
        assert forall|k: int| 0 <= k < places.len() implies 0 <= (#[trigger] places[k]) < s.len()
            && out[k] == s[places[k]] && pred(s[places[k]]) by {
            if k < before.len() {
                assert(places[k] == before[k]);
                assert(out[k] == front.filter(pred)[k]);
            }
        }
        assert forall|k: int, m: int| 0 <= k < m < places.len() implies (#[trigger] places[k]) < (
        #[trigger] places[m]) by {
            assert(places[k] == before[k]);
            if m < before.len() {
                assert(places[m] == before[m]);
            }
        }
        assert forall|i: int| 0 <= i < s.len() && pred(#[trigger] s[i]) implies out.contains(
            s[i],
        ) by {
            if i < front.len() {
                assert(front[i] == s[i]);
                let k = front.filter(pred).index_of(s[i]);
                assert(out[k] == s[i]);
            } else {
                assert(out[out.len() - 1] == s[i]);
            }
        }
        places
    }
}

/// To write over a row is to update it in place.
proof fn put_updates(rows: Seq<SubscriberRowView>, i: int, row: SubscriberRowView)
    requires
        subscribers_ordered(rows),
        0 <= i < rows.len(),
        rows[i].id == row.id,
    ensures
        put_subscriber(rows, row) == rows.update(i, row),
{
    assert forall|j: int| 0 <= j < rows.len() && j != i implies rows[j].id != row.id by {
        if j < i {
            assert(rows[j].id < rows[i].id);
        } else {
            assert(rows[i].id < rows[j].id);
        }
    }
    assert(put_subscriber(rows, row) =~= rows.update(i, row));
}

/// To remove the row with some id is to remove it at its place.
proof fn filter_removes(rows: Seq<SubscriberRowView>, i: int)
    requires
        subscribers_ordered(rows),
        0 <= i < rows.len(),
    ensures
        rows.filter(|r: SubscriberRowView| r.id != rows[i].id) == rows.remove(i),
{
    let id = rows[i].id;
    let pred = |r: SubscriberRowView| r.id != id;
    let a = rows.take(i);
    let b = rows.skip(i + 1);
    assert(rows =~= a.push(rows[i]) + b);
    assert forall|j: int| 0 <= j < a.len() implies pred(#[trigger] a[j]) by {
        assert(rows[j].id < rows[i].id);
    }
    assert forall|j: int| 0 <= j < b.len() implies pred(#[trigger] b[j]) by {
        assert(rows[i].id < rows[i + 1 + j].id);
    }
    filter_keeps_all(a, pred);
    filter_keeps_all(b, pred);
    filter_of_push(a, rows[i], pred);
    Seq::filter_distributes_over_add(a.push(rows[i]), b, pred);
    assert(rows.remove(i) =~= a + b);
}

// ---------- The database ----------

/// The two tables, as they were loaded and as they are now, and the changes in between.
pub struct Database {
    subscribers: Vec<SubscriberRow>,
    sends: Vec<SendRow>,
    last_subscriber: i64,
    last_send: i64,
    changes: Vec<Change>,
    loaded: Ghost<Tables>,
}

/// What some rows of subscribers say.
pub open spec fn subscriber_views(rows: Seq<SubscriberRow>) -> Seq<SubscriberRowView> {
    rows.map_values(|r: SubscriberRow| r@)
}

/// What some rows of sends say.
pub open spec fn send_views(rows: Seq<SendRow>) -> Seq<SendRowView> {
    rows.map_values(|r: SendRow| r@)
}

/// What some changes say.
pub open spec fn change_views(changes: Seq<Change>) -> Seq<ChangeView> {
    changes.map_values(|c: Change| c@)
}

impl View for Database {
    type V = Tables;

    closed spec fn view(&self) -> Tables {
        Tables {
            subscribers: subscriber_views(self.subscribers@),
            sends: send_views(self.sends@),
            last_subscriber: self.last_subscriber,
            last_send: self.last_send,
        }
    }
}

impl Database {
    /// The tables as they were loaded.
    pub closed spec fn loaded(&self) -> Tables {
        self.loaded@
    }

    /// The changes since then.
    pub closed spec fn journal(&self) -> Seq<ChangeView> {
        change_views(self.changes@)
    }

    /// The tables are in order, and the journal leads from what was loaded to what is there.
    pub open spec fn wf(&self) -> bool {
        &&& self@.ordered()
        &&& replayed(self.loaded(), self.journal()) == self@
    }

    /// Takes up the stored tables: their rows, in the order of their ids, and the counter of the ids
    /// that each table has given out. Rows that are out of order are refused.
    pub fn load(
        subscribers: Vec<SubscriberRow>,
        sends: Vec<SendRow>,
        last_subscriber: i64,
        last_send: i64,
    ) -> (r: Option<Database>)
        ensures
            ({
                let t = Tables {
                    subscribers: subscriber_views(subscribers@),
                    sends: send_views(sends@),
                    last_subscriber,
                    last_send,
                };
                match r {
                    Some(db) => {
                        &&& t.ordered()
                        &&& db.wf()
                        &&& db@ == t
                        &&& db.loaded() == t
                        &&& db.journal() == Seq::<ChangeView>::empty()
                    },
                    None => !t.ordered(),
                }
            }),
    {
        let ghost t = Tables {
            subscribers: subscriber_views(subscribers@),
            sends: send_views(sends@),
            last_subscriber,
            last_send,
        };
        let mut i: usize = 0;
        while i < subscribers.len()
            invariant
                i <= subscribers@.len(),
                t.subscribers == subscriber_views(subscribers@),
                forall|a: int, b: int|
                    0 <= a < b < i ==> t.subscribers[a].id < t.subscribers[b].id,
            decreases subscribers@.len() - i,
        {
            assert(t.subscribers[i as int].id == subscribers@[i as int].id);
            if i > 0 && subscribers[i - 1].id >= subscribers[i].id {
                assert(t.subscribers[i - 1].id == subscribers@[i - 1].id);
                return None;
            }
            if i > 0 {
                assert(t.subscribers[i - 1].id == subscribers@[i - 1].id);
            }
            i += 1;
        }
        let mut i: usize = 0;
        while i < sends.len()
            invariant
                i <= sends@.len(),
                t.sends == send_views(sends@),
                forall|a: int, b: int| 0 <= a < b < i ==> t.sends[a].id < t.sends[b].id,
            decreases sends@.len() - i,
        {
            assert(t.sends[i as int].id == sends@[i as int].id);
            if i > 0 && sends[i - 1].id >= sends[i].id {
                assert(t.sends[i - 1].id == sends@[i - 1].id);
                return None;
            }
            if i > 0 {
                assert(t.sends[i - 1].id == sends@[i - 1].id);
            }
            i += 1;
        }
        let db: Database = Database {
            subscribers,
            sends,
            last_subscriber,
            last_send,
            changes: Vec::new(),
            loaded: Ghost(t),
        };
        assert(db.journal() =~= Seq::<ChangeView>::empty());
        Some(db)
    }

    /// The changes that bring the loaded tables to the state of this database.
    pub fn changes(&self) -> (r: &Vec<Change>)
        requires
            self.wf(),
        ensures
            change_views(r@) == self.journal(),
            replayed(self.loaded(), change_views(r@)) == self@,
    {
        &self.changes
    }

    /// The number of subscribers, over all lists.
    pub fn subscriber_count(&self) -> (r: usize)
        ensures
            r == self@.subscribers.len(),
    {
        self.subscribers.len()
    }

    /// The number of sends, over all lists.
    pub fn send_count(&self) -> (r: usize)
        ensures
            r == self@.sends.len(),
    {
        self.sends.len()
    }

    /// The subscriber at a place in the table.
    pub fn subscriber(&self, i: usize) -> (r: &SubscriberRow)
        requires
            i < self@.subscribers.len(),
        ensures
            r@ == self@.subscribers[i as int],
    {
        &self.subscribers[i]
    }

    /// The send at a place in the table.
    pub fn sent(&self, i: usize) -> (r: &SendRow)
        requires
            i < self@.sends.len(),
        ensures
            r@ == self@.sends[i as int],
    {
        &self.sends[i]
    }

    /// The counter of the ids that the table of subscribers has given out.
    pub fn last_subscriber(&self) -> (r: i64)
        ensures
            r == self@.last_subscriber,
    {
        self.last_subscriber
    }

    /// The counter of the ids that the table of sends has given out.
    pub fn last_send(&self) -> (r: i64)
        ensures
            r == self@.last_send,
    {
        self.last_send
    }

    /// The id behind which the next subscriber comes.
    pub fn top_subscriber(&self) -> (r: i64)
        ensures
            r == self@.top_subscriber(),
    {
        let n: usize = self.subscribers.len();
        let largest: i64 = if n == 0 {
            0
        } else {
            self.subscribers[n - 1].id
        };
        if self.last_subscriber < largest {
            largest
        } else {
            self.last_subscriber
        }
    }

    /// The id behind which the next send comes.
    pub fn top_send(&self) -> (r: i64)
        ensures
            r == self@.top_send(),
    {
        let n: usize = self.sends.len();
        let largest: i64 = if n == 0 {
            0
        } else {
            self.sends[n - 1].id
        };
        if self.last_send < largest {
            largest
        } else {
            self.last_send
        }
    }

    /// Writes over the row at a place in the table.
    pub(crate) fn rewrite(&mut self, i: usize, row: SubscriberRow)
        requires
            old(self).wf(),
            i < old(self)@.subscribers.len(),
            row.id == old(self)@.subscribers[i as int].id,
        ensures
            final(self).wf(),
            final(self).loaded() == old(self).loaded(),
            final(self)@ == (Tables {
                subscribers: old(self)@.subscribers.update(i as int, row@),
                ..old(self)@
            }),
    {
        let ghost before = self@;
        let ghost view = row@;
        let entry: SubscriberRow = row.copy();
        let ghost past = self.journal();
        self.changes.push(Change::PutSubscriber(entry));
        self.subscribers.set(i, row);
        proof {
            put_updates(before.subscribers, i as int, view);
            assert(has_subscriber(before.subscribers, before.subscribers[i as int].id));
            assert(self.journal() =~= past.push(ChangeView::PutSubscriber(view)));
            assert(self.journal().drop_last() =~= past);
            assert(self@.subscribers =~= before.subscribers.update(i as int, view));
        }
    }

    /// Adds a row under the next id.
    pub(crate) fn add_subscriber(&mut self, row: SubscriberRow)
        requires
            old(self).wf(),
            row.id == old(self)@.top_subscriber() + 1,
        ensures
            final(self).wf(),
            final(self).loaded() == old(self).loaded(),
            final(self)@ == (Tables {
                subscribers: old(self)@.subscribers.push(row@),
                last_subscriber: row.id,
                ..old(self)@
            }),
    {
        let ghost before = self@;
        let ghost view = row@;
        let ghost past = self.journal();
        let entry: SubscriberRow = row.copy();
        self.changes.push(Change::PutSubscriber(entry));
        self.last_subscriber = row.id;
        self.subscribers.push(row);
        proof {
            assert(self.journal() =~= past.push(ChangeView::PutSubscriber(view)));
            assert(self.journal().drop_last() =~= past);
            assert(self@.subscribers =~= before.subscribers.push(view));
        }
    }

    /// Removes the row at a place in the table.
    pub(crate) fn remove_subscriber(&mut self, i: usize)
        requires
            old(self).wf(),
            i < old(self)@.subscribers.len(),
        ensures
            final(self).wf(),
            final(self).loaded() == old(self).loaded(),
            final(self)@ == (Tables {
                subscribers: old(self)@.subscribers.remove(i as int),
                ..old(self)@
            }),
    {
        let ghost before = self@;
        let ghost past = self.journal();
        let id: i64 = self.subscribers[i].id;
        self.changes.push(Change::RemoveSubscriber(id));
        let _removed: SubscriberRow = self.subscribers.remove(i);
        proof {
            filter_removes(before.subscribers, i as int);
            assert(self.journal() =~= past.push(ChangeView::RemoveSubscriber(id)));
            assert(self.journal().drop_last() =~= past);
            assert(self@.subscribers =~= before.subscribers.remove(i as int));
        }
    }

    /// Adds a send under the next id.
    pub(crate) fn add_send(&mut self, row: SendRow)
        requires
            old(self).wf(),
            row.id == old(self)@.top_send() + 1,
        ensures
            final(self).wf(),
            final(self).loaded() == old(self).loaded(),
            final(self)@ == (Tables {
                sends: old(self)@.sends.push(row@),
                last_send: row.id,
                ..old(self)@
            }),
    {
        let ghost before = self@;
        let ghost view = row@;
        let ghost past = self.journal();
        let entry: SendRow = row.copy();
        self.changes.push(Change::PutSend(entry));
        self.last_send = row.id;
        self.sends.push(row);
        proof {
            assert(self.journal() =~= past.push(ChangeView::PutSend(view)));
            assert(self.journal().drop_last() =~= past);
            assert(self@.sends =~= before.sends.push(view));
        }
    }
}

} // verus!
