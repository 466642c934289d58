//! Store events and their buffering: an insert into an actor's inbox or outbox table
//! becomes a `DBEvent`; events are buffered until there are enough of them or the oldest
//! has waited long enough, and are then handed over to be persisted together.
use vstd::prelude::*;
use crate::ids::Timestamp;
use std::time::Instant;
use crate::text::{chars_of, split_two, first_piece, second_piece};

verus! {

/// The table-name prefix of actor inboxes.
pub const INBOX: &'static str = "inbox";
/// The table-name prefix of actor outboxes.
pub const OUTBOX: &'static str = "outbox";
/// Buffered events are flushed once there are this many.
pub const BUFFER_MAX_SIZE: usize = 5;
/// Bucketed events are persisted once there are this many.
pub const BUCKET_MAX_SIZE: usize = 5;
/// Buffered events are flushed once the oldest is this many seconds old.
pub const EVENT_MAX_AGE: u64 = 1;

/// An insert into a message table: the table's name and the inserted row id.
pub struct DBEvent(pub String, pub i64);

/// The kind of change a store update reports.
#[derive(PartialEq, Eq, Structural, Clone, Copy, Debug)]
pub enum DBAction {
    Insert,
    Delete,
    Update,
    Unknown,
}

/// The abstract value of a [`DBEvent`].
pub struct DBEventView {
    pub table: Seq<char>,
    pub row_id: i64,
}

impl View for DBEvent {
    type V = DBEventView;

    open spec fn view(&self) -> DBEventView {
        DBEventView { table: self.0@, row_id: self.1 }
    }
}

/// The views of a sequence of events.
pub open spec fn event_views(v: Seq<DBEvent>) -> Seq<DBEventView> {
    v.map_values(|e: DBEvent| e@)
}

/// Whether `p` is a prefix of `s`.
pub open spec fn has_prefix(s: Seq<char>, p: Seq<char>) -> bool {
    p.len() <= s.len() && s.take(p.len() as int) == p
}

fn starts_with(s: &str, p: &str) -> (b: bool)
    ensures
        b == has_prefix(s@, p@),
{
    let sv = chars_of(s);
    let pv = chars_of(p);
    if pv.len() > sv.len() {
        return false;
    }
    let mut i: usize = 0;
    while i < pv.len()
        invariant
            pv.len() <= sv.len(),
            i <= pv.len(),
            sv@ == s@,
            pv@ == p@,
            forall|j: int| 0 <= j < i ==> sv@[j] == pv@[j],
        decreases pv.len() - i,
    {
        if sv[i] != pv[i] {
            assert(s@.take(p@.len() as int)[i as int] != p@[i as int]);
            return false;
        }
        i = i + 1;
    }
    assert(s@.take(p@.len() as int) == p@);
    true
}

fn text_equals(s: &str, t: &str) -> (b: bool)
    ensures
        b == (s@ == t@),
{
    let sv = chars_of(s);
    let tv = chars_of(t);
    if sv.len() != tv.len() {
        return false;
    }
    let b = starts_with(s, t);
    proof {
        assert(s@.len() == t@.len());
        assert(s@.take(t@.len() as int) =~= s@);
    }
    b
}

/// The event an update of table `tbl` reports: an insert into an inbox or outbox table
/// gives an event; other changes give none.
pub open spec fn update_event(action: DBAction, tbl: Seq<char>, row_id: i64) -> Option<DBEventView> {
    if action == DBAction::Insert && (has_prefix(tbl, "inbox"@) || has_prefix(tbl, "outbox"@)) {
        Some(DBEventView { table: tbl, row_id })
    } else {
        None
    }
}

impl DBEvent {
    /// Whether the event concerns the inbox table.
    pub fn is_inbound(&self) -> (b: bool)
        ensures
            b == (self@.table == "inbox"@),
    {
        text_equals(self.0.as_str(), INBOX)
    }

    /// The event for inserted row `row_id`, in the inbox table when `inbound`, else the
    /// outbox table.
    pub fn from_directed(row_id: i64, inbound: bool) -> (e: DBEvent)
        ensures
            e@ == (DBEventView { table: if inbound { "inbox"@ } else { "outbox"@ }, row_id }),
    {
        if inbound {
            DBEvent(INBOX.to_string(), row_id)
        } else {
            DBEvent(OUTBOX.to_string(), row_id)
        }
    }

    /// What the store's update hook records for a change of `tbl` at `row_id`.
    pub fn of_update(action: DBAction, tbl: &str, row_id: i64) -> (e: Option<DBEvent>)
        ensures
            match e {
                Some(e) => update_event(action, tbl@, row_id) == Some(e@),
                None => update_event(action, tbl@, row_id) is None,
            },
    {
        let of_interest = starts_with(tbl, INBOX) || starts_with(tbl, OUTBOX);
        if action == DBAction::Insert && of_interest {
            Some(DBEvent(tbl.to_string(), row_id))
        } else {
            None
        }
    }
}

// ---------------------------------------------------------------------------
// Time
// ---------------------------------------------------------------------------

/// A point in time in nanoseconds. A buffer's times are readings of its own monotonic
/// clock: the time passed since the buffer was made.
pub open spec fn nanos_of(t: Timestamp) -> int {
    t.secs * 1_000_000_000 + t.nanos
}

/// Whether at `now` at least `EVENT_MAX_AGE` seconds have passed since `since`.
pub open spec fn aged(since: Timestamp, now: Timestamp) -> bool {
    nanos_of(now) - nanos_of(since) >= EVENT_MAX_AGE * 1_000_000_000
}

fn has_aged(since: Timestamp, now: Timestamp) -> (b: bool)
    ensures
        b == aged(since, now),
{
    let a = since.secs as u128 * 1_000_000_000 + since.nanos as u128;
    let n = now.secs as u128 * 1_000_000_000 + now.nanos as u128;
    n >= a && n - a >= EVENT_MAX_AGE as u128 * 1_000_000_000
}

/// std's monotonic clock reading.
#[verifier::external_type_specification]
#[verifier::external_body]
pub struct ExInstant(std::time::Instant);

/// std's `Instant::now`: a reading of the monotonic clock. Nothing is stated of it.
#[verifier::external_body]
fn instant_now() -> Instant {
    Instant::now()
}

/// std's `Instant::elapsed`: the time passed on the monotonic clock since `anchor`, as
/// seconds and nanoseconds. Only the range of the nanoseconds is stated.
#[verifier::external_body]
fn elapsed_since(anchor: &Instant) -> (t: Timestamp)
    ensures
        t.nanos < 1_000_000_000,
{
    let d = anchor.elapsed();
    Timestamp { secs: d.as_secs(), nanos: d.subsec_nanos() }
}

// ---------------------------------------------------------------------------
// Buffers
// ---------------------------------------------------------------------------

/// Events waiting to be persisted, with the time the first of them arrived.
pub struct EventBuffer {
    events: Vec<DBEvent>,
    first_event_receipt_at: Option<Timestamp>,
    clock: Instant,
}

/// The abstract value of an [`EventBuffer`] or an [`EventBucket`].
pub struct BufferView {
    pub events: Seq<DBEventView>,
    pub first: Option<Timestamp>,
}

impl View for EventBuffer {
    type V = BufferView;

    closed spec fn view(&self) -> BufferView {
        BufferView { events: event_views(self.events@), first: self.first_event_receipt_at }
    }
}

/// Whether the buffer holds at least `max` events.
pub open spec fn overflown(b: BufferView, max: nat) -> bool {
    b.events.len() >= max
}

/// Whether the first buffered event is at least `EVENT_MAX_AGE` seconds old at `now`.
pub open spec fn matured(b: BufferView, now: Timestamp) -> bool {
    match b.first {
        None => false,
        Some(t) => aged(t, now),
    }
}

/// The buffer after `e` arrives at `now`: appended, and the arrival time recorded when it
/// is the only event.
pub open spec fn added(b: BufferView, e: DBEventView, now: Timestamp) -> BufferView {
    BufferView {
        events: b.events.push(e),
        first: if b.events.len() == 0 { Some(now) } else { b.first },
    }
}

impl EventBuffer {
    /// An empty buffer.
    pub fn new() -> (b: EventBuffer)
        ensures
            b@ == (BufferView { events: seq![], first: None }),
    {
        let b = EventBuffer { events: Vec::new(), first_event_receipt_at: None, clock: instant_now() };
        assert(event_views(b.events@) =~= seq![]);
        b
    }

    /// Whether the buffer is full.
    pub fn overflown(&self) -> (b: bool)
        ensures
            b == overflown(self@, BUFFER_MAX_SIZE as nat),
    {
        self.events.len() >= BUFFER_MAX_SIZE
    }

    /// Whether the first buffered event is old enough at `now`.
    pub fn has_matured_at(&self, now: Timestamp) -> (b: bool)
        ensures
            b == matured(self@, now),
    {
        match self.first_event_receipt_at {
            None => false,
            Some(t) => has_aged(t, now),
        }
    }

    /// Whether the first buffered event is old enough now; never without a first event.
    pub fn has_matured(&self) -> (b: bool)
        ensures
            self@.first is None ==> !b,
            exists|now: Timestamp| now.nanos < 1_000_000_000 && #[trigger] matured(self@, now) == b,
    {
        let now = elapsed_since(&self.clock);
        let b = self.has_matured_at(now);
        assert(matured(self@, now) == b);
        b
    }

    /// Whether the buffer should be flushed at `now`: full, or old enough.
    pub fn should_flush_at(&self, now: Timestamp) -> (b: bool)
        ensures
            b == (overflown(self@, BUFFER_MAX_SIZE as nat) || matured(self@, now)),
    {
        self.overflown() || self.has_matured_at(now)
    }

    /// Whether the buffer should be flushed now; always when it is full.
    pub fn should_flush(&self) -> (b: bool)
        ensures
            overflown(self@, BUFFER_MAX_SIZE as nat) ==> b,
            !overflown(self@, BUFFER_MAX_SIZE as nat) && self@.first is None ==> !b,
    {
        self.should_flush_at(elapsed_since(&self.clock))
    }

    /// Buffers `event`, arrived at `now`.
    pub fn add_at(&mut self, event: DBEvent, now: Timestamp)
        ensures
            final(self)@ == added(old(self)@, event@, now),
    {
        let ghost e = event@;
        self.events.push(event);
        assert(event_views(self.events@) == event_views(old(self).events@).push(e));
        if self.events.len() == 1 {
            self.first_event_receipt_at = Some(now);
        }
    }

    /// Buffers `event`, arriving now.
    pub fn add(&mut self, event: DBEvent)
        ensures
            final(self)@.events == old(self)@.events.push(event@),
            old(self)@.events.len() > 0 ==> final(self)@.first == old(self)@.first,
            old(self)@.events.len() == 0 ==> final(self)@.first is Some,
    {
        self.add_at(event, elapsed_since(&self.clock));
    }

    /// Takes all buffered events out, in arrival order; the arrival time stays recorded.
    pub fn flush(&mut self) -> (v: Vec<DBEvent>)
        ensures
            event_views(v@) == old(self)@.events,
            final(self)@ == (BufferView { events: seq![], first: old(self)@.first }),
    {
        let mut out: Vec<DBEvent> = Vec::new();
        std::mem::swap(&mut out, &mut self.events);
        assert(event_views(self.events@) == Seq::<DBEventView>::empty());
        out
    }
}

/// The views of optional events.
pub open spec fn opt_event_views(o: Option<Vec<DBEvent>>) -> Option<Seq<DBEventView>> {
    match o {
        Some(v) => Some(event_views(v@)),
        None => None,
    }
}

/// Events waiting to be persisted together (the subscriber side of the store hook).
pub struct EventBucket {
    events: Vec<DBEvent>,
    oldest_receipt_instant: Option<Timestamp>,
    clock: Instant,
}

impl View for EventBucket {
    type V = BufferView;

    closed spec fn view(&self) -> BufferView {
        BufferView { events: event_views(self.events@), first: self.oldest_receipt_instant }
    }
}

impl EventBucket {
    /// An empty bucket.
    pub fn new() -> (b: EventBucket)
        ensures
            b@ == (BufferView { events: seq![], first: None }),
    {
        let b = EventBucket { events: Vec::new(), oldest_receipt_instant: None, clock: instant_now() };
        assert(event_views(b.events@) =~= seq![]);
        b
    }

    /// Whether the bucket is full.
    pub fn overflown(&self) -> (b: bool)
        ensures
            b == overflown(self@, BUCKET_MAX_SIZE as nat),
    {
        self.events.len() >= BUCKET_MAX_SIZE
    }

    /// Whether the oldest event is old enough at `now`.
    pub fn oldest_matured_at(&self, now: Timestamp) -> (b: bool)
        ensures
            b == matured(self@, now),
    {
        match self.oldest_receipt_instant {
            None => false,
            Some(t) => has_aged(t, now),
        }
    }

    /// Whether the oldest event is old enough now; never without an event time.
    pub fn oldest_matured(&self) -> (b: bool)
        ensures
            self@.first is None ==> !b,
            exists|now: Timestamp| now.nanos < 1_000_000_000 && #[trigger] matured(self@, now) == b,
    {
        let now = elapsed_since(&self.clock);
        let b = self.oldest_matured_at(now);
        assert(matured(self@, now) == b);
        b
    }

    /// Whether the bucket should be persisted at `now`: full, or old enough.
    pub fn should_persist_events_at(&self, now: Timestamp) -> (b: bool)
        ensures
            b == (overflown(self@, BUCKET_MAX_SIZE as nat) || matured(self@, now)),
    {
        self.overflown() || self.oldest_matured_at(now)
    }

    /// Puts `event`, arrived at `now`, into the bucket; when the bucket then should be
    /// persisted, its events are taken out and returned, in arrival order, for delivery.
    pub fn add_event_at(&mut self, event: DBEvent, now: Timestamp) -> (delivered: Option<Vec<DBEvent>>)
        ensures
            (opt_event_views(delivered), final(self)@) == bucket_step(old(self)@, event@, now),
    {
        let ghost e = event@;
        self.events.push(event);
        assert(event_views(self.events@) == event_views(old(self).events@).push(e));
        if self.events.len() == 1 {
            self.oldest_receipt_instant = Some(now);
        }
        if self.should_persist_events_at(now) {
            let mut out: Vec<DBEvent> = Vec::new();
            std::mem::swap(&mut out, &mut self.events);
            assert(event_views(self.events@) == Seq::<DBEventView>::empty());
            Some(out)
        } else {
            None
        }
    }

    /// Puts `event`, arriving now, into the bucket and returns the events to deliver, if
    /// the bucket should be persisted. A full bucket is always delivered.
    pub fn add_event(&mut self, event: DBEvent) -> (delivered: Option<Vec<DBEvent>>)
        ensures
            old(self)@.events.len() + 1 >= BUCKET_MAX_SIZE ==> delivered is Some,
            match delivered {
                Some(v) => event_views(v@) == old(self)@.events.push(event@) && final(self)@.events.len() == 0,
                None => final(self)@.events == old(self)@.events.push(event@),
            },
    {
        self.add_event_at(event, elapsed_since(&self.clock))
    }
}

// ---------------------------------------------------------------------------
// Recording events per actor
// ---------------------------------------------------------------------------

/// How many events the recorder holds before it hands them over to be persisted.
pub const RECORDER_CAPACITY: usize = 1000;

/// The actor of a message table: the table name up to its first `_`; none without one.
pub open spec fn table_actor(tbl: Seq<char>) -> Option<Seq<char>> {
    if second_piece(tbl, '_') is Some {
        Some(first_piece(tbl, '_'))
    } else {
        None
    }
}

/// The rows that record `evs` as inbound events: each event's row id with the actor of its
/// table, in order; events of tables without an actor are left out.
pub open spec fn inbound_rows(evs: Seq<DBEventView>) -> Seq<(i64, Seq<char>)>
    decreases evs.len(),
{
    if evs.len() == 0 {
        seq![]
    } else {
        let rest = inbound_rows(evs.drop_last());
        match table_actor(evs.last().table) {
            Some(a) => rest.push((evs.last().row_id, a)),
            None => rest,
        }
    }
}

/// The views of recorded rows.
pub open spec fn row_views(v: Seq<(i64, String)>) -> Seq<(i64, Seq<char>)> {
    v.map_values(|r: (i64, String)| (r.0, r.1@))
}

/// The rows that record `events` (see [`inbound_rows`]).
pub fn rows_of(events: Vec<DBEvent>) -> (rows: Vec<(i64, String)>)
    ensures
        row_views(rows@) == inbound_rows(event_views(events@)),
{
    let ghost all = event_views(events@);
    let mut rows: Vec<(i64, String)> = Vec::new();
    for event in it: events.into_iter()
        invariant
            it.seq() == events@,
            all == event_views(events@),
            row_views(rows@) == inbound_rows(all.take(it.index() as int)),
    {
        let ghost k = it.index() as int;
        assert(event == events@[k]);
        assert(all.take(k + 1).drop_last() == all.take(k));
        let DBEvent(tbl, row_id) = event;
        let (actor, rest) = split_two(tbl.as_str(), '_');
        match rest {
            Some(_) => {
                let ghost before = rows@;
                rows.push((row_id, actor));
                assert(row_views(rows@) == row_views(before).push((row_id, actor@)));
            },
            None => {},
        }
    }
    assert(all.take(events@.len() as int) == all);
    rows
}

/// Events waiting to be recorded as inbound rows.
pub struct EventRecorder {
    events: Vec<DBEvent>,
}

impl View for EventRecorder {
    type V = Seq<DBEventView>;

    closed spec fn view(&self) -> Seq<DBEventView> {
        event_views(self.events@)
    }
}

impl EventRecorder {
    /// A recorder holding no events.
    pub fn new() -> (r: EventRecorder)
        ensures
            r@ == Seq::<DBEventView>::empty(),
    {
        let r = EventRecorder { events: Vec::new() };
        assert(r@ =~= Seq::<DBEventView>::empty());
        r
    }

    /// Records `event`: while fewer than [`RECORDER_CAPACITY`] events are held it is only
    /// kept; otherwise all held events and `event` are handed over as rows to persist.
    pub fn record_event(&mut self, event: DBEvent) -> (rows: Option<Vec<(i64, String)>>)
        ensures
            old(self)@.len() < RECORDER_CAPACITY ==> rows is None && final(self)@ == old(self)@.push(event@),
            old(self)@.len() >= RECORDER_CAPACITY ==> (rows matches Some(v) && row_views(v@) == inbound_rows(
                old(self)@.push(event@),
            )) && final(self)@ == Seq::<DBEventView>::empty(),
    {
        let ghost e = event@;
        if self.events.len() < RECORDER_CAPACITY {
            self.events.push(event);
            assert(self@ == old(self)@.push(e));
            return None;
        }
        self.events.push(event);
        assert(self@ == old(self)@.push(e));
        let mut held: Vec<DBEvent> = Vec::new();
        std::mem::swap(&mut held, &mut self.events);
        assert(self@ =~= Seq::<DBEventView>::empty());
        Some(rows_of(held))
    }

    /// Hands over all held events as rows to persist (when the recorder is dropped).
    pub fn drain(&mut self) -> (rows: Vec<(i64, String)>)
        ensures
            row_views(rows@) == inbound_rows(old(self)@),
            final(self)@ == Seq::<DBEventView>::empty(),
    {
        let mut held: Vec<DBEvent> = Vec::new();
        std::mem::swap(&mut held, &mut self.events);
        assert(self@ =~= Seq::<DBEventView>::empty());
        rows_of(held)
    }
}

// ---------------------------------------------------------------------------
// Laws
// ---------------------------------------------------------------------------

/// An event made for a direction tells that direction back: it is inbound exactly when it
/// was made for the inbox.
pub proof fn lemma_direction_round_trip(row_id: i64, inbound: bool)
    ensures
        (DBEventView { table: if inbound { "inbox"@ } else { "outbox"@ }, row_id }.table == "inbox"@) == inbound,
{
    reveal_strlit("inbox");
    reveal_strlit("outbox");
    if !inbound {
        assert("outbox"@[0] != "inbox"@[0]);
    }
}

/// What the bucket holds and delivers after `e` arrives at `now`: the events to deliver,
/// if it should be persisted, and the bucket afterwards.
pub open spec fn bucket_step(b: BufferView, e: DBEventView, now: Timestamp) -> (Option<Seq<DBEventView>>, BufferView) {
    let a = added(b, e, now);
    if overflown(a, BUCKET_MAX_SIZE as nat) || matured(a, now) {
        (Some(a.events), BufferView { events: seq![], first: a.first })
    } else {
        (None, a)
    }
}

/// No event is lost or repeated by the bucket: what it delivers, followed by what it still
/// holds, is what it held followed by the new event; and a full bucket always delivers.
pub proof fn lemma_bucket_conserves(b: BufferView, e: DBEventView, now: Timestamp)
    ensures
        match bucket_step(b, e, now).0 {
            Some(d) => d + bucket_step(b, e, now).1.events,
            None => bucket_step(b, e, now).1.events,
        } == b.events.push(e),
        b.events.len() + 1 >= BUCKET_MAX_SIZE ==> bucket_step(b, e, now).0 is Some,
{
    let a = added(b, e, now);
    if overflown(a, BUCKET_MAX_SIZE as nat) || matured(a, now) {
        assert(a.events + Seq::<DBEventView>::empty() =~= a.events);
    }
}

} // verus!
