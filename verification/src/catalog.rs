//! The catalog of a node: the actors it runs, how a message reaches an actor, how an actor's
//! replies are buffered and published, and how an actor that panics too often is evicted.
//!
//! An actor handles the messages addressed to it in sequence: a message whose sequence
//! number is below the actor's is one it has already handled, and is not handed to it again.
//! Each handled message advances the actor's sequence by one. The actor's replies are
//! buffered, signed with its address, and published together as one mail once the buffer
//! holds as many replies as the node's configured buffer size. An actor gets its start-up
//! signal when it is defined or restored, and its shut-down signal when it is replaced,
//! removed or evicted; its answers to them are recorded the same way, and signals leave its
//! sequence number as it was.
use vstd::prelude::*;
use std::collections::HashMap;
use crate::actor::Actor;
use crate::addr::{Addr, AddrView};
use crate::config::{Config, ConfigView};
use crate::mail::{
    Mail, MailView, Msg, msg_views, opt_mail_views, opt_mail_view, flatten_mails,
    mail_with_sender, opt_addr, mail_msgs, msg_routable, parted, MsgView,
};

verus! {

broadcast use vstd::std_specs::hash::group_hash_axioms;

// ---------------------------------------------------------------------------
// Panic watch
// ---------------------------------------------------------------------------

/// How many panics an actor may cause before it is evicted. Panics may come from corrupt
/// messages, so an actor is not evicted on its first one.
pub const PANIC_TOLERANCE: u8 = 3;

/// The number of panics recorded for actor `id`.
pub open spec fn panic_count(counts: Map<u64, u8>, id: u64) -> u8 {
    if counts.contains_key(id) {
        counts[id]
    } else {
        0
    }
}

/// Panic counts per actor id, and the actor whose panics are being counted now.
pub struct PanicWatch {
    watched: u64,
    counts: HashMap<u64, u8>,
}

/// The abstract value of a [`PanicWatch`].
pub struct PanicWatchView {
    pub watched: u64,
    pub counts: Map<u64, u8>,
}

impl View for PanicWatch {
    type V = PanicWatchView;

    closed spec fn view(&self) -> PanicWatchView {
        PanicWatchView { watched: self.watched, counts: self.counts@ }
    }
}

impl PanicWatch {
    /// A watch with no panics recorded.
    pub fn new() -> (w: PanicWatch)
        ensures
            w@ == (PanicWatchView { watched: 0, counts: Map::empty() }),
    {
        PanicWatch { watched: 0, counts: HashMap::new() }
    }

    /// The panic tolerance.
    pub fn tolerance() -> (t: u8)
        ensures
            t == PANIC_TOLERANCE,
    {
        PANIC_TOLERANCE
    }

    /// Makes `actor_id` the actor whose panics are counted.
    pub fn set_watch(&mut self, actor_id: u64)
        ensures
            final(self)@ == (PanicWatchView { watched: actor_id, ..old(self)@ }),
    {
        self.watched = actor_id;
    }

    /// Counts one panic of the watched actor.
    pub fn record_panic(&mut self)
        requires
            panic_count(old(self)@.counts, old(self)@.watched) < u8::MAX,
        ensures
            final(self)@ == (PanicWatchView {
                counts: old(self)@.counts.insert(
                    old(self)@.watched,
                    (panic_count(old(self)@.counts, old(self)@.watched) + 1) as u8,
                ),
                ..old(self)@
            }),
    {
        let id = self.watched;
        let c = self.count(id);
        self.counts.insert(id, c + 1);
    }

    /// Forgets the panics of `actor_id`.
    pub fn remove_watch(&mut self, actor_id: &u64)
        ensures
            final(self)@ == (PanicWatchView { counts: old(self)@.counts.remove(*actor_id), ..old(self)@ }),
    {
        self.counts.remove(actor_id);
    }

    /// Whether `actor_id` has panicked as often as the tolerance allows.
    pub fn has_exceeded_tolerance(&self, actor_id: u64) -> (b: bool)
        ensures
            b == (panic_count(self@.counts, actor_id) >= PANIC_TOLERANCE),
    {
        self.count(actor_id) >= PANIC_TOLERANCE
    }

    /// The number of panics recorded for `actor_id`.
    pub fn count(&self, actor_id: u64) -> (c: u8)
        ensures
            c == panic_count(self@.counts, actor_id),
    {
        match self.counts.get(&actor_id) {
            Some(c) => *c,
            None => 0,
        }
    }
}

// ---------------------------------------------------------------------------
// Mail with delivery details
// ---------------------------------------------------------------------------

/// Mail with its delivery details: whether it came in for local actors, its sequence
/// number, and sender and recipient.
pub enum RichMail {
    RichContent(Mail, bool, i64, Option<Addr>, Option<Addr>),
}

/// The abstract value of a [`RichMail`].
pub struct RichMailView {
    pub mail: MailView,
    pub inbound: bool,
    pub seq: i64,
    pub from: Option<AddrView>,
    pub to: Option<AddrView>,
}

impl View for RichMail {
    type V = RichMailView;

    open spec fn view(&self) -> RichMailView {
        match self {
            RichMail::RichContent(m, i, s, f, t) => RichMailView {
                mail: m@,
                inbound: *i,
                seq: *s,
                from: opt_addr(*f),
                to: opt_addr(*t),
            },
        }
    }
}

/// The view of an optional rich mail.
pub open spec fn opt_rich_view(o: Option<RichMail>) -> Option<RichMailView> {
    match o {
        Some(r) => Some(r@),
        None => None,
    }
}

fn copy_addr(a: &Option<Addr>) -> (r: Option<Addr>)
    ensures
        opt_addr(r) == opt_addr(*a),
{
    match a {
        Some(a) => Some(a.duplicate()),
        None => None,
    }
}

impl RichMail {
    /// Takes the mail out, leaving blank mail in its place.
    pub fn mail_out(&mut self) -> (m: Mail)
        ensures
            m@ == old(self)@.mail,
            final(self)@ == (RichMailView { mail: MailView::Blank, ..old(self)@ }),
    {
        match self {
            RichMail::RichContent(mail, _, _, _, _) => {
                let mut out = Mail::Blank;
                std::mem::swap(&mut out, mail);
                out
            },
        }
    }

    /// Replaces the mail by the messages `msgs`.
    pub fn replace_mail(&mut self, msgs: Vec<Msg>)
        ensures
            final(self)@ == (RichMailView { mail: MailView::Bulk(msg_views(msgs@)), ..old(self)@ }),
    {
        match self {
            RichMail::RichContent(mail, _, _, _, _) => {
                *mail = Mail::Bulk(msgs);
            },
        }
    }

    /// The recipient.
    pub fn to(&self) -> (a: Option<Addr>)
        ensures
            opt_addr(a) == self@.to,
    {
        match self {
            RichMail::RichContent(_, _, _, _, to) => copy_addr(to),
        }
    }

    /// The sequence number.
    pub fn seq(&self) -> (s: i64)
        ensures
            s == self@.seq,
    {
        match self {
            RichMail::RichContent(_, _, s, _, _) => *s,
        }
    }
}

// ---------------------------------------------------------------------------
// Running an actor
// ---------------------------------------------------------------------------

/// Tells that an actor panicked while it handled a message.
#[derive(Debug, Clone, Copy, PartialEq, Eq)]
pub struct ActorPanic;

/// An actor as the node runs it: a run either gives the actor's answer or tells that the
/// actor panicked.
pub trait Binary {
    /// Hands `mail` to the actor.
    fn execute(&mut self, mail: Mail, config: &Config) -> Result<Option<Mail>, ActorPanic>;

    /// Gives the actor its start-up signal.
    fn post_start(&mut self, mail: Mail, config: &Config) -> Result<Option<Mail>, ActorPanic>;

    /// Gives the actor its shut-down signal.
    fn pre_shutdown(&mut self, mail: Mail, config: &Config) -> Result<Option<Mail>, ActorPanic>;
}

/// The two signals an actor gets outside its stream of messages.
#[derive(PartialEq, Eq, Structural, Clone, Copy, Debug)]
pub enum Signal {
    /// On definition or restoration.
    PostStart,
    /// On removal or eviction.
    PreShutdown,
}

/// An actor run as it is, with no panic caught: every run gives its answer.
pub struct Unguarded<A>(pub A);

impl<A: Actor> Binary for Unguarded<A> {
    fn execute(&mut self, mail: Mail, config: &Config) -> (r: Result<Option<Mail>, ActorPanic>)
        ensures
            r is Ok,
    {
        Ok(self.0.receive(mail, config))
    }

    fn post_start(&mut self, mail: Mail, config: &Config) -> (r: Result<Option<Mail>, ActorPanic>)
        ensures
            r is Ok,
    {
        Ok(self.0.post_start(mail, config))
    }

    fn pre_shutdown(&mut self, mail: Mail, config: &Config) -> (r: Result<Option<Mail>, ActorPanic>)
        ensures
            r is Ok,
    {
        Ok(self.0.pre_shutdown(mail, config))
    }
}

fn copy_mail(m: &Mail) -> (r: Mail)
    ensures
        r@ == m@,
{
    match m {
        Mail::Trade(msg) => Mail::Trade(msg.duplicate()),
        Mail::Bulk(msgs) => {
            let mut out: Vec<Msg> = Vec::new();
            let mut i: usize = 0;
            while i < msgs.len()
                invariant
                    i <= msgs.len(),
                    msg_views(out@) == msg_views(msgs@).take(i as int),
                decreases msgs.len() - i,
            {
                let ghost before = out@;
                out.push(msgs[i].duplicate());
                assert(msg_views(out@) == msg_views(before).push(msgs@[i as int]@));
                assert(msg_views(msgs@).take(i + 1) == msg_views(msgs@).take(i as int).push(
                    msgs@[i as int]@,
                ));
                i = i + 1;
            }
            assert(msg_views(msgs@).take(msgs.len() as int) == msg_views(msgs@));
            Mail::Bulk(out)
        },
        Mail::Blank => Mail::Blank,
    }
}

/// Whether every buffered reply is a present, non-blank mail.
pub open spec fn buffered_ok(s: Seq<Option<MailView>>) -> bool {
    forall|i: int| 0 <= i < s.len() ==> ((#[trigger] s[i]) matches Some(m) && !(m is Blank))
}

/// The buffer after a reply: a present, non-blank reply is appended; others leave it as it
/// is.
pub open spec fn kept(buf: Seq<Option<MailView>>, o: Option<MailView>) -> Seq<Option<MailView>> {
    match o {
        Some(m) => if m is Blank {
            buf
        } else {
            buf.push(Some(m))
        },
        None => buf,
    }
}

/// A reply signed with sender `from` on every message.
pub open spec fn signed(o: Option<MailView>, from: AddrView) -> Option<MailView> {
    match o {
        Some(m) => Some(mail_with_sender(m, from)),
        None => None,
    }
}

/// The abstract value of a [`CachedActor`]: whether it holds an actor, its sequence number,
/// its buffered replies and its address.
pub struct CachedActorView {
    pub loaded: bool,
    pub sequence: i64,
    pub outputs: Seq<Option<MailView>>,
    pub addr: AddrView,
}

/// Whether an actor is handed a message with sequence number `seq`: it holds an actor and
/// has not handled that message yet.
pub open spec fn handles(a: CachedActorView, seq: i64) -> bool {
    a.loaded && a.sequence <= seq
}

/// The actor after a flush and what it publishes: a buffer holding at least `db_buff_size`
/// replies is emptied and published as one bulk mail of all their messages, in order, from
/// the actor, with the actor's sequence number.
pub open spec fn flushed(a: CachedActorView, c: ConfigView) -> (CachedActorView, Option<RichMailView>) {
    if a.outputs.len() >= c.db_buff_size {
        (
            CachedActorView { outputs: seq![], ..a },
            Some(
                RichMailView {
                    mail: MailView::Bulk(flatten_mails(a.outputs)),
                    inbound: false,
                    seq: a.sequence,
                    from: Some(a.addr),
                    to: None,
                },
            ),
        )
    } else {
        (a, None)
    }
}

/// The actor after it answered `o`, and what it publishes: the answer is signed and
/// buffered, the sequence advances, and the buffer is flushed when full.
pub open spec fn recorded(a: CachedActorView, o: Option<MailView>, c: ConfigView) -> (CachedActorView, Option<RichMailView>) {
    flushed(
        CachedActorView {
            sequence: (a.sequence + 1) as i64,
            outputs: kept(a.outputs, signed(o, a.addr)),
            ..a
        },
        c,
    )
}

/// What comes of handing a message with sequence number `seq` to actor `a` when the actor
/// answers: if the actor has yet to handle the message, some answer of it is recorded;
/// otherwise nothing happens.
pub open spec fn handled(
    a: CachedActorView,
    seq: i64,
    after: CachedActorView,
    published: Option<RichMailView>,
    c: ConfigView,
) -> bool {
    if handles(a, seq) {
        exists|o: Option<MailView>| #[trigger] recorded(a, o, c) == (after, published)
    } else {
        after == a && published is None
    }
}

/// The actor after it answered a signal with `o`, and what it publishes: the answer is
/// signed and buffered and the buffer flushed when full, as for a message; the sequence
/// stays, since a signal is not one of the actor's messages.
pub open spec fn answered(a: CachedActorView, o: Option<MailView>, c: ConfigView) -> (CachedActorView, Option<RichMailView>) {
    flushed(CachedActorView { outputs: kept(a.outputs, signed(o, a.addr)), ..a }, c)
}

/// What may come of a start-up or shut-down signal to actor `a`, whatever the actor does:
/// an actor held answers and its answer is recorded (see [`answered`]), or it panicked and
/// nothing changed; without an actor nothing happens.
pub open spec fn signalled(
    a: CachedActorView,
    after: CachedActorView,
    published: Option<RichMailView>,
    c: ConfigView,
) -> bool {
    ||| after == a && published is None
    ||| a.loaded && exists|o: Option<MailView>| #[trigger] answered(a, o, c) == (after, published)
}

/// What an actor was handed: a mail as a message, or one of its two signals.
pub enum Handling {
    Receive(MailView),
    PostStart,
    PreShutdown,
}

/// One thing an actor was handed, with what came of it: `Some` of the actor's answer, or
/// `None` where it panicked.
pub struct Delivery {
    pub handling: Handling,
    pub answer: Option<Option<MailView>>,
}

/// What came of a run of an actor, as a [`Delivery`] records it.
pub open spec fn run_answer(rs: Result<Option<Mail>, ActorPanic>) -> Option<Option<MailView>> {
    match rs {
        Ok(o) => Some(opt_mail_view(o)),
        Err(_) => None,
    }
}

/// The handling a signal stands for.
pub open spec fn signal_handling(s: Signal) -> Handling {
    match s {
        Signal::PostStart => Handling::PostStart,
        Signal::PreShutdown => Handling::PreShutdown,
    }
}

/// Whether `after` is `before` with one more delivery, of `handling`.
pub open spec fn handed_one(before: Seq<Delivery>, after: Seq<Delivery>, handling: Handling) -> bool {
    &&& after.len() == before.len() + 1
    &&& after.drop_last() == before
    &&& after.last().handling == handling
}

/// What handing mail `m` to actor `a` (with delivery record `log`) as a message did, with
/// `out` the publication of the run (`None` where the actor panicked): the actor was handed
/// `m` itself, once; where it answered, that answer is what is recorded and published;
/// where it panicked, nothing else changed.
pub open spec fn delivered_mail(
    a: CachedActorView,
    log: Seq<Delivery>,
    m: MailView,
    after: CachedActorView,
    after_log: Seq<Delivery>,
    out: Option<Option<RichMailView>>,
    c: ConfigView,
) -> bool {
    &&& handed_one(log, after_log, Handling::Receive(m))
    &&& match out {
        Some(p) => after_log.last().answer matches Some(o) && recorded(a, o, c) == (after, p),
        None => after_log.last().answer is None && after == a,
    }
}

/// What giving signal `s` to held actor `a` (with delivery record `log`) did, with `out`
/// the publication (`None` where the actor panicked): the actor was given that signal, once;
/// where it answered, that answer is what is recorded and published; where it panicked,
/// nothing else changed.
pub open spec fn signal_taken(
    a: CachedActorView,
    log: Seq<Delivery>,
    s: Signal,
    after: CachedActorView,
    after_log: Seq<Delivery>,
    out: Option<Option<RichMailView>>,
    c: ConfigView,
) -> bool {
    &&& handed_one(log, after_log, signal_handling(s))
    &&& match out {
        Some(p) => after_log.last().answer matches Some(o) && answered(a, o, c) == (after, p),
        None => after_log.last().answer is None && after == a,
    }
}

/// What a run published: nothing where the actor panicked.
pub open spec fn published_of(out: Option<Option<RichMailView>>) -> Option<RichMailView> {
    match out {
        Some(p) => p,
        None => None,
    }
}

/// An actor as the node keeps it: the actor itself, how far it has got, its buffered replies
/// and its address.
pub struct CachedActor<B> {
    binary: Option<B>,
    sequence: i64,
    outputs: Vec<Option<Mail>>,
    addr: Addr,
    origin: Ghost<B>,
    handed: Ghost<Seq<Delivery>>,
}

impl<B> View for CachedActor<B> {
    type V = CachedActorView;

    closed spec fn view(&self) -> CachedActorView {
        CachedActorView {
            loaded: self.binary is Some,
            sequence: self.sequence,
            outputs: opt_mail_views(self.outputs@),
            addr: self.addr@,
        }
    }
}

impl<B> CachedActor<B> {
    /// The actor this cached actor was made for. It stays its origin through every message
    /// and signal it handles, whatever these do to the actor.
    pub closed spec fn origin(&self) -> B {
        self.origin@
    }

    /// Everything the actor was handed since it was made, in order, with what came of each.
    pub closed spec fn handed(&self) -> Seq<Delivery> {
        self.handed@
    }
}

impl<B> CachedActor<B> {
    /// A cached actor for `actor` at `addr`, at sequence 0 with no buffered replies.
    pub fn new(actor: B, addr: Addr) -> (c: CachedActor<B>)
        ensures
            c.origin() == actor,
            c.handed() == Seq::<Delivery>::empty(),
            c@ == (CachedActorView { loaded: true, sequence: 0, outputs: seq![], addr: addr@ }),
    {
        let c = CachedActor { binary: Some(actor), sequence: 0, outputs: Vec::new(), addr, origin: Ghost(actor), handed: Ghost(Seq::empty()) };
        assert(opt_mail_views(c.outputs@) =~= seq![]);
        c
    }

    /// Whether the actor has yet to handle `mail`: its sequence is not past the mail's.
    pub fn should_handle_message(actor: &CachedActor<B>, mail: &RichMail) -> (b: bool)
        ensures
            b == (actor@.sequence <= mail@.seq),
    {
        actor.sequence <= mail.seq()
    }

    /// The address.
    pub fn get_addr(&self) -> (a: &Addr)
        ensures
            a@ == self@.addr,
    {
        &self.addr
    }

    /// The sequence number.
    pub fn get_sequence(actor: &CachedActor<B>) -> (s: i64)
        ensures
            s == actor@.sequence,
    {
        actor.sequence
    }

    /// Advances a sequence number by one.
    pub fn increment_sequence(actor_seq: &mut i64)
        requires
            *old(actor_seq) < i64::MAX,
        ensures
            *final(actor_seq) == *old(actor_seq) + 1,
    {
        *actor_seq = *actor_seq + 1;
    }

    /// Sets a sequence number.
    pub fn set_sequence(actor_seq: &mut i64, seq: i64)
        ensures
            *final(actor_seq) == seq,
    {
        *actor_seq = seq;
    }

    /// Sets the actor's sequence number.
    pub fn restart_at(actor: &mut CachedActor<B>, seq: i64)
        ensures
            final(actor).handed() == old(actor).handed(),
            final(actor).origin() == old(actor).origin(),
            final(actor)@ == (CachedActorView { sequence: seq, ..old(actor)@ }),
    {
        Self::set_sequence(&mut actor.sequence, seq);
    }

    /// Whether an actor is held.
    pub fn is_loaded(actor: &CachedActor<B>) -> (b: bool)
        ensures
            b == actor@.loaded,
    {
        actor.binary.is_some()
    }

    /// Takes over the sequence, buffered replies and address of `other`.
    pub fn take_over_from(this: &mut CachedActor<B>, other: &CachedActor<B>)
        ensures
            final(this).handed() == old(this).handed(),
            final(this).origin() == old(this).origin(),
            final(this)@ == (CachedActorView { loaded: old(this)@.loaded, ..other@ }),
    {
        this.sequence = other.sequence;
        let mut outs: Vec<Option<Mail>> = Vec::new();
        let mut i: usize = 0;
        while i < other.outputs.len()
            invariant
                i <= other.outputs.len(),
                opt_mail_views(outs@) == opt_mail_views(other.outputs@).take(i as int),
            decreases other.outputs.len() - i,
        {
            let ghost before = outs@;
            let o = match &other.outputs[i] {
                Some(m) => Some(copy_mail(m)),
                None => None,
            };
            outs.push(o);
            assert(opt_mail_views(outs@) == opt_mail_views(before).push(opt_mail_view(o)));
            assert(opt_mail_views(other.outputs@).take(i + 1) == opt_mail_views(other.outputs@).take(
                i as int,
            ).push(opt_mail_views(other.outputs@)[i as int]));
            i = i + 1;
        }
        assert(opt_mail_views(other.outputs@).take(other.outputs.len() as int) == opt_mail_views(
            other.outputs@,
        ));
        this.outputs = outs;
        this.addr = other.addr.duplicate();
    }

    /// Buffers a reply: a present, non-blank reply is appended; others are dropped.
    pub fn push_outcome(output_buffer: &mut Vec<Option<Mail>>, mail: Option<Mail>)
        ensures
            opt_mail_views(final(output_buffer)@) == kept(
                opt_mail_views(old(output_buffer)@),
                opt_mail_view(mail),
            ),
    {
        let ghost before = output_buffer@;
        match mail {
            Some(m) => {
                if !Mail::is_blank(&m) {
                    let ghost v = m@;
                    output_buffer.push(Some(m));
                    assert(opt_mail_views(output_buffer@) == opt_mail_views(before).push(Some(v)));
                }
            },
            None => {},
        }
    }

    /// Whether a buffer of `buffer_size` replies is full under `config`.
    pub fn should_flush(buffer_size: usize, config: &Config) -> (b: bool)
        ensures
            b == (buffer_size >= config@.db_buff_size),
    {
        buffer_size >= config.db_buff_size()
    }

    /// The number of buffered replies.
    pub fn buffer_size(actor: &CachedActor<B>) -> (n: usize)
        ensures
            n == actor@.outputs.len(),
    {
        actor.outputs.len()
    }

    /// Publishes the buffered replies when the buffer is full (see [`flushed`]).
    pub fn flush_buffer(actor: &mut CachedActor<B>, config: &Config) -> (published: Option<RichMail>)
        requires
            buffered_ok(old(actor)@.outputs),
        ensures
            final(actor).handed() == old(actor).handed(),
            final(actor).origin() == old(actor).origin(),
            (final(actor)@, opt_rich_view(published)) == flushed(old(actor)@, config@),
    {
        if Self::should_flush(Self::buffer_size(actor), config) {
            let mut buffered: Vec<Option<Mail>> = Vec::new();
            std::mem::swap(&mut buffered, &mut actor.outputs);
            assert(opt_mail_views(actor.outputs@) =~= seq![]);
            assert forall|i: int| 0 <= i < buffered@.len() implies (#[trigger] buffered@[i] matches Some(
                m,
            ) && !(m is Blank)) by {
                assert(opt_mail_views(buffered@)[i] matches Some(v) && !(v is Blank));
            }
            let folded = Mail::fold(buffered);
            Some(RichMail::RichContent(folded, false, actor.sequence, Some(actor.addr.duplicate()), None))
        } else {
            None
        }
    }

    /// Records the actor's answer `outcome`: signs it with the actor's address, buffers it,
    /// advances the sequence and flushes (see [`recorded`]).
    pub fn record_outcome(actor: &mut CachedActor<B>, outcome: Option<Mail>, config: &Config) -> (published: Option<RichMail>)
        requires
            buffered_ok(old(actor)@.outputs),
            old(actor)@.sequence < i64::MAX,
        ensures
            final(actor).handed() == old(actor).handed(),
            final(actor).origin() == old(actor).origin(),
            (final(actor)@, opt_rich_view(published)) == recorded(old(actor)@, opt_mail_view(outcome), config@),
            buffered_ok(final(actor)@.outputs),
    {
        let mut outcome = outcome;
        Mail::set_from(&mut outcome, &actor.addr);
        Self::push_outcome(&mut actor.outputs, outcome);
        Self::increment_sequence(&mut actor.sequence);
        Self::flush_buffer(actor, config)
    }

    /// Records the actor's answer `outcome` to a signal: signs it with the actor's address,
    /// buffers it and flushes; the sequence stays (see [`answered`]).
    pub fn record_answer(actor: &mut CachedActor<B>, outcome: Option<Mail>, config: &Config) -> (published: Option<RichMail>)
        requires
            buffered_ok(old(actor)@.outputs),
        ensures
            final(actor).handed() == old(actor).handed(),
            final(actor).origin() == old(actor).origin(),
            (final(actor)@, opt_rich_view(published)) == answered(old(actor)@, opt_mail_view(outcome), config@),
            buffered_ok(final(actor)@.outputs),
    {
        let mut outcome = outcome;
        Mail::set_from(&mut outcome, &actor.addr);
        Self::push_outcome(&mut actor.outputs, outcome);
        Self::flush_buffer(actor, config)
    }
}

impl<B: Binary> CachedActor<B> {
    /// Hands `mail` to the actor if it has yet to handle it, and records its answer; gives
    /// what the actor publishes. A panic of the actor leaves it as it was.
    pub fn receive(actor: &mut CachedActor<B>, mail: RichMail, config: &Config) -> (r: Result<Option<RichMail>, ActorPanic>)
        requires
            buffered_ok(old(actor)@.outputs),
            handles(old(actor)@, mail@.seq) ==> old(actor)@.sequence < i64::MAX,
        ensures
            final(actor).origin() == old(actor).origin(),
            buffered_ok(final(actor)@.outputs),
            !handles(old(actor)@, mail@.seq) ==> (r matches Ok(None)) && final(actor)@ == old(actor)@
                && final(actor).handed() == old(actor).handed(),
            handles(old(actor)@, mail@.seq) ==> match r {
                Ok(p) => exists|o: Option<MailView>| #[trigger]
                    recorded(old(actor)@, o, config@) == (final(actor)@, opt_rich_view(p)),
                Err(_) => final(actor)@ == old(actor)@,
            },
            handles(old(actor)@, mail@.seq) ==> delivered_mail(old(actor)@, old(actor).handed(), mail@.mail,
                final(actor)@, final(actor).handed(), match r { Ok(p) => Some(opt_rich_view(p)), Err(_) => None }, config@),
    {
        if !Self::is_loaded(actor) || !Self::should_handle_message(actor, &mail) {
            return Ok(None);
        }
        let ghost mail0 = mail@;
        let mut mail = mail;
        let m = mail.mail_out();
        let ghost mv = m@;
        let rs = Self::run(actor, None, m, config);
        assert(actor.handed().drop_last() =~= old(actor).handed());
        assert(mv == mail0.mail);
        match rs {
            Ok(outcome) => {
                let ghost o = opt_mail_view(outcome);
                let ghost log = actor.handed();
                let published = Self::record_outcome(actor, outcome, config);
                assert(recorded(old(actor)@, o, config@) == (actor@, opt_rich_view(published)));
                assert(log.last().answer == Some(o));
                Ok(published)
            },
            Err(e) => Err(e),
        }
    }

    /// Runs the held actor's handler for `kind` (`None`: the mail is a message) on `mail`,
    /// and writes down what it was handed and what came of it.
    fn run(actor: &mut CachedActor<B>, kind: Option<Signal>, mail: Mail, config: &Config) -> (rs: Result<Option<Mail>, ActorPanic>)
        requires
            old(actor)@.loaded,
        ensures
            final(actor)@ == old(actor)@,
            final(actor).origin() == old(actor).origin(),
            final(actor).handed() == old(actor).handed().push(Delivery {
                handling: match kind {
                    None => Handling::Receive(mail@),
                    Some(s) => signal_handling(s),
                },
                answer: run_answer(rs),
            }),
    {
        let ghost mv = mail@;
        let rs = match &mut actor.binary {
            Some(b) => match kind {
                None => b.execute(mail, config),
                Some(Signal::PostStart) => b.post_start(mail, config),
                Some(Signal::PreShutdown) => b.pre_shutdown(mail, config),
            },
            None => {
                assert(false);
                Err(ActorPanic)
            },
        };
        let ghost h = match kind {
            None => Handling::Receive(mv),
            Some(s) => signal_handling(s),
        };
        actor.handed = Ghost(actor.handed@.push(Delivery { handling: h, answer: run_answer(rs) }));
        rs
    }

    /// Gives a held actor the signal `signal` (a blank mail) and records its answer as
    /// [`CachedActor::record_answer`] does; the sequence number stays. A panic of the actor,
    /// or no actor held, leaves it as it was.
    pub fn signal(actor: &mut CachedActor<B>, signal: Signal, config: &Config) -> (r: Result<Option<RichMail>, ActorPanic>)
        requires
            buffered_ok(old(actor)@.outputs),
        ensures
            final(actor).origin() == old(actor).origin(),
            buffered_ok(final(actor)@.outputs),
            !old(actor)@.loaded ==> (r matches Ok(None)) && final(actor)@ == old(actor)@
                && final(actor).handed() == old(actor).handed(),
            old(actor)@.loaded ==> match r {
                Ok(p) => exists|o: Option<MailView>| #[trigger]
                    answered(old(actor)@, o, config@) == (final(actor)@, opt_rich_view(p)),
                Err(_) => final(actor)@ == old(actor)@,
            },
            old(actor)@.loaded ==> signal_taken(old(actor)@, old(actor).handed(), signal,
                final(actor)@, final(actor).handed(), match r { Ok(p) => Some(opt_rich_view(p)), Err(_) => None }, config@),
    {
        if !Self::is_loaded(actor) {
            return Ok(None);
        }
        let rs = Self::run(actor, Some(signal), Mail::Blank, config);
        assert(actor.handed().drop_last() =~= old(actor).handed());
        match rs {
            Ok(outcome) => {
                let ghost o = opt_mail_view(outcome);
                let ghost log = actor.handed();
                let published = Self::record_answer(actor, outcome, config);
                assert(answered(old(actor)@, o, config@) == (actor@, opt_rich_view(published)));
                assert(log.last().answer == Some(o));
                Ok(published)
            },
            Err(e) => Err(e),
        }
    }
}

// ---------------------------------------------------------------------------
// The actor pool
// ---------------------------------------------------------------------------

/// What stays of an actor through a start-up or shut-down signal, whatever the actor
/// answers: its address, its sequence number and whether it is held; and a slot that holds
/// no actor does not take the signal at all.
pub open spec fn keeps_identity(a: CachedActorView, after: CachedActorView) -> bool {
    &&& after.addr == a.addr
    &&& after.loaded == a.loaded
    &&& after.sequence == a.sequence
    &&& (!a.loaded ==> after == a)
    &&& (buffered_ok(a.outputs) ==> buffered_ok(after.outputs))
}

/// The published mails after `p` was published.
pub open spec fn with_published(out: Seq<RichMailView>, p: Option<RichMailView>) -> Seq<RichMailView> {
    match p {
        Some(r) => out.push(r),
        None => out,
    }
}

/// Whether every cached actor's buffered replies are present, non-blank mails.
pub open spec fn pool_ok(m: Map<u64, CachedActorView>) -> bool {
    forall|k: u64| m.contains_key(k) ==> buffered_ok(#[trigger] m[k].outputs)
}

proof fn lemma_recorded_keeps(a: CachedActorView, o: Option<MailView>, c: ConfigView)
    ensures
        recorded(a, o, c).0.addr == a.addr,
        recorded(a, o, c).0.loaded == a.loaded,
        buffered_ok(a.outputs) ==> buffered_ok(recorded(a, o, c).0.outputs),
{
    let b = kept(a.outputs, signed(o, a.addr));
    if buffered_ok(a.outputs) {
        assert forall|i: int| 0 <= i < b.len() implies ((#[trigger] b[i]) matches Some(m) && !(m is Blank)) by {
            if i < a.outputs.len() {
                assert(b[i] == a.outputs[i]);
            }
        }
    }
}

proof fn lemma_handled_addr(a: CachedActorView, seq: i64, after: CachedActorView, p: Option<RichMailView>, c: ConfigView)
    requires
        handled(a, seq, after, p, c),
    ensures
        after.addr == a.addr,
        after.loaded == a.loaded,
        buffered_ok(a.outputs) ==> buffered_ok(after.outputs),
{
    if handles(a, seq) {
        let o = choose|o: Option<MailView>| #[trigger] recorded(a, o, c) == (after, p);
        lemma_recorded_keeps(a, o, c);
    }
}

proof fn lemma_signalled_keeps(a: CachedActorView, after: CachedActorView, p: Option<RichMailView>, c: ConfigView)
    requires
        signalled(a, after, p, c),
    ensures
        keeps_identity(a, after),
{
    if !(after == a && p is None) {
        let o = choose|o: Option<MailView>| #[trigger] answered(a, o, c) == (after, p);
        let b = kept(a.outputs, signed(o, a.addr));
        if buffered_ok(a.outputs) {
            assert forall|i: int| 0 <= i < b.len() implies ((#[trigger] b[i]) matches Some(m) && !(m is Blank)) by {
                if i < a.outputs.len() {
                    assert(b[i] == a.outputs[i]);
                }
            }
        }
    }
}

/// How a registration at `id` of actor `new` turns pool `before` into pool `after`, giving
/// `r`: the actor replaced, if any, got its shut-down signal and is given back; the new actor
/// got its start-up signal and is the one at `id`; what the two signals published was
/// published in that order. A registration does not fail.
pub open spec fn registered<B>(
    before: ActorsView,
    id: u64,
    new: CachedActorView,
    after: ActorsView,
    r: Result<Option<CachedActor<B>>, crate::errs::Error>,
    c: ConfigView,
) -> bool {
    match r {
        Ok(Some(e)) => before.actors.contains_key(id) && exists|p1: Option<RichMailView>, p2: Option<RichMailView>|
            #[trigger] signalled(before.actors[id], e@, p1, c) && #[trigger] signalled(new, after.actors[id], p2, c)
                && after.outbox == with_published(with_published(before.outbox, p1), p2),
        Ok(None) => !before.actors.contains_key(id) && exists|p2: Option<RichMailView>|
            #[trigger] signalled(new, after.actors[id], p2, c) && after.outbox == with_published(before.outbox, p2),
        Err(_) => false,
    }
}

/// The actor a registration gave back, with its delivery record.
pub open spec fn replaced_record<B>(r: Result<Option<CachedActor<B>>, crate::errs::Error>) -> Option<(CachedActorView, Seq<Delivery>)> {
    match r {
        Ok(Some(e)) => Some((e@, e.handed())),
        _ => None,
    }
}

/// What a registration at `id` of actor `new` (with delivery record `new_log`) handed out,
/// from pool `before` (records `logs`) to pool `after` (records `after_logs`), with
/// `replaced` the actor given back and its record: the new actor, if held, was given its
/// start-up signal, once, and what it answered was published last; the actor it replaced,
/// if held, was given its shut-down signal, once, before that, and what it answered was
/// published first.
pub open spec fn registration_logged(
    before: ActorsView,
    logs: Map<u64, Seq<Delivery>>,
    id: u64,
    new: CachedActorView,
    new_log: Seq<Delivery>,
    after: ActorsView,
    after_logs: Map<u64, Seq<Delivery>>,
    replaced: Option<(CachedActorView, Seq<Delivery>)>,
    c: ConfigView,
) -> bool {
    exists|out1: Option<Option<RichMailView>>, out2: Option<Option<RichMailView>>|
        #![trigger published_of(out1), published_of(out2)]
    {
        &&& (new.loaded ==> signal_taken(new, new_log, Signal::PostStart, after.actors[id], after_logs[id], out2, c))
        &&& (!new.loaded ==> out2 is None && after_logs[id] == new_log)
        &&& match replaced {
            Some((e, e_log)) => {
                &&& before.actors.contains_key(id)
                &&& (before.actors[id].loaded ==> signal_taken(before.actors[id], logs[id], Signal::PreShutdown, e, e_log, out1, c))
                &&& (!before.actors[id].loaded ==> out1 is None && e_log == logs[id])
                &&& after.outbox == with_published(with_published(before.outbox, published_of(out1)), published_of(out2))
            },
            None => after.outbox == with_published(before.outbox, published_of(out2)),
        }
    }
}

/// What a signal run published, as a [`Delivery`] answer: `None` where the actor panicked.
pub open spec fn run_published(rs: Result<Option<RichMail>, ActorPanic>) -> Option<Option<RichMailView>> {
    match rs {
        Ok(p) => Some(opt_rich_view(p)),
        Err(_) => None,
    }
}

/// The actors a node runs, by address id, and the mails they have published that wait for
/// dispatch.
pub struct Actors<B> {
    actor_cache: HashMap<u64, CachedActor<B>>,
    outbox: Vec<RichMail>,
}

/// The abstract value of an [`Actors`] pool.
pub struct ActorsView {
    pub actors: Map<u64, CachedActorView>,
    pub outbox: Seq<RichMailView>,
}

/// The views of a sequence of rich mails.
pub open spec fn rich_views(v: Seq<RichMail>) -> Seq<RichMailView> {
    v.map_values(|r: RichMail| r@)
}

impl<B> View for Actors<B> {
    type V = ActorsView;

    closed spec fn view(&self) -> ActorsView {
        ActorsView {
            actors: self.actor_cache@.map_values(|c: CachedActor<B>| c@),
            outbox: rich_views(self.outbox@),
        }
    }
}

impl<B> Actors<B> {
    /// The actor each cached actor of the pool was made for, by address id.
    pub closed spec fn origins(&self) -> Map<u64, B> {
        self.actor_cache@.map_values(|c: CachedActor<B>| c.origin())
    }

    /// What each cached actor of the pool was handed, by address id.
    pub closed spec fn logs(&self) -> Map<u64, Seq<Delivery>> {
        self.actor_cache@.map_values(|c: CachedActor<B>| c.handed())
    }
}

fn publish(outbox: &mut Vec<RichMail>, p: Option<RichMail>)
    ensures
        rich_views(final(outbox)@) == with_published(rich_views(old(outbox)@), opt_rich_view(p)),
{
    match p {
        Some(r) => {
            let ghost v = r@;
            outbox.push(r);
            assert(rich_views(outbox@) == rich_views(old(outbox)@).push(v));
        },
        None => {},
    }
}

impl<B> Actors<B> {
    /// An empty pool.
    pub fn new() -> (a: Actors<B>)
        ensures
            a.logs() == Map::<u64, Seq<Delivery>>::empty(),
            a.origins() == Map::<u64, B>::empty(),
            a@.actors == Map::<u64, CachedActorView>::empty(),
            a@.outbox == Seq::<RichMailView>::empty(),
    {
        let a = Actors { actor_cache: HashMap::new(), outbox: Vec::new() };
        assert(a@.actors =~= Map::<u64, CachedActorView>::empty());
        assert(a@.outbox =~= Seq::<RichMailView>::empty());
        a
    }

    /// The actor at `addr`, if any.
    pub fn get(&self, addr: &Addr) -> (r: Option<&CachedActor<B>>)
        ensures
            match r {
                Some(c) => self@.actors.contains_key(addr@.id) && c@ == self@.actors[addr@.id],
                None => !self@.actors.contains_key(addr@.id),
            },
    {
        let id = addr.get_id();
        self.actor_cache.get(&id)
    }

    /// Puts `actor` in the pool at `addr`; gives the actor it replaces.
    pub fn add(&mut self, addr: Addr, actor: CachedActor<B>) -> (r: Option<CachedActor<B>>)
        ensures
            final(self).logs() == old(self).logs().insert(addr@.id, actor.handed()),
            r matches Some(c) ==> c.handed() == old(self).logs()[addr@.id],
            final(self).origins() == old(self).origins().insert(addr@.id, actor.origin()),
            r matches Some(c) ==> c.origin() == old(self).origins()[addr@.id],
            final(self)@ == (ActorsView { actors: old(self)@.actors.insert(addr@.id, actor@), ..old(self)@ }),
            match r {
                Some(c) => old(self)@.actors.contains_key(addr@.id) && c@ == old(self)@.actors[addr@.id],
                None => !old(self)@.actors.contains_key(addr@.id),
            },
    {
        let id = addr.get_id();
        let ghost v = actor@;
        let r = self.actor_cache.insert(id, actor);
        assert(self@.actors =~= old(self)@.actors.insert(id, v));
        r
    }

    fn take(&mut self, id: u64) -> (r: Option<CachedActor<B>>)
        ensures
            final(self).logs() == old(self).logs().remove(id),
            r matches Some(c) ==> c.handed() == old(self).logs()[id],
            final(self).origins() == old(self).origins().remove(id),
            r matches Some(c) ==> c.origin() == old(self).origins()[id],
            final(self)@ == (ActorsView { actors: old(self)@.actors.remove(id), ..old(self)@ }),
            match r {
                Some(c) => old(self)@.actors.contains_key(id) && c@ == old(self)@.actors[id],
                None => !old(self)@.actors.contains_key(id),
            },
    {
        let r = self.actor_cache.remove(&id);
        assert(self@.actors =~= old(self)@.actors.remove(id));
        r
    }

    /// Drains the published mails, oldest first.
    pub fn take_published(&mut self) -> (v: Vec<RichMail>)
        ensures
            final(self).logs() == old(self).logs(),
            final(self).origins() == old(self).origins(),
            rich_views(v@) == old(self)@.outbox,
            final(self)@ == (ActorsView { outbox: seq![], ..old(self)@ }),
    {
        let mut out: Vec<RichMail> = Vec::new();
        std::mem::swap(&mut out, &mut self.outbox);
        assert(rich_views(self.outbox@) =~= seq![]);
        out
    }
}

impl<B: Binary> Actors<B> {
    fn signal(actor: CachedActor<B>, outbox: &mut Vec<RichMail>, config: &Config, signal: Signal) -> (r: CachedActor<B>)
        requires
            buffered_ok(actor@.outputs),
        ensures
            !actor@.loaded ==> r.handed() == actor.handed(),
            actor@.loaded ==> exists|out: Option<Option<RichMailView>>| #[trigger] signal_taken(actor@, actor.handed(), signal, r@, r.handed(), out, config@)
                && rich_views(final(outbox)@) == with_published(rich_views(old(outbox)@), published_of(out)),
            r.origin() == actor.origin(),
            keeps_identity(actor@, r@),
            exists|p: Option<RichMailView>| #[trigger] signalled(actor@, r@, p, config@)
                && rich_views(final(outbox)@) == with_published(rich_views(old(outbox)@), p),
    {
        let mut actor = actor;
        let ghost before = actor@;
        let ghost log0 = actor.handed();
        let rs = CachedActor::signal(&mut actor, signal, config);
        let ghost out = run_published(rs);
        let p = match rs {
            Ok(p) => p,
            Err(_) => None,
        };
        let ghost pv = opt_rich_view(p);
        assert(published_of(out) == pv);
        publish(outbox, p);
        assert(before.loaded ==> signal_taken(before, log0, signal, actor@, actor.handed(), out, config@));
        assert(signalled(before, actor@, pv, config@));
        proof {
            lemma_signalled_keeps(before, actor@, pv, config@);
        }
        actor
    }

    /// Removes the actor at `addr` and gives it its shut-down signal (at sequence 0); gives
    /// the removed actor.
    pub fn remove(actors: &mut Actors<B>, addr: &Addr, config: &Config) -> (r: Option<CachedActor<B>>)
        requires
            pool_ok(old(actors)@.actors),
        ensures
            final(actors).logs() == old(actors).logs().remove(addr@.id),
            r matches Some(c) ==> (old(actors)@.actors[addr@.id].loaded ==> exists|out: Option<Option<RichMailView>>|
                #[trigger] signal_taken(old(actors)@.actors[addr@.id], old(actors).logs()[addr@.id], Signal::PreShutdown, c@, c.handed(), out, config@)
                && final(actors)@.outbox == with_published(old(actors)@.outbox, published_of(out))),
            final(actors).origins() == old(actors).origins().remove(addr@.id),
            r matches Some(c) ==> c.origin() == old(actors).origins()[addr@.id],
            final(actors)@.actors == old(actors)@.actors.remove(addr@.id),
            pool_ok(final(actors)@.actors),
            match r {
                Some(c) => old(actors)@.actors.contains_key(addr@.id)
                    && keeps_identity(old(actors)@.actors[addr@.id], c@)
                    && exists|p: Option<RichMailView>| #[trigger] signalled(old(actors)@.actors[addr@.id], c@, p, config@)
                        && final(actors)@.outbox == with_published(old(actors)@.outbox, p),
                None => !old(actors)@.actors.contains_key(addr@.id) && final(actors)@.outbox == old(actors)@.outbox,
            },
    {
        let id = addr.get_id();
        let taken = actors.take(id);
        match taken {
            Some(c) => {
                let c = Self::signal(c, &mut actors.outbox, config, Signal::PreShutdown);
                Some(c)
            },
            None => None,
        }
    }

    /// Admits `actor` at `addr`: the actor it replaces, if any, gets its shut-down signal and
    /// is given back; the new actor gets its start-up signal and joins the pool. What the
    /// signals publish is published in that order.
    pub fn play_registration_acts(actors: &mut Actors<B>, addr: Addr, actor: CachedActor<B>, config: &Config) -> (r: Result<Option<CachedActor<B>>, crate::errs::Error>)
        requires
            pool_ok(old(actors)@.actors),
            buffered_ok(actor@.outputs),
        ensures
            final(actors).logs().remove(addr@.id) == old(actors).logs().remove(addr@.id),
            registration_logged(old(actors)@, old(actors).logs(), addr@.id, actor@, actor.handed(), final(actors)@,
                final(actors).logs(), replaced_record(r), config@),
            final(actors).origins() == old(actors).origins().insert(addr@.id, actor.origin()),
            r matches Ok(Some(e)) ==> e.origin() == old(actors).origins()[addr@.id],
            pool_ok(final(actors)@.actors),
            final(actors)@.actors.contains_key(addr@.id),
            keeps_identity(actor@, final(actors)@.actors[addr@.id]),
            final(actors)@.actors.remove(addr@.id) == old(actors)@.actors.remove(addr@.id),
            registered(old(actors)@, addr@.id, actor@, final(actors)@, r, config@),
    {
        let id = addr.get_id();
        let ghost new_view = actor@;
        let ghost new_log = actor.handed();
        let ghost old_logs = actors.logs();
        let ghost o0 = actors@.outbox;
        let previous = actors.add(addr.duplicate(), actor);
        let evicted = match previous {
            Some(p) => Some(Self::signal(p, &mut actors.outbox, config, Signal::PreShutdown)),
            None => None,
        };
        let ghost o1 = actors@.outbox;
        let ghost out1: Option<Option<RichMailView>> = match &evicted {
            Some(e) => if old(actors)@.actors[id].loaded {
                choose|out: Option<Option<RichMailView>>| #[trigger] signal_taken(old(actors)@.actors[id], old_logs[id],
                    Signal::PreShutdown, e@, e.handed(), out, config@) && o1 == with_published(o0, published_of(out))
            } else {
                None
            },
            None => None,
        };
        proof {
            match &evicted {
                Some(e) => {
                    if !old(actors)@.actors[id].loaded {
                        let p = choose|p: Option<RichMailView>| #[trigger] signalled(old(actors)@.actors[id], e@, p, config@)
                            && o1 == with_published(o0, p);
                        assert(p is None);
                    }
                },
                None => {},
            }
        }
        let admitted = actors.take(id);
        match admitted {
            Some(a) => {
                let a = Self::signal(a, &mut actors.outbox, config, Signal::PostStart);
                let ghost after = a@;
                let ghost after_log = a.handed();
                let ghost o2 = actors@.outbox;
                let ghost out2: Option<Option<RichMailView>> = if new_view.loaded {
                    choose|out: Option<Option<RichMailView>>| #[trigger] signal_taken(new_view, new_log,
                        Signal::PostStart, after, after_log, out, config@) && o2 == with_published(o1, published_of(out))
                } else {
                    None
                };
                proof {
                    if !new_view.loaded {
                        let p = choose|p: Option<RichMailView>| #[trigger] signalled(new_view, after, p, config@)
                            && o2 == with_published(o1, p);
                        assert(p is None);
                    }
                }
                actors.add(addr, a);
                proof {
                    assert(actors.logs()[id] == after_log);
                    assert(actors@.actors[id] == after);
                    assert(published_of(out1) == published_of(out1) && published_of(out2) == published_of(out2));
                    assert(actors.logs().remove(id) =~= old(actors).logs().remove(id));
                }
                assert(actors@.actors.remove(id) =~= old(actors)@.actors.remove(id));
                proof {
                    let p2 = choose|p: Option<RichMailView>| #[trigger] signalled(new_view, after, p, config@)
                        && actors@.outbox == with_published(o1, p);
                    match &evicted {
                        Some(e) => {
                            let p1 = choose|p: Option<RichMailView>| #[trigger] signalled(old(actors)@.actors[id], e@, p, config@)
                                && o1 == with_published(old(actors)@.outbox, p);
                            assert(signalled(old(actors)@.actors[id], e@, p1, config@) && signalled(new_view, actors@.actors[id], p2, config@)
                                && actors@.outbox == with_published(with_published(old(actors)@.outbox, p1), p2));
                        },
                        None => {
                            assert(signalled(new_view, actors@.actors[id], p2, config@)
                                && actors@.outbox == with_published(old(actors)@.outbox, p2));
                        },
                    }
                }
                Ok(evicted)
            },
            None => Err(crate::errs::Error::RegistrationError),
        }
    }

    /// Admits a restored actor as [`Actors::play_registration_acts`] does; a failure is a
    /// restoration error.
    pub fn play_restoration_acts(actors: &mut Actors<B>, addr: Addr, actor: CachedActor<B>, config: &Config) -> (r: Result<Option<CachedActor<B>>, crate::errs::Error>)
        requires
            pool_ok(old(actors)@.actors),
            buffered_ok(actor@.outputs),
        ensures
            final(actors).logs().remove(addr@.id) == old(actors).logs().remove(addr@.id),
            registration_logged(old(actors)@, old(actors).logs(), addr@.id, actor@, actor.handed(), final(actors)@,
                final(actors).logs(), replaced_record(r), config@),
            final(actors).origins() == old(actors).origins().insert(addr@.id, actor.origin()),
            r matches Ok(Some(e)) ==> e.origin() == old(actors).origins()[addr@.id],
            pool_ok(final(actors)@.actors),
            final(actors)@.actors.contains_key(addr@.id),
            keeps_identity(actor@, final(actors)@.actors[addr@.id]),
            final(actors)@.actors.remove(addr@.id) == old(actors)@.actors.remove(addr@.id),
            registered(old(actors)@, addr@.id, actor@, final(actors)@, r, config@),
    {
        match Self::play_registration_acts(actors, addr, actor, config) {
            Ok(e) => Ok(e),
            Err(_) => Err(crate::errs::Error::RestorationError),
        }
    }
}

// ---------------------------------------------------------------------------
// The node's context
// ---------------------------------------------------------------------------

/// What came of handing a mail to its recipient.
#[derive(PartialEq, Eq, Structural, Clone, Copy, Debug)]
pub enum Invocation {
    /// The mail names no recipient.
    NoRecipient,
    /// No actor is defined at the recipient's address.
    Undefined,
    /// The actor was handed the mail (or had handled it before).
    Delivered,
    /// The actor panicked and stays, being within its tolerance.
    Panicked,
    /// The actor panicked once too often and was evicted.
    Evicted,
}

/// What must happen before a mail can be handed to its recipient.
pub enum Readiness {
    /// The mail names no recipient.
    NoRecipient,
    /// The recipient is running.
    Ready,
    /// The recipient at this address is not running and has to be restored first.
    Restore(Addr),
}

/// What handing `m` to its recipient, from context `c0` (delivery records `logs0`) to `c1`
/// (records `logs1`) with outcome `r`, handed the recipient: where it was delivered to an
/// actor that had yet to handle it, or the actor panicked on it, the actor was handed the
/// mail itself, once, and its answer is what was recorded and published; a mail the actor
/// had already handled hands it nothing.
pub open spec fn invocation_logged(
    c0: ContextView,
    logs0: Map<u64, Seq<Delivery>>,
    m: RichMailView,
    r: Invocation,
    c1: ContextView,
    logs1: Map<u64, Seq<Delivery>>,
    c: ConfigView,
) -> bool {
    m.to matches Some(a) ==> {
        &&& (r == Invocation::Delivered && handles(c0.pool.actors[a.id], m.seq) ==> exists|p: Option<RichMailView>|
            #[trigger] delivered_mail(c0.pool.actors[a.id], logs0[a.id], m.mail, c1.pool.actors[a.id], logs1[a.id], Some(p), c)
                && c1.pool.outbox == with_published(c0.pool.outbox, p))
        &&& (r == Invocation::Delivered && !handles(c0.pool.actors[a.id], m.seq) ==> logs1 == logs0)
        &&& (r == Invocation::Panicked ==> delivered_mail(c0.pool.actors[a.id], logs0[a.id], m.mail, c1.pool.actors[a.id], logs1[a.id], None, c))
    }
}

/// The actors of a node and the panic counts of its actors.
pub struct Context<B> {
    actors: Actors<B>,
    watch: PanicWatch,
}

/// The abstract value of a [`Context`].
pub struct ContextView {
    pub pool: ActorsView,
    pub watch: PanicWatchView,
}

impl<B> View for Context<B> {
    type V = ContextView;

    closed spec fn view(&self) -> ContextView {
        ContextView { pool: self.actors@, watch: self.watch@ }
    }
}

/// Whether every actor is kept under the id of its own address.
pub open spec fn keyed(m: Map<u64, CachedActorView>) -> bool {
    forall|k: u64| m.contains_key(k) ==> (#[trigger] m[k]).addr.id == k
}

/// The context's invariant: buffered replies are present, non-blank mails, every actor is
/// kept under its own address's id, and no actor in it has reached the panic tolerance
/// (one that does is evicted).
pub open spec fn context_ok(v: ContextView) -> bool {
    &&& pool_ok(v.pool.actors)
    &&& keyed(v.pool.actors)
    &&& forall|k: u64| #[trigger] panic_count(v.watch.counts, k) < PANIC_TOLERANCE
}

/// The actor that a definition at `addr` starts from: it takes over sequence, buffered
/// replies and address of the actor it replaces, if any.
pub open spec fn defined_base(old_actors: Map<u64, CachedActorView>, addr: AddrView) -> CachedActorView {
    if old_actors.contains_key(addr.id) {
        CachedActorView { loaded: true, ..old_actors[addr.id] }
    } else {
        CachedActorView { loaded: true, sequence: 0, outputs: seq![], addr }
    }
}

/// The outcome of handing a mail with sequence number `seq` addressed to `to`, from context
/// `c0` to context `c1`, whatever the actor answers.
pub open spec fn invoked(c0: ContextView, to: Option<AddrView>, seq: i64, r: Invocation, c1: ContextView, c: ConfigView) -> bool {
    match to {
        None => r == Invocation::NoRecipient && c1 == c0,
        Some(a) => if !c0.pool.actors.contains_key(a.id) {
            r == Invocation::Undefined && c1 == c0
        } else {
            let before = c0.pool.actors[a.id];
            let n = panic_count(c0.watch.counts, a.id) + 1;
            &&& c1.watch.watched == a.id
            &&& match r {
                Invocation::Delivered => {
                    &&& c1.watch.counts == c0.watch.counts
                    &&& c1.pool.actors == c0.pool.actors.insert(a.id, c1.pool.actors[a.id])
                    &&& exists|p: Option<RichMailView>| #[trigger] handled(before, seq, c1.pool.actors[a.id], p, c)
                        && c1.pool.outbox == with_published(c0.pool.outbox, p)
                },
                Invocation::Panicked => {
                    &&& n < PANIC_TOLERANCE
                    &&& c1.watch.counts == c0.watch.counts.insert(a.id, n as u8)
                    &&& c1.pool == c0.pool
                },
                Invocation::Evicted => {
                    &&& n >= PANIC_TOLERANCE
                    &&& c1.watch.counts == c0.watch.counts.insert(a.id, n as u8).remove(a.id)
                    &&& c1.pool.actors == c0.pool.actors.remove(a.id)
                    &&& exists|gone: CachedActorView, p: Option<RichMailView>| #[trigger] signalled(before, gone, p, c)
                        && c1.pool.outbox == with_published(c0.pool.outbox, p)
                },
                _ => false,
            }
        },
    }
}

impl<B> Context<B> {
    /// The actor each defined actor was made for, by address id.
    pub closed spec fn origins(&self) -> Map<u64, B> {
        self.actors.origins()
    }

    /// What each defined actor was handed, by address id.
    pub closed spec fn logs(&self) -> Map<u64, Seq<Delivery>> {
        self.actors.logs()
    }
}

impl<B> Context<B> {
    /// A context with no actors and no panics.
    pub fn new() -> (ctx: Context<B>)
        ensures
            ctx.logs() == Map::<u64, Seq<Delivery>>::empty(),
            ctx.origins() == Map::<u64, B>::empty(),
            ctx@.pool.actors == Map::<u64, CachedActorView>::empty(),
            ctx@.pool.outbox == Seq::<RichMailView>::empty(),
            ctx@.watch.counts == Map::<u64, u8>::empty(),
            context_ok(ctx@),
    {
        Context { actors: Actors::new(), watch: PanicWatch::new() }
    }

    /// What must happen before `rich_mail` can be handed to its recipient: nothing when it
    /// names none or its recipient is running; otherwise the recipient has to be restored
    /// from its stored definition first.
    pub fn readiness(&self, rich_mail: &RichMail) -> (r: Readiness)
        ensures
            match rich_mail@.to {
                None => r is NoRecipient,
                Some(a) => if self@.pool.actors.contains_key(a.id) {
                    r is Ready
                } else {
                    r matches Readiness::Restore(b) && b@ == a
                },
            },
    {
        match rich_mail.to() {
            None => Readiness::NoRecipient,
            Some(a) => {
                if self.is_actor_defined(&a) {
                    Readiness::Ready
                } else {
                    Readiness::Restore(a)
                }
            },
        }
    }

    /// Whether an actor is defined in the pool at `addr`.
    pub fn is_actor_defined(&self, addr: &Addr) -> (b: bool)
        ensures
            b == self@.pool.actors.contains_key(addr@.id),
    {
        self.actors.get(addr).is_some()
    }

    /// The panic count of `actor_id`.
    pub fn panic_count(&self, actor_id: u64) -> (c: u8)
        ensures
            c == panic_count(self@.watch.counts, actor_id),
    {
        self.watch.count(actor_id)
    }

    /// Drains the mails the actors have published, oldest first.
    pub fn take_published(&mut self) -> (v: Vec<RichMail>)
        ensures
            final(self).logs() == old(self).logs(),
            final(self).origins() == old(self).origins(),
            rich_views(v@) == old(self)@.pool.outbox,
            final(self)@ == (ContextView { pool: ActorsView { outbox: seq![], ..old(self)@.pool }, ..old(self)@ }),
    {
        self.actors.take_published()
    }
}

impl<B: Binary> Context<B> {
    /// Defines `actor` at `addr`: after its start-up signal it is the actor at `addr`
    /// ([`Context::origins`]). It takes over from the actor defined there before, if any,
    /// which gets the shut-down signal and is given back (see
    /// [`Actors::play_registration_acts`]).
    pub fn define_actor(&mut self, addr: Addr, actor: B, config: &Config) -> (r: Result<Option<CachedActor<B>>, crate::errs::Error>)
        requires
            context_ok(old(self)@),
        ensures
            final(self).logs().remove(addr@.id) == old(self).logs().remove(addr@.id),
            registration_logged(old(self)@.pool, old(self).logs(), addr@.id, defined_base(old(self)@.pool.actors, addr@),
                Seq::<Delivery>::empty(), final(self)@.pool, final(self).logs(), replaced_record(r), config@),
            final(self).origins() == old(self).origins().insert(addr@.id, actor),
            r matches Ok(Some(e)) ==> e.origin() == old(self).origins()[addr@.id],
            context_ok(final(self)@),
            final(self)@.watch == old(self)@.watch,
            final(self)@.pool.actors.contains_key(addr@.id),
            keeps_identity(defined_base(old(self)@.pool.actors, addr@), final(self)@.pool.actors[addr@.id]),
            registered(old(self)@.pool, addr@.id, defined_base(old(self)@.pool.actors, addr@), final(self)@.pool, r, config@),
            final(self)@.pool.actors.remove(addr@.id) == old(self)@.pool.actors.remove(addr@.id),
            final(self)@.pool.outbox.take(old(self)@.pool.outbox.len() as int) == old(self)@.pool.outbox,
            match r {
                Ok(Some(e)) => old(self)@.pool.actors.contains_key(addr@.id) && keeps_identity(
                    old(self)@.pool.actors[addr@.id],
                    e@,
                ),
                Ok(None) => !old(self)@.pool.actors.contains_key(addr@.id),
                Err(_) => false,
            },
    {
        let mut cached = CachedActor::new(actor, addr.duplicate());
        match self.actors.get(&addr) {
            Some(previous) => CachedActor::take_over_from(&mut cached, previous),
            None => {},
        }
        assert(cached@ == defined_base(old(self)@.pool.actors, addr@));
        let ghost id = addr@.id;
        let r = Actors::play_registration_acts(&mut self.actors, addr, cached, config);
        assert(self@.watch == old(self)@.watch);
        assert(pool_ok(self@.pool.actors));
        assert forall|k: u64| self@.pool.actors.contains_key(k) implies (#[trigger] self@.pool.actors[k]).addr.id == k by {
            if k != id {
                assert(self@.pool.actors.remove(id).contains_key(k));
                assert(self@.pool.actors[k] == self@.pool.actors.remove(id)[k]);
                assert(old(self)@.pool.actors.remove(id)[k] == old(self)@.pool.actors[k]);
            }
        }
        r
    }

    /// Brings back `actor` at `addr`, resuming at sequence number `msg_seq`: after its
    /// start-up signal it is the actor at `addr`, and any actor there before is given back
    /// after its shut-down signal (see [`Actors::play_restoration_acts`]).
    pub fn restore(&mut self, addr: Addr, actor: B, msg_seq: i64, config: &Config) -> (r: Result<Option<CachedActor<B>>, crate::errs::Error>)
        requires
            context_ok(old(self)@),
        ensures
            final(self).logs().remove(addr@.id) == old(self).logs().remove(addr@.id),
            registration_logged(old(self)@.pool, old(self).logs(), addr@.id,
                CachedActorView { loaded: true, sequence: msg_seq, outputs: seq![], addr: addr@ },
                Seq::<Delivery>::empty(), final(self)@.pool, final(self).logs(), replaced_record(r), config@),
            final(self).origins() == old(self).origins().insert(addr@.id, actor),
            r matches Ok(Some(e)) ==> e.origin() == old(self).origins()[addr@.id],
            context_ok(final(self)@),
            final(self)@.watch == old(self)@.watch,
            final(self)@.pool.actors.contains_key(addr@.id),
            keeps_identity(
                CachedActorView { loaded: true, sequence: msg_seq, outputs: seq![], addr: addr@ },
                final(self)@.pool.actors[addr@.id],
            ),
            registered(
                old(self)@.pool,
                addr@.id,
                CachedActorView { loaded: true, sequence: msg_seq, outputs: seq![], addr: addr@ },
                final(self)@.pool,
                r,
                config@,
            ),
            final(self)@.pool.actors.remove(addr@.id) == old(self)@.pool.actors.remove(addr@.id),
            final(self)@.pool.outbox.take(old(self)@.pool.outbox.len() as int) == old(self)@.pool.outbox,
            match r {
                Ok(Some(e)) => old(self)@.pool.actors.contains_key(addr@.id) && keeps_identity(
                    old(self)@.pool.actors[addr@.id],
                    e@,
                ),
                Ok(None) => !old(self)@.pool.actors.contains_key(addr@.id),
                Err(_) => false,
            },
    {
        let mut cached = CachedActor::new(actor, addr.duplicate());
        CachedActor::restart_at(&mut cached, msg_seq);
        let ghost id = addr@.id;
        let r = Actors::play_restoration_acts(&mut self.actors, addr, cached, config);
        assert(self@.watch == old(self)@.watch);
        assert(pool_ok(self@.pool.actors));
        assert forall|k: u64| self@.pool.actors.contains_key(k) implies (#[trigger] self@.pool.actors[k]).addr.id == k by {
            if k != id {
                assert(self@.pool.actors.remove(id).contains_key(k));
                assert(self@.pool.actors[k] == self@.pool.actors.remove(id)[k]);
                assert(old(self)@.pool.actors.remove(id)[k] == old(self)@.pool.actors[k]);
            }
        }
        r
    }

    /// Hands `rich_mail` to its recipient. The recipient's panics are counted; one that
    /// panics as often as the tolerance allows is evicted (with the shut-down signal) and its
    /// count forgotten. See [`invoked`].
    pub fn handle_invocation(&mut self, rich_mail: RichMail, config: &Config) -> (r: Invocation)
        requires
            context_ok(old(self)@),
            rich_mail@.seq < i64::MAX,
        ensures
            invocation_logged(old(self)@, old(self).logs(), rich_mail@, r, final(self)@, final(self).logs(), config@),
            r != Invocation::Evicted ==> final(self).origins() == old(self).origins(),
            r == Invocation::Evicted ==> final(self).origins() == old(self).origins().remove(rich_mail@.to.unwrap().id),
            context_ok(final(self)@),
            invoked(old(self)@, rich_mail@.to, rich_mail@.seq, r, final(self)@, config@),
    {
        let ghost seq = rich_mail@.seq;
        let to = rich_mail.to();
        let addr_inner = match to {
            Some(a) => a,
            None => {
                return Invocation::NoRecipient;
            },
        };
        let id = addr_inner.get_id();
        let taken = self.actors.take(id);
        let mut actor = match taken {
            Some(c) => c,
            None => {
                assert(self.actors@.actors =~= old(self)@.pool.actors);
                return Invocation::Undefined;
            },
        };
        self.watch.set_watch(id);
        let ghost before = actor@;
        let ghost pool0 = self@;
        assert(buffered_ok(before.outputs));
        assert(context_ok(self@)) by {
            assert(self@.watch.counts == old(self)@.watch.counts);
            assert forall|k: u64| #[trigger] panic_count(self@.watch.counts, k) < PANIC_TOLERANCE by {
                assert(panic_count(old(self)@.watch.counts, k) < PANIC_TOLERANCE);
            }
            assert forall|k: u64| self@.pool.actors.contains_key(k) implies (#[trigger] self@.pool.actors[k]).addr.id == k by {
                assert(old(self)@.pool.actors.contains_key(k));
            }
            assert forall|k: u64| self@.pool.actors.contains_key(k) implies buffered_ok(#[trigger] self@.pool.actors[k].outputs) by {
                assert(old(self)@.pool.actors.contains_key(k));
            }
        }
        let ghost m0 = rich_mail@;
        let ghost log0 = actor.handed();
        assert(log0 == old(self).logs()[id]);
        let rs = CachedActor::receive(&mut actor, rich_mail, config);
        let ghost run_view = run_outcome(rs);
        let ghost log1 = actor.handed();
        let ghost after = actor@;
        proof {
            if run_view is Some {
                assert(handled(before, seq, actor@, run_view.unwrap(), config@));
                lemma_handled_addr(before, seq, actor@, run_view.unwrap(), config@);
            }
        }
        let r = self.settle(addr_inner, actor, rs, config);
        proof {
            assert(m0.to.unwrap().id == id);
            if r != Invocation::Evicted {
                assert(self.logs()[id] == log1);
                assert(self@.pool.actors[id] == after);
            }
            if r == Invocation::Delivered && handles(before, seq) {
                let pv = run_view.unwrap();
                assert(delivered_mail(before, log0, m0.mail, self@.pool.actors[id], self.logs()[id], Some(pv), config@));
            }
            if r == Invocation::Delivered && !handles(before, seq) {
                assert(self.logs() =~= old(self).logs());
            }
            if r == Invocation::Delivered {
                assert(self@.pool.actors =~= old(self)@.pool.actors.insert(id, self@.pool.actors[id]));
                let pv = run_view.unwrap();
                assert(handled(before, seq, self@.pool.actors[id], pv, config@));
            }
            if r == Invocation::Panicked {
                assert(self@.pool.actors =~= old(self)@.pool.actors);
            }
            if r == Invocation::Evicted {
                assert(self@.pool.actors =~= old(self)@.pool.actors.remove(id));
            }
        }
        r
    }

    /// Settles what came of running the actor `actor` at `addr` (taken out of the pool for
    /// the run) on a mail, given the run's result `run`. A run that gave an answer delivered
    /// the mail: the actor goes back to the pool, what it published is published, and the
    /// panic counts stay. A run that panicked counts a panic of the actor: below the
    /// tolerance the actor goes back as it is; at the tolerance it is evicted, gets its
    /// shut-down signal (whatever that publishes is published) and its count is forgotten.
    pub fn settle(&mut self, addr: Addr, actor: CachedActor<B>, run: Result<Option<RichMail>, ActorPanic>, config: &Config) -> (r: Invocation)
        requires
            context_ok(old(self)@),
            !old(self)@.pool.actors.contains_key(addr@.id),
            actor@.addr.id == addr@.id,
            buffered_ok(actor@.outputs),
        ensures
            r == Invocation::Evicted ==> final(self).logs() == old(self).logs(),
            r != Invocation::Evicted ==> final(self).logs() == old(self).logs().insert(addr@.id, actor.handed()),
            context_ok(final(self)@),
            final(self)@.watch.watched == addr@.id,
            match run {
                Ok(p) => {
                    &&& r == Invocation::Delivered
                    &&& final(self)@.watch.counts == old(self)@.watch.counts
                    &&& final(self)@.pool.actors == old(self)@.pool.actors.insert(addr@.id, actor@)
                    &&& final(self)@.pool.outbox == with_published(old(self)@.pool.outbox, opt_rich_view(p))
                    &&& final(self).origins() == old(self).origins().insert(addr@.id, actor.origin())
                },
                Err(_) => {
                    let n = panic_count(old(self)@.watch.counts, addr@.id) + 1;
                    if n < PANIC_TOLERANCE {
                        &&& r == Invocation::Panicked
                        &&& final(self)@.watch.counts == old(self)@.watch.counts.insert(addr@.id, n as u8)
                        &&& final(self)@.pool.actors == old(self)@.pool.actors.insert(addr@.id, actor@)
                        &&& final(self)@.pool.outbox == old(self)@.pool.outbox
                        &&& final(self).origins() == old(self).origins().insert(addr@.id, actor.origin())
                    } else {
                        &&& r == Invocation::Evicted
                        &&& final(self)@.watch.counts == old(self)@.watch.counts.insert(addr@.id, n as u8).remove(addr@.id)
                        &&& final(self)@.pool.actors == old(self)@.pool.actors
                        &&& exists|gone: CachedActorView, p: Option<RichMailView>| #[trigger] signalled(actor@, gone, p, config@)
                            && final(self)@.pool.outbox == with_published(old(self)@.pool.outbox, p)
                        &&& final(self).origins() == old(self).origins()
                    }
                },
            },
    {
        let id = addr.get_id();
        self.watch.set_watch(id);
        match run {
            Ok(p) => {
                publish(&mut self.actors.outbox, p);
                self.actors.add(addr, actor);
                assert(self@.pool.actors == old(self)@.pool.actors.insert(id, actor@));
                assert forall|k: u64| self@.pool.actors.contains_key(k) implies (#[trigger] self@.pool.actors[k]).addr.id == k by {
                    if k != id {
                        assert(old(self)@.pool.actors.contains_key(k));
                    }
                }
                Invocation::Delivered
            },
            Err(_) => {
                assert(panic_count(old(self)@.watch.counts, id) < PANIC_TOLERANCE);
                self.watch.record_panic();
                let panicked = self.watch.has_exceeded_tolerance(id);
                let actor_addr = actor.get_addr().duplicate();
                let ghost av = actor@;
                let ghost ao = actor.origin();
                self.actors.add(addr, actor);
                let ghost o0 = self.actors@.outbox;
                let ghost pool0 = self.actors@.actors;
                let ghost orig0 = self.actors.origins();
                assert forall|k: u64| pool0.contains_key(k) implies (#[trigger] pool0[k]).addr.id == k by {
                    if k != id {
                        assert(old(self)@.pool.actors.contains_key(k));
                    }
                }
                if panicked {
                    assert(pool0.contains_key(id) && pool0[id] == av);
                    let removed = Actors::remove(&mut self.actors, &actor_addr, config);
                    proof {
                        match removed {
                            Some(g) => {
                                let p = choose|p: Option<RichMailView>| #[trigger] signalled(pool0[id], g@, p, config@)
                                    && self.actors@.outbox == with_published(o0, p);
                                assert(signalled(av, g@, p, config@) && self.actors@.outbox == with_published(old(self)@.pool.outbox, p));
                            },
                            None => {
                                assert(false);
                            },
                        }
                        assert(self.actors@.actors =~= old(self)@.pool.actors);
                        assert(self.actors.origins() =~= old(self).origins());
                    }
                    self.watch.remove_watch(&id);
                    assert forall|k: u64| #[trigger] panic_count(self.watch@.counts, k) < PANIC_TOLERANCE by {
                        if k != id {
                            assert(panic_count(self.watch@.counts, k) == panic_count(old(self)@.watch.counts, k));
                        }
                    }
                    Invocation::Evicted
                } else {
                    assert forall|k: u64| #[trigger] panic_count(self.watch@.counts, k) < PANIC_TOLERANCE by {
                        if k != id {
                            assert(panic_count(self.watch@.counts, k) == panic_count(old(self)@.watch.counts, k));
                        }
                    }
                    Invocation::Panicked
                }
            },
        }
    }
}

/// What a run of an actor published, for a run that gave an answer; `None` for a panic.
pub open spec fn run_outcome(run: Result<Option<RichMail>, ActorPanic>) -> Option<Option<RichMailView>> {
    match run {
        Ok(p) => Some(opt_rich_view(p)),
        Err(_) => None,
    }
}

/// Where a published mail goes: its messages for this node (kept in a rich mail with the
/// same details, for the inbox), and the others (one bulk mail, for the messenger). Either
/// part is absent when it holds no message.
pub open spec fn routed(r: RichMailView, c: ConfigView, machine_ip: Option<u32>) -> (Option<RichMailView>, Option<MailView>) {
    match parted(mail_msgs(r.mail), c, machine_ip) {
        None => (None, None),
        Some((ins, outs)) => (
            if ins.len() > 0 { Some(RichMailView { mail: MailView::Bulk(ins), ..r }) } else { None },
            if outs.len() > 0 { Some(MailView::Bulk(outs)) } else { None },
        ),
    }
}

/// Routes a published mail (see [`routed`]).
pub fn route_published(rich_mail: RichMail, config: &Config, machine_ip: Option<u32>) -> (r: (Option<RichMail>, Option<Mail>))
    requires
        forall|i: int| 0 <= i < mail_msgs(rich_mail@.mail).len() ==> msg_routable(#[trigger] mail_msgs(rich_mail@.mail)[i]),
    ensures
        (opt_rich_view(r.0), opt_mail_view(r.1)) == routed(rich_mail@, config@, machine_ip),
{
    let mut rich_mail = rich_mail;
    let mail = rich_mail.mail_out();
    match Mail::split(mail, config, machine_ip) {
        Some((ins, outs)) => {
            let inward = if ins.len() > 0 {
                rich_mail.replace_mail(ins);
                Some(rich_mail)
            } else {
                None
            };
            let outward = if outs.len() > 0 {
                Some(Mail::Bulk(outs))
            } else {
                None
            };
            (inward, outward)
        },
        None => (None, None),
    }
}

// ---------------------------------------------------------------------------
// Laws
// ---------------------------------------------------------------------------

/// The messages a publication carries.
pub open spec fn published_msgs(p: Option<RichMailView>) -> Seq<MsgView> {
    match p {
        Some(r) => mail_msgs(r.mail),
        None => seq![],
    }
}

/// The messages an answer carries (none for no answer or a blank one).
pub open spec fn answer_msgs(o: Option<MailView>) -> Seq<MsgView> {
    match o {
        Some(m) => mail_msgs(m),
        None => seq![],
    }
}

proof fn lemma_flatten_push(buf: Seq<Option<MailView>>, x: Option<MailView>)
    ensures
        flatten_mails(buf.push(x)) == flatten_mails(buf) + answer_msgs(x),
{
    assert(buf.push(x).drop_last() == buf);
}

/// Once an actor has handled the message at its sequence number, that message is not handed
/// to it again, whatever it answered.
pub proof fn lemma_no_redelivery(a: CachedActorView, o: Option<MailView>, c: ConfigView)
    requires
        a.sequence < i64::MAX,
    ensures
        recorded(a, o, c).0.sequence == a.sequence + 1,
        !handles(recorded(a, o, c).0, a.sequence),
{
}

/// Messages reach an actor in order: after it handled one, the messages still handed to it
/// are exactly those numbered past its new sequence number, whatever it answered; and a
/// signal leaves that set as it was.
pub proof fn lemma_in_order(a: CachedActorView, o: Option<MailView>, c: ConfigView, s: i64)
    requires
        a.loaded,
        a.sequence < i64::MAX,
    ensures
        handles(recorded(a, o, c).0, s) <==> s >= a.sequence + 1,
        handles(answered(a, o, c).0, s) <==> handles(a, s),
{
}

/// No reply is lost or duplicated: what an actor publishes after an answer, followed by what
/// stays buffered, is what was buffered before followed by the signed answer's messages.
pub proof fn lemma_replies_conserved(a: CachedActorView, o: Option<MailView>, c: ConfigView)
    ensures
        published_msgs(recorded(a, o, c).1) + flatten_mails(recorded(a, o, c).0.outputs)
            == flatten_mails(a.outputs) + answer_msgs(signed(o, a.addr)),
{
    let s = signed(o, a.addr);
    let b = kept(a.outputs, s);
    assert(flatten_mails(b) == flatten_mails(a.outputs) + answer_msgs(s)) by {
        match s {
            Some(m) => {
                if m is Blank {
                    assert(mail_msgs(m) =~= Seq::<MsgView>::empty());
                    assert(flatten_mails(a.outputs) + answer_msgs(s) =~= flatten_mails(a.outputs));
                } else {
                    lemma_flatten_push(a.outputs, Some(m));
                }
            },
            None => {
                assert(flatten_mails(a.outputs) + answer_msgs(s) =~= flatten_mails(a.outputs));
            },
        }
    }
    if b.len() >= c.db_buff_size {
        assert(flatten_mails(Seq::<Option<MailView>>::empty()) =~= Seq::<MsgView>::empty());
        assert(published_msgs(recorded(a, o, c).1) + flatten_mails(recorded(a, o, c).0.outputs) =~= flatten_mails(b));
    } else {
        assert(published_msgs(recorded(a, o, c).1) + flatten_mails(recorded(a, o, c).0.outputs) =~= flatten_mails(b));
    }
}

/// An actor may panic as often as the tolerance allows, less one, and stays; the panic that
/// reaches the tolerance evicts it, gives it its shut-down signal (whatever that publishes
/// is published) and clears its count. A delivered mail leaves the counts as they are, and
/// an actor that had yet to handle it has its answer recorded.
pub proof fn lemma_panic_tolerance(c0: ContextView, a: AddrView, seq: i64, r: Invocation, c1: ContextView, c: ConfigView)
    requires
        context_ok(c0),
        invoked(c0, Some(a), seq, r, c1, c),
    ensures
        r == Invocation::Panicked ==> c1.pool.actors.contains_key(a.id)
            && panic_count(c1.watch.counts, a.id) == panic_count(c0.watch.counts, a.id) + 1
            && panic_count(c1.watch.counts, a.id) < PANIC_TOLERANCE,
        r == Invocation::Evicted ==> !c1.pool.actors.contains_key(a.id)
            && panic_count(c0.watch.counts, a.id) + 1 == PANIC_TOLERANCE
            && panic_count(c1.watch.counts, a.id) == 0
            && exists|gone: CachedActorView, p: Option<RichMailView>| #[trigger] signalled(c0.pool.actors[a.id], gone, p, c)
                && c1.pool.outbox == with_published(c0.pool.outbox, p),
        r == Invocation::Delivered ==> c1.pool.actors.contains_key(a.id) && c1.watch.counts == c0.watch.counts,
        r == Invocation::Delivered && handles(c0.pool.actors[a.id], seq) ==> exists|o: Option<MailView>|
            #[trigger] recorded(c0.pool.actors[a.id], o, c).0 == c1.pool.actors[a.id]
                && c1.pool.outbox == with_published(c0.pool.outbox, recorded(c0.pool.actors[a.id], o, c).1),
        r == Invocation::Undefined ==> !c0.pool.actors.contains_key(a.id) && c1 == c0,
{
    assert(panic_count(c0.watch.counts, a.id) < PANIC_TOLERANCE);
    if r == Invocation::Delivered && handles(c0.pool.actors[a.id], seq) {
        let before = c0.pool.actors[a.id];
        let p = choose|p: Option<RichMailView>| #[trigger] handled(before, seq, c1.pool.actors[a.id], p, c)
            && c1.pool.outbox == with_published(c0.pool.outbox, p);
        let o = choose|o: Option<MailView>| #[trigger] recorded(before, o, c) == (c1.pool.actors[a.id], p);
        assert(recorded(before, o, c).0 == c1.pool.actors[a.id]);
    }
}

/// The publication `p` as a sequence: empty where nothing was published.
pub open spec fn opt_seq(p: Option<RichMailView>) -> Seq<RichMailView> {
    match p {
        Some(x) => seq![x],
        None => seq![],
    }
}

/// An actor that handles a mail is handed that very mail, and nothing else: its record
/// gains exactly one delivery, of that mail; its sequence moves on by one; and what it
/// publishes, followed by what it still buffers, is what it buffered before followed by the
/// messages of its answer to that mail, signed with its address.
pub proof fn lemma_delivery_hands_the_mail(
    a: CachedActorView,
    log: Seq<Delivery>,
    m: MailView,
    after: CachedActorView,
    after_log: Seq<Delivery>,
    p: Option<RichMailView>,
    c: ConfigView,
)
    requires
        delivered_mail(a, log, m, after, after_log, Some(p), c),
        a.sequence < i64::MAX,
    ensures
        after_log.len() == log.len() + 1,
        after_log.take(log.len() as int) == log,
        after_log[log.len() as int].handling == Handling::Receive(m),
        after_log[log.len() as int].answer matches Some(o) && {
            &&& after.sequence == a.sequence + 1
            &&& published_msgs(p) + flatten_mails(after.outputs) == flatten_mails(a.outputs) + answer_msgs(signed(o, a.addr))
        },
{
    let o = after_log.last().answer.unwrap();
    assert(after_log.take(log.len() as int) == after_log.drop_last());
    lemma_replies_conserved(a, o, c);
    assert(recorded(a, o, c) == (after, p));
    assert(after_log[log.len() as int] == after_log.last());
}

/// Registering an actor where another is held gives the replaced actor its shut-down signal
/// and the new one its start-up signal, each once, and publishes their answers in that
/// order after what was published before: first what the replaced actor answered to its
/// shut-down signal, then what the new actor answered to its start-up signal (nothing for
/// an actor that panicked).
pub proof fn lemma_replaced_shuts_down_first(
    before: ActorsView,
    logs: Map<u64, Seq<Delivery>>,
    id: u64,
    new: CachedActorView,
    new_log: Seq<Delivery>,
    after: ActorsView,
    after_logs: Map<u64, Seq<Delivery>>,
    e: CachedActorView,
    e_log: Seq<Delivery>,
    c: ConfigView,
)
    requires
        registration_logged(before, logs, id, new, new_log, after, after_logs, Some((e, e_log)), c),
        before.actors.contains_key(id) ==> before.actors[id].loaded,
        new.loaded,
    ensures
        before.actors.contains_key(id),
        e_log.len() == logs[id].len() + 1 && e_log.take(logs[id].len() as int) == logs[id],
        e_log[logs[id].len() as int].handling == Handling::PreShutdown,
        after_logs[id].len() == new_log.len() + 1 && after_logs[id].take(new_log.len() as int) == new_log,
        after_logs[id][new_log.len() as int].handling == Handling::PostStart,
        exists|p1: Option<RichMailView>, p2: Option<RichMailView>| #![trigger opt_seq(p1), opt_seq(p2)] {
            &&& after.outbox == before.outbox + opt_seq(p1) + opt_seq(p2)
            &&& match e_log.last().answer {
                Some(o1) => p1 == answered(before.actors[id], o1, c).1,
                None => p1 is None,
            }
            &&& match after_logs[id].last().answer {
                Some(o2) => p2 == answered(new, o2, c).1,
                None => p2 is None,
            }
        },
{
    let (out1, out2) = choose|out1: Option<Option<RichMailView>>, out2: Option<Option<RichMailView>>|
        #![trigger published_of(out1), published_of(out2)]
    {
        &&& (new.loaded ==> signal_taken(new, new_log, Signal::PostStart, after.actors[id], after_logs[id], out2, c))
        &&& (!new.loaded ==> out2 is None && after_logs[id] == new_log)
        &&& before.actors.contains_key(id)
        &&& (before.actors[id].loaded ==> signal_taken(before.actors[id], logs[id], Signal::PreShutdown, e, e_log, out1, c))
        &&& (!before.actors[id].loaded ==> out1 is None && e_log == logs[id])
        &&& after.outbox == with_published(with_published(before.outbox, published_of(out1)), published_of(out2))
    };
    let p1 = published_of(out1);
    let p2 = published_of(out2);
    assert(e_log.take(logs[id].len() as int) == e_log.drop_last());
    assert(after_logs[id].take(new_log.len() as int) == after_logs[id].drop_last());
    assert(after.outbox =~= before.outbox + opt_seq(p1) + opt_seq(p2));
}

} // verus!
