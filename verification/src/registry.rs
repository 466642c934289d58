//! The registry: actors kept in memory by numeric identity, registered, messaged and
//! reloaded. Actors here exchange [`Msg`](crate::msg::Msg) messages; the pool of
//! [`Mail`](crate::mail::Mail) actors ([`Actors`]) is kept the same way. Storing actor
//! definitions is left to the caller.
use vstd::prelude::*;
use vstd::string::StringExecFns;
use std::collections::HashMap;
use crate::config::{Config, ConfigView};
use crate::errs::Error;
use crate::ids::{Timestamp, timestamp_now};
use crate::mail::Mail;
use crate::msg::{Msg, MsgView, EnvelopeView, fresh_envelope, local_addrs};
use crate::addr::local_addr;
use crate::codec::bincode_str;

verus! {

broadcast use vstd::std_specs::hash::group_hash_axioms;

/// An actor that exchanges [`Msg`] messages. Only [`Actor::receive`] needs an
/// implementation of its own.
pub trait Actor {
    /// Handles one message and optionally answers.
    fn receive(&mut self, _msg: Msg, _config: &Config) -> (out: Option<Msg>)
        default_ensures
            out matches Some(Msg::Blank),
    {
        Some(Msg::Blank)
    }

    /// The actor's name, the sender of its signal replies.
    fn name(&self) -> &'static str;

    /// The start-up signal.
    fn post_start(&mut self, _msg: Msg, config: &Config) -> (out: Option<Msg>)
        default_ensures
            out matches Some(m) && signal_to_system(m@, "Actor loading"@, config@),
    {
        let name = self.name();
        let m = Msg::new_internal("Actor loading", name, "system", config);
        assert(m@ matches MsgView::Custom(e) && signalled_by(e, name@, "Actor loading"@, config@));
        Some(m)
    }

    /// The shut-down signal.
    fn pre_shutdown(&mut self, _msg: Msg, config: &Config) -> (out: Option<Msg>)
        default_ensures
            out matches Some(m) && signal_to_system(m@, "Actor unloading"@, config@),
    {
        let name = self.name();
        let m = Msg::new_internal("Actor unloading", name, "system", config);
        assert(m@ matches MsgView::Custom(e) && signalled_by(e, name@, "Actor unloading"@, config@));
        Some(m)
    }
}

/// A fresh custom message from local actor `name` to local actor "system" whose content is
/// `text` as a bincode string.
pub open spec fn signalled_by(e: EnvelopeView, name: Seq<char>, text: Seq<char>, c: ConfigView) -> bool {
    e == fresh_envelope(e.id, local_addr(name, c), local_addr("system"@, c), Some(bincode_str(text)), e.created)
}

/// The signal reply of the default handlers: a fresh custom message from the actor (by its
/// name) to local actor "system", with content `text` as a bincode string.
pub open spec fn signal_to_system(m: MsgView, text: Seq<char>, c: ConfigView) -> bool {
    m matches MsgView::Custom(e) && exists|name: Seq<char>| #[trigger] signalled_by(e, name, text, c)
}

// ---------------------------------------------------------------------------
// The clock reply
// ---------------------------------------------------------------------------

/// The UTC day and time at `secs` seconds and `nanos` nanoseconds after the Unix epoch,
/// as chrono formats it with the pattern `%d/%m/%Y %T`; `None` where chrono has no such
/// date.
pub uninterp spec fn day_time_text(secs: i64, nanos: u32) -> Option<Seq<char>>;

/// The UTC date and time at `secs` seconds and `nanos` nanoseconds after the Unix epoch as
/// chrono displays a `DateTime<Utc>`; `None` where chrono has no such date.
pub uninterp spec fn utc_text(secs: i64, nanos: u32) -> Option<Seq<char>>;

/// chrono's `DateTime::from_timestamp`, then `format("%d/%m/%Y %T")`: the result is named
/// by [`day_time_text`].
#[verifier::external_body]
fn format_day_time(secs: i64, nanos: u32) -> (r: Option<String>)
    ensures
        match r {
            Some(s) => day_time_text(secs, nanos) == Some(s@),
            None => day_time_text(secs, nanos) is None,
        },
{
    chrono::DateTime::from_timestamp(secs, nanos).map(|d| d.format("%d/%m/%Y %T").to_string())
}

/// chrono's `DateTime::from_timestamp`, then its `Display`: the result is named by
/// [`utc_text`].
#[verifier::external_body]
fn format_utc(secs: i64, nanos: u32) -> (r: Option<String>)
    ensures
        match r {
            Some(s) => utc_text(secs, nanos) == Some(s@),
            None => utc_text(secs, nanos) is None,
        },
{
    chrono::DateTime::from_timestamp(secs, nanos).map(|d| d.to_string())
}

/// The reply to a message received at `now`: the day and time of `now`, then
/// " and reply time: " and the time two seconds later; `None` where either time has no date.
pub open spec fn time_reply_text(now: Timestamp) -> Option<Seq<char>> {
    if now.secs + 2 > i64::MAX {
        None
    } else {
        match (day_time_text(now.secs as i64, now.nanos), utc_text((now.secs + 2) as i64, now.nanos)) {
            (Some(a), Some(b)) => Some(a + " and reply time: "@ + b),
            _ => None,
        }
    }
}

/// The reply to a message received at `now` (see [`time_reply_text`]).
pub fn time_reply(now: Timestamp) -> (r: Option<String>)
    ensures
        match r {
            Some(s) => time_reply_text(now) == Some(s@),
            None => time_reply_text(now) is None,
        },
{
    if now.secs > 0x7fff_ffff_ffff_fffd {
        return None;
    }
    let received = format_day_time(now.secs as i64, now.nanos);
    let respond = format_utc((now.secs + 2) as i64, now.nanos);
    match (received, respond) {
        (Some(a), Some(b)) => {
            let mut reply = a;
            let sep = " and reply time: ";
            proof {
                reveal_strlit(" and reply time: ");
            }
            reply.append(sep);
            reply.append(b.as_str());
            Some(reply)
        },
        _ => None,
    }
}

/// Whether `m` is the reply to a message received at `now`: a custom message from local
/// actor "from" to local actor "to" whose content is [`time_reply_text`] of `now` as a
/// bincode string.
pub open spec fn clock_reply(now: Timestamp, m: MsgView, c: ConfigView) -> bool {
    &&& m matches MsgView::Custom(e)
    &&& time_reply_text(now) is Some
    &&& m->Custom_0 == fresh_envelope(
        m->Custom_0.id,
        local_addr("from"@, c),
        local_addr("to"@, c),
        Some(bincode_str(time_reply_text(now).unwrap())),
        m->Custom_0.created,
    )
}

/// The view of an optional message.
pub open spec fn opt_msg_view(o: Option<Msg>) -> Option<MsgView> {
    match o {
        Some(m) => Some(m@),
        None => None,
    }
}

/// Whether `out` is what a message received at `now` is answered with: the clock reply, or
/// nothing where `now` has no date.
pub open spec fn replied_at(now: Timestamp, out: Option<MsgView>, c: ConfigView) -> bool {
    match out {
        Some(m) => clock_reply(now, m, c),
        None => time_reply_text(now) is None,
    }
}

/// The reply to a message received at `now`; `None` where `now` has no date.
pub fn reply_at(now: Timestamp, config: &Config) -> (out: Option<Msg>)
    ensures
        match out {
            Some(m) => clock_reply(now, m@, config@),
            None => time_reply_text(now) is None,
        },
{
    match time_reply(now) {
        Some(text) => Some(Msg::new_with_text(text.as_str(), "from", "to", config)),
        None => None,
    }
}

/// An actor that answers every message with the time it got it and the time two seconds
/// later, from local actor "from" to local actor "to".
#[derive(PartialEq, Clone, Debug)]
pub struct ActorImpl;

impl Actor for ActorImpl {
    fn name(&self) -> (n: &'static str)
        ensures
            n@ == "ActorImpl"@,
    {
        "ActorImpl"
    }

    fn receive(&mut self, _msg: Msg, config: &Config) -> (out: Option<Msg>)
        ensures
            exists|now: Timestamp| #[trigger] replied_at(now, opt_msg_view(out), config@),
    {
        let now = timestamp_now();
        let out = reply_at(now, config);
        assert(replied_at(now, opt_msg_view(out), config@));
        out
    }
}

/// Hands out [`ActorImpl`] instances.
pub struct ActorCreator;

impl ActorCreator {
    /// A new actor.
    pub fn create_actor() -> ActorImpl {
        ActorImpl
    }
}

/// An actor that answers every message with "Reply from new actor", from local actor
/// "from" to local actor "to".
pub struct NewActor;

impl Actor for NewActor {
    fn name(&self) -> (n: &'static str)
        ensures
            n@ == "NewActor"@,
    {
        "NewActor"
    }

    fn receive(&mut self, _incoming: Msg, config: &Config) -> (out: Option<Msg>)
        ensures
            out matches Some(m) && m@ matches MsgView::Custom(e) && e == fresh_envelope(
                e.id,
                local_addr("from"@, config@),
                local_addr("to"@, config@),
                Some(bincode_str("Reply from new actor"@)),
                e.created,
            ),
    {
        Some(Msg::new_with_text("Reply from new actor", "from", "to", config))
    }
}

/// The builder that stands in for any stored builder while its definition is read back;
/// it builds no actor itself.
#[derive(Debug, Default)]
pub struct FakeActorBuilder;

/// A slot for one actor. Setting an actor into it leaves the slot as it was.
pub struct Arrow<A> {
    inner: Option<A>,
}

impl<A> Arrow<A> {
    /// An empty slot.
    pub fn new() -> (a: Arrow<A>)
        ensures
            a.inner() is None,
    {
        Arrow { inner: None }
    }

    /// The actor in the slot.
    pub closed spec fn inner(&self) -> Option<A> {
        self.inner
    }

    /// The actor in the slot, if any.
    pub fn get_inner(&self) -> (r: Option<&A>)
        ensures
            match r {
                Some(a) => self.inner() == Some(*a),
                None => self.inner() is None,
            },
    {
        match &self.inner {
            Some(a) => Some(a),
            None => None,
        }
    }

    /// Offers `actor` to the slot; the slot keeps what it held and `actor` is dropped.
    pub fn set(&mut self, actor: A)
        ensures
            final(self).inner() == old(self).inner(),
    {
        let _replaced = match &mut self.inner {
            Some(_) => Some(actor),
            None => None,
        };
    }
}

// ---------------------------------------------------------------------------
// Pools
// ---------------------------------------------------------------------------

/// What a pool handed one of its actors: a message, its start-up signal or its shut-down
/// signal.
pub enum Handed<M> {
    Message(M),
    PostStart,
    PreShutdown,
}

/// What the actor at `identity` was handed, in order, according to `journal`.
pub open spec fn handed_to<M>(journal: Seq<(u64, Handed<M>)>, identity: u64) -> Seq<Handed<M>>
    decreases journal.len(),
{
    if journal.len() == 0 {
        seq![]
    } else if journal.last().0 == identity {
        handed_to(journal.drop_last(), identity).push(journal.last().1)
    } else {
        handed_to(journal.drop_last(), identity)
    }
}

/// Handing something to the actor at one identity adds it, last, to what that actor was
/// handed, and leaves what every other actor was handed as it was.
pub proof fn lemma_handing_reaches_one_actor<M>(journal: Seq<(u64, Handed<M>)>, identity: u64, h: Handed<M>, other: u64)
    ensures
        handed_to(journal.push((identity, h)), identity) == handed_to(journal, identity).push(h),
        other != identity ==> handed_to(journal.push((identity, h)), other) == handed_to(journal, other),
{
    assert(journal.push((identity, h)).drop_last() == journal);
}

/// [`Msg`] actors by identity.
pub struct Arrows<A> {
    wrappers: HashMap<u64, (A, Ghost<A>)>,
    journal: Ghost<Seq<(u64, Handed<MsgView>)>>,
}

impl<A> View for Arrows<A> {
    type V = Map<u64, A>;

    closed spec fn view(&self) -> Map<u64, A> {
        self.wrappers@.map_values(|e: (A, Ghost<A>)| e.0)
    }
}

impl<A> Arrows<A> {
    /// What the pool has handed its actors, in order: each entry is an identity and what
    /// the actor there was handed (a message, its start-up or its shut-down signal).
    pub closed spec fn journal(&self) -> Seq<(u64, Handed<MsgView>)> {
        self.journal@
    }

    /// The actor each pooled actor was registered as, by identity: an actor keeps its
    /// origin through every message and signal it handles, whatever these do to it.
    pub closed spec fn origins(&self) -> Map<u64, A> {
        self.wrappers@.map_values(|e: (A, Ghost<A>)| e.1@)
    }

    /// An empty pool.
    pub fn new() -> (a: Arrows<A>)
        ensures
            a@ == Map::<u64, A>::empty(),
            a.origins() == Map::<u64, A>::empty(),
            a.journal() == Seq::<(u64, Handed<MsgView>)>::empty(),
    {
        let a = Arrows { wrappers: HashMap::new(), journal: Ghost(Seq::empty()) };
        assert(a@ =~= Map::<u64, A>::empty());
        assert(a.origins() =~= Map::<u64, A>::empty());
        a
    }

    /// The actor with `identity`, if any.
    pub fn get_actor(&self, identity: u64) -> (r: Option<&A>)
        ensures
            match r {
                Some(a) => self@.contains_key(identity) && self@[identity] == *a,
                None => !self@.contains_key(identity),
            },
    {
        match self.wrappers.get(&identity) {
            Some(e) => Some(&e.0),
            None => None,
        }
    }

    fn place(&mut self, identity: u64, actor: A, origin: Ghost<A>)
        ensures
            final(self)@ == old(self)@.insert(identity, actor),
            final(self).origins() == old(self).origins().insert(identity, origin@),
            final(self).journal() == old(self).journal(),
    {
        let ghost e = (actor, origin);
        self.wrappers.insert(identity, (actor, origin));
        assert(self@ =~= old(self)@.insert(identity, e.0));
        assert(self.origins() =~= old(self).origins().insert(identity, e.1@));
    }

    /// Puts `actor` in the pool under `identity`, replacing any actor there.
    pub fn add_actor(&mut self, identity: u64, actor: A)
        ensures
            final(self)@ == old(self)@.insert(identity, actor),
            final(self).origins() == old(self).origins().insert(identity, actor),
            final(self).journal() == old(self).journal(),
    {
        self.place(identity, actor, Ghost(actor));
    }

    /// Takes the actor with `identity` out of the pool.
    pub fn remove_actor(&mut self, identity: u64) -> (r: Option<A>)
        ensures
            final(self)@ == old(self)@.remove(identity),
            final(self).origins() == old(self).origins().remove(identity),
            final(self).journal() == old(self).journal(),
            old(self)@.dom() == old(self).origins().dom(),
            match r {
                Some(a) => old(self)@.contains_key(identity) && old(self)@[identity] == a,
                None => !old(self)@.contains_key(identity),
            },
    {
        assert(old(self)@.dom() =~= old(self).origins().dom());
        let r = self.wrappers.remove(&identity);
        assert(self@ =~= old(self)@.remove(identity));
        assert(self.origins() =~= old(self).origins().remove(identity));
        match r {
            Some(e) => Some(e.0),
            None => None,
        }
    }
}

impl<A: Actor> Arrows<A> {
    /// Hands `msg` to `actor` (at `identity`) as a message, and writes down what it was
    /// handed.
    fn deliver(journal: &mut Ghost<Seq<(u64, Handed<MsgView>)>>, identity: u64, actor: &mut A, msg: Msg, config: &Config)
        ensures
            final(journal)@ == old(journal)@.push((identity, Handed::Message(msg@))),
    {
        let ghost mv = msg@;
        let _reply = actor.receive(msg, config);
        *journal = Ghost(journal@.push((identity, Handed::Message(mv))));
    }

    /// Gives `actor` (at `identity`) its start-up signal, and writes that down.
    fn start(journal: &mut Ghost<Seq<(u64, Handed<MsgView>)>>, identity: u64, actor: &mut A, config: &Config)
        ensures
            final(journal)@ == old(journal)@.push((identity, Handed::PostStart)),
    {
        let _reply = actor.post_start(Msg::Blank, config);
        *journal = Ghost(journal@.push((identity, Handed::PostStart)));
    }

    /// Gives `actor` (at `identity`) its shut-down signal, and writes that down.
    fn stop(journal: &mut Ghost<Seq<(u64, Handed<MsgView>)>>, identity: u64, actor: &mut A, config: &Config)
        ensures
            final(journal)@ == old(journal)@.push((identity, Handed::PreShutdown)),
    {
        let _reply = actor.pre_shutdown(Msg::Blank, config);
        *journal = Ghost(journal@.push((identity, Handed::PreShutdown)));
    }

    /// Hands `msg` to the actor with `identity`; whether there was one. Its answer is not
    /// kept, and the actor stays the one registered there.
    pub fn send(&mut self, identity: u64, msg: Msg, config: &Config) -> (delivered: bool)
        ensures
            delivered == old(self)@.contains_key(identity),
            final(self)@.dom() == old(self)@.dom(),
            forall|k: u64| k != identity && old(self)@.contains_key(k) ==> final(self)@[k] == old(self)@[k],
            final(self).origins() == old(self).origins(),
            final(self).journal() == if delivered {
                old(self).journal().push((identity, Handed::Message(msg@)))
            } else {
                old(self).journal()
            },
            delivered ==> handed_to(final(self).journal(), identity) == handed_to(old(self).journal(), identity).push(Handed::Message(msg@)),
            forall|k: u64| k != identity ==> handed_to(final(self).journal(), k) == handed_to(old(self).journal(), k),
    {
        let ghost o = self.origins()[identity];
        match self.remove_actor(identity) {
            Some(mut actor) => {
                Self::deliver(&mut self.journal, identity, &mut actor, msg, config);
                proof {
                    let hh = self.journal@.last().1;
                    assert(self.journal@ == old(self).journal().push((identity, hh)));
                    lemma_handing_reaches_one_actor(old(self).journal(), identity, hh, identity);
                    assert forall|k: u64| k != identity implies handed_to(self.journal@, k) == handed_to(old(self).journal(), k) by {
                        lemma_handing_reaches_one_actor(old(self).journal(), identity, hh, k);
                    }
                }
                self.place(identity, actor, Ghost(o));
                proof {
                    assert(self@.dom() =~= old(self)@.dom());
                    assert(self.origins() =~= old(self).origins());
                }
                true
            },
            None => {
                proof {
                    assert(self@ =~= old(self)@);
                    assert(self.origins() =~= old(self).origins());
                }
                false
            },
        }
    }

    /// Registers `actor` under `addr`: the actor there before, if any, is removed after its
    /// shut-down signal; `actor` gets its start-up signal and joins the pool as the actor
    /// registered there.
    pub fn register(&mut self, addr: u64, actor: A, config: &Config)
        ensures
            final(self)@.dom() == old(self)@.dom().insert(addr),
            forall|k: u64| k != addr && old(self)@.contains_key(k) ==> final(self)@[k] == old(self)@[k],
            final(self).origins() == old(self).origins().insert(addr, actor),
            final(self).journal() == if old(self)@.contains_key(addr) {
                old(self).journal().push((addr, Handed::PreShutdown)).push((addr, Handed::PostStart))
            } else {
                old(self).journal().push((addr, Handed::PostStart))
            },
            handed_to(final(self).journal(), addr) == if old(self)@.contains_key(addr) {
                handed_to(old(self).journal(), addr).push(Handed::PreShutdown).push(Handed::PostStart)
            } else {
                handed_to(old(self).journal(), addr).push(Handed::PostStart)
            },
            forall|k: u64| k != addr ==> handed_to(final(self).journal(), k) == handed_to(old(self).journal(), k),
    {
        match self.remove_actor(addr) {
            Some(mut previous) => {
                Self::stop(&mut self.journal, addr, &mut previous, config);
            },
            None => {},
        }
        let ghost given = actor;
        let mut actor = actor;
        let ghost j1 = self.journal@;
        Self::start(&mut self.journal, addr, &mut actor, config);
        proof {
            lemma_handing_reaches_one_actor(j1, addr, Handed::PostStart, addr);
            if old(self)@.contains_key(addr) {
                lemma_handing_reaches_one_actor(old(self).journal(), addr, Handed::PreShutdown, addr);
            }
            assert forall|k: u64| k != addr implies handed_to(self.journal@, k) == handed_to(old(self).journal(), k) by {
                lemma_handing_reaches_one_actor(j1, addr, Handed::PostStart, k);
                if old(self)@.contains_key(addr) {
                    lemma_handing_reaches_one_actor(old(self).journal(), addr, Handed::PreShutdown, k);
                }
            }
        }
        self.place(addr, actor, Ghost(given));
        proof {
            assert(self@.dom() =~= old(self)@.dom().insert(addr));
            assert(self.origins() =~= old(self).origins().insert(addr, given));
        }
    }
}

/// [`Mail`] actors by identity.
pub struct Actors<A> {
    cached_actors: HashMap<u64, (A, Ghost<A>)>,
    journal: Ghost<Seq<(u64, Handed<crate::mail::MailView>)>>,
}

impl<A> View for Actors<A> {
    type V = Map<u64, A>;

    closed spec fn view(&self) -> Map<u64, A> {
        self.cached_actors@.map_values(|e: (A, Ghost<A>)| e.0)
    }
}

impl<A> Actors<A> {
    /// What the pool has handed its actors, in order: each entry is an identity and what
    /// the actor there was handed (a message, its start-up or its shut-down signal).
    pub closed spec fn journal(&self) -> Seq<(u64, Handed<crate::mail::MailView>)> {
        self.journal@
    }

    /// The actor each pooled actor was registered as, by identity: an actor keeps its
    /// origin through every message and signal it handles, whatever these do to it.
    pub closed spec fn origins(&self) -> Map<u64, A> {
        self.cached_actors@.map_values(|e: (A, Ghost<A>)| e.1@)
    }

    /// An empty pool.
    pub fn new() -> (a: Actors<A>)
        ensures
            a@ == Map::<u64, A>::empty(),
            a.origins() == Map::<u64, A>::empty(),
            a.journal() == Seq::<(u64, Handed<crate::mail::MailView>)>::empty(),
    {
        let a = Actors { cached_actors: HashMap::new(), journal: Ghost(Seq::empty()) };
        assert(a@ =~= Map::<u64, A>::empty());
        assert(a.origins() =~= Map::<u64, A>::empty());
        a
    }

    /// The actor with `identity`, if any.
    pub fn get_actor(&self, identity: u64) -> (r: Option<&A>)
        ensures
            match r {
                Some(a) => self@.contains_key(identity) && self@[identity] == *a,
                None => !self@.contains_key(identity),
            },
    {
        match self.cached_actors.get(&identity) {
            Some(e) => Some(&e.0),
            None => None,
        }
    }

    fn place(&mut self, identity: u64, actor: A, origin: Ghost<A>)
        ensures
            final(self)@ == old(self)@.insert(identity, actor),
            final(self).origins() == old(self).origins().insert(identity, origin@),
            final(self).journal() == old(self).journal(),
    {
        let ghost e = (actor, origin);
        self.cached_actors.insert(identity, (actor, origin));
        assert(self@ =~= old(self)@.insert(identity, e.0));
        assert(self.origins() =~= old(self).origins().insert(identity, e.1@));
    }

    /// Puts `actor` in the pool under `identity`, replacing any actor there.
    pub fn add_actor(&mut self, identity: u64, actor: A)
        ensures
            final(self)@ == old(self)@.insert(identity, actor),
            final(self).origins() == old(self).origins().insert(identity, actor),
            final(self).journal() == old(self).journal(),
    {
        self.place(identity, actor, Ghost(actor));
    }

    /// Takes the actor with `identity` out of the pool.
    pub fn remove_actor(&mut self, identity: u64) -> (r: Option<A>)
        ensures
            final(self)@ == old(self)@.remove(identity),
            final(self).origins() == old(self).origins().remove(identity),
            final(self).journal() == old(self).journal(),
            old(self)@.dom() == old(self).origins().dom(),
            match r {
                Some(a) => old(self)@.contains_key(identity) && old(self)@[identity] == a,
                None => !old(self)@.contains_key(identity),
            },
    {
        assert(old(self)@.dom() =~= old(self).origins().dom());
        let r = self.cached_actors.remove(&identity);
        assert(self@ =~= old(self)@.remove(identity));
        assert(self.origins() =~= old(self).origins().remove(identity));
        match r {
            Some(e) => Some(e.0),
            None => None,
        }
    }
}

impl<A: crate::actor::Actor> Actors<A> {
    /// Hands `msg` to `actor` (at `identity`) as a message, and writes down what it was
    /// handed.
    fn deliver(journal: &mut Ghost<Seq<(u64, Handed<crate::mail::MailView>)>>, identity: u64, actor: &mut A, msg: Mail, config: &Config)
        ensures
            final(journal)@ == old(journal)@.push((identity, Handed::Message(msg@))),
    {
        let ghost mv = msg@;
        let _reply = actor.receive(msg, config);
        *journal = Ghost(journal@.push((identity, Handed::Message(mv))));
    }

    /// Gives `actor` (at `identity`) its start-up signal, and writes that down.
    fn start(journal: &mut Ghost<Seq<(u64, Handed<crate::mail::MailView>)>>, identity: u64, actor: &mut A, config: &Config)
        ensures
            final(journal)@ == old(journal)@.push((identity, Handed::PostStart)),
    {
        let _reply = actor.post_start(Mail::Blank, config);
        *journal = Ghost(journal@.push((identity, Handed::PostStart)));
    }

    /// Gives `actor` (at `identity`) its shut-down signal, and writes that down.
    fn stop(journal: &mut Ghost<Seq<(u64, Handed<crate::mail::MailView>)>>, identity: u64, actor: &mut A, config: &Config)
        ensures
            final(journal)@ == old(journal)@.push((identity, Handed::PreShutdown)),
    {
        let _reply = actor.pre_shutdown(Mail::Blank, config);
        *journal = Ghost(journal@.push((identity, Handed::PreShutdown)));
    }

    /// Hands `msg` to the actor with `identity`; whether there was one. Its answer is not
    /// kept, and the actor stays the one registered there.
    pub fn send(&mut self, identity: u64, msg: crate::mail::Msg, config: &Config) -> (delivered: bool)
        ensures
            delivered == old(self)@.contains_key(identity),
            final(self)@.dom() == old(self)@.dom(),
            forall|k: u64| k != identity && old(self)@.contains_key(k) ==> final(self)@[k] == old(self)@[k],
            final(self).origins() == old(self).origins(),
            final(self).journal() == if delivered {
                old(self).journal().push((identity, Handed::Message(crate::mail::MailView::Trade(msg@))))
            } else {
                old(self).journal()
            },
            delivered ==> handed_to(final(self).journal(), identity) == handed_to(old(self).journal(), identity).push(
                Handed::Message(crate::mail::MailView::Trade(msg@))),
            forall|k: u64| k != identity ==> handed_to(final(self).journal(), k) == handed_to(old(self).journal(), k),
    {
        let ghost o = self.origins()[identity];
        match self.remove_actor(identity) {
            Some(mut actor) => {
                Self::deliver(&mut self.journal, identity, &mut actor, Mail::Trade(msg), config);
                proof {
                    let hh = self.journal@.last().1;
                    assert(self.journal@ == old(self).journal().push((identity, hh)));
                    lemma_handing_reaches_one_actor(old(self).journal(), identity, hh, identity);
                    assert forall|k: u64| k != identity implies handed_to(self.journal@, k) == handed_to(old(self).journal(), k) by {
                        lemma_handing_reaches_one_actor(old(self).journal(), identity, hh, k);
                    }
                }
                self.place(identity, actor, Ghost(o));
                proof {
                    assert(self@.dom() =~= old(self)@.dom());
                    assert(self.origins() =~= old(self).origins());
                }
                true
            },
            None => {
                proof {
                    assert(self@ =~= old(self)@);
                    assert(self.origins() =~= old(self).origins());
                }
                false
            },
        }
    }

    /// Registers the actor that a builder built under `addr`: the actor there before, if any, is removed after its
    /// shut-down signal; `actor` gets its start-up signal and joins the pool as the actor
    /// registered there.
    pub fn register_builder(&mut self, addr: u64, actor: A, config: &Config)
        ensures
            final(self)@.dom() == old(self)@.dom().insert(addr),
            forall|k: u64| k != addr && old(self)@.contains_key(k) ==> final(self)@[k] == old(self)@[k],
            final(self).origins() == old(self).origins().insert(addr, actor),
            final(self).journal() == if old(self)@.contains_key(addr) {
                old(self).journal().push((addr, Handed::PreShutdown)).push((addr, Handed::PostStart))
            } else {
                old(self).journal().push((addr, Handed::PostStart))
            },
            handed_to(final(self).journal(), addr) == if old(self)@.contains_key(addr) {
                handed_to(old(self).journal(), addr).push(Handed::PreShutdown).push(Handed::PostStart)
            } else {
                handed_to(old(self).journal(), addr).push(Handed::PostStart)
            },
            forall|k: u64| k != addr ==> handed_to(final(self).journal(), k) == handed_to(old(self).journal(), k),
    {
        match self.remove_actor(addr) {
            Some(mut previous) => {
                Self::stop(&mut self.journal, addr, &mut previous, config);
            },
            None => {},
        }
        let ghost given = actor;
        let mut actor = actor;
        let ghost j1 = self.journal@;
        Self::start(&mut self.journal, addr, &mut actor, config);
        proof {
            lemma_handing_reaches_one_actor(j1, addr, Handed::PostStart, addr);
            if old(self)@.contains_key(addr) {
                lemma_handing_reaches_one_actor(old(self).journal(), addr, Handed::PreShutdown, addr);
            }
            assert forall|k: u64| k != addr implies handed_to(self.journal@, k) == handed_to(old(self).journal(), k) by {
                lemma_handing_reaches_one_actor(j1, addr, Handed::PostStart, k);
                if old(self)@.contains_key(addr) {
                    lemma_handing_reaches_one_actor(old(self).journal(), addr, Handed::PreShutdown, k);
                }
            }
        }
        self.place(addr, actor, Ghost(given));
        proof {
            assert(self@.dom() =~= old(self)@.dom().insert(addr));
            assert(self.origins() =~= old(self).origins().insert(addr, given));
        }
    }

    /// Reloads the actor under `addr` from its stored definition, built into `rebuilt`
    /// (`None` when no definition is stored): it gets its start-up signal and joins the
    /// pool as the actor registered there. Without a definition the reload fails and the
    /// pool is unchanged.
    pub fn reload_actor(&mut self, addr: u64, rebuilt: Option<A>, config: &Config) -> (r: Result<(), Error>)
        ensures
            match r {
                Ok(()) => rebuilt is Some && final(self)@.dom() == old(self)@.dom().insert(addr)
                    && (forall|k: u64| k != addr && old(self)@.contains_key(k) ==> final(self)@[k] == old(self)@[k])
                    && final(self).origins() == old(self).origins().insert(addr, rebuilt.unwrap())
                    && final(self).journal() == old(self).journal().push((addr, Handed::PostStart)),
                Err(e) => rebuilt is None && e == Error::ActorReloadError && final(self)@ == old(self)@
                    && final(self).origins() == old(self).origins() && final(self).journal() == old(self).journal(),
            },
    {
        match rebuilt {
            Some(actor) => {
                let ghost given = actor;
                let mut actor = actor;
                Self::start(&mut self.journal, addr, &mut actor, config);
                self.place(addr, actor, Ghost(given));
                proof {
                    assert(self@.dom() =~= old(self)@.dom().insert(addr));
                }
                Ok(())
            },
            None => Err(Error::ActorReloadError),
        }
    }
}

} // verus!

verus! {

/// A pool (of either kind) gives back what was put in it: the actor added under an identity
/// is the one found there, taking it out leaves no actor there, and every other identity
/// keeps the actor it had.
pub proof fn lemma_pool_put_get_take<A>(pool: Map<u64, A>, identity: u64, actor: A, other: u64)
    requires
        other != identity,
    ensures
        pool.insert(identity, actor).contains_key(identity),
        pool.insert(identity, actor)[identity] == actor,
        !pool.insert(identity, actor).remove(identity).contains_key(identity),
        pool.insert(identity, actor).remove(identity).contains_key(other) == pool.contains_key(other),
        pool.contains_key(other) ==> pool.insert(identity, actor).remove(identity)[other] == pool[other],
{
}

} // verus!
