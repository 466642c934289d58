//! System actors of a node: the request validator and the actor initializer, kept by
//! address id, and the invoker that hands a [`Message`] to the system actor it is
//! addressed to.
use vstd::prelude::*;
use std::collections::HashMap;
use crate::address::{Address, AddressView, new_address};
use crate::message::{Message, MessageView, envelope, turned};
use crate::codec::bincode_str;

verus! {

broadcast use vstd::std_specs::hash::group_hash_axioms;

/// The name the request validator assumes.
pub const REQUEST_VALIDATOR: &'static str = "request-validator";
/// The name the actor initializer assumes.
pub const ACTOR_INITIALIZER: &'static str = "actor-initializer";

/// An actor that is handed messages in place. Only [`Actor::receive`] needs an
/// implementation of its own.
pub trait Actor {
    /// Handles `message` and optionally answers.
    fn receive<'a>(&mut self, message: &mut Message<'a>) -> Option<Message<'a>>;

    /// How many unread messages are held in memory for the actor.
    fn max_in_memory_msg_count(&self) -> (n: u64)
        default_ensures
            n == 1000,
    {
        1000
    }

    /// How many seconds a message may wait before it is handed to the actor.
    fn msg_max_age(&self) -> (secs: u64)
        default_ensures
            secs == 3,
    {
        3
    }
}

/// The message after the request validator turned it round: sender and recipient swapped
/// and the content "Request validation passed" as a bincode string.
pub open spec fn validated(m: MessageView) -> MessageView {
    turned(m, Some(bincode_str("Request validation passed"@)))
}

/// The request validator: lets every request proceed by answering it.
pub struct RequestValidator<'a> {
    addr: Address<'a>,
}

impl<'a> RequestValidator<'a> {
    /// The validator of the node `host:port`, named [`REQUEST_VALIDATOR`].
    pub fn new(host: &'a str, port: u16) -> (v: RequestValidator<'a>)
        ensures
            v.address() == new_address(REQUEST_VALIDATOR@, host@, port),
    {
        RequestValidator { addr: Address::new(REQUEST_VALIDATOR, host, port) }
    }

    /// The validator's address.
    pub closed spec fn address(&self) -> AddressView {
        self.addr@
    }

    /// The id of the validator's address.
    pub fn identity(&self) -> (id: u64)
        ensures
            id == self.address().id,
    {
        self.addr.get_id()
    }
}

impl<'v> Actor for RequestValidator<'v> {
    fn receive<'a>(&mut self, message: &mut Message<'a>) -> (out: Option<Message<'a>>)
        ensures
            out matches Some(o) && o@ == validated(old(message)@),
            final(message)@ is Blank,
    {
        message.uturn_with_text("Request validation passed");
        let mut outgoing = Message::Blank;
        std::mem::swap(&mut outgoing, message);
        Some(outgoing)
    }
}

/// The actor initializer: takes requests and answers none.
pub struct ActorInitializer<'a> {
    addr: Address<'a>,
}

impl<'a> ActorInitializer<'a> {
    /// The initializer of the node `host:port`, named [`ACTOR_INITIALIZER`].
    pub fn new(host: &'a str, port: u16) -> (v: ActorInitializer<'a>)
        ensures
            v.address() == new_address(ACTOR_INITIALIZER@, host@, port),
    {
        ActorInitializer { addr: Address::new(ACTOR_INITIALIZER, host, port) }
    }

    /// The initializer's address.
    pub closed spec fn address(&self) -> AddressView {
        self.addr@
    }

    /// The id of the initializer's address.
    pub fn identity(&self) -> (id: u64)
        ensures
            id == self.address().id,
    {
        self.addr.get_id()
    }
}

impl<'v> Actor for ActorInitializer<'v> {
    fn receive<'a>(&mut self, _message: &mut Message<'a>) -> (out: Option<Message<'a>>)
        ensures
            out is None,
            *final(_message) == *old(_message),
    {
        None
    }
}

/// System actors by address id.
pub struct SysActors<A> {
    actors: HashMap<u64, A>,
}

impl<A> View for SysActors<A> {
    type V = Map<u64, A>;

    closed spec fn view(&self) -> Map<u64, A> {
        self.actors@
    }
}

impl<A> SysActors<A> {
    /// An empty pool.
    pub fn new() -> (s: SysActors<A>)
        ensures
            s@ == Map::<u64, A>::empty(),
    {
        SysActors { actors: HashMap::new() }
    }

    /// The actor at `addr_id`, if any.
    pub fn get(&self, addr_id: u64) -> (r: Option<&A>)
        ensures
            match r {
                Some(a) => self@.contains_key(addr_id) && self@[addr_id] == *a,
                None => !self@.contains_key(addr_id),
            },
    {
        self.actors.get(&addr_id)
    }

    /// Puts `actor` in the pool at `addr_id`, replacing any actor there.
    pub fn add(&mut self, addr_id: u64, actor: A)
        ensures
            final(self)@ == old(self)@.insert(addr_id, actor),
    {
        self.actors.insert(addr_id, actor);
    }

    /// Takes the actor at `addr_id` out of the pool.
    pub fn remove(&mut self, addr_id: u64) -> (r: Option<A>)
        ensures
            final(self)@ == old(self)@.remove(addr_id),
            match r {
                Some(a) => old(self)@.contains_key(addr_id) && old(self)@[addr_id] == a,
                None => !old(self)@.contains_key(addr_id),
            },
    {
        self.actors.remove(&addr_id)
    }
}

/// Routes messages that no system actor takes. It takes every message and does nothing
/// with it yet.
pub struct MsgRouter {}

impl MsgRouter {
    /// Takes `msg`.
    pub fn route<'a>(_msg: Message<'a>) -> (r: Result<(), ()>)
        ensures
            r is Ok,
    {
        Ok(())
    }
}

/// The id of a message's recipient address; `0` without one.
pub open spec fn recipient_id(m: MessageView) -> u64 {
    match m {
        MessageView::Blank => 0,
        _ => match envelope(m).to {
            Some(a) => a.id,
            None => 0,
        },
    }
}

/// Hands messages to system actors.
pub struct ActorInvoker;

impl ActorInvoker {
    /// Hands `incoming` to the system actor it is addressed to and gives that actor's
    /// answer; a message for no system actor goes to the [`MsgRouter`] and is answered by
    /// none.
    pub fn invoke<'a, A: Actor>(incoming: Message<'a>, sys_actors: &mut SysActors<A>) -> (out: Option<Message<'a>>)
        ensures
            final(sys_actors)@.dom() == old(sys_actors)@.dom(),
            final(sys_actors)@.remove(recipient_id(incoming@)) == old(sys_actors)@.remove(recipient_id(incoming@)),
            !old(sys_actors)@.contains_key(recipient_id(incoming@)) ==> out is None
                && final(sys_actors)@ == old(sys_actors)@,
    {
        let to_addr_id = incoming.get_to_id();
        match sys_actors.remove(to_addr_id) {
            Some(mut actor) => {
                let mut incoming = incoming;
                let outcome = actor.receive(&mut incoming);
                sys_actors.add(to_addr_id, actor);
                proof {
                    assert(sys_actors@.dom() =~= old(sys_actors)@.dom());
                }
                outcome
            },
            None => {
                let _routed = MsgRouter::route(incoming);
                None
            },
        }
    }
}

} // verus!
