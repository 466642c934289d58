//! Actors: what an actor implementation provides, and the sample actors that come with the
//! system.
//!
//! An actor receives mail one message at a time and may answer with outgoing mail, which
//! may be addressed to any local or remote actor and may hold several messages. Messages
//! for an actor are delivered in the order in which they entered the system. Replies that
//! name local actors take the node's host and port from the [`Config`] handed in.
use vstd::prelude::*;
use crate::config::{Config, ConfigView};
use crate::mail::{Mail, MailView, Msg, MsgView, ContentView, reply_msg};
use crate::codec::bincode_str;
use crate::addr::local_addr;

verus! {

/// The behaviour of an actor. Only [`Actor::receive`] needs an implementation of its own.
pub trait Actor {
    /// Handles one incoming mail (a single `Trade` message, or blank for a signal) and
    /// optionally answers. The incoming message should not be returned as it is: it would be
    /// delivered again. Outgoing messages carry their recipient's address.
    fn receive(&mut self, _mail: Mail, _config: &Config) -> (out: Option<Mail>)
        default_ensures
            out matches Some(Mail::Blank),
    {
        Some(Mail::Blank)
    }

    /// The start-up signal, received when the actor is defined or restored.
    fn post_start(&mut self, _mail: Mail, config: &Config) -> (out: Option<Mail>)
        default_ensures
            out matches Some(Mail::Trade(m)) && signal_reply(m@, "Starting up"@, config@),
    {
        Some(Mail::Trade(Msg::with_text("Starting up", "from_this_actor", "to_another_actor", config)))
    }

    /// The signal received before the actor is shut down or evicted (an actor is evicted
    /// when it has panicked too often).
    fn pre_shutdown(&mut self, _mail: Mail, config: &Config) -> (out: Option<Mail>)
        default_ensures
            out matches Some(Mail::Trade(m)) && signal_reply(m@, "Shutdown"@, config@),
    {
        Some(Mail::Trade(Msg::with_text("Shutdown", "from_this_actor", "to_another_actor", config)))
    }
}

/// The text message with which the default signal handlers answer: `text` from local actor
/// "from_this_actor" to local actor "to_another_actor".
pub open spec fn signal_reply(m: MsgView, text: Seq<char>, c: ConfigView) -> bool {
    &&& m.content == Some(ContentView::Text(text))
    &&& m.from == Some(local_addr("from_this_actor"@, c))
    &&& m.to == Some(local_addr("to_another_actor"@, c))
}

/// A sample actor: answers every non-blank mail with a text message.
pub struct ExampleActor;

impl Actor for ExampleActor {
    fn receive(&mut self, incoming: Mail, config: &Config) -> (out: Option<Mail>)
        ensures
            incoming@ is Blank ==> out is None,
            !(incoming@ is Blank) ==> (out matches Some(Mail::Trade(m)) && m@.content == Some(
                ContentView::Text("Some text"@),
            ) && m@.from == Some(local_addr("from_me"@, config@)) && m@.to == Some(
                local_addr("to_sender"@, config@),
            )),
    {
        if !Mail::is_blank(&incoming) {
            let reply = Msg::with_text("Some text", "from_me", "to_sender", config);
            return Some(Mail::Trade(reply));
        }
        None
    }
}

/// Hands out [`ExampleActor`] instances.
#[derive(Debug, Default)]
pub struct ExampleActorProducer;

impl ExampleActorProducer {
    /// A new actor.
    pub fn produce(&mut self) -> ExampleActor {
        ExampleActor
    }
}

/// A sample actor: answers every mail with the text "Message from DemoActor".
pub struct DemoActor;

impl Actor for DemoActor {
    fn receive(&mut self, _incoming: Mail, _config: &Config) -> (out: Option<Mail>)
        ensures
            out matches Some(Mail::Trade(m)) && m@.content == Some(
                ContentView::Text("Message from DemoActor"@),
            ) && m@.from is None && m@.to is None,
    {
        Some(Mail::Trade(Msg::from_text("Message from DemoActor")))
    }
}

/// Hands out [`DemoActor`] instances.
#[derive(Debug, Default)]
pub struct DemoActorProducer;

impl DemoActorProducer {
    /// A new actor.
    pub fn produce(&mut self) -> DemoActor {
        DemoActor
    }
}

/// A sample actor that sends a single message back to its sender with a text reply.
pub struct AnotherActor;

impl Actor for AnotherActor {
    fn receive(&mut self, incoming: Mail, _config: &Config) -> (out: Option<Mail>)
        ensures
            match incoming@ {
                MailView::Trade(m) => out matches Some(Mail::Trade(r)) && r@ == reply_msg(
                    m,
                    Some(ContentView::Binary(bincode_str("Reply from Another actor"@))),
                ),
                _ => out is None,
            },
    {
        if let Mail::Trade(mut msg) = incoming {
            msg.text_reply("Reply from Another actor");
            Some(Mail::Trade(msg))
        } else {
            None
        }
    }
}

/// Hands out [`AnotherActor`] instances.
#[derive(Debug, Default)]
pub struct AnotherProducer;

impl AnotherProducer {
    /// A new actor.
    pub fn produce(&mut self) -> AnotherActor {
        AnotherActor
    }
}

/// A placeholder actor type that does nothing of its own.
pub struct ActorArrow {}

impl Actor for ActorArrow {}

} // verus!
