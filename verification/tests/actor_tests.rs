use arrows::actor::{Actor, AnotherActor, DemoActor, ExampleActor, ExampleActorProducer};
use arrows::addr::Addr;
use arrows::catalog::{
    route_published, ActorPanic, Binary, CachedActor, Context, Invocation, PanicWatch, Readiness, RichMail,
    Unguarded,
};
use arrows::config::Config;
use arrows::ids::Timestamp;
use arrows::mail::{Mail, Msg};
use arrows::registry::{self, ActorCreator, Arrows, NewActor};
use arrows::sysactors::{ActorInitializer, ActorInvoker, RequestValidator, SysActors};

fn config() -> Config {
    Config::with_values("127.0.0.1", 7171, "/tmp", "target/debug/arrows", 1)
}

fn to(addr: &Addr, mail: Mail, seq: i64) -> RichMail {
    RichMail::RichContent(mail, true, seq, None, Some(addr.clone()))
}

#[test]
fn example_actor() {
    let config = config();
    let mut ctx: Context<Unguarded<ExampleActor>> = Context::new();
    let mut producer = ExampleActorProducer;
    // Define an actor
    let _rs = ctx.define_actor(Addr::new("example_actor1", &config), Unguarded(producer.produce()), &config);
    // Another actor instance with same behaviour
    let _rs = ctx.define_actor(
        Addr::new("example_actor2", &config),
        Unguarded(ExampleActorProducer.produce()),
        &config,
    );

    // Each got its start-up signal, answered by the default handler.
    assert_eq!(ctx.take_published().len(), 2);
    let m = Msg::default();
    // Send out messages
    let r1 = ctx.handle_invocation(to(&Addr::new("example_actor1", &config), Mail::Trade(m), 1), &config);
    let r2 = ctx.handle_invocation(to(&Addr::new("example_actor2", &config), Mail::Trade(Msg::default()), 1), &config);
    assert_eq!(r1, Invocation::Delivered);
    assert_eq!(r2, Invocation::Delivered);
    // Each actor answered once; with a buffer of one reply each answer is published at once.
    assert_eq!(ctx.take_published().len(), 2);
}

#[test]
fn actor_create_actor_test1() {
    #[derive(PartialEq, Clone, Debug)]
    struct MyActor {
        name: String,
    }
    impl MyActor {
        fn new() -> Self {
            Self { name: String::from("An actor") }
        }
    }
    // A demo actor implementation which responds by blank replies.
    impl Actor for MyActor {
        fn receive(&mut self, _msg: Mail, _config: &Config) -> Option<Mail> {
            Some(Mail::Blank)
        }
    }
    let config = config();
    let mut my_actor = MyActor::new();
    assert!(my_actor.receive(Mail::Blank, &config).is_some());
}

#[test]
fn actor_producer_test_1() {
    struct MyActor;
    impl Actor for MyActor {
        fn receive(&mut self, incoming: Mail, _config: &Config) -> Option<Mail> {
            if let Mail::Trade(ref m) = incoming {
                println!("My Actor received {}", m.to_string());
            }
            None
        }
    }
    let config = config();
    let mut ctx: Context<Unguarded<MyActor>> = Context::new();
    let _rs = ctx.define_actor(Addr::new("myactor", &config), Unguarded(MyActor), &config);
    // The default start-up handler answers "Starting up".
    let started = ctx.take_published();
    assert_eq!(started.len(), 1);
    match &started[0] {
        RichMail::RichContent(Mail::Bulk(msgs), _, _, _, _) => assert_eq!(msgs[0].as_text(), Some("Starting up")),
        _ => panic!("bulk mail expected"),
    }
    let r = ctx.handle_invocation(to(&Addr::new("myactor", &config), Mail::Trade(Msg::default()), 1), &config);
    assert_eq!(r, Invocation::Delivered);
    assert!(ctx.take_published().is_empty());
}

#[test]
fn define_test_actor_test() {
    struct TestActor;
    impl Actor for TestActor {
        fn receive(&mut self, _incoming: Mail, _config: &Config) -> Option<Mail> {
            Some(Msg::from_text("Reply from test actor").into())
        }
    }
    let config = config();
    let mut ctx: Context<Unguarded<TestActor>> = Context::new();
    let _rs = ctx.define_actor(Addr::new("test_actor", &config), Unguarded(TestActor), &config);
    // The start-up signal is answered and published.
    assert_eq!(ctx.take_published().len(), 1);
    let r = ctx.handle_invocation(
        to(&Addr::new("test_actor", &config), Mail::Trade(Msg::from_text("Test message")), 1),
        &config,
    );
    assert_eq!(r, Invocation::Delivered);
    let published = ctx.take_published();
    assert_eq!(published.len(), 1);
    match &published[0] {
        RichMail::RichContent(Mail::Bulk(msgs), inbound, seq, from, _) => {
            assert_eq!(msgs.len(), 1);
            assert_eq!(msgs[0].as_text(), Some("Reply from test actor"));
            assert_eq!(msgs[0].get_from(), &Some(Addr::new("test_actor", &config)));
            assert!(!inbound);
            // The start-up signal leaves the sequence at 0; the message advances it to 1.
            assert_eq!(*seq, 1);
            assert_eq!(from, &Some(Addr::new("test_actor", &config)));
        }
        _ => panic!("bulk mail expected"),
    }
}

#[test]
fn sample_actors_answer() {
    let config = config();
    let reply = DemoActor.receive(Mail::Blank, &config).unwrap();
    assert_eq!(reply.message().as_text(), Some("Message from DemoActor"));
    let mut msg = Msg::with_text("hello", "me", "you", &config);
    msg.set_from(&Addr::new("me", &config));
    let reply = AnotherActor.receive(Mail::Trade(msg), &config).unwrap();
    assert_eq!(reply.message().as_text(), Some("Reply from Another actor"));
    assert_eq!(reply.message().get_to(), &Some(Addr::new("me", &config)));
    assert!(AnotherActor.receive(Mail::Blank, &config).is_none());
    assert!(ExampleActor.receive(Mail::Blank, &config).is_none());
    let reply = ExampleActor.receive(Mail::Trade(Msg::default()), &config).unwrap();
    assert_eq!(reply.message().as_text(), Some("Some text"));
}

struct Flaky;

impl Binary for Flaky {
    fn execute(&mut self, _mail: Mail, _config: &Config) -> Result<Option<Mail>, ActorPanic> {
        Err(ActorPanic)
    }

    fn post_start(&mut self, _mail: Mail, _config: &Config) -> Result<Option<Mail>, ActorPanic> {
        Ok(None)
    }

    fn pre_shutdown(&mut self, _mail: Mail, _config: &Config) -> Result<Option<Mail>, ActorPanic> {
        Ok(Some(Mail::Trade(Msg::from_text("Going down"))))
    }
}

#[test]
fn panicking_actor_is_evicted_at_the_tolerance() {
    let config = config();
    let addr = Addr::new("flaky", &config);
    let mut ctx: Context<Flaky> = Context::new();
    assert!(ctx.define_actor(addr.clone(), Flaky, &config).unwrap().is_none());
    assert_eq!(PanicWatch::tolerance(), 3);
    assert_eq!(ctx.handle_invocation(to(&addr, Mail::Trade(Msg::default()), 1), &config), Invocation::Panicked);
    assert_eq!(ctx.panic_count(addr.get_id()), 1);
    assert_eq!(ctx.handle_invocation(to(&addr, Mail::Trade(Msg::default()), 1), &config), Invocation::Panicked);
    assert_eq!(ctx.panic_count(addr.get_id()), 2);
    assert!(ctx.is_actor_defined(&addr));
    assert!(ctx.take_published().is_empty());
    assert_eq!(ctx.handle_invocation(to(&addr, Mail::Trade(Msg::default()), 1), &config), Invocation::Evicted);
    assert!(!ctx.is_actor_defined(&addr));
    // The evicted actor got its shut-down signal; its answer is published.
    let published = ctx.take_published();
    assert_eq!(published.len(), 1);
    match &published[0] {
        RichMail::RichContent(Mail::Bulk(msgs), _, _, from, _) => {
            assert_eq!(msgs[0].as_text(), Some("Going down"));
            assert_eq!(from, &Some(addr.clone()));
        }
        _ => panic!("bulk mail expected"),
    }
    assert_eq!(ctx.panic_count(addr.get_id()), 0);
    assert_eq!(ctx.handle_invocation(to(&addr, Mail::Trade(Msg::default()), 1), &config), Invocation::Undefined);
    let no_recipient = RichMail::RichContent(Mail::Blank, true, 1, None, None);
    assert_eq!(ctx.handle_invocation(no_recipient, &config), Invocation::NoRecipient);
}

#[test]
fn redefinition_takes_over_the_sequence() {
    let config = config();
    let addr = Addr::new("demo", &config);
    let mut ctx: Context<Unguarded<DemoActor>> = Context::new();
    assert!(ctx.define_actor(addr.clone(), Unguarded(DemoActor), &config).unwrap().is_none());
    ctx.take_published();
    assert_eq!(ctx.handle_invocation(to(&addr, Mail::Trade(Msg::default()), 5), &config), Invocation::Delivered);
    let evicted = ctx.define_actor(addr.clone(), Unguarded(DemoActor), &config).unwrap();
    assert!(evicted.is_some());
    // The new actor takes over the sequence of the one it replaces.
    let restored = ctx.restore(Addr::new("other", &config), Unguarded(DemoActor), 7, &config).unwrap();
    assert!(restored.is_none());
    assert!(ctx.is_actor_defined(&Addr::new("other", &config)));
}

#[test]
fn cached_actor_buffers_until_full_and_skips_handled_messages() {
    let config = Config::with_values("127.0.0.1", 7171, "/tmp", "target/debug/arrows", 2);
    let addr = Addr::new("demo", &config);
    let mut actor = CachedActor::new(Unguarded(DemoActor), addr.clone());
    assert_eq!(CachedActor::get_sequence(&actor), 0);
    let first = CachedActor::receive(&mut actor, to(&addr, Mail::Trade(Msg::default()), 0), &config).unwrap();
    assert!(first.is_none());
    assert_eq!(CachedActor::buffer_size(&actor), 1);
    assert_eq!(CachedActor::get_sequence(&actor), 1);
    // A message numbered below the actor's sequence has been handled already.
    let stale = CachedActor::receive(&mut actor, to(&addr, Mail::Trade(Msg::default()), 0), &config).unwrap();
    assert!(stale.is_none());
    assert_eq!(CachedActor::get_sequence(&actor), 1);
    let second = CachedActor::receive(&mut actor, to(&addr, Mail::Trade(Msg::default()), 1), &config).unwrap();
    match second {
        Some(RichMail::RichContent(Mail::Bulk(msgs), false, 2, Some(from), None)) => {
            assert_eq!(msgs.len(), 2);
            assert_eq!(from, addr);
        }
        _ => panic!("published bulk expected"),
    }
    assert_eq!(CachedActor::buffer_size(&actor), 0);
}

#[test]
fn published_mail_is_routed_by_locality() {
    let config = config();
    let local = Msg::with_text("x", "from", "to", &config);
    let mut remote = Msg::with_text("y", "from", "to", &config);
    remote.set_recipient_ip("89.89.89.89");
    let rich = RichMail::RichContent(Mail::Bulk(vec![local.clone(), remote.clone()]), false, 3, None, None);
    let (inward, outward) = route_published(rich, &config, None);
    match inward {
        Some(RichMail::RichContent(Mail::Bulk(v), false, 3, None, None)) => assert_eq!(v, vec![local]),
        _ => panic!("inbound part expected"),
    }
    assert_eq!(outward, Some(Mail::Bulk(vec![remote])));
    let (a, b) = route_published(RichMail::RichContent(Mail::Blank, false, 0, None, None), &config, None);
    assert!(a.is_none() && b.is_none());
}

#[test]
fn lib_register_test_1() {
    let config = config();
    let mut actor: Box<dyn registry::Actor> = Box::new(ActorCreator::create_actor());
    let response = actor.receive(arrows::msg::Msg::Blank, &config);
    println!("Response: {:?}", response);
    assert!(response.is_some());
}

#[test]
fn registry_register_test_1() {
    let config = config();
    let mut actor: Box<dyn registry::Actor> = Box::new(ActorCreator::create_actor());
    let response = actor.receive(arrows::msg::Msg::Blank, &config);
    println!("Response: {:?}", response);
    let text = response.unwrap().content_as_text().map(|t| t.to_string()).unwrap();
    assert!(text.contains(" and reply time: "));
}

#[test]
fn actor_builder_test_1() {
    struct MyActor1;
    impl registry::Actor for MyActor1 {
        fn name(&self) -> &'static str {
            "MyActor1"
        }
    }
    let config = config();
    let mut built_actor = MyActor1;
    // Send a blank message and get a response back
    let actor_response = registry::Actor::receive(&mut built_actor, arrows::msg::Msg::Blank, &config);
    assert!(actor_response.is_some());
}

#[test]
fn clock_reply_at_the_epoch() {
    let r = registry::time_reply(Timestamp { secs: 0, nanos: 0 });
    assert_eq!(r.as_deref(), Some("01/01/1970 00:00:00 and reply time: 1970-01-01 00:00:02 UTC"));
    assert!(registry::time_reply(Timestamp { secs: u64::MAX, nanos: 0 }).is_none());
}

#[test]
fn registry_pool_sends_to_registered_actors() {
    let config = config();
    let mut arrows: Arrows<NewActor> = Arrows::new();
    assert!(!arrows.send(1000, arrows::msg::Msg::Blank, &config));
    arrows.register(1000, NewActor, &config);
    assert!(arrows.get_actor(1000).is_some());
    assert!(arrows.send(1000, arrows::msg::Msg::Blank, &config));
    assert!(arrows.remove_actor(1000).is_some());
    assert!(!arrows.send(1000, arrows::msg::Msg::Blank, &config));

    let mut actors: registry::Actors<DemoActor> = registry::Actors::new();
    assert_eq!(actors.reload_actor(7, None, &config), Err(arrows::errs::Error::ActorReloadError));
    assert!(actors.reload_actor(7, Some(DemoActor), &config).is_ok());
    assert!(actors.send(7, Msg::default(), &config));
    actors.register_builder(8, DemoActor, &config);
    assert!(actors.get_actor(8).is_some());
}

#[test]
fn system_actors_validate_requests() {
    let mut sys: SysActors<RequestValidator> = SysActors::new();
    let validator = RequestValidator::new("127.0.0.1", 7171);
    let id = validator.identity();
    sys.add(id, validator);
    let msg = arrows::message::Message::new(None, "client", "request-validator", "127.0.0.1", 7171);
    let reply = ActorInvoker::invoke(msg, &mut sys).unwrap();
    assert_eq!(reply.content_as_text(), Some("Request validation passed"));
    assert_eq!(reply.get_to_id(), arrows::address::Address::new("client", "127.0.0.1", 7171).get_id());
    let other = arrows::message::Message::new(None, "client", "nobody", "127.0.0.1", 7171);
    assert!(ActorInvoker::invoke(other, &mut sys).is_none());
    let init = ActorInitializer::new("127.0.0.1", 7171);
    assert_ne!(init.identity(), id);
}

#[test]
fn settling_a_run_delivers_or_counts_the_panic() {
    let config = config();
    let mut ctx: Context<Flaky> = Context::new();
    let a = Addr::new("settled", &config);
    let published = RichMail::RichContent(Mail::Bulk(vec![Msg::from_text("out")]), false, 1, Some(a.clone()), None);
    assert_eq!(ctx.settle(a.clone(), CachedActor::new(Flaky, a.clone()), Ok(Some(published)), &config), Invocation::Delivered);
    assert!(ctx.is_actor_defined(&a));
    assert_eq!(ctx.panic_count(a.get_id()), 0);
    assert_eq!(ctx.take_published().len(), 1);
    let b = Addr::new("panicky", &config);
    assert_eq!(ctx.settle(b.clone(), CachedActor::new(Flaky, b.clone()), Err(ActorPanic), &config), Invocation::Panicked);
    assert!(ctx.is_actor_defined(&b));
    assert_eq!(ctx.panic_count(b.get_id()), 1);
    assert!(ctx.take_published().is_empty());
}

#[test]
fn readiness_asks_for_restoring_a_stopped_recipient() {
    let config = config();
    let mut ctx: Context<Flaky> = Context::new();
    let a = Addr::new("running", &config);
    let b = Addr::new("stopped", &config);
    ctx.define_actor(a.clone(), Flaky, &config).unwrap();
    assert!(matches!(ctx.readiness(&to(&a, Mail::Blank, 1)), Readiness::Ready));
    match ctx.readiness(&to(&b, Mail::Blank, 1)) {
        Readiness::Restore(addr) => assert_eq!(addr, b),
        _ => panic!("restore expected"),
    }
    let none = RichMail::RichContent(Mail::Blank, true, 1, None, None);
    assert!(matches!(ctx.readiness(&none), Readiness::NoRecipient));
}
