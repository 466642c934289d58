use arrows::addr::Addr;
use arrows::codec::option_of_bytes;
use arrows::config::Config;
use arrows::mail::{Action, Mail, Msg};
use arrows::message::Message;
use arrows::pubsub::transpose;
use arrows::routing::process;

fn config() -> Config {
    Config::with_values("127.0.0.1", 7171, "/tmp", "target/debug/arrows", 1)
}

#[test]
fn law_bincode_text_round_trip() {
    for s in ["", "Content", "héllo wörld", "line\nbreak"] {
        let bytes = option_of_bytes(s).unwrap();
        let msg = Msg::with_binary_content(Some(bytes));
        assert_eq!(msg.as_text(), Some(s));
    }
}

#[test]
fn law_reply_twice_restores_direction() {
    let config = config();
    let mut msg = Msg::with_text("x", "alice", "bob", &config);
    let from = msg.get_from().clone();
    let to = msg.get_to().clone();
    msg.text_reply("first");
    assert_eq!(msg.get_from(), &to);
    msg.binary_reply(Some(vec![1, 2]));
    assert_eq!(msg.get_from(), &from);
    assert_eq!(msg.get_to(), &to);
    assert_eq!(msg.binary_content(), Some(vec![1, 2]));
}

#[test]
fn law_message_turn_twice() {
    let mut m = Message::new(option_of_bytes("c"), "a", "b", "127.0.0.1", 7171);
    let from = m.get_from().clone();
    m.uturn_with_text("one");
    m.uturn_with_text("two");
    assert_eq!(m.get_from(), &from);
    assert_eq!(m.content_as_text(), Some("two"));
}

#[test]
fn law_echo_round_trip() {
    let (first, _) = process(Mail::Bulk(vec![Msg::echo("ping")]));
    let text = match first {
        Action::Echo(t) => t,
        _ => panic!("echo expected"),
    };
    assert_eq!(text, "gnip");
    let (second, stored) = process(Mail::Bulk(vec![Msg::echo(&text)]));
    assert_eq!(second, Action::Echo("ping".to_string()));
    assert!(stored.is_none());
}

#[test]
fn law_transpose_twice_on_a_rectangle() {
    let cell = |t: &str| Mail::Trade(Msg::from_text(t));
    let original = vec![vec![cell("a"), cell("b"), cell("c")], vec![cell("d"), cell("e"), cell("f")]];
    let mut rows = original.clone();
    let mut cols = transpose(&mut rows);
    assert_eq!(cols.len(), 3);
    let back = transpose(&mut cols);
    assert_eq!(back, original);
}

#[test]
fn law_port_round_trip_on_address() {
    let config = config();
    let a = Addr::new("x", &config);
    let mut b = a.clone();
    b.with_port(1);
    b.with_port(7171);
    assert_eq!(a, b);
}

#[test]
fn law_pool_gives_back_what_was_put() {
    let mut pool: arrows::registry::Arrows<u32> = arrows::registry::Arrows::new();
    pool.add_actor(1, 10);
    pool.add_actor(2, 20);
    assert_eq!(pool.get_actor(1), Some(&10));
    pool.add_actor(1, 11);
    assert_eq!(pool.get_actor(1), Some(&11));
    assert_eq!(pool.remove_actor(1), Some(11));
    assert_eq!(pool.get_actor(1), None);
    assert_eq!(pool.get_actor(2), Some(&20));
    let mut mails: arrows::registry::Actors<u32> = arrows::registry::Actors::new();
    mails.add_actor(5, 50);
    assert_eq!(mails.remove_actor(5), Some(50));
    assert_eq!(mails.get_actor(5), None);
}

#[test]
fn law_id_text_parses_back() {
    let config = config();
    let msg = Msg::with_text("x", "a", "b", &config);
    let text = msg.id_as_string();
    assert_eq!(arrows::text::parse_usize(&text), Some(*msg.get_id() as usize));
    assert_eq!(text.parse::<u64>().unwrap(), *msg.get_id());
    let big = arrows::text::decimal_string(u64::MAX);
    assert_eq!(big.parse::<u64>().unwrap(), u64::MAX);
}

#[test]
fn law_bytes_tell_values_apart() {
    let config = config();
    let a = Addr::new("a", &config);
    let b = Addr::new("b", &config);
    assert_eq!(a.as_bytes(), a.clone().as_bytes());
    assert_ne!(a.as_bytes(), b.as_bytes());
    let mut moved = a.clone();
    moved.with_port(6161);
    assert_ne!(a.as_bytes(), moved.as_bytes());
    let m1 = Msg::with_text("one", "a", "b", &config);
    let mut m2 = m1.clone();
    m2.update_text_content("two");
    assert_ne!(m1.as_bytes(), m2.as_bytes());
    assert_eq!(m1.as_bytes(), m1.clone().as_bytes());
    let e1 = arrows::msg::Msg::new_with_text("one", "a", "b", &config);
    let e2 = arrows::msg::Msg::new_with_text("two", "a", "b", &config);
    assert_ne!(e1.get_bytes(), e2.get_bytes());
    assert_ne!(arrows::msg::Msg::Blank.get_bytes(), e1.get_bytes());
}
