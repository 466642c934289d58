use arrows::addr::Addr;
use arrows::codec::option_of_bytes;
use arrows::config::Config;
use arrows::mail::{Action, Content, Mail, Msg};

fn config() -> Config {
    Config::with_values("127.0.0.1", 7171, "/tmp", "target/debug/arrows", 1)
}

fn from_bytes(b: &[u8]) -> Option<String> {
    bincode::deserialize::<String>(b).ok()
}

#[test]
fn create_trade_msg_test_content_and_to() {
    let config = config();
    let mut msg = Msg::new(option_of_bytes("Content"), "addr_from", "addr_to", &config);
    assert_eq!(from_bytes(&msg.binary_content_out().unwrap()), Some("Content".to_string()));
    assert_eq!(msg.get_to(), &Some(Addr::new("addr_to", &config)));
    println!("{}", msg.to_string());
}

#[test]
fn create_trade_msg_test_from() {
    let config = config();
    let msg = Msg::new(option_of_bytes("Content"), "addr_from", "addr_to", &config);
    assert_eq!(msg.get_from(), &Some(Addr::new("addr_from", &config)));
    println!("{}", msg.to_string());
}

#[test]
fn create_trade_msg_test_alter_content_and_to() {
    let config = config();
    let mut msg = Msg::new(option_of_bytes("Content"), "addr_from", "addr_to", &config);
    assert_eq!(msg.binary_content(), option_of_bytes("Content"));
    assert_eq!(msg.get_to(), &Some(Addr::new("addr_to", &config)));
    msg.with_content_and_to(option_of_bytes("New content").unwrap(), "New_to", &config);
    assert_eq!(msg.binary_content(), option_of_bytes("New content"));
    assert_eq!(msg.get_to(), &Some(Addr::new("New_to", &config)));
}

#[test]
fn mail_set_recipient_test_1() {
    let config = config();
    let mut msg = Msg::new(option_of_bytes("Content"), "addr_from", "addr_to", &config);
    assert_eq!(msg.get_to(), &Some(Addr::new("addr_to", &config)));
    msg.set_recipient("The new recipient", &config);
    assert_eq!(msg.get_to(), &Some(Addr::new("The new recipient", &config)));
}

#[test]
fn binary_reply_test_1() {
    let config = config();
    let mut msg = Msg::new(option_of_bytes("Content"), "addr_from", "addr_to", &config);
    msg.binary_reply(option_of_bytes("Reply"));
    assert_eq!(msg.get_to(), &Some(Addr::new("addr_from", &config)));
    assert_eq!(msg.get_from(), &Some(Addr::new("addr_to", &config)));
    assert_eq!(msg.binary_content(), option_of_bytes("Reply"));
}

#[test]
fn text_reply_test_1() {
    let config = config();
    let mut msg = Msg::new(option_of_bytes("Content"), "addr_from", "addr_to", &config);
    assert_eq!(msg.binary_content(), option_of_bytes("Content"));
    msg.text_reply("Reply");
    assert_eq!(msg.get_to(), &Some(Addr::new("addr_from", &config)));
    assert_eq!(msg.get_from(), &Some(Addr::new("addr_to", &config)));
    assert_eq!(msg.binary_content(), option_of_bytes("Reply"));
}

#[test]
fn as_text_test_1() {
    let config = config();
    let mut msg = Msg::new(option_of_bytes("Content"), "addr_from", "addr_to", &config);
    assert_eq!(msg.binary_content(), option_of_bytes("Content"));
    assert_eq!(msg.as_text(), Some("Content"));

    msg.update_text_content("Updated content");
    assert_eq!(msg.binary_content(), option_of_bytes("Updated content"));
    assert_eq!(msg.as_text(), Some("Updated content"));
}

#[test]
fn mail_outbound_mgs_test_1() {
    let config = config();
    let mut trade_msg = Msg::new(option_of_bytes("Content"), "addr_from", "addr_to", &config);
    assert!(trade_msg.inbound(&config, None));

    trade_msg.set_recipient_ip("89.89.89.89");
    assert!(!trade_msg.inbound(&config, None));
}

#[test]
fn test_mail_partition() {
    let config = config();
    let mut mails = vec![
        Some(Mail::Blank),
        Some(Mail::Blank),
        None,
        Some(Mail::Trade(Msg::with_text("mail", "from", "to", &config))),
    ];

    let mut m1 = Msg::with_text("mail", "from1", "to1", &config);
    let mut addr1 = Addr::new("add1", &config);
    addr1.with_port(9999);
    m1.set_recipient_addr(&addr1);
    mails.push(Some(Mail::Trade(m1)));
    let mut addr2 = addr1.clone();
    addr2.with_port(1111);
    let mut m2 = Msg::with_text("mail", "from2", "to2", &config);
    m2.set_recipient_addr(&addr2);
    mails.push(Some(Mail::Bulk(vec![m2])));

    let mut m3 = Msg::with_text("mail", "from3", "to3", &config);
    m3.set_recipient_ip("89.89.89.89");
    mails.push(Some(Mail::Bulk(vec![m3])));

    if let Some((ref v1, ref v2)) = Mail::partition(mails, &config, None) {
        v1.iter().for_each(|msg| {
            if let Some(ref addr) = msg.get_to() {
                assert!(addr.is_local(&config, None));
            }
        });

        v2.iter().for_each(|msg| {
            if let Some(ref addr) = msg.get_to() {
                assert!(!addr.is_local(&config, None));
            }
        });
        assert_eq!(v1.len(), 1);
        assert_eq!(v2.len(), 3);
    } else {
        panic!("messages expected");
    }
}

#[test]
fn mail_print_test() {
    let config = config();
    let m = Msg::with_text("mail", "from", "to", &config);
    let mail = Mail::Trade(m);
    println!("{}", mail.to_string());

    let m1 = Msg::with_text("mail", "from", "to", &config);
    let m2 = Msg::with_text("mail", "from", "to", &config);
    let m3 = Msg::with_text("mail", "from", "to", &config);
    let bulk_mail = Mail::Bulk(vec![]);
    println!("{}", bulk_mail.to_string());

    let bulk_mail = Mail::Bulk(Vec::new());
    println!("{}", bulk_mail.to_string());

    let bulk_mail = Mail::Bulk(vec![m1, m2, m3]);
    println!("Bulk {}", bulk_mail.to_string());

    let m1 = Msg::with_text("mail", "from", "to", &config);
    let bulk_mail = Mail::Bulk(vec![m1]);
    println!("Bulk {}", bulk_mail.to_string());

    println!("Bulk {}", Mail::Blank.to_string());
}

#[test]
fn mail_is_command_test_1() {
    let config = config();
    let trade_mail: Mail = Msg::with_text("Some text", "from", "to", &config).into();
    assert!(!trade_mail.is_command());

    let bulk = Mail::Bulk(vec![Msg::with_text("Some text", "from", "to", &config)]);
    assert!(!bulk.is_command());
}

#[test]
fn mail_texts_are_exact() {
    assert_eq!(Mail::Blank.to_string(), "Blank");
    assert_eq!(Mail::Bulk(vec![]).to_string(), "Bulk(0)\n Empty");
    let m = Msg::from_text("hi");
    let id = *m.get_id();
    assert_eq!(
        m.to_string(),
        format!("Msg({}), from: None, to: None, content: Text(hi)", id)
    );
    let two = Mail::Bulk(vec![Msg::from_text("a"), Msg::from_text("b")]);
    let text = two.to_string();
    assert!(text.starts_with("Bulk(2)\nMsg("));
    assert_eq!(text.matches('\n').count(), 2);
    assert_eq!(Action::Echo("x".to_string()).to_string(), "Echo(x)");
    assert_eq!(Content::Binary(vec![1, 2, 3]).to_string(), "Binary(..) -> length 3");
    assert_eq!(Content::Command(Action::Shutdown).to_string(), "Command(Shutdown)");
}

#[test]
fn mail_commands() {
    let shutdown: Mail = Msg::shutdown().into();
    assert!(shutdown.is_command());
    assert!(shutdown.command_equals(Action::Shutdown));
    assert!(!shutdown.command_equals(Action::Continue));
    let echo = Mail::Bulk(vec![Msg::echo("abc")]);
    assert!(echo.command_equals(Action::Echo(String::new())));
    assert_eq!(echo.action(), Some(Action::Echo("abc".to_string())));
    let mut a = Action::Echo("abc".to_string());
    let out = a.execute(Mail::Blank).unwrap();
    assert_eq!(out.action(), Some(Action::Echo("cba".to_string())));
    assert_eq!(Action::Shutdown.as_text(), "Shutdown");
    assert_eq!(Action::Echo("q".to_string()).inner(), "q");
}

#[test]
fn mail_fold_and_take() {
    let a = Msg::from_text("a");
    let b = Msg::from_text("b");
    let c = Msg::from_text("c");
    let folded = Mail::fold(vec![Some(Mail::Trade(a.clone())), Some(Mail::Bulk(vec![b.clone(), c.clone()]))]);
    assert_eq!(folded.take_all(), vec![a, b, c]);
}

#[test]
fn mail_split_parts_by_locality() {
    let config = config();
    let local = Msg::with_text("x", "from", "to", &config);
    let mut remote = Msg::with_text("y", "from", "to", &config);
    remote.set_recipient_ip("89.89.89.89");
    let (ins, outs) = Mail::split(Mail::Bulk(vec![local.clone(), remote.clone()]), &config, None).unwrap();
    assert_eq!(ins, vec![local]);
    assert_eq!(outs, vec![remote]);
    assert!(Mail::split(Mail::Blank, &config, None).is_none());
    assert!(Mail::split(Mail::Bulk(vec![]), &config, None).is_none());
}

#[test]
fn mail_bytes_are_bincode() {
    // A message with no addresses, no content and no time is its id and three absent
    // options; a bulk mail is variant 1, the count, then the messages.
    let m = Msg::with_binary_content(None);
    let id = *m.get_id();
    let mut expected = vec![1u8, 0, 0, 0];
    expected.extend(1u64.to_le_bytes());
    expected.extend(id.to_le_bytes());
    expected.extend([0u8, 0, 0, 0]);
    assert_eq!(Mail::Bulk(vec![m]).to_bytes(), expected);
    assert_eq!(Mail::Blank.to_bytes(), vec![2u8, 0, 0, 0]);
}
