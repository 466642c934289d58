use arrows::addr::Addr;
use arrows::codec::option_of_bytes;
use arrows::config::Config;
use arrows::msg::{AdditionalRecipients, Msg};

fn config() -> Config {
    Config::with_values("127.0.0.1", 7171, "/tmp", "target/debug/arrows", 1)
}

fn from_bytes(b: &[u8]) -> Option<String> {
    bincode::deserialize::<String>(b).ok()
}

#[test]
fn msg_create_custom_msg_test_content_and_to() {
    let config = config();
    let mut msg = Msg::new(option_of_bytes("Content"), "addr_from", "addr_to", &config);
    assert_eq!(from_bytes(&msg.get_content_out().unwrap()), Some("Content".to_string()));
    assert_eq!(msg.get_to(), &Some(Addr::new("addr_to", &config)));
}

#[test]
fn msg_create_internal_msg_test_content_and_to() {
    let config = config();
    let msg = Msg::internal(option_of_bytes("Content"), "addr_from", "addr_to", &config);
    assert_eq!(*msg.get_content(), option_of_bytes("Content"));
    assert_eq!(msg.get_to(), &Some(Addr::new("addr_to", &config)));
}

#[test]
fn msg_create_custom_msg_test_from() {
    let config = config();
    let msg = Msg::new(option_of_bytes("Content"), "addr_from", "addr_to", &config);
    assert_eq!(msg.get_from(), &Some(Addr::new("addr_from", &config)));
}

#[test]
fn msg_create_internal_msg_test_from() {
    let config = config();
    let msg = Msg::internal(option_of_bytes("Content"), "addr_from", "addr_to", &config);
    assert_eq!(msg.get_from(), &Some(Addr::new("addr_from", &config)));
}

#[test]
fn msg_create_custom_msg_test_alter_content_and_to() {
    let config = config();
    let mut msg = Msg::new(option_of_bytes("Content"), "addr_from", "addr_to", &config);
    assert_eq!(msg.get_content(), &option_of_bytes("Content"));
    assert_eq!(msg.get_to(), &Some(Addr::new("addr_to", &config)));
    msg.with_content_and_to(option_of_bytes("New content").unwrap(), "New_to", &config);
    assert_eq!(msg.get_content(), &option_of_bytes("New content"));
    assert_eq!(msg.get_to(), &Some(Addr::new("New_to", &config)));
}

#[test]
fn msg_create_internal_msg_test_alter_content_and_to() {
    let config = config();
    let mut msg = Msg::internal(option_of_bytes("Content"), "addr_from", "addr_to", &config);
    assert_eq!(msg.get_content(), &option_of_bytes("Content"));
    assert_eq!(msg.get_to(), &Some(Addr::new("addr_to", &config)));
    msg.with_content_and_to(option_of_bytes("New content").unwrap(), "New_to", &config);
    assert_eq!(msg.get_content(), &option_of_bytes("New content"));
    assert_eq!(msg.get_to(), &Some(Addr::new("New_to", &config)));
}

#[test]
fn msg_alter_additional_recipients_test_1() {
    let config = config();
    let mut msg = Msg::internal(option_of_bytes("Content"), "addr_from", "addr_to", &config);
    let additional_recipients = vec!["Recipient1", "Recipient2", "Recipient3"];
    msg.with_recipients(additional_recipients, &config);
    let additional_recipients_returned = vec!["Recipient1", "Recipient2", "Recipient3"];
    if let Some(AdditionalRecipients::OnlySome(recipients)) = msg.get_recipients() {
        let mut index = 0;
        recipients.iter().for_each(|addr| {
            assert_eq!(addr.get_name(), additional_recipients_returned[index]);
            index += 1;
        });
        assert_eq!(index, 3);
    } else {
        panic!("Failed for message test - additional recipients");
    }
}

#[test]
fn msg_set_recipients_all_test_1() {
    let config = config();
    let mut msg = Msg::internal(option_of_bytes("Content"), "addr_from", "addr_to", &config);
    assert_eq!(msg.get_recipients(), &None);
    msg.set_recipient_all();
    assert_eq!(msg.get_recipients(), &Some(AdditionalRecipients::All));
    assert!(msg.is_recipient_all());
}

#[test]
fn msg_set_recipient_test_1() {
    let config = config();
    let mut msg = Msg::internal(option_of_bytes("Content"), "addr_from", "addr_to", &config);
    assert_eq!(msg.get_to(), &Some(Addr::new("addr_to", &config)));
    msg.set_recipient("The new recipient", &config);
    assert_eq!(msg.get_to(), &Some(Addr::new("The new recipient", &config)));
}

#[test]
fn msg_uturn_with_reply_test_1() {
    let config = config();
    let mut msg = Msg::internal(option_of_bytes("Content"), "addr_from", "addr_to", &config);
    msg.uturn_with_reply(option_of_bytes("Reply"));
    assert_eq!(msg.get_to(), &Some(Addr::new("addr_from", &config)));
    assert_eq!(msg.get_from(), &Some(Addr::new("addr_to", &config)));
    assert_eq!(msg.get_content(), &option_of_bytes("Reply"));
}

#[test]
fn msg_uturn_with_text_reply_test_1() {
    let config = config();
    let mut msg = Msg::internal(option_of_bytes("Content"), "addr_from", "addr_to", &config);
    assert_eq!(msg.get_content(), &option_of_bytes("Content"));
    msg.uturn_with_text("Reply");
    assert_eq!(msg.get_to(), &Some(Addr::new("addr_from", &config)));
    assert_eq!(msg.get_from(), &Some(Addr::new("addr_to", &config)));
    assert_eq!(msg.get_content(), &option_of_bytes("Reply"));
}

#[test]
fn msg_content_as_text_test_1() {
    let config = config();
    let mut msg = Msg::internal(option_of_bytes("Content"), "addr_from", "addr_to", &config);
    assert_eq!(msg.get_content(), &option_of_bytes("Content"));
    assert_eq!(msg.content_as_text(), Some("Content"));

    msg.update_text_content("Updated content");
    assert_eq!(msg.get_content(), &option_of_bytes("Updated content"));
    assert_eq!(msg.content_as_text(), Some("Updated content"));

    let mut msg = Msg::new(option_of_bytes("Custom content"), "addr_from", "addr_to", &config);
    assert_eq!(msg.get_content(), &option_of_bytes("Custom content"));
    assert_eq!(msg.content_as_text(), Some("Custom content"));

    msg.update_text_content("New updated content");
    assert_eq!(msg.get_content(), &option_of_bytes("New updated content"));
    assert_eq!(msg.content_as_text(), Some("New updated content"));
}

#[test]
fn msg_outbound_mgs_test_1() {
    let config = config();
    let internal_msg = Msg::internal(option_of_bytes("Content"), "addr_from", "addr_to", &config);
    assert!(!internal_msg.is_outbound(&config, None));
    let custom_msg = Msg::new(option_of_bytes("Content"), "addr_from", "addr_to", &config);
    assert!(!custom_msg.is_outbound(&config, None));
    let blank = Msg::Blank;
    assert!(!blank.is_outbound(&config, None));

    let mut internal_msg = Msg::internal(option_of_bytes("Content"), "addr_from", "addr_to", &config);
    internal_msg.set_recipient_ip("89.89.89.89");

    assert!(internal_msg.is_outbound(&config, None));
    let mut custom_msg = Msg::new(option_of_bytes("Content"), "addr_from", "addr_to", &config);

    custom_msg.set_recipient_ip("89.89.89.89");
    assert!(custom_msg.is_outbound(&config, None));
    let blank = Msg::Blank;
    assert!(!blank.is_outbound(&config, None));
}

#[test]
fn msg_turn_twice_restores_direction() {
    let config = config();
    let mut msg = Msg::new(option_of_bytes("Content"), "addr_from", "addr_to", &config);
    msg.uturn_with_text("one");
    msg.uturn_with_reply(option_of_bytes("two"));
    assert_eq!(msg.get_from(), &Some(Addr::new("addr_from", &config)));
    assert_eq!(msg.get_to(), &Some(Addr::new("addr_to", &config)));
    assert_eq!(msg.content_as_text(), Some("two"));
}
