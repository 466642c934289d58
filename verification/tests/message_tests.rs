use arrows::address::Address;
use arrows::codec::option_of_bytes;
use arrows::message::{AdditionalRecipients, Message};

const HOST: &str = "127.0.0.1";
const PORT: u16 = 7171;

fn from_bytes(b: &[u8]) -> Option<String> {
    bincode::deserialize::<String>(b).ok()
}

#[test]
fn message_create_custom_msg_test_content_and_to() {
    let mut msg = Message::new(option_of_bytes("Content"), "addr_from", "addr_to", HOST, PORT);
    assert_eq!(from_bytes(&msg.get_content_out().unwrap()), Some("Content".to_string()));
    assert_eq!(msg.get_to(), &Some(Address::new("addr_to", HOST, PORT)));
}

#[test]
fn message_create_internal_msg_test_content_and_to() {
    let msg = Message::internal(option_of_bytes("Content"), "addr_from", "addr_to", HOST, PORT);
    assert_eq!(*msg.get_content(), option_of_bytes("Content"));
    assert_eq!(msg.get_to(), &Some(Address::new("addr_to", HOST, PORT)));
}

#[test]
fn message_create_custom_msg_test_from() {
    let msg = Message::new(option_of_bytes("Content"), "addr_from", "addr_to", HOST, PORT);
    assert_eq!(msg.get_from(), &Some(Address::new("addr_from", HOST, PORT)));
}

#[test]
fn message_create_internal_msg_test_from() {
    let msg = Message::internal(option_of_bytes("Content"), "addr_from", "addr_to", HOST, PORT);
    assert_eq!(msg.get_from(), &Some(Address::new("addr_from", HOST, PORT)));
}

#[test]
fn message_create_custom_msg_test_alter_content_and_to() {
    let mut msg = Message::new(option_of_bytes("Content"), "addr_from", "addr_to", HOST, PORT);
    assert_eq!(msg.get_content(), &option_of_bytes("Content"));
    assert_eq!(msg.get_to(), &Some(Address::new("addr_to", HOST, PORT)));
    msg.with_content_and_to(option_of_bytes("New content").unwrap(), "New_to", HOST, PORT);
    assert_eq!(msg.get_content(), &option_of_bytes("New content"));
    assert_eq!(msg.get_to(), &Some(Address::new("New_to", HOST, PORT)));
}

#[test]
fn message_create_internal_msg_test_alter_content_and_to() {
    let mut msg = Message::internal(option_of_bytes("Content"), "addr_from", "addr_to", HOST, PORT);
    assert_eq!(msg.get_content(), &option_of_bytes("Content"));
    assert_eq!(msg.get_to(), &Some(Address::new("addr_to", HOST, PORT)));
    msg.with_content_and_to(option_of_bytes("New content").unwrap(), "New_to", HOST, PORT);
    assert_eq!(msg.get_content(), &option_of_bytes("New content"));
    assert_eq!(msg.get_to(), &Some(Address::new("New_to", HOST, PORT)));
}

#[test]
fn message_alter_additional_recipients_test_1() {
    let mut msg = Message::internal(option_of_bytes("Content"), "addr_from", "addr_to", HOST, PORT);
    let additional_recipients = vec!["Recipient1", "Recipient2", "Recipient3"];
    msg.with_recipients(additional_recipients, HOST, PORT);
    let additional_recipients_returned = vec!["Recipient1", "Recipient2", "Recipient3"];
    if let Some(AdditionalRecipients::OnlySome(recipients)) = msg.get_recipients() {
        let mut index = 0;
        recipients.iter().for_each(|addr| {
            assert_eq!(addr.get_name(), additional_recipients_returned[index]);
            index += 1;
        });
        assert_eq!(index, 3);
    } else {
        panic!("Failed for message test - additional recipients");
    }
}

#[test]
fn message_set_recipients_all_test_1() {
    let mut msg = Message::internal(option_of_bytes("Content"), "addr_from", "addr_to", HOST, PORT);
    assert_eq!(msg.get_recipients(), &None);
    msg.set_recipient_all();
    assert_eq!(msg.get_recipients(), &Some(AdditionalRecipients::All));
}

#[test]
fn message_set_recipient_test_1() {
    let mut msg = Message::internal(option_of_bytes("Content"), "addr_from", "addr_to", HOST, PORT);
    assert_eq!(msg.get_to(), &Some(Address::new("addr_to", HOST, PORT)));
    msg.set_recipient("The new recipient", HOST, PORT);
    assert_eq!(msg.get_to(), &Some(Address::new("The new recipient", HOST, PORT)));
}

#[test]
fn message_uturn_with_reply_test_1() {
    let mut msg = Message::internal(option_of_bytes("Content"), "addr_from", "addr_to", HOST, PORT);
    msg.uturn_with_reply(option_of_bytes("Reply"));
    assert_eq!(msg.get_to(), &Some(Address::new("addr_from", HOST, PORT)));
    assert_eq!(msg.get_from(), &Some(Address::new("addr_to", HOST, PORT)));
    assert_eq!(msg.get_content(), &option_of_bytes("Reply"));
}

#[test]
fn message_uturn_with_text_reply_test_1() {
    let mut msg = Message::internal(option_of_bytes("Content"), "addr_from", "addr_to", HOST, PORT);
    assert_eq!(msg.get_content(), &option_of_bytes("Content"));
    msg.uturn_with_text("Reply");
    assert_eq!(msg.get_to(), &Some(Address::new("addr_from", HOST, PORT)));
    assert_eq!(msg.get_from(), &Some(Address::new("addr_to", HOST, PORT)));
    assert_eq!(msg.get_content(), &option_of_bytes("Reply"));
}

#[test]
fn message_content_as_text_test_1() {
    let mut msg = Message::internal(option_of_bytes("Content"), "addr_from", "addr_to", HOST, PORT);
    assert_eq!(msg.get_content(), &option_of_bytes("Content"));
    assert_eq!(msg.content_as_text(), Some("Content"));

    msg.update_text_content("Updated content");
    assert_eq!(msg.get_content(), &option_of_bytes("Updated content"));
    assert_eq!(msg.content_as_text(), Some("Updated content"));

    let mut msg = Message::new(option_of_bytes("Custom content"), "addr_from", "addr_to", HOST, PORT);
    assert_eq!(msg.get_content(), &option_of_bytes("Custom content"));
    assert_eq!(msg.content_as_text(), Some("Custom content"));

    msg.update_text_content("New updated content");
    assert_eq!(msg.get_content(), &option_of_bytes("New updated content"));
    assert_eq!(msg.content_as_text(), Some("New updated content"));
}

#[test]
fn message_outbound_mgs_test_1() {
    let internal_msg = Message::internal(option_of_bytes("Content"), "addr_from", "addr_to", HOST, PORT);
    assert_eq!(internal_msg.is_outbound(None), false);
    let custom_msg = Message::new(option_of_bytes("Content"), "addr_from", "addr_to", HOST, PORT);
    assert_eq!(custom_msg.is_outbound(None), false);
    let blank = Message::Blank;
    assert_eq!(blank.is_outbound(None), false);

    let mut internal_msg =
        Message::internal(option_of_bytes("Content"), "addr_from", "addr_to", HOST, PORT);
    internal_msg.set_recipient_ip("89.89.89.89");

    assert_eq!(internal_msg.is_outbound(None), true);
    let mut custom_msg = Message::new(option_of_bytes("Content"), "addr_from", "addr_to", HOST, PORT);

    custom_msg.set_recipient_ip("89.89.89.89");
    assert_eq!(custom_msg.is_outbound(None), true);
    let blank = Message::Blank;
    assert_eq!(blank.is_outbound(None), false);
}
