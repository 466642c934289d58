//! The earlier message form over borrowed addresses: a `Custom` or `Internal` message
//! with an envelope of id, sender, recipient, binary content, additional recipients and
//! creation time, or `Blank`.
use vstd::prelude::*;
use crate::address::{Address, AddressView, new_address, address_rehashed, address_is_local};
use crate::codec::{bincode_str, bincode_str_decode, option_of_bytes, text_of_bytes};
use crate::text::{ipv4_value, is_ip_text};
use crate::ids::{fresh_id, timestamp_now, Timestamp};

verus! {

/// Who else a message goes to.
#[derive(PartialEq, Clone, Debug)]
pub enum AdditionalRecipients<'a> {
    All,
    OnlySome(Vec<Address<'a>>),
}

/// The abstract value of [`AdditionalRecipients`].
pub enum RecipientsView {
    All,
    OnlySome(Seq<AddressView>),
}

/// The views of a sequence of addresses.
pub open spec fn address_views<'a>(v: Seq<Address<'a>>) -> Seq<AddressView> {
    v.map_values(|a: Address<'a>| a@)
}

impl<'a> View for AdditionalRecipients<'a> {
    type V = RecipientsView;

    open spec fn view(&self) -> RecipientsView {
        match self {
            AdditionalRecipients::All => RecipientsView::All,
            AdditionalRecipients::OnlySome(v) => RecipientsView::OnlySome(address_views(v@)),
        }
    }
}

/// A message.
#[derive(PartialEq, Clone, Debug)]
pub enum Message<'a> {
    Custom {
        id: u64,
        from: Option<Address<'a>>,
        to: Option<Address<'a>>,
        content: Option<Vec<u8>>,
        recipients: Option<AdditionalRecipients<'a>>,
        created: Timestamp,
    },
    Internal {
        id: u64,
        from: Option<Address<'a>>,
        to: Option<Address<'a>>,
        content: Option<Vec<u8>>,
        recipients: Option<AdditionalRecipients<'a>>,
        created: Timestamp,
    },
    Blank,
}

/// The envelope that `Custom` and `Internal` messages share.
pub struct EnvelopeView {
    pub id: u64,
    pub from: Option<AddressView>,
    pub to: Option<AddressView>,
    pub content: Option<Seq<u8>>,
    pub recipients: Option<RecipientsView>,
    pub created: Timestamp,
}

/// The abstract value of a [`Msg`].
pub enum MessageView {
    Custom(EnvelopeView),
    Internal(EnvelopeView),
    Blank,
}

/// The view of an optional address.
pub open spec fn opt_address<'a>(a: Option<Address<'a>>) -> Option<AddressView> {
    match a {
        Some(a) => Some(a@),
        None => None,
    }
}

/// The bytes of an optional buffer.
pub open spec fn opt_bytes(c: Option<Vec<u8>>) -> Option<Seq<u8>> {
    match c {
        Some(b) => Some(b@),
        None => None,
    }
}

/// The view of optional additional recipients.
pub open spec fn opt_recipients<'a>(r: Option<AdditionalRecipients<'a>>) -> Option<RecipientsView> {
    match r {
        Some(r) => Some(r@),
        None => None,
    }
}

impl<'a> View for Message<'a> {
    type V = MessageView;

    open spec fn view(&self) -> MessageView {
        match self {
            Message::Custom { id, from, to, content, recipients, created } => MessageView::Custom(EnvelopeView {
                id: *id,
                from: opt_address(*from),
                to: opt_address(*to),
                content: opt_bytes(*content),
                recipients: opt_recipients(*recipients),
                created: *created,
            }),
            Message::Internal { id, from, to, content, recipients, created } => MessageView::Internal(EnvelopeView {
                id: *id,
                from: opt_address(*from),
                to: opt_address(*to),
                content: opt_bytes(*content),
                recipients: opt_recipients(*recipients),
                created: *created,
            }),
            Message::Blank => MessageView::Blank,
        }
    }
}

/// The envelope of a non-blank message.
pub open spec fn envelope(m: MessageView) -> EnvelopeView
    recommends
        !(m is Blank),
{
    match m {
        MessageView::Custom(e) => e,
        MessageView::Internal(e) => e,
        MessageView::Blank => arbitrary(),
    }
}

/// `m` with its envelope replaced by `e`, keeping its kind; a blank message stays blank.
pub open spec fn with_envelope(m: MessageView, e: EnvelopeView) -> MessageView {
    match m {
        MessageView::Custom(_) => MessageView::Custom(e),
        MessageView::Internal(_) => MessageView::Internal(e),
        MessageView::Blank => MessageView::Blank,
    }
}

/// A new envelope: no additional recipients.
pub open spec fn fresh_envelope(id: u64, from: AddressView, to: AddressView, content: Option<Seq<u8>>, created: Timestamp) -> EnvelopeView {
    EnvelopeView { id, from: Some(from), to: Some(to), content, recipients: None, created }
}

/// The text of a message's content read as a bincode string.
pub open spec fn content_text(m: MessageView) -> Option<Seq<char>> {
    match m {
        MessageView::Blank => None,
        _ => match envelope(m).content {
            Some(b) => bincode_str_decode(b),
            None => None,
        },
    }
}

/// Whether a message's recipient (if any) can be checked for locality: a set host is an
/// IPv4 text and comes with a port.
pub open spec fn routable(m: MessageView) -> bool {
    !(m is Blank) ==> (envelope(m).to matches Some(a) ==>
        (a.host matches Some(h) ==> (ipv4_value(h) is Some && a.port is Some)))
}

/// Whether a message goes to an actor on another machine.
pub open spec fn outbound(m: MessageView, machine_ip: Option<u32>) -> bool {
    match m {
        MessageView::Blank => false,
        _ => match envelope(m).to {
            Some(a) => !address_is_local(a, machine_ip),
            None => false,
        },
    }
}

/// The in-process addresses of actors `names` on `host:port`, in order.
pub open spec fn new_addresses(names: Seq<&str>, host: Seq<char>, port: u16) -> Seq<AddressView> {
    Seq::new(names.len(), |i: int| new_address(names[i]@, host, port))
}

impl<'a> Message<'a> {
    /// A custom message with binary content from local actor `from` to local actor `to`.
    pub fn new(content: Option<Vec<u8>>, from: &'a str, to: &'a str, host: &'a str, port: u16) -> (m: Message<'a>)
        ensures
            m@ matches MessageView::Custom(e) && e == fresh_envelope(e.id, new_address(from@, host@, port),
                new_address(to@, host@, port), opt_bytes(content), e.created),
    {
        Message::Custom {
            id: fresh_id(),
            from: Some(Address::new(from, host, port)),
            to: Some(Address::new(to, host, port)),
            content,
            recipients: None,
            created: timestamp_now(),
        }
    }

    /// A custom message whose content is the text `content` as a bincode string.
    pub fn new_with_text(content: &str, from: &'a str, to: &'a str, host: &'a str, port: u16) -> (m: Message<'a>)
        ensures
            m@ matches MessageView::Custom(e) && e == fresh_envelope(e.id, new_address(from@, host@, port),
                new_address(to@, host@, port), Some(bincode_str(content@)), e.created),
    {
        Message::Custom {
            id: fresh_id(),
            from: Some(Address::new(from, host, port)),
            to: Some(Address::new(to, host, port)),
            content: option_of_bytes(content),
            recipients: None,
            created: timestamp_now(),
        }
    }

    /// An internal message with binary content from local actor `from` to local actor `to`.
    pub fn internal(content: Option<Vec<u8>>, from: &'a str, to: &'a str, host: &'a str, port: u16) -> (m: Message<'a>)
        ensures
            m@ matches MessageView::Internal(e) && e == fresh_envelope(e.id, new_address(from@, host@, port),
                new_address(to@, host@, port), opt_bytes(content), e.created),
    {
        Message::Internal {
            id: fresh_id(),
            from: Some(Address::new(from, host, port)),
            to: Some(Address::new(to, host, port)),
            content,
            recipients: None,
            created: timestamp_now(),
        }
    }

    /// The content read as a bincode string, if it is one.
    pub fn content_as_text(&self) -> (t: Option<&str>)
        ensures
            match t {
                Some(t) => content_text(self@) == Some(t@),
                None => content_text(self@) is None,
            },
    {
        match self {
            Message::Custom { content, .. } => match content {
                Some(value) => text_of_bytes(value.as_slice()),
                None => None,
            },
            Message::Internal { content, .. } => match content {
                Some(value) => text_of_bytes(value.as_slice()),
                None => None,
            },
            Message::Blank => None,
        }
    }

    /// Reverses the direction and sets the content to the text `reply` as a bincode string.
    pub fn uturn_with_text(&mut self, reply: &str)
        ensures
            final(self)@ == turned(old(self)@, Some(bincode_str(reply@))),
    {
        match self {
            Message::Custom { from, to, content, .. } => {
                let f = from.take();
                let t = to.take();
                *from = t;
                *to = f;
                *content = option_of_bytes(reply);
            },
            Message::Internal { from, to, content, .. } => {
                let f = from.take();
                let t = to.take();
                *from = t;
                *to = f;
                *content = option_of_bytes(reply);
            },
            Message::Blank => {},
        }
    }

    /// Sets the content to the text `reply` as a bincode string.
    pub fn update_text_content(&mut self, reply: &str)
        ensures
            final(self)@ == with_envelope(old(self)@, EnvelopeView {
                content: Some(bincode_str(reply@)),
                ..envelope(old(self)@)
            }),
    {
        match self {
            Message::Custom { content, .. } => {
                *content = option_of_bytes(reply);
            },
            Message::Internal { content, .. } => {
                *content = option_of_bytes(reply);
            },
            Message::Blank => {},
        }
    }

    /// Sets binary content and a new local recipient.
    pub fn with_content_and_to(&mut self, new_content: Vec<u8>, new_to: &'a str, host: &'a str, port: u16)
        ensures
            final(self)@ == with_envelope(old(self)@, EnvelopeView {
                content: Some(new_content@),
                to: Some(new_address(new_to@, host@, port)),
                ..envelope(old(self)@)
            }),
    {
        match self {
            Message::Custom { content, to, .. } => {
                *content = Some(new_content);
                *to = Some(Address::new(new_to, host, port));
            },
            Message::Internal { content, to, .. } => {
                *content = Some(new_content);
                *to = Some(Address::new(new_to, host, port));
            },
            Message::Blank => {},
        }
    }

    /// Sets binary content.
    pub fn with_content(&mut self, new_content: Vec<u8>)
        ensures
            final(self)@ == with_envelope(old(self)@, EnvelopeView {
                content: Some(new_content@),
                ..envelope(old(self)@)
            }),
    {
        match self {
            Message::Custom { content, .. } => {
                *content = Some(new_content);
            },
            Message::Internal { content, .. } => {
                *content = Some(new_content);
            },
            Message::Blank => {},
        }
    }

    /// Sets the recipient to local actor `new_to`.
    pub fn set_recipient(&mut self, new_to: &'a str, host: &'a str, port: u16)
        ensures
            final(self)@ == with_envelope(old(self)@, EnvelopeView {
                to: Some(new_address(new_to@, host@, port)),
                ..envelope(old(self)@)
            }),
    {
        match self {
            Message::Custom { to, .. } => {
                *to = Some(Address::new(new_to, host, port));
            },
            Message::Internal { to, .. } => {
                *to = Some(Address::new(new_to, host, port));
            },
            Message::Blank => {},
        }
    }

    /// Moves the recipient to host `new_to_ip`, as `Addr::with_ip` does.
    pub fn set_recipient_ip(&mut self, new_to_ip: &'a str)
        ensures
            final(self)@ == with_envelope(old(self)@, EnvelopeView {
                to: match envelope(old(self)@).to {
                    Some(a) => Some(if is_ip_text(new_to_ip@) { address_rehashed(AddressView { host: Some(new_to_ip@), ..a }) } else { a }),
                    None => None,
                },
                ..envelope(old(self)@)
            }),
    {
        match self {
            Message::Custom { to, .. } => match to {
                Some(addr) => addr.with_ip(new_to_ip),
                None => {},
            },
            Message::Internal { to, .. } => match to {
                Some(addr) => addr.with_ip(new_to_ip),
                None => {},
            },
            Message::Blank => {},
        }
    }

    /// Moves the recipient to port `new_port`.
    pub fn set_recipient_port(&mut self, new_port: u16)
        ensures
            final(self)@ == with_envelope(old(self)@, EnvelopeView {
                to: match envelope(old(self)@).to {
                    Some(a) => Some(address_rehashed(AddressView { port: Some(new_port), ..a })),
                    None => None,
                },
                ..envelope(old(self)@)
            }),
    {
        match self {
            Message::Custom { to, .. } => match to {
                Some(addr) => addr.with_port(new_port),
                None => {},
            },
            Message::Internal { to, .. } => match to {
                Some(addr) => addr.with_port(new_port),
                None => {},
            },
            Message::Blank => {},
        }
    }

    /// Reverses the direction and sets the content to `reply`.
    pub fn uturn_with_reply(&mut self, reply: Option<Vec<u8>>)
        ensures
            final(self)@ == turned(old(self)@, opt_bytes(reply)),
    {
        match self {
            Message::Custom { from, to, content, .. } => {
                let f = from.take();
                let t = to.take();
                *from = t;
                *to = f;
                *content = reply;
            },
            Message::Internal { from, to, content, .. } => {
                let f = from.take();
                let t = to.take();
                *from = t;
                *to = f;
                *content = reply;
            },
            Message::Blank => {},
        }
    }

    /// Sends the message to the local actors `new_recipients` as well.
    pub fn with_recipients(&mut self, new_recipients: Vec<&'a str>, host: &'a str, port: u16)
        ensures
            final(self)@ == with_envelope(old(self)@, EnvelopeView {
                recipients: Some(RecipientsView::OnlySome(new_addresses(new_recipients@, host@, port))),
                ..envelope(old(self)@)
            }),
    {
        match self {
            Message::Custom { recipients, .. } => {
                let mut addrs: Vec<Address<'a>> = Vec::new();
                let mut i: usize = 0;
                while i < new_recipients.len()
                    invariant
                        i <= new_recipients.len(),
                        address_views(addrs@) == new_addresses(new_recipients@, host@, port).take(i as int),
                    decreases new_recipients.len() - i,
                {
                    let a = Address::new(new_recipients[i], host, port);
                    assert(address_views(addrs@.push(a)) == address_views(addrs@).push(a@));
                    addrs.push(a);
                    i = i + 1;
                }
                assert(new_addresses(new_recipients@, host@, port).take(new_recipients.len() as int)
                    == new_addresses(new_recipients@, host@, port));
                *recipients = Some(AdditionalRecipients::OnlySome(addrs));
            },
            Message::Internal { recipients, .. } => {
                let mut addrs: Vec<Address<'a>> = Vec::new();
                let mut i: usize = 0;
                while i < new_recipients.len()
                    invariant
                        i <= new_recipients.len(),
                        address_views(addrs@) == new_addresses(new_recipients@, host@, port).take(i as int),
                    decreases new_recipients.len() - i,
                {
                    let a = Address::new(new_recipients[i], host, port);
                    assert(address_views(addrs@.push(a)) == address_views(addrs@).push(a@));
                    addrs.push(a);
                    i = i + 1;
                }
                assert(new_addresses(new_recipients@, host@, port).take(new_recipients.len() as int)
                    == new_addresses(new_recipients@, host@, port));
                *recipients = Some(AdditionalRecipients::OnlySome(addrs));
            },
            Message::Blank => {},
        }
    }

    /// Sends the message to every actor as well.
    pub fn set_recipient_all(&mut self)
        ensures
            final(self)@ == with_envelope(old(self)@, EnvelopeView {
                recipients: Some(RecipientsView::All),
                ..envelope(old(self)@)
            }),
    {
        match self {
            Message::Custom { recipients, .. } => {
                *recipients = Some(AdditionalRecipients::All);
            },
            Message::Internal { recipients, .. } => {
                *recipients = Some(AdditionalRecipients::All);
            },
            Message::Blank => {},
        }
    }

    /// The content; none for a blank message.
    pub fn get_content(&self) -> (c: &Option<Vec<u8>>)
        ensures
            opt_bytes(*c) == match self@ {
                MessageView::Blank => None,
                _ => envelope(self@).content,
            },
    {
        match self {
            Message::Custom { content, .. } => content,
            Message::Internal { content, .. } => content,
            Message::Blank => &None,
        }
    }

    /// Takes the content out, leaving none.
    pub fn get_content_out(&mut self) -> (c: Option<Vec<u8>>)
        ensures
            opt_bytes(c) == match old(self)@ {
                MessageView::Blank => None,
                _ => envelope(old(self)@).content,
            },
            final(self)@ == with_envelope(old(self)@, EnvelopeView { content: None, ..envelope(old(self)@) }),
    {
        match self {
            Message::Custom { content, .. } => content.take(),
            Message::Internal { content, .. } => content.take(),
            Message::Blank => None,
        }
    }

    /// The recipient; none for a blank message.
    pub fn get_to(&self) -> (a: &Option<Address<'a>>)
        ensures
            opt_address(*a) == match self@ {
                MessageView::Blank => None,
                _ => envelope(self@).to,
            },
    {
        match self {
            Message::Custom { to, .. } => to,
            Message::Internal { to, .. } => to,
            Message::Blank => &None,
        }
    }

    /// The id; `0` for a blank message.
    pub fn get_id(&self) -> (id: &u64)
        ensures
            *id == match self@ {
                MessageView::Blank => 0,
                _ => envelope(self@).id,
            },
    {
        match self {
            Message::Custom { id, .. } => id,
            Message::Internal { id, .. } => id,
            Message::Blank => &0,
        }
    }

    /// The id of the recipient address; `0` without one.
    pub fn get_to_id(&self) -> (id: u64)
        ensures
            id == match self@ {
                MessageView::Blank => 0,
                _ => match envelope(self@).to {
                    Some(a) => a.id,
                    None => 0,
                },
            },
    {
        match self {
            Message::Custom { to, .. } => match to {
                Some(addr) => addr.get_id(),
                None => 0,
            },
            Message::Internal { to, .. } => match to {
                Some(addr) => addr.get_id(),
                None => 0,
            },
            Message::Blank => 0,
        }
    }

    /// The sender; none for a blank message.
    pub fn get_from(&self) -> (a: &Option<Address<'a>>)
        ensures
            opt_address(*a) == match self@ {
                MessageView::Blank => None,
                _ => envelope(self@).from,
            },
    {
        match self {
            Message::Custom { from, .. } => from,
            Message::Internal { from, .. } => from,
            Message::Blank => &None,
        }
    }

    /// Whether the message goes to an actor on another node.
    pub fn is_outbound(&self, machine_ip: Option<u32>) -> (b: bool)
        requires
            routable(self@),
        ensures
            b == outbound(self@, machine_ip),
    {
        match self {
            Message::Custom { to, .. } => match to {
                Some(addr) => !addr.is_local(machine_ip),
                None => false,
            },
            Message::Internal { to, .. } => match to {
                Some(addr) => !addr.is_local(machine_ip),
                None => false,
            },
            Message::Blank => false,
        }
    }

    /// The additional recipients; none for a blank message.
    pub fn get_recipients(&self) -> (r: &Option<AdditionalRecipients<'a>>)
        ensures
            opt_recipients(*r) == match self@ {
                MessageView::Blank => None,
                _ => envelope(self@).recipients,
            },
    {
        match self {
            Message::Custom { recipients, .. } => recipients,
            Message::Internal { recipients, .. } => recipients,
            Message::Blank => &None,
        }
    }

    /// Whether the message also goes to every actor.
    pub fn is_recipient_all(&self) -> (b: bool)
        ensures
            b == (!(self@ is Blank) && envelope(self@).recipients matches Some(RecipientsView::All)),
    {
        match self {
            Message::Custom { recipients, .. } => match recipients {
                Some(AdditionalRecipients::All) => true,
                _ => false,
            },
            Message::Internal { recipients, .. } => match recipients {
                Some(AdditionalRecipients::All) => true,
                _ => false,
            },
            Message::Blank => false,
        }
    }
}

impl<'a> Default for Message<'a> {
    /// The blank message.
    fn default() -> (m: Message<'a>)
        ensures
            m@ is Blank,
    {
        Message::Blank
    }
}

} // verus!

verus! {

/// A message turned round with new content: sender and recipient swapped.
pub open spec fn turned(m: MessageView, content: Option<Seq<u8>>) -> MessageView {
    with_envelope(m, EnvelopeView { from: envelope(m).to, to: envelope(m).from, content, ..envelope(m) })
}

/// Turning a message round twice gives back its direction and everything but its content.
pub proof fn lemma_turn_twice(m: MessageView, first: Option<Seq<u8>>, second: Option<Seq<u8>>)
    ensures
        turned(turned(m, first), second) == with_envelope(m, EnvelopeView { content: second, ..envelope(m) }),
{
}

} // verus!
