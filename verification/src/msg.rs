//! The enum form of a message: a `Custom` message from users, an `Internal` one from the
//! system, or `Blank`. Both kinds carry the same envelope: id, sender, recipient, binary
//! content, additional recipients and creation time.
use vstd::prelude::*;
use crate::addr::{Addr, AddrView, local_addr, moved_to_ip, moved_to_port, addr_is_local, addr_bytes, addr_fits, lemma_addr_prefix};
use crate::config::{Config, ConfigView};
use crate::codec::{le_bytes, bincode_str, bincode_bytes, bincode_str_decode, put_le, put_bytes, option_of_bytes, text_of_bytes, lemma_pow256_8, lemma_pow256_small, lemma_le_prefix, lemma_bytes_prefix, lemma_tag_prefix, lemma_concat_assoc};
use crate::text::{decimal_string, decimal_text, ipv4_value};
use crate::ids::{fresh_id, timestamp_now, Timestamp};
use crate::mail::{opt_addr, opt_addr_bytes, opt_addr_fits, lemma_opt_addr_prefix};

verus! {

/// Who else a message goes to.
#[derive(PartialEq, Clone, Debug)]
pub enum AdditionalRecipients {
    All,
    OnlySome(Vec<Addr>),
}

/// The abstract value of [`AdditionalRecipients`].
pub enum RecipientsView {
    All,
    OnlySome(Seq<AddrView>),
}

/// The views of a sequence of addresses.
pub open spec fn addr_views(v: Seq<Addr>) -> Seq<AddrView> {
    v.map_values(|a: Addr| a@)
}

impl View for AdditionalRecipients {
    type V = RecipientsView;

    open spec fn view(&self) -> RecipientsView {
        match self {
            AdditionalRecipients::All => RecipientsView::All,
            AdditionalRecipients::OnlySome(v) => RecipientsView::OnlySome(addr_views(v@)),
        }
    }
}

/// A message.
#[derive(PartialEq, Clone, Debug)]
pub enum Msg {
    Custom {
        id: u64,
        from: Option<Addr>,
        to: Option<Addr>,
        content: Option<Vec<u8>>,
        recipients: Option<AdditionalRecipients>,
        created: Timestamp,
    },
    Internal {
        id: u64,
        from: Option<Addr>,
        to: Option<Addr>,
        content: Option<Vec<u8>>,
        recipients: Option<AdditionalRecipients>,
        created: Timestamp,
    },
    Blank,
}

/// The envelope that `Custom` and `Internal` messages share.
pub struct EnvelopeView {
    pub id: u64,
    pub from: Option<AddrView>,
    pub to: Option<AddrView>,
    pub content: Option<Seq<u8>>,
    pub recipients: Option<RecipientsView>,
    pub created: Timestamp,
}

/// The abstract value of a [`Msg`].
pub enum MsgView {
    Custom(EnvelopeView),
    Internal(EnvelopeView),
    Blank,
}

/// The bytes of an optional buffer.
pub open spec fn opt_bytes(c: Option<Vec<u8>>) -> Option<Seq<u8>> {
    match c {
        Some(b) => Some(b@),
        None => None,
    }
}

/// The view of optional additional recipients.
pub open spec fn opt_recipients(r: Option<AdditionalRecipients>) -> Option<RecipientsView> {
    match r {
        Some(r) => Some(r@),
        None => None,
    }
}

impl View for Msg {
    type V = MsgView;

    open spec fn view(&self) -> MsgView {
        match self {
            Msg::Custom { id, from, to, content, recipients, created } => MsgView::Custom(EnvelopeView {
                id: *id,
                from: opt_addr(*from),
                to: opt_addr(*to),
                content: opt_bytes(*content),
                recipients: opt_recipients(*recipients),
                created: *created,
            }),
            Msg::Internal { id, from, to, content, recipients, created } => MsgView::Internal(EnvelopeView {
                id: *id,
                from: opt_addr(*from),
                to: opt_addr(*to),
                content: opt_bytes(*content),
                recipients: opt_recipients(*recipients),
                created: *created,
            }),
            Msg::Blank => MsgView::Blank,
        }
    }
}

/// The envelope of a non-blank message.
pub open spec fn envelope(m: MsgView) -> EnvelopeView
    recommends
        !(m is Blank),
{
    match m {
        MsgView::Custom(e) => e,
        MsgView::Internal(e) => e,
        MsgView::Blank => arbitrary(),
    }
}

/// `m` with its envelope replaced by `e`, keeping its kind; a blank message stays blank.
pub open spec fn with_envelope(m: MsgView, e: EnvelopeView) -> MsgView {
    match m {
        MsgView::Custom(_) => MsgView::Custom(e),
        MsgView::Internal(_) => MsgView::Internal(e),
        MsgView::Blank => MsgView::Blank,
    }
}

/// A new envelope: no additional recipients.
pub open spec fn fresh_envelope(id: u64, from: AddrView, to: AddrView, content: Option<Seq<u8>>, created: Timestamp) -> EnvelopeView {
    EnvelopeView { id, from: Some(from), to: Some(to), content, recipients: None, created }
}

/// The text of a message's content read as a bincode string.
pub open spec fn content_text(m: MsgView) -> Option<Seq<char>> {
    match m {
        MsgView::Blank => None,
        _ => match envelope(m).content {
            Some(b) => bincode_str_decode(b),
            None => None,
        },
    }
}

/// Whether a message's recipient (if any) has an IPv4 host, as locality checks need.
pub open spec fn routable(m: MsgView) -> bool {
    !(m is Blank) ==> (envelope(m).to matches Some(a) ==> (a.host is Some && ipv4_value(a.host.unwrap()) is Some))
}

/// Whether a message goes to an actor on another node.
pub open spec fn outbound(m: MsgView, c: ConfigView, machine_ip: Option<u32>) -> bool {
    match m {
        MsgView::Blank => false,
        _ => match envelope(m).to {
            Some(a) => !addr_is_local(a, c, machine_ip),
            None => false,
        },
    }
}

/// bincode's encoding of optional additional recipients.
pub open spec fn opt_recipients_bytes(r: Option<RecipientsView>) -> Seq<u8> {
    match r {
        None => seq![0u8],
        Some(RecipientsView::All) => seq![1u8] + le_bytes(0, 4),
        Some(RecipientsView::OnlySome(v)) => seq![1u8] + (le_bytes(1, 4) + le_bytes(v.len(), 8) + addrs_bytes(v)),
    }
}

/// The encodings of `v`'s addresses, one after the other.
pub open spec fn addrs_bytes(v: Seq<AddrView>) -> Seq<u8>
    decreases v.len(),
{
    if v.len() == 0 {
        seq![]
    } else {
        addrs_bytes(v.drop_last()) + addr_bytes(v.last())
    }
}

/// bincode's encoding of an envelope.
pub open spec fn envelope_bytes(e: EnvelopeView) -> Seq<u8> {
    le_bytes(e.id as nat, 8) + opt_addr_bytes(e.from) + opt_addr_bytes(e.to)
        + match e.content {
            None => seq![0u8],
            Some(b) => seq![1u8] + bincode_bytes(b),
        }
        + opt_recipients_bytes(e.recipients)
        + (le_bytes(e.created.secs as nat, 8) + le_bytes(e.created.nanos as nat, 4))
}

/// bincode's encoding of a message: variant index as a `u32`, then the envelope.
pub open spec fn message_bytes(m: MsgView) -> Seq<u8> {
    match m {
        MsgView::Custom(e) => le_bytes(0, 4) + envelope_bytes(e),
        MsgView::Internal(e) => le_bytes(1, 4) + envelope_bytes(e),
        MsgView::Blank => le_bytes(2, 4),
    }
}

/// The addresses of local actors `names`, in order.
pub open spec fn local_addrs(names: Seq<&str>, c: ConfigView) -> Seq<AddrView> {
    Seq::new(names.len(), |i: int| local_addr(names[i]@, c))
}

fn copy_opt_addr(a: &Option<Addr>) -> (r: Option<Addr>)
    ensures
        opt_addr(r) == opt_addr(*a),
{
    match a {
        Some(a) => Some(a.duplicate()),
        None => None,
    }
}

fn put_opt_addr(out: &mut Vec<u8>, a: &Option<Addr>)
    ensures
        final(out)@ == old(out)@ + opt_addr_bytes(opt_addr(*a)),
{
    match a {
        None => {
            out.push(0u8);
        },
        Some(a) => {
            out.push(1u8);
            a.write_bytes(out);
            assert(out@ == old(out)@ + (seq![1u8] + addr_bytes(a@)));
        },
    }
}

fn put_recipients(out: &mut Vec<u8>, r: &Option<AdditionalRecipients>)
    ensures
        final(out)@ == old(out)@ + opt_recipients_bytes(opt_recipients(*r)),
{
    match r {
        None => {
            out.push(0u8);
        },
        Some(AdditionalRecipients::All) => {
            out.push(1u8);
            put_le(out, 0, 4);
            assert(out@ == old(out)@ + (seq![1u8] + le_bytes(0, 4)));
        },
        Some(AdditionalRecipients::OnlySome(v)) => {
            out.push(1u8);
            put_le(out, 1, 4);
            put_le(out, v.len() as u64, 8);
            let ghost head = out@;
            let mut i: usize = 0;
            while i < v.len()
                invariant
                    i <= v.len(),
                    out@ == head + addrs_bytes(addr_views(v@).take(i as int)),
                decreases v.len() - i,
            {
                proof {
                    assert(addr_views(v@).take(i + 1).drop_last() == addr_views(v@).take(i as int));
                    assert(addr_views(v@).take(i + 1).last() == v@[i as int]@);
                }
                v[i].write_bytes(out);
                i = i + 1;
            }
            assert(addr_views(v@).take(v.len() as int) == addr_views(v@));
            let ghost t = le_bytes(1, 4) + le_bytes(v.len() as nat, 8) + addrs_bytes(addr_views(v@));
            assert(out@ == old(out)@ + (seq![1u8] + t));
        },
    }
}

fn put_envelope(
    out: &mut Vec<u8>,
    id: u64,
    from: &Option<Addr>,
    to: &Option<Addr>,
    content: &Option<Vec<u8>>,
    recipients: &Option<AdditionalRecipients>,
    created: Timestamp,
)
    ensures
        final(out)@ == old(out)@ + envelope_bytes(EnvelopeView {
            id,
            from: opt_addr(*from),
            to: opt_addr(*to),
            content: opt_bytes(*content),
            recipients: opt_recipients(*recipients),
            created,
        }),
{
    let ghost s0 = out@;
    let ghost a = le_bytes(id as nat, 8);
    let ghost b = opt_addr_bytes(opt_addr(*from));
    let ghost c = opt_addr_bytes(opt_addr(*to));
    let ghost d = match opt_bytes(*content) {
        None => seq![0u8],
        Some(b) => seq![1u8] + bincode_bytes(b),
    };
    let ghost e = opt_recipients_bytes(opt_recipients(*recipients));
    let ghost f = le_bytes(created.secs as nat, 8) + le_bytes(created.nanos as nat, 4);
    put_le(out, id, 8);
    put_opt_addr(out, from);
    assert(out@ == s0 + (a + b));
    put_opt_addr(out, to);
    assert(out@ == s0 + (a + b + c));
    match content {
        None => {
            out.push(0u8);
        },
        Some(bytes) => {
            let ghost before = out@;
            out.push(1u8);
            put_bytes(out, bytes);
            assert(out@ == before + (seq![1u8] + bincode_bytes(bytes@)));
        },
    }
    assert(out@ == s0 + (a + b + c + d));
    put_recipients(out, recipients);
    assert(out@ == s0 + (a + b + c + d + e));
    let ghost s5 = out@;
    put_le(out, created.secs, 8);
    put_le(out, created.nanos as u64, 4);
    assert(out@ == s5 + f);
    assert(s5 + f =~= s0 + (a + b + c + d + e + f));
}

impl Msg {
    /// A custom message with binary content from local actor `from` to local actor `to`.
    pub fn new(content: Option<Vec<u8>>, from: &str, to: &str, config: &Config) -> (m: Msg)
        ensures
            m@ matches MsgView::Custom(e) && e == fresh_envelope(e.id, local_addr(from@, config@),
                local_addr(to@, config@), opt_bytes(content), e.created),
    {
        Msg::Custom {
            id: fresh_id(),
            from: Some(Addr::new(from, config)),
            to: Some(Addr::new(to, config)),
            content,
            recipients: None,
            created: timestamp_now(),
        }
    }

    /// A custom message whose content is the text `content` as a bincode string.
    pub fn new_with_text(content: &str, from: &str, to: &str, config: &Config) -> (m: Msg)
        ensures
            m@ matches MsgView::Custom(e) && e == fresh_envelope(e.id, local_addr(from@, config@),
                local_addr(to@, config@), Some(bincode_str(content@)), e.created),
    {
        Msg::Custom {
            id: fresh_id(),
            from: Some(Addr::new(from, config)),
            to: Some(Addr::new(to, config)),
            content: option_of_bytes(content),
            recipients: None,
            created: timestamp_now(),
        }
    }

    /// The message the system sends on an actor's behalf: a custom message whose content
    /// is the text `content` as a bincode string.
    pub fn new_internal(content: &str, from: &str, to: &str, config: &Config) -> (m: Msg)
        ensures
            m@ matches MsgView::Custom(e) && e == fresh_envelope(e.id, local_addr(from@, config@),
                local_addr(to@, config@), Some(bincode_str(content@)), e.created),
    {
        Self::new_with_text(content, from, to, config)
    }

    /// An internal message with binary content from local actor `from` to local actor `to`.
    pub fn internal(content: Option<Vec<u8>>, from: &str, to: &str, config: &Config) -> (m: Msg)
        ensures
            m@ matches MsgView::Internal(e) && e == fresh_envelope(e.id, local_addr(from@, config@),
                local_addr(to@, config@), opt_bytes(content), e.created),
    {
        Msg::Internal {
            id: fresh_id(),
            from: Some(Addr::new(from, config)),
            to: Some(Addr::new(to, config)),
            content,
            recipients: None,
            created: timestamp_now(),
        }
    }

    /// The content read as a bincode string, if it is one.
    pub fn content_as_text(&self) -> (t: Option<&str>)
        ensures
            match t {
                Some(t) => content_text(self@) == Some(t@),
                None => content_text(self@) is None,
            },
    {
        match self {
            Msg::Custom { content, .. } => match content {
                Some(value) => text_of_bytes(value.as_slice()),
                None => None,
            },
            Msg::Internal { content, .. } => match content {
                Some(value) => text_of_bytes(value.as_slice()),
                None => None,
            },
            Msg::Blank => None,
        }
    }

    /// The message in bincode's encoding.
    pub fn get_bytes(&self) -> (b: Vec<u8>)
        ensures
            b@ == message_bytes(self@),
    {
        let mut out: Vec<u8> = Vec::new();
        match self {
            Msg::Custom { id, from, to, content, recipients, created } => {
                put_le(&mut out, 0, 4);
                put_envelope(&mut out, *id, from, to, content, recipients, *created);
            },
            Msg::Internal { id, from, to, content, recipients, created } => {
                put_le(&mut out, 1, 4);
                put_envelope(&mut out, *id, from, to, content, recipients, *created);
            },
            Msg::Blank => {
                put_le(&mut out, 2, 4);
            },
        }
        out
    }

    /// Reverses the direction and sets the content to the text `reply` as a bincode string.
    pub fn uturn_with_text(&mut self, reply: &str)
        ensures
            final(self)@ == turned(old(self)@, Some(bincode_str(reply@))),
    {
        match self {
            Msg::Custom { from, to, content, .. } => {
                let f = from.take();
                let t = to.take();
                *from = t;
                *to = f;
                *content = option_of_bytes(reply);
            },
            Msg::Internal { from, to, content, .. } => {
                let f = from.take();
                let t = to.take();
                *from = t;
                *to = f;
                *content = option_of_bytes(reply);
            },
            Msg::Blank => {},
        }
    }

    /// Sets the content to the text `reply` as a bincode string.
    pub fn update_text_content(&mut self, reply: &str)
        ensures
            final(self)@ == with_envelope(old(self)@, EnvelopeView {
                content: Some(bincode_str(reply@)),
                ..envelope(old(self)@)
            }),
    {
        match self {
            Msg::Custom { content, .. } => {
                *content = option_of_bytes(reply);
            },
            Msg::Internal { content, .. } => {
                *content = option_of_bytes(reply);
            },
            Msg::Blank => {},
        }
    }

    /// Sets binary content and a new local recipient.
    pub fn with_content_and_to(&mut self, new_content: Vec<u8>, new_to: &str, config: &Config)
        ensures
            final(self)@ == with_envelope(old(self)@, EnvelopeView {
                content: Some(new_content@),
                to: Some(local_addr(new_to@, config@)),
                ..envelope(old(self)@)
            }),
    {
        match self {
            Msg::Custom { content, to, .. } => {
                *content = Some(new_content);
                *to = Some(Addr::new(new_to, config));
            },
            Msg::Internal { content, to, .. } => {
                *content = Some(new_content);
                *to = Some(Addr::new(new_to, config));
            },
            Msg::Blank => {},
        }
    }

    /// Sets binary content.
    pub fn with_content(&mut self, new_content: Vec<u8>)
        ensures
            final(self)@ == with_envelope(old(self)@, EnvelopeView {
                content: Some(new_content@),
                ..envelope(old(self)@)
            }),
    {
        match self {
            Msg::Custom { content, .. } => {
                *content = Some(new_content);
            },
            Msg::Internal { content, .. } => {
                *content = Some(new_content);
            },
            Msg::Blank => {},
        }
    }

    /// Sets the recipient to local actor `new_to`.
    pub fn set_recipient(&mut self, new_to: &str, config: &Config)
        ensures
            final(self)@ == with_envelope(old(self)@, EnvelopeView {
                to: Some(local_addr(new_to@, config@)),
                ..envelope(old(self)@)
            }),
    {
        match self {
            Msg::Custom { to, .. } => {
                *to = Some(Addr::new(new_to, config));
            },
            Msg::Internal { to, .. } => {
                *to = Some(Addr::new(new_to, config));
            },
            Msg::Blank => {},
        }
    }

    /// Moves the recipient to host `new_to_ip`, as `Addr::with_ip` does.
    pub fn set_recipient_ip(&mut self, new_to_ip: &str)
        ensures
            final(self)@ == with_envelope(old(self)@, EnvelopeView {
                to: match envelope(old(self)@).to {
                    Some(a) => Some(moved_to_ip(a, new_to_ip@)),
                    None => None,
                },
                ..envelope(old(self)@)
            }),
    {
        match self {
            Msg::Custom { to, .. } => match to {
                Some(addr) => addr.with_ip(new_to_ip),
                None => {},
            },
            Msg::Internal { to, .. } => match to {
                Some(addr) => addr.with_ip(new_to_ip),
                None => {},
            },
            Msg::Blank => {},
        }
    }

    /// Moves the recipient to port `new_port`.
    pub fn set_recipient_port(&mut self, new_port: u16)
        ensures
            final(self)@ == with_envelope(old(self)@, EnvelopeView {
                to: match envelope(old(self)@).to {
                    Some(a) => Some(moved_to_port(a, new_port)),
                    None => None,
                },
                ..envelope(old(self)@)
            }),
    {
        match self {
            Msg::Custom { to, .. } => match to {
                Some(addr) => addr.with_port(new_port),
                None => {},
            },
            Msg::Internal { to, .. } => match to {
                Some(addr) => addr.with_port(new_port),
                None => {},
            },
            Msg::Blank => {},
        }
    }

    /// Reverses the direction and sets the content to `reply`.
    pub fn uturn_with_reply(&mut self, reply: Option<Vec<u8>>)
        ensures
            final(self)@ == turned(old(self)@, opt_bytes(reply)),
    {
        match self {
            Msg::Custom { from, to, content, .. } => {
                let f = from.take();
                let t = to.take();
                *from = t;
                *to = f;
                *content = reply;
            },
            Msg::Internal { from, to, content, .. } => {
                let f = from.take();
                let t = to.take();
                *from = t;
                *to = f;
                *content = reply;
            },
            Msg::Blank => {},
        }
    }

    /// Sends the message to the local actors `new_recipients` as well.
    pub fn with_recipients(&mut self, new_recipients: Vec<&str>, config: &Config)
        ensures
            final(self)@ == with_envelope(old(self)@, EnvelopeView {
                recipients: Some(RecipientsView::OnlySome(local_addrs(new_recipients@, config@))),
                ..envelope(old(self)@)
            }),
    {
        match self {
            Msg::Custom { recipients, .. } => {
                let mut addrs: Vec<Addr> = Vec::new();
                let mut i: usize = 0;
                while i < new_recipients.len()
                    invariant
                        i <= new_recipients.len(),
                        addr_views(addrs@) == local_addrs(new_recipients@, config@).take(i as int),
                    decreases new_recipients.len() - i,
                {
                    let a = Addr::new(new_recipients[i], config);
                    assert(addr_views(addrs@.push(a)) == addr_views(addrs@).push(a@));
                    addrs.push(a);
                    i = i + 1;
                }
                assert(local_addrs(new_recipients@, config@).take(new_recipients.len() as int)
                    == local_addrs(new_recipients@, config@));
                *recipients = Some(AdditionalRecipients::OnlySome(addrs));
            },
            Msg::Internal { recipients, .. } => {
                let mut addrs: Vec<Addr> = Vec::new();
                let mut i: usize = 0;
                while i < new_recipients.len()
                    invariant
                        i <= new_recipients.len(),
                        addr_views(addrs@) == local_addrs(new_recipients@, config@).take(i as int),
                    decreases new_recipients.len() - i,
                {
                    let a = Addr::new(new_recipients[i], config);
                    assert(addr_views(addrs@.push(a)) == addr_views(addrs@).push(a@));
                    addrs.push(a);
                    i = i + 1;
                }
                assert(local_addrs(new_recipients@, config@).take(new_recipients.len() as int)
                    == local_addrs(new_recipients@, config@));
                *recipients = Some(AdditionalRecipients::OnlySome(addrs));
            },
            Msg::Blank => {},
        }
    }

    /// Sends the message to every actor as well.
    pub fn set_recipient_all(&mut self)
        ensures
            final(self)@ == with_envelope(old(self)@, EnvelopeView {
                recipients: Some(RecipientsView::All),
                ..envelope(old(self)@)
            }),
    {
        match self {
            Msg::Custom { recipients, .. } => {
                *recipients = Some(AdditionalRecipients::All);
            },
            Msg::Internal { recipients, .. } => {
                *recipients = Some(AdditionalRecipients::All);
            },
            Msg::Blank => {},
        }
    }

    /// The content; none for a blank message.
    pub fn get_content(&self) -> (c: &Option<Vec<u8>>)
        ensures
            opt_bytes(*c) == match self@ {
                MsgView::Blank => None,
                _ => envelope(self@).content,
            },
    {
        match self {
            Msg::Custom { content, .. } => content,
            Msg::Internal { content, .. } => content,
            Msg::Blank => &None,
        }
    }

    /// Takes the content out, leaving none.
    pub fn get_content_out(&mut self) -> (c: Option<Vec<u8>>)
        ensures
            opt_bytes(c) == match old(self)@ {
                MsgView::Blank => None,
                _ => envelope(old(self)@).content,
            },
            final(self)@ == with_envelope(old(self)@, EnvelopeView { content: None, ..envelope(old(self)@) }),
    {
        match self {
            Msg::Custom { content, .. } => content.take(),
            Msg::Internal { content, .. } => content.take(),
            Msg::Blank => None,
        }
    }

    /// The recipient; none for a blank message.
    pub fn get_to(&self) -> (a: &Option<Addr>)
        ensures
            opt_addr(*a) == match self@ {
                MsgView::Blank => None,
                _ => envelope(self@).to,
            },
    {
        match self {
            Msg::Custom { to, .. } => to,
            Msg::Internal { to, .. } => to,
            Msg::Blank => &None,
        }
    }

    /// The id; `0` for a blank message.
    pub fn get_id(&self) -> (id: &u64)
        ensures
            *id == match self@ {
                MsgView::Blank => 0,
                _ => envelope(self@).id,
            },
    {
        match self {
            Msg::Custom { id, .. } => id,
            Msg::Internal { id, .. } => id,
            Msg::Blank => &0,
        }
    }

    /// The id as decimal text.
    pub fn id_as_string(&self) -> (s: String)
        ensures
            s@ == decimal_text((match self@ {
                MsgView::Blank => 0,
                _ => envelope(self@).id,
            }) as nat),
    {
        decimal_string(*self.get_id())
    }

    /// The id of the recipient address; `0` without one.
    pub fn get_to_id(&self) -> (id: u64)
        ensures
            id == match self@ {
                MsgView::Blank => 0,
                _ => match envelope(self@).to {
                    Some(a) => a.id,
                    None => 0,
                },
            },
    {
        match self {
            Msg::Custom { to, .. } => match to {
                Some(addr) => addr.get_id(),
                None => 0,
            },
            Msg::Internal { to, .. } => match to {
                Some(addr) => addr.get_id(),
                None => 0,
            },
            Msg::Blank => 0,
        }
    }

    /// The sender; none for a blank message.
    pub fn get_from(&self) -> (a: &Option<Addr>)
        ensures
            opt_addr(*a) == match self@ {
                MsgView::Blank => None,
                _ => envelope(self@).from,
            },
    {
        match self {
            Msg::Custom { from, .. } => from,
            Msg::Internal { from, .. } => from,
            Msg::Blank => &None,
        }
    }

    /// Whether the message goes to an actor on another node.
    pub fn is_outbound(&self, config: &Config, machine_ip: Option<u32>) -> (b: bool)
        requires
            routable(self@),
        ensures
            b == outbound(self@, config@, machine_ip),
    {
        match self {
            Msg::Custom { to, .. } => match to {
                Some(addr) => !addr.is_local(config, machine_ip),
                None => false,
            },
            Msg::Internal { to, .. } => match to {
                Some(addr) => !addr.is_local(config, machine_ip),
                None => false,
            },
            Msg::Blank => false,
        }
    }

    /// The additional recipients; none for a blank message.
    pub fn get_recipients(&self) -> (r: &Option<AdditionalRecipients>)
        ensures
            opt_recipients(*r) == match self@ {
                MsgView::Blank => None,
                _ => envelope(self@).recipients,
            },
    {
        match self {
            Msg::Custom { recipients, .. } => recipients,
            Msg::Internal { recipients, .. } => recipients,
            Msg::Blank => &None,
        }
    }

    /// Whether the message also goes to every actor.
    pub fn is_recipient_all(&self) -> (b: bool)
        ensures
            b == (!(self@ is Blank) && envelope(self@).recipients matches Some(RecipientsView::All)),
    {
        match self {
            Msg::Custom { recipients, .. } => match recipients {
                Some(AdditionalRecipients::All) => true,
                _ => false,
            },
            Msg::Internal { recipients, .. } => match recipients {
                Some(AdditionalRecipients::All) => true,
                _ => false,
            },
            Msg::Blank => false,
        }
    }
}

impl Default for Msg {
    /// The blank message.
    fn default() -> (m: Msg)
        ensures
            m@ is Blank,
    {
        Msg::Blank
    }
}

} // verus!

verus! {

/// A message turned round with new content: sender and recipient swapped.
pub open spec fn turned(m: MsgView, content: Option<Seq<u8>>) -> MsgView {
    with_envelope(m, EnvelopeView { from: envelope(m).to, to: envelope(m).from, content, ..envelope(m) })
}

/// Turning a message round twice gives back its direction and everything but its content.
pub proof fn lemma_turn_twice(m: MsgView, first: Option<Seq<u8>>, second: Option<Seq<u8>>)
    ensures
        turned(turned(m, first), second) == with_envelope(m, EnvelopeView { content: second, ..envelope(m) }),
{
}

} // verus!

verus! {

// ---------------------------------------------------------------------------
// A message's bytes read back
// ---------------------------------------------------------------------------

/// Whether an envelope's addresses, buffer and recipient list fit bincode's length prefixes
/// (always so for values that fit in memory).
pub open spec fn envelope_fits(e: EnvelopeView) -> bool {
    &&& opt_addr_fits(e.from)
    &&& opt_addr_fits(e.to)
    &&& (e.content matches Some(b) ==> b.len() < 0x1_0000_0000_0000_0000)
    &&& (e.recipients matches Some(RecipientsView::OnlySome(v)) ==> v.len() < 0x1_0000_0000_0000_0000
        && forall|i: int| 0 <= i < v.len() ==> addr_fits(#[trigger] v[i]))
}

/// Whether a message fits bincode's length prefixes (see [`envelope_fits`]).
pub open spec fn message_fits(m: MsgView) -> bool {
    match m {
        MsgView::Custom(e) => envelope_fits(e),
        MsgView::Internal(e) => envelope_fits(e),
        MsgView::Blank => true,
    }
}

proof fn lemma_addrs_front(v: Seq<AddrView>)
    requires
        v.len() > 0,
    ensures
        addrs_bytes(v) == addr_bytes(v[0]) + addrs_bytes(v.drop_first()),
    decreases v.len(),
{
    if v.len() == 1 {
        assert(v.drop_last() =~= Seq::<AddrView>::empty());
        assert(v.drop_first() =~= Seq::<AddrView>::empty());
        assert(addrs_bytes(v) =~= addr_bytes(v[0]) + addrs_bytes(v.drop_first()));
    } else {
        lemma_addrs_front(v.drop_last());
        assert(v.drop_last().drop_first() =~= v.drop_first().drop_last());
        assert(v.drop_first().last() == v.last());
        assert(v.drop_last()[0] == v[0]);
        lemma_concat_assoc(addr_bytes(v[0]), addrs_bytes(v.drop_first().drop_last()), addr_bytes(v.last()));
    }
}

proof fn lemma_addrs_prefix(v: Seq<AddrView>, w: Seq<AddrView>, r1: Seq<u8>, r2: Seq<u8>)
    requires
        v.len() == w.len(),
        forall|i: int| 0 <= i < v.len() ==> addr_fits(#[trigger] v[i]),
        forall|i: int| 0 <= i < w.len() ==> addr_fits(#[trigger] w[i]),
        addrs_bytes(v) + r1 == addrs_bytes(w) + r2,
    ensures
        v == w,
        r1 == r2,
    decreases v.len(),
{
    if v.len() == 0 {
        assert(addrs_bytes(v) + r1 =~= r1);
        assert(addrs_bytes(w) + r2 =~= r2);
        assert(v =~= w);
    } else {
        lemma_addrs_front(v);
        lemma_addrs_front(w);
        let tv = v.drop_first();
        let tw = w.drop_first();
        lemma_concat_assoc(addr_bytes(v[0]), addrs_bytes(tv), r1);
        lemma_concat_assoc(addr_bytes(w[0]), addrs_bytes(tw), r2);
        assert(addr_fits(v[0]) && addr_fits(w[0]));
        lemma_addr_prefix(v[0], w[0], addrs_bytes(tv) + r1, addrs_bytes(tw) + r2);
        assert forall|i: int| 0 <= i < tv.len() implies addr_fits(#[trigger] tv[i]) by {
            assert(tv[i] == v[i + 1]);
        }
        assert forall|i: int| 0 <= i < tw.len() implies addr_fits(#[trigger] tw[i]) by {
            assert(tw[i] == w[i + 1]);
        }
        lemma_addrs_prefix(tv, tw, r1, r2);
        assert(v =~= seq![v[0]] + tv);
        assert(w =~= seq![w[0]] + tw);
    }
}

proof fn lemma_opt_buffer_prefix(c: Option<Seq<u8>>, d: Option<Seq<u8>>, r1: Seq<u8>, r2: Seq<u8>)
    requires
        c matches Some(b) ==> b.len() < 0x1_0000_0000_0000_0000,
        d matches Some(b) ==> b.len() < 0x1_0000_0000_0000_0000,
        (match c { None => seq![0u8], Some(b) => seq![1u8] + bincode_bytes(b) }) + r1
            == (match d { None => seq![0u8], Some(b) => seq![1u8] + bincode_bytes(b) }) + r2,
    ensures
        c == d,
        r1 == r2,
{
    let (x, b1) = match c { Some(b) => (1u8, bincode_bytes(b) + r1), None => (0u8, r1) };
    let (y, b2) = match d { Some(b) => (1u8, bincode_bytes(b) + r2), None => (0u8, r2) };
    assert((match c { None => seq![0u8], Some(b) => seq![1u8] + bincode_bytes(b) }) + r1 =~= seq![x] + b1);
    assert((match d { None => seq![0u8], Some(b) => seq![1u8] + bincode_bytes(b) }) + r2 =~= seq![y] + b2);
    lemma_tag_prefix(x, y, b1, b2);
    if c is Some && d is Some {
        lemma_bytes_prefix(c.unwrap(), d.unwrap(), r1, r2);
    }
}

proof fn lemma_recipients_prefix(a: Option<RecipientsView>, b: Option<RecipientsView>, r1: Seq<u8>, r2: Seq<u8>)
    requires
        a matches Some(RecipientsView::OnlySome(v)) ==> v.len() < 0x1_0000_0000_0000_0000
            && forall|i: int| 0 <= i < v.len() ==> addr_fits(#[trigger] v[i]),
        b matches Some(RecipientsView::OnlySome(v)) ==> v.len() < 0x1_0000_0000_0000_0000
            && forall|i: int| 0 <= i < v.len() ==> addr_fits(#[trigger] v[i]),
        opt_recipients_bytes(a) + r1 == opt_recipients_bytes(b) + r2,
    ensures
        a == b,
        r1 == r2,
{
    lemma_pow256_8();
    lemma_pow256_small();
    let q1 = match a {
        None => r1,
        Some(RecipientsView::All) => le_bytes(0, 4) + r1,
        Some(RecipientsView::OnlySome(v)) => le_bytes(1, 4) + (le_bytes(v.len(), 8) + (addrs_bytes(v) + r1)),
    };
    let q2 = match b {
        None => r2,
        Some(RecipientsView::All) => le_bytes(0, 4) + r2,
        Some(RecipientsView::OnlySome(v)) => le_bytes(1, 4) + (le_bytes(v.len(), 8) + (addrs_bytes(v) + r2)),
    };
    let x: u8 = if a is Some { 1 } else { 0 };
    let y: u8 = if b is Some { 1 } else { 0 };
    assert(opt_recipients_bytes(a) + r1 =~= seq![x] + q1);
    assert(opt_recipients_bytes(b) + r2 =~= seq![y] + q2);
    lemma_tag_prefix(x, y, q1, q2);
    if a is Some && b is Some {
        let i: nat = match a.unwrap() { RecipientsView::All => 0, RecipientsView::OnlySome(_) => 1 };
        let j: nat = match b.unwrap() { RecipientsView::All => 0, RecipientsView::OnlySome(_) => 1 };
        let s1 = match a.unwrap() { RecipientsView::All => r1, RecipientsView::OnlySome(v) => le_bytes(v.len(), 8) + (addrs_bytes(v) + r1) };
        let s2 = match b.unwrap() { RecipientsView::All => r2, RecipientsView::OnlySome(v) => le_bytes(v.len(), 8) + (addrs_bytes(v) + r2) };
        assert(q1 == le_bytes(i, 4) + s1);
        assert(q2 == le_bytes(j, 4) + s2);
        lemma_le_prefix(i, j, 4, s1, s2);
        match (a.unwrap(), b.unwrap()) {
            (RecipientsView::OnlySome(v), RecipientsView::OnlySome(w)) => {
                lemma_le_prefix(v.len(), w.len(), 8, addrs_bytes(v) + r1, addrs_bytes(w) + r2);
                lemma_addrs_prefix(v, w, r1, r2);
            },
            _ => {},
        }
    }
}

proof fn lemma_envelope_assoc(e: EnvelopeView, r: Seq<u8>)
    ensures
        envelope_bytes(e) + r == le_bytes(e.id as nat, 8) + (opt_addr_bytes(e.from) + (opt_addr_bytes(e.to)
            + ((match e.content { None => seq![0u8], Some(b) => seq![1u8] + bincode_bytes(b) })
            + (opt_recipients_bytes(e.recipients) + (le_bytes(e.created.secs as nat, 8)
            + (le_bytes(e.created.nanos as nat, 4) + r)))))),
{
    let l = le_bytes(e.id as nat, 8);
    let f = opt_addr_bytes(e.from);
    let t = opt_addr_bytes(e.to);
    let c = match e.content { None => seq![0u8], Some(b) => seq![1u8] + bincode_bytes(b) };
    let q = opt_recipients_bytes(e.recipients);
    let s8 = le_bytes(e.created.secs as nat, 8);
    let n4 = le_bytes(e.created.nanos as nat, 4);
    lemma_concat_assoc(l + f + t + c + q, s8 + n4, r);
    lemma_concat_assoc(s8, n4, r);
    lemma_concat_assoc(l + f + t + c, q, s8 + (n4 + r));
    lemma_concat_assoc(l + f + t, c, q + (s8 + (n4 + r)));
    lemma_concat_assoc(l + f, t, c + (q + (s8 + (n4 + r))));
    lemma_concat_assoc(l, f, t + (c + (q + (s8 + (n4 + r)))));
}

proof fn lemma_envelope_prefix(e: EnvelopeView, g: EnvelopeView, r1: Seq<u8>, r2: Seq<u8>)
    requires
        envelope_fits(e),
        envelope_fits(g),
        envelope_bytes(e) + r1 == envelope_bytes(g) + r2,
    ensures
        e == g,
        r1 == r2,
{
    lemma_pow256_8();
    lemma_pow256_small();
    lemma_envelope_assoc(e, r1);
    lemma_envelope_assoc(g, r2);
    let n1 = le_bytes(e.created.nanos as nat, 4) + r1;
    let n2 = le_bytes(g.created.nanos as nat, 4) + r2;
    let s1 = le_bytes(e.created.secs as nat, 8) + n1;
    let s2 = le_bytes(g.created.secs as nat, 8) + n2;
    let q1 = opt_recipients_bytes(e.recipients) + s1;
    let q2 = opt_recipients_bytes(g.recipients) + s2;
    let c1 = (match e.content { None => seq![0u8], Some(b) => seq![1u8] + bincode_bytes(b) }) + q1;
    let c2 = (match g.content { None => seq![0u8], Some(b) => seq![1u8] + bincode_bytes(b) }) + q2;
    let t1 = opt_addr_bytes(e.to) + c1;
    let t2 = opt_addr_bytes(g.to) + c2;
    let f1 = opt_addr_bytes(e.from) + t1;
    let f2 = opt_addr_bytes(g.from) + t2;
    lemma_le_prefix(e.id as nat, g.id as nat, 8, f1, f2);
    lemma_opt_addr_prefix(e.from, g.from, t1, t2);
    lemma_opt_addr_prefix(e.to, g.to, c1, c2);
    lemma_opt_buffer_prefix(e.content, g.content, q1, q2);
    lemma_recipients_prefix(e.recipients, g.recipients, s1, s2);
    lemma_le_prefix(e.created.secs as nat, g.created.secs as nat, 8, n1, n2);
    lemma_le_prefix(e.created.nanos as nat, g.created.nanos as nat, 4, r1, r2);
}

/// A message's bytes read back to the message: two messages with the same bytes are the
/// same message.
pub proof fn lemma_message_bytes_read_back(m: MsgView, n: MsgView)
    requires
        message_fits(m),
        message_fits(n),
        message_bytes(m) == message_bytes(n),
    ensures
        m == n,
{
    lemma_pow256_small();
    let (i, b1) = match m { MsgView::Custom(e) => (0nat, envelope_bytes(e)), MsgView::Internal(e) => (1nat, envelope_bytes(e)), MsgView::Blank => (2nat, Seq::<u8>::empty()) };
    let (j, b2) = match n { MsgView::Custom(e) => (0nat, envelope_bytes(e)), MsgView::Internal(e) => (1nat, envelope_bytes(e)), MsgView::Blank => (2nat, Seq::<u8>::empty()) };
    assert(message_bytes(m) =~= le_bytes(i, 4) + b1);
    assert(message_bytes(n) =~= le_bytes(j, 4) + b2);
    lemma_le_prefix(i, j, 4, b1, b2);
    match (m, n) {
        (MsgView::Custom(e), MsgView::Custom(g)) => {
            assert(envelope_bytes(e) + Seq::<u8>::empty() =~= envelope_bytes(g) + Seq::<u8>::empty());
            lemma_envelope_prefix(e, g, Seq::<u8>::empty(), Seq::<u8>::empty());
        },
        (MsgView::Internal(e), MsgView::Internal(g)) => {
            assert(envelope_bytes(e) + Seq::<u8>::empty() =~= envelope_bytes(g) + Seq::<u8>::empty());
            lemma_envelope_prefix(e, g, Seq::<u8>::empty(), Seq::<u8>::empty());
        },
        _ => {},
    }
}

} // verus!
