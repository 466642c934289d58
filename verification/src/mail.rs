//! The payloads that actors exchange: a `Msg` carries an optional text, binary or
//! command `Content` between two addresses; a `Mail` is one message (`Trade`), several
//! (`Bulk`) or none (`Blank`).
use vstd::prelude::*;
use crate::addr::{Addr, AddrView, addr_bytes, addr_is_local, addr_fits, lemma_addr_prefix};
use crate::config::{Config, ConfigView};
use crate::codec::{le_bytes, bincode_str, bincode_bytes, bincode_str_decode, put_le, put_str, put_bytes, option_of_bytes, text_of_bytes, str_fits, lemma_pow256_8, lemma_pow256_small, lemma_le_prefix, lemma_str_prefix, lemma_bytes_prefix, lemma_tag_prefix, lemma_concat_assoc};
use crate::text::{reversed, decimal_string, decimal_text, ipv4_value};
use crate::addr::{local_addr, moved_to_ip, moved_to_port};
use crate::ids::{fresh_id, timestamp_now, Timestamp};

verus! {

/// What a command asks the listener to do.
#[derive(PartialEq, Clone, Debug)]
#[non_exhaustive]
pub enum Action {
    /// Shut the message listener down.
    Shutdown,
    /// Ask the listener to echo a text back, to check that it is alive.
    Echo(String),
    /// Carry on.
    Continue,
}

/// The abstract value of an [`Action`].
pub enum ActionView {
    Shutdown,
    Echo(Seq<char>),
    Continue,
}

impl View for Action {
    type V = ActionView;

    open spec fn view(&self) -> ActionView {
        match self {
            Action::Shutdown => ActionView::Shutdown,
            Action::Echo(s) => ActionView::Echo(s@),
            Action::Continue => ActionView::Continue,
        }
    }
}

/// The payload of a message: text, a binary blob, or a command.
#[derive(PartialEq, Clone, Debug)]
pub enum Content {
    Text(String),
    Binary(Vec<u8>),
    Command(Action),
}

/// The abstract value of a [`Content`].
pub enum ContentView {
    Text(Seq<char>),
    Binary(Seq<u8>),
    Command(ActionView),
}

impl View for Content {
    type V = ContentView;

    open spec fn view(&self) -> ContentView {
        match self {
            Content::Text(s) => ContentView::Text(s@),
            Content::Binary(b) => ContentView::Binary(b@),
            Content::Command(a) => ContentView::Command(a@),
        }
    }
}

/// The payload an actor receives inside a [`Mail`].
#[derive(PartialEq, Clone, Debug, Default)]
pub struct Msg {
    id: u64,
    from: Option<Addr>,
    to: Option<Addr>,
    content: Option<Content>,
    dispatched: Option<Timestamp>,
}

/// The abstract value of a [`Msg`].
pub struct MsgView {
    pub id: u64,
    pub from: Option<AddrView>,
    pub to: Option<AddrView>,
    pub content: Option<ContentView>,
    pub dispatched: Option<Timestamp>,
}

/// The view of an optional address.
pub open spec fn opt_addr(a: Option<Addr>) -> Option<AddrView> {
    match a {
        Some(a) => Some(a@),
        None => None,
    }
}

/// The view of an optional content.
pub open spec fn opt_content(c: Option<Content>) -> Option<ContentView> {
    match c {
        Some(c) => Some(c@),
        None => None,
    }
}

impl View for Msg {
    type V = MsgView;

    closed spec fn view(&self) -> MsgView {
        MsgView {
            id: self.id,
            from: opt_addr(self.from),
            to: opt_addr(self.to),
            content: opt_content(self.content),
            dispatched: self.dispatched,
        }
    }
}

/// A single message, several messages, or nothing.
#[derive(PartialEq, Clone, Debug)]
pub enum Mail {
    /// One message; actors receive this variant.
    Trade(Msg),
    /// Several messages, buffered or sent over the wire together.
    Bulk(Vec<Msg>),
    /// No message.
    Blank,
}

/// The views of a sequence of messages.
pub open spec fn msg_views(v: Seq<Msg>) -> Seq<MsgView> {
    v.map_values(|m: Msg| m@)
}

/// The abstract value of a [`Mail`].
pub enum MailView {
    Trade(MsgView),
    Bulk(Seq<MsgView>),
    Blank,
}

impl View for Mail {
    type V = MailView;

    open spec fn view(&self) -> MailView {
        match self {
            Mail::Trade(m) => MailView::Trade(m@),
            Mail::Bulk(v) => MailView::Bulk(msg_views(v@)),
            Mail::Blank => MailView::Blank,
        }
    }
}

// ---------------------------------------------------------------------------
// Specifications
// ---------------------------------------------------------------------------

/// Whether two actions are the same command (an echo matches an echo whatever its text).
pub open spec fn same_command(a: ActionView, b: ActionView) -> bool {
    match (a, b) {
        (ActionView::Shutdown, ActionView::Shutdown) => true,
        (ActionView::Echo(_), ActionView::Echo(_)) => true,
        (ActionView::Continue, ActionView::Continue) => true,
        _ => false,
    }
}

/// The text inside an action: the echo text, or empty.
pub open spec fn action_inner(a: ActionView) -> Seq<char> {
    match a {
        ActionView::Echo(s) => s,
        _ => Seq::empty(),
    }
}

/// Whether a message carries a command.
pub open spec fn msg_is_command(m: MsgView) -> bool {
    m.content matches Some(ContentView::Command(_))
}

/// The command a message carries.
pub open spec fn msg_action(m: MsgView) -> Option<ActionView> {
    match m.content {
        Some(ContentView::Command(a)) => Some(a),
        _ => None,
    }
}

/// The text of a message: a decoded binary string, the text, or the command's inner text.
pub open spec fn msg_text(m: MsgView) -> Option<Seq<char>> {
    match m.content {
        Some(ContentView::Binary(b)) => bincode_str_decode(b),
        Some(ContentView::Text(s)) => Some(s),
        Some(ContentView::Command(a)) => Some(action_inner(a)),
        None => None,
    }
}

/// Whether a message's recipient host (if any) is an IPv4 text, as locality checks need.
pub open spec fn msg_routable(m: MsgView) -> bool {
    m.to matches Some(a) ==> (a.host is Some && ipv4_value(a.host.unwrap()) is Some)
}

/// Whether a message is addressed to an actor on this node.
pub open spec fn msg_inbound(m: MsgView, c: ConfigView, machine_ip: Option<u32>) -> bool {
    match m.to {
        Some(a) => addr_is_local(a, c, machine_ip),
        None => false,
    }
}

/// Whether a mail holds exactly one message and it is a command.
pub open spec fn mail_is_command(m: MailView) -> bool {
    match m {
        MailView::Trade(msg) => msg_is_command(msg),
        MailView::Bulk(v) => v.len() == 1 && msg_is_command(v[0]),
        MailView::Blank => false,
    }
}

/// The command a mail carries, when it is a command.
pub open spec fn mail_action(m: MailView) -> Option<ActionView> {
    if !mail_is_command(m) {
        None
    } else {
        match m {
            MailView::Trade(msg) => msg_action(msg),
            MailView::Bulk(v) => msg_action(v[0]),
            MailView::Blank => None,
        }
    }
}

/// The messages a non-blank mail holds, in order.
pub open spec fn mail_msgs(m: MailView) -> Seq<MsgView> {
    match m {
        MailView::Trade(msg) => seq![msg],
        MailView::Bulk(v) => v,
        MailView::Blank => seq![],
    }
}

/// A message that only carries content: no id, no addresses, no dispatch time.
pub open spec fn bare_msg(content: Option<ContentView>) -> MsgView {
    MsgView { id: 0, from: None, to: None, content, dispatched: None }
}

/// `m` with sender and recipient exchanged and new content.
pub open spec fn reply_msg(m: MsgView, content: Option<ContentView>) -> MsgView {
    MsgView { from: m.to, to: m.from, content, ..m }
}

/// Copies an optional address.
fn copy_opt_addr(a: &Option<Addr>) -> (r: Option<Addr>)
    ensures
        opt_addr(r) == opt_addr(*a),
{
    match a {
        Some(a) => Some(a.duplicate()),
        None => None,
    }
}

impl Action {
    /// The name of the command.
    pub fn as_text(&self) -> (t: &'static str)
        ensures
            t@ == match self@ {
                ActionView::Shutdown => "Shutdown"@,
                ActionView::Echo(_) => "Echo"@,
                ActionView::Continue => "Continue"@,
            },
    {
        match self {
            Action::Shutdown => "Shutdown",
            Action::Echo(_) => "Echo",
            Action::Continue => "Continue",
        }
    }

    /// The text inside the action, such as the echo text.
    pub fn inner(&self) -> (t: &str)
        ensures
            t@ == action_inner(self@),
    {
        proof {
            reveal_strlit("");
        }
        match self {
            Action::Shutdown => "",
            Action::Continue => "",
            Action::Echo(s) => s.as_str(),
        }
    }

    /// A copy of the action.
    pub fn duplicate(&self) -> (a: Action)
        ensures
            a@ == self@,
    {
        match self {
            Action::Shutdown => Action::Shutdown,
            Action::Continue => Action::Continue,
            Action::Echo(s) => Action::Echo(s.clone()),
        }
    }

    /// Runs the action on the mail that carried it: an echo answers with an echo command
    /// holding its text reversed; other actions answer nothing.
    pub fn execute(&mut self, _input: Mail) -> (r: Option<Mail>)
        ensures
            final(self)@ == old(self)@,
            match old(self)@ {
                ActionView::Echo(s) => r matches Some(m) && m@ == MailView::Trade(
                    bare_msg(Some(ContentView::Command(ActionView::Echo(s.reverse()))))),
                _ => r is None,
            },
    {
        match self {
            Action::Echo(text) => {
                let rev = reversed(text.as_str());
                Some(Mail::Trade(Msg::echo(rev.as_str())))
            },
            _ => None,
        }
    }
}

impl Content {
    /// A copy of the content.
    pub fn duplicate(&self) -> (c: Content)
        ensures
            c@ == self@,
    {
        match self {
            Content::Text(s) => Content::Text(s.clone()),
            Content::Binary(b) => Content::Binary(b.clone()),
            Content::Command(a) => Content::Command(a.duplicate()),
        }
    }
}

} // verus!

verus! {

impl Msg {
    /// A message with binary content from local actor `from` to local actor `to`.
    pub fn new(content: Option<Vec<u8>>, from: &str, to: &str, config: &Config) -> (m: Msg)
        ensures
            m@.from == Some(local_addr(from@, config@)),
            m@.to == Some(local_addr(to@, config@)),
            m@.content == match content { Some(b) => Some(ContentView::Binary(b@)), None => None::<ContentView> },
            m@.dispatched is None,
    {
        let content = match content {
            Some(b) => Some(Content::Binary(b)),
            None => None,
        };
        Msg {
            id: fresh_id(),
            from: Some(Addr::new(from, config)),
            to: Some(Addr::new(to, config)),
            content,
            dispatched: None,
        }
    }

    /// A message made of all of its parts.
    pub fn from_parts(
        id: u64,
        from: Option<Addr>,
        to: Option<Addr>,
        content: Option<Content>,
        dispatched: Option<Timestamp>,
    ) -> (m: Msg)
        ensures
            m@ == (MsgView { id, from: opt_addr(from), to: opt_addr(to), content: opt_content(content), dispatched }),
    {
        Msg { id, from, to, content, dispatched }
    }

    /// When the message was dispatched, if it was.
    pub fn get_dispatched(&self) -> (t: Option<Timestamp>)
        ensures
            t == self@.dispatched,
    {
        self.dispatched
    }

    /// A message with binary content and no addresses.
    pub fn with_binary_content(content: Option<Vec<u8>>) -> (m: Msg)
        ensures
            m@.from is None,
            m@.to is None,
            m@.content == match content { Some(b) => Some(ContentView::Binary(b@)), None => None::<ContentView> },
            m@.dispatched is None,
    {
        let content = match content {
            Some(b) => Some(Content::Binary(b)),
            None => None,
        };
        Msg { id: fresh_id(), from: None, to: None, content, dispatched: None }
    }

    /// A text message with no addresses, stamped with the current time.
    pub fn from_text(content: &str) -> (m: Msg)
        ensures
            m@.from is None,
            m@.to is None,
            m@.content == Some(ContentView::Text(content@)),
            m@.dispatched is Some,
    {
        Msg {
            id: fresh_id(),
            from: None,
            to: None,
            content: Some(Content::Text(content.to_string())),
            dispatched: Some(timestamp_now()),
        }
    }

    /// A text message from local actor `from` to local actor `to`, stamped with the
    /// current time.
    pub fn with_text(content: &str, from: &str, to: &str, config: &Config) -> (m: Msg)
        ensures
            m@.from == Some(local_addr(from@, config@)),
            m@.to == Some(local_addr(to@, config@)),
            m@.content == Some(ContentView::Text(content@)),
            m@.dispatched is Some,
    {
        Msg {
            id: fresh_id(),
            from: Some(Addr::new(from, config)),
            to: Some(Addr::new(to, config)),
            content: Some(Content::Text(content.to_string())),
            dispatched: Some(timestamp_now()),
        }
    }

    /// The content as text: a binary content read as a bincode string, the text itself, or
    /// a command's inner text; `None` when there is no content or the binary is not a string.
    pub fn as_text(&self) -> (t: Option<&str>)
        ensures
            match t {
                Some(t) => msg_text(self@) == Some(t@),
                None => msg_text(self@) is None,
            },
    {
        match &self.content {
            Some(Content::Binary(bytes)) => text_of_bytes(bytes.as_slice()),
            Some(Content::Text(s)) => Some(s.as_str()),
            Some(Content::Command(action)) => Some(action.inner()),
            None => None,
        }
    }

    /// Whether the message is a command.
    pub fn is_command(&self) -> (b: bool)
        ensures
            b == msg_is_command(self@),
    {
        match &self.content {
            Some(Content::Command(_)) => true,
            _ => false,
        }
    }

    /// Whether the message is the command `action` (echoes match whatever their text).
    pub fn command_equals(&self, action: Action) -> (b: bool)
        ensures
            b == (msg_action(self@) matches Some(a) && same_command(a, action@)),
    {
        if !self.is_command() {
            return false;
        }
        match &self.content {
            Some(Content::Command(own)) => match (own, &action) {
                (Action::Shutdown, Action::Shutdown) => true,
                (Action::Echo(_), Action::Echo(_)) => true,
                (Action::Continue, Action::Continue) => true,
                _ => false,
            },
            _ => false,
        }
    }

    /// The command the message carries, if it is one.
    pub fn action(&self) -> (a: Option<Action>)
        ensures
            match a {
                Some(a) => msg_action(self@) == Some(a@),
                None => msg_action(self@) is None,
            },
    {
        if !self.is_command() {
            return None;
        }
        match &self.content {
            Some(Content::Command(action)) => Some(action.duplicate()),
            _ => None,
        }
    }

    /// Reverses the direction of the message and sets its content to the text `reply`
    /// (stored as a bincode string, as text replies are on the wire).
    pub fn text_reply(&mut self, reply: &str)
        ensures
            final(self)@ == reply_msg(old(self)@, Some(ContentView::Binary(bincode_str(reply@)))),
    {
        let from = self.from.take();
        let to = self.to.take();
        self.from = to;
        self.to = from;
        let bytes = option_of_bytes(reply).unwrap();
        self.content = Some(Content::Binary(bytes));
    }

    /// Sets the content to the text `reply` (stored as a bincode string).
    pub fn update_text_content(&mut self, reply: &str)
        ensures
            final(self)@ == (MsgView { content: Some(ContentView::Binary(bincode_str(reply@))), ..old(self)@ }),
    {
        let bytes = option_of_bytes(reply).unwrap();
        self.content = Some(Content::Binary(bytes));
    }

    /// Sets binary content and a new local recipient.
    pub fn with_content_and_to(&mut self, new_content: Vec<u8>, new_to: &str, config: &Config)
        ensures
            final(self)@ == (MsgView {
                content: Some(ContentView::Binary(new_content@)),
                to: Some(local_addr(new_to@, config@)),
                ..old(self)@
            }),
    {
        self.content = Some(Content::Binary(new_content));
        self.to = Some(Addr::new(new_to, config));
    }

    /// Sets binary content.
    pub fn with_content(&mut self, new_content: Vec<u8>)
        ensures
            final(self)@ == (MsgView { content: Some(ContentView::Binary(new_content@)), ..old(self)@ }),
    {
        self.content = Some(Content::Binary(new_content));
    }

    /// Sets the recipient address.
    pub fn set_recipient_addr(&mut self, addr: &Addr)
        ensures
            final(self)@ == (MsgView { to: Some(addr@), ..old(self)@ }),
    {
        self.to = Some(addr.duplicate());
    }

    /// Sets the recipient to local actor `new_to`.
    pub fn set_recipient(&mut self, new_to: &str, config: &Config)
        ensures
            final(self)@ == (MsgView { to: Some(local_addr(new_to@, config@)), ..old(self)@ }),
    {
        self.to = Some(Addr::new(new_to, config));
    }

    /// Moves the recipient to host `new_to_ip`, as `Addr::with_ip` does; no change without
    /// a recipient.
    pub fn set_recipient_ip(&mut self, new_to_ip: &str)
        ensures
            match old(self)@.to {
                None => final(self)@ == old(self)@,
                Some(a) => final(self)@ == (MsgView { to: Some(moved_to_ip(a, new_to_ip@)), ..old(self)@ }),
            },
    {
        match &mut self.to {
            Some(addr) => {
                addr.with_ip(new_to_ip);
            },
            None => {},
        }
    }

    /// Moves the recipient to port `new_port`; no change without a recipient.
    pub fn set_recipient_port(&mut self, new_port: u16)
        ensures
            match old(self)@.to {
                None => final(self)@ == old(self)@,
                Some(a) => final(self)@ == (MsgView {
                    to: Some(moved_to_port(a, new_port)),
                    ..old(self)@
                }),
            },
    {
        match &mut self.to {
            Some(addr) => {
                addr.with_port(new_port);
            },
            None => {},
        }
    }

    /// The recipient's port, `0` without a recipient; a recipient must have a port.
    pub fn get_recipient_port(&self) -> (p: u16)
        requires
            self@.to matches Some(a) ==> a.port is Some,
        ensures
            p == match self@.to {
                Some(a) => a.port.unwrap(),
                None => 0,
            },
    {
        match &self.to {
            Some(addr) => addr.get_port().unwrap(),
            None => 0,
        }
    }

    /// Reverses the direction of the message and sets binary content `reply`.
    pub fn binary_reply(&mut self, reply: Option<Vec<u8>>)
        ensures
            final(self)@ == reply_msg(old(self)@, match reply {
                Some(b) => Some(ContentView::Binary(b@)),
                None => None::<ContentView>,
            }),
    {
        let from = self.from.take();
        let to = self.to.take();
        self.from = to;
        self.to = from;
        self.content = match reply {
            Some(b) => Some(Content::Binary(b)),
            None => None,
        };
    }

    /// A copy of the binary content, if the content is binary; the message is unchanged.
    pub fn binary_content(&self) -> (b: Option<Vec<u8>>)
        ensures
            match self@.content {
                Some(ContentView::Binary(data)) => b matches Some(v) && v@ == data,
                _ => b is None,
            },
    {
        match &self.content {
            Some(Content::Binary(data)) => Some(data.clone()),
            _ => None,
        }
    }

    /// Takes a binary content out, leaving no content; other content stays in place.
    pub fn binary_content_out(&mut self) -> (b: Option<Vec<u8>>)
        ensures
            match old(self)@.content {
                Some(ContentView::Binary(data)) => b matches Some(v) && v@ == data
                    && final(self)@ == (MsgView { content: None, ..old(self)@ }),
                _ => b is None && final(self)@ == old(self)@,
            },
    {
        match self.content.take() {
            Some(Content::Binary(data)) => Some(data),
            Some(other) => {
                self.content = Some(other);
                None
            },
            None => None,
        }
    }

    /// The recipient address.
    pub fn get_to(&self) -> (a: &Option<Addr>)
        ensures
            opt_addr(*a) == self@.to,
    {
        &self.to
    }

    /// The message id.
    pub fn get_id(&self) -> (id: &u64)
        ensures
            *id == self@.id,
    {
        &self.id
    }

    /// The id as decimal text (ids exceed the signed range the store supports for numbers).
    pub fn id_as_string(&self) -> (s: String)
        ensures
            s@ == decimal_text(self@.id as nat),
    {
        decimal_string(self.id)
    }

    /// The id of the recipient address, `0` without a recipient.
    pub fn get_to_id(&self) -> (id: u64)
        ensures
            id == match self@.to {
                Some(a) => a.id,
                None => 0,
            },
    {
        match &self.to {
            Some(addr) => addr.get_id(),
            None => 0,
        }
    }

    /// The sender address.
    pub fn get_from(&self) -> (a: &Option<Addr>)
        ensures
            opt_addr(*a) == self@.from,
    {
        &self.from
    }

    /// The content.
    pub fn get_content(&self) -> (c: &Option<Content>)
        ensures
            opt_content(*c) == self@.content,
    {
        &self.content
    }

    /// Whether the message is addressed to an actor on this node.
    pub fn inbound(&self, config: &Config, machine_ip: Option<u32>) -> (b: bool)
        requires
            msg_routable(self@),
        ensures
            b == msg_inbound(self@, config@, machine_ip),
    {
        match &self.to {
            Some(addr) => addr.is_local(config, machine_ip),
            None => false,
        }
    }

    /// Sets the sender address.
    pub fn set_from(&mut self, from: &Addr)
        ensures
            final(self)@ == (MsgView { from: Some(from@), ..old(self)@ }),
    {
        self.from = Some(from.duplicate());
    }

    /// A message with no content, addresses or time, and id `0`.
    pub fn blank() -> (m: Msg)
        ensures
            m@ == bare_msg(None),
    {
        Msg { id: 0, from: None, to: None, content: None, dispatched: None }
    }

    /// The shutdown command for the listener.
    pub fn shutdown() -> (m: Msg)
        ensures
            m@ == bare_msg(Some(ContentView::Command(ActionView::Shutdown))),
    {
        let mut cmd = Msg::blank();
        cmd.content = Some(Content::Command(Action::Shutdown));
        cmd
    }

    /// The echo command for the listener, to check that it is alive.
    pub fn echo(s: &str) -> (m: Msg)
        ensures
            m@ == bare_msg(Some(ContentView::Command(ActionView::Echo(s@)))),
    {
        let mut cmd = Msg::blank();
        cmd.content = Some(Content::Command(Action::Echo(s.to_string())));
        cmd
    }

    /// A copy of the message.
    pub fn duplicate(&self) -> (m: Msg)
        ensures
            m@ == self@,
    {
        let content = match &self.content {
            Some(c) => Some(c.duplicate()),
            None => None,
        };
        Msg {
            id: self.id,
            from: copy_opt_addr(&self.from),
            to: copy_opt_addr(&self.to),
            content,
            dispatched: self.dispatched,
        }
    }
}

} // verus!

verus! {

/// The view of an optional mail.
pub open spec fn opt_mail_view(o: Option<Mail>) -> Option<MailView> {
    match o {
        Some(m) => Some(m@),
        None => None,
    }
}

/// `m` with sender `from` on every message.
pub open spec fn mail_with_sender(m: MailView, from: AddrView) -> MailView {
    match m {
        MailView::Trade(a) => MailView::Trade(MsgView { from: Some(from), ..a }),
        MailView::Bulk(v) => MailView::Bulk(v.map_values(|x: MsgView| MsgView { from: Some(from), ..x })),
        MailView::Blank => MailView::Blank,
    }
}

/// The views of optional mails.
pub open spec fn opt_mail_views(v: Seq<Option<Mail>>) -> Seq<Option<MailView>> {
    v.map_values(|o: Option<Mail>| match o {
        Some(m) => Some(m@),
        None => None,
    })
}

/// All messages of the present mails, in order; absent and blank mails contribute none.
pub open spec fn flatten_mails(v: Seq<Option<MailView>>) -> Seq<MsgView>
    decreases v.len(),
{
    if v.len() == 0 {
        seq![]
    } else {
        flatten_mails(v.drop_last()) + match v.last() {
            Some(m) => mail_msgs(m),
            None => seq![],
        }
    }
}

/// The predicate "addressed to an actor on this node".
pub open spec fn inbound_pred(c: ConfigView, machine_ip: Option<u32>) -> spec_fn(MsgView) -> bool {
    |m: MsgView| msg_inbound(m, c, machine_ip)
}

/// The predicate "not addressed to an actor on this node".
pub open spec fn outbound_pred(c: ConfigView, machine_ip: Option<u32>) -> spec_fn(MsgView) -> bool {
    |m: MsgView| !msg_inbound(m, c, machine_ip)
}

/// `msgs` parted into inbound and outbound messages, each in their original order, or
/// `None` when there are no messages at all.
pub open spec fn parted(msgs: Seq<MsgView>, c: ConfigView, machine_ip: Option<u32>) -> Option<(Seq<MsgView>, Seq<MsgView>)> {
    if msgs.len() == 0 {
        None
    } else {
        Some((msgs.filter(inbound_pred(c, machine_ip)), msgs.filter(outbound_pred(c, machine_ip))))
    }
}

/// The views of an optional pair of message vectors.
pub open spec fn parts_view(r: Option<(Vec<Msg>, Vec<Msg>)>) -> Option<(Seq<MsgView>, Seq<MsgView>)> {
    match r {
        Some((a, b)) => Some((msg_views(a@), msg_views(b@))),
        None => None,
    }
}

/// Moves every message of `msgs` to the inbound or the outbound vector, keeping order.
fn part_into(msgs: Vec<Msg>, ins: &mut Vec<Msg>, outs: &mut Vec<Msg>, config: &Config, machine_ip: Option<u32>)
    requires
        forall|i: int| 0 <= i < msgs@.len() ==> msg_routable(#[trigger] msgs@[i]@),
    ensures
        msg_views(final(ins)@) == msg_views(old(ins)@) + msg_views(msgs@).filter(inbound_pred(config@, machine_ip)),
        msg_views(final(outs)@) == msg_views(old(outs)@) + msg_views(msgs@).filter(outbound_pred(config@, machine_ip)),
{
    let ghost all = msg_views(msgs@);
    let ghost ins0 = msg_views(ins@);
    let ghost outs0 = msg_views(outs@);
    let ghost p = inbound_pred(config@, machine_ip);
    let ghost q = outbound_pred(config@, machine_ip);
    for m in it: msgs.into_iter()
        invariant
            it.seq() == msgs@,
            all == msg_views(msgs@),
            p == inbound_pred(config@, machine_ip),
            q == outbound_pred(config@, machine_ip),
            forall|i: int| 0 <= i < msgs@.len() ==> msg_routable(#[trigger] msgs@[i]@),
            msg_views(ins@) == ins0 + all.take(it.index() as int).filter(p),
            msg_views(outs@) == outs0 + all.take(it.index() as int).filter(q),
    {
        let ghost k = it.index() as int;
        assert(m == msgs@[k]);
        assert(all[k] == m@);
        assert(all.take(k + 1) == all.take(k).push(m@));
        proof {
            reveal_with_fuel(Seq::filter, 1);
            assert(all.take(k + 1).drop_last() == all.take(k));
            assert(all.take(k + 1).last() == m@);
        }
        let is_in = m.inbound(config, machine_ip);
        assert(p(m@) == is_in);
        assert(q(m@) == !is_in);
        let ghost ins_before = msg_views(ins@);
        let ghost outs_before = msg_views(outs@);
        if is_in {
            assert(all.take(k + 1).filter(p) == all.take(k).filter(p).push(m@));
            assert(all.take(k + 1).filter(q) == all.take(k).filter(q));
            assert(msg_views(ins@.push(m)) == msg_views(ins@).push(m@));
            ins.push(m);
            assert(msg_views(ins@) == ins0 + all.take(k + 1).filter(p));
        } else {
            assert(all.take(k + 1).filter(q) == all.take(k).filter(q).push(m@));
            assert(all.take(k + 1).filter(p) == all.take(k).filter(p));
            assert(msg_views(outs@.push(m)) == msg_views(outs@).push(m@));
            outs.push(m);
            assert(msg_views(outs@) == outs0 + all.take(k + 1).filter(q));
        }
    }
    assert(all.take(msgs@.len() as int) == all);
}

impl Mail {
    /// The message of a `Trade` mail.
    pub fn message(&self) -> (m: &Msg)
        requires
            self is Trade,
        ensures
            self@ == MailView::Trade(m@),
    {
        match self {
            Mail::Trade(msg) => msg,
            _ => {
                proof { assert(false); }
                unreached()
            },
        }
    }

    /// The messages of a `Bulk` mail, leaving the mail intact.
    pub fn messages(&self) -> (v: &Vec<Msg>)
        requires
            self is Bulk,
        ensures
            self@ == MailView::Bulk(msg_views(v@)),
    {
        match self {
            Mail::Bulk(msgs) => msgs,
            _ => {
                proof { assert(false); }
                unreached()
            },
        }
    }

    /// The message of a `Trade` mail, taken out.
    pub fn take(self) -> (m: Msg)
        requires
            self is Trade,
        ensures
            self@ == MailView::Trade(m@),
    {
        match self {
            Mail::Trade(msg) => msg,
            _ => {
                proof { assert(false); }
                unreached()
            },
        }
    }

    /// The messages of a `Bulk` mail, taken out.
    pub fn take_all(self) -> (v: Vec<Msg>)
        requires
            self is Bulk,
        ensures
            self@ == MailView::Bulk(msg_views(v@)),
    {
        match self {
            Mail::Bulk(msgs) => msgs,
            _ => {
                proof { assert(false); }
                unreached()
            },
        }
    }

    /// Whether the mail is a single command (a `Trade` or a one-message `Bulk`).
    pub fn is_command(&self) -> (b: bool)
        ensures
            b == mail_is_command(self@),
    {
        match self {
            Mail::Trade(msg) => msg.is_command(),
            Mail::Bulk(msgs) => msgs.len() == 1 && msgs[0].is_command(),
            Mail::Blank => false,
        }
    }

    /// Whether the mail is the single command `action`.
    pub fn command_equals(&self, action: Action) -> (b: bool)
        ensures
            b == (mail_action(self@) matches Some(a) && same_command(a, action@)),
    {
        if !self.is_command() {
            return false;
        }
        match self {
            Mail::Trade(msg) => msg.command_equals(action),
            Mail::Bulk(msgs) => msgs[0].command_equals(action),
            Mail::Blank => false,
        }
    }

    /// The command of a single-command mail.
    pub fn action(&self) -> (a: Option<Action>)
        ensures
            match a {
                Some(a) => mail_action(self@) == Some(a@),
                None => mail_action(self@) is None,
            },
    {
        if !self.is_command() {
            return None;
        }
        match self {
            Mail::Trade(msg) => msg.action(),
            Mail::Bulk(msgs) => msgs[0].action(),
            Mail::Blank => None,
        }
    }

    /// Gathers buffered outcomes into one `Bulk` mail, in order. Every outcome must be a
    /// present, non-blank mail.
    pub fn fold(mails: Vec<Option<Mail>>) -> (m: Mail)
        requires
            forall|i: int| 0 <= i < mails@.len() ==> (#[trigger] mails@[i] matches Some(m) && !(m is Blank)),
        ensures
            m@ == MailView::Bulk(flatten_mails(opt_mail_views(mails@))),
    {
        let mut out: Vec<Msg> = Vec::new();
        let ghost all = opt_mail_views(mails@);
        for o in it: mails.into_iter()
            invariant
                it.seq() == mails@,
                all == opt_mail_views(mails@),
                forall|i: int| 0 <= i < mails@.len() ==> (#[trigger] mails@[i] matches Some(m) && !(m is Blank)),
                msg_views(out@) == flatten_mails(all.take(it.index() as int)),
        {
            let ghost k = it.index() as int;
            assert(o == mails@[k]);
            assert(all.take(k + 1).drop_last() == all.take(k));
            match o {
                Some(Mail::Trade(msg)) => {
                    assert(msg_views(out@.push(msg)) == msg_views(out@) + seq![msg@]);
                    out.push(msg);
                },
                Some(Mail::Bulk(mut msgs)) => {
                    let ghost before = out@;
                    let ghost added = msgs@;
                    out.append(&mut msgs);
                    assert(out@ == before + added);
                    assert(msg_views(before + added) == msg_views(before) + msg_views(added));
                },
                _ => {
                    proof { assert(false); }
                },
            }
        }
        assert(all.take(mails@.len() as int) == all);
        Mail::Bulk(out)
    }

    /// Whether the mail is blank.
    pub fn is_blank(mail: &Mail) -> (b: bool)
        ensures
            b == (mail is Blank),
    {
        match mail {
            Mail::Blank => true,
            _ => false,
        }
    }

    /// Whether a `Trade` mail is addressed to an actor on this node (other mails: no).
    pub fn inbound(mail: &Mail, config: &Config, machine_ip: Option<u32>) -> (b: bool)
        requires
            mail matches Mail::Trade(m) ==> msg_routable(m@),
        ensures
            b == match mail@ {
                MailView::Trade(m) => msg_inbound(m, config@, machine_ip),
                _ => false,
            },
    {
        match mail {
            Mail::Trade(msg) => msg.inbound(config, machine_ip),
            _ => false,
        }
    }

    /// Splits a mail into its inbound and outbound messages, `None` when it holds none.
    pub fn split(mail: Mail, config: &Config, machine_ip: Option<u32>) -> (r: Option<(Vec<Msg>, Vec<Msg>)>)
        requires
            forall|i: int| 0 <= i < mail_msgs(mail@).len() ==> msg_routable(#[trigger] mail_msgs(mail@)[i]),
        ensures
            parts_view(r) == parted(mail_msgs(mail@), config@, machine_ip),
    {
        let ghost msgs = mail_msgs(mail@);
        let list: Vec<Msg> = match mail {
            Mail::Blank => {
                return None;
            },
            Mail::Trade(msg) => {
                let mut v = Vec::new();
                v.push(msg);
                assert(msg_views(v@) == msgs);
                v
            },
            Mail::Bulk(msgs) => msgs,
        };
        assert(msg_views(list@) == msgs);
        assert forall|i: int| 0 <= i < list@.len() implies msg_routable(#[trigger] list@[i]@) by {
            assert(msgs[i] == list@[i]@);
        }
        if list.len() == 0 {
            return None;
        }
        let mut ins: Vec<Msg> = Vec::new();
        let mut outs: Vec<Msg> = Vec::new();
        part_into(list, &mut ins, &mut outs, config, machine_ip);
        assert(msg_views(ins@) == msgs.filter(inbound_pred(config@, machine_ip)));
        Some((ins, outs))
    }

    /// Parts the messages of all present, non-blank mails into inbound and outbound ones,
    /// `None` when there are none.
    pub fn partition(mails: Vec<Option<Mail>>, config: &Config, machine_ip: Option<u32>) -> (r: Option<(Vec<Msg>, Vec<Msg>)>)
        requires
            forall|i: int| 0 <= i < flatten_mails(opt_mail_views(mails@)).len()
                ==> msg_routable(#[trigger] flatten_mails(opt_mail_views(mails@))[i]),
        ensures
            parts_view(r) == parted(flatten_mails(opt_mail_views(mails@)), config@, machine_ip),
    {
        let mut present: Vec<Option<Mail>> = Vec::new();
        let ghost all = opt_mail_views(mails@);
        for o in it: mails.into_iter()
            invariant
                it.seq() == mails@,
                all == opt_mail_views(mails@),
                flatten_mails(opt_mail_views(present@)) == flatten_mails(all.take(it.index() as int)),
                forall|i: int| 0 <= i < present@.len() ==> (#[trigger] present@[i] matches Some(m) && !(m is Blank)),
        {
            let ghost k = it.index() as int;
            assert(o == mails@[k]);
            assert(all.take(k + 1).drop_last() == all.take(k));
            match o {
                Some(Mail::Blank) => {},
                None => {},
                Some(m) => {
                    let ghost before = present@;
                    present.push(Some(m));
                    assert(opt_mail_views(present@).drop_last() == opt_mail_views(before));
                },
            }
        }
        assert(all.take(mails@.len() as int) == all);
        let folded = Mail::fold(present);
        let list = folded.take_all();
        let ghost msgs = flatten_mails(all);
        if list.len() == 0 {
            return None;
        }
        let mut ins: Vec<Msg> = Vec::new();
        let mut outs: Vec<Msg> = Vec::new();
        assert forall|i: int| 0 <= i < list@.len() implies msg_routable(#[trigger] list@[i]@) by {
            assert(msgs[i] == list@[i]@);
        }
        part_into(list, &mut ins, &mut outs, config, machine_ip);
        Some((ins, outs))
    }

    /// Sets the sender on every message of a present mail.
    pub fn set_from(mail: &mut Option<Mail>, from: &Addr)
        ensures
            opt_mail_view(*final(mail)) == match opt_mail_view(*old(mail)) {
                Some(m) => Some(mail_with_sender(m, from@)),
                None => None,
            },
    {
        match mail {
            Some(m) => match m {
                Mail::Trade(msg) => msg.set_from(from),
                Mail::Bulk(msgs) => {
                    let n = msgs.len();
                    let ghost before = msg_views(msgs@);
                    let mut i: usize = 0;
                    while i < n
                        invariant
                            n == msgs.len(),
                            i <= n,
                            before.len() == n,
                            forall|j: int| 0 <= j < i ==> #[trigger] msgs@[j]@ == (MsgView { from: Some(from@), ..before[j] }),
                            forall|j: int| i <= j < n ==> #[trigger] msgs@[j]@ == before[j],
                        decreases n - i,
                    {
                        let mut msg = msgs[i].duplicate();
                        msg.set_from(from);
                        msgs.set(i, msg);
                        i = i + 1;
                    }
                    assert(msg_views(msgs@) == before.map_values(|x: MsgView| MsgView { from: Some(from@), ..x }));
                },
                Mail::Blank => {},
            },
            None => {},
        }
    }
}

} // verus!

verus! {

/// bincode's encoding of an optional address.
pub open spec fn opt_addr_bytes(a: Option<AddrView>) -> Seq<u8> {
    match a {
        None => seq![0u8],
        Some(v) => seq![1u8] + addr_bytes(v),
    }
}

/// bincode's encoding of an action: variant index as a `u32`, then the echo text.
pub open spec fn action_bytes(a: ActionView) -> Seq<u8> {
    match a {
        ActionView::Shutdown => le_bytes(0, 4),
        ActionView::Echo(s) => le_bytes(1, 4) + bincode_str(s),
        ActionView::Continue => le_bytes(2, 4),
    }
}

/// bincode's encoding of an optional content.
pub open spec fn opt_content_bytes(c: Option<ContentView>) -> Seq<u8> {
    match c {
        None => seq![0u8],
        Some(ContentView::Text(s)) => seq![1u8] + (le_bytes(0, 4) + bincode_str(s)),
        Some(ContentView::Binary(b)) => seq![1u8] + (le_bytes(1, 4) + bincode_bytes(b)),
        Some(ContentView::Command(a)) => seq![1u8] + (le_bytes(2, 4) + action_bytes(a)),
    }
}

/// bincode's encoding of an optional point in time (seconds, then nanoseconds).
pub open spec fn opt_time_bytes(t: Option<Timestamp>) -> Seq<u8> {
    match t {
        None => seq![0u8],
        Some(t) => seq![1u8] + (le_bytes(t.secs as nat, 8) + le_bytes(t.nanos as nat, 4)),
    }
}

/// bincode's encoding of a message: id, sender, recipient, content, dispatch time.
pub open spec fn msg_bytes(m: MsgView) -> Seq<u8> {
    le_bytes(m.id as nat, 8) + opt_addr_bytes(m.from) + opt_addr_bytes(m.to)
        + opt_content_bytes(m.content) + opt_time_bytes(m.dispatched)
}

/// The encodings of `v`'s messages, one after the other.
pub open spec fn msgs_bytes(v: Seq<MsgView>) -> Seq<u8>
    decreases v.len(),
{
    if v.len() == 0 {
        seq![]
    } else {
        msgs_bytes(v.drop_last()) + msg_bytes(v.last())
    }
}

/// bincode's encoding of a mail: variant index as a `u32`, then the message, or the
/// message count as a `u64` and the messages.
pub open spec fn mail_bytes(m: MailView) -> Seq<u8> {
    match m {
        MailView::Trade(msg) => le_bytes(0, 4) + msg_bytes(msg),
        MailView::Bulk(v) => le_bytes(1, 4) + le_bytes(v.len(), 8) + msgs_bytes(v),
        MailView::Blank => le_bytes(2, 4),
    }
}

fn put_opt_addr(out: &mut Vec<u8>, a: &Option<Addr>)
    ensures
        final(out)@ == old(out)@ + opt_addr_bytes(opt_addr(*a)),
{
    match a {
        None => {
            out.push(0u8);
        },
        Some(a) => {
            out.push(1u8);
            a.write_bytes(out);
            assert(out@ == old(out)@ + (seq![1u8] + addr_bytes(a@)));
        },
    }
}

fn put_action(out: &mut Vec<u8>, a: &Action)
    ensures
        final(out)@ == old(out)@ + action_bytes(a@),
{
    match a {
        Action::Shutdown => put_le(out, 0, 4),
        Action::Echo(s) => {
            put_le(out, 1, 4);
            put_str(out, s.as_str());
            assert(out@ == old(out)@ + (le_bytes(1, 4) + bincode_str(s@)));
        },
        Action::Continue => put_le(out, 2, 4),
    }
}

fn put_opt_content(out: &mut Vec<u8>, c: &Option<Content>)
    ensures
        final(out)@ == old(out)@ + opt_content_bytes(opt_content(*c)),
{
    match c {
        None => {
            out.push(0u8);
        },
        Some(Content::Text(s)) => {
            out.push(1u8);
            put_le(out, 0, 4);
            put_str(out, s.as_str());
            assert(out@ == old(out)@ + (seq![1u8] + (le_bytes(0, 4) + bincode_str(s@))));
        },
        Some(Content::Binary(b)) => {
            out.push(1u8);
            put_le(out, 1, 4);
            put_bytes(out, b);
            assert(out@ == old(out)@ + (seq![1u8] + (le_bytes(1, 4) + bincode_bytes(b@))));
        },
        Some(Content::Command(a)) => {
            out.push(1u8);
            put_le(out, 2, 4);
            put_action(out, a);
            assert(out@ == old(out)@ + (seq![1u8] + (le_bytes(2, 4) + action_bytes(a@))));
        },
    }
}

fn put_opt_time(out: &mut Vec<u8>, t: Option<Timestamp>)
    ensures
        final(out)@ == old(out)@ + opt_time_bytes(t),
{
    match t {
        None => {
            out.push(0u8);
        },
        Some(t) => {
            out.push(1u8);
            put_le(out, t.secs, 8);
            put_le(out, t.nanos as u64, 4);
            assert(out@ == old(out)@ + (seq![1u8] + (le_bytes(t.secs as nat, 8) + le_bytes(t.nanos as nat, 4))));
        },
    }
}

impl Msg {
    /// Appends the message in bincode's encoding.
    pub fn write_bytes(&self, out: &mut Vec<u8>)
        ensures
            final(out)@ == old(out)@ + msg_bytes(self@),
    {
        let ghost s0 = out@;
        let ghost a = le_bytes(self.id as nat, 8);
        let ghost b = opt_addr_bytes(self@.from);
        let ghost c = opt_addr_bytes(self@.to);
        let ghost d = opt_content_bytes(self@.content);
        let ghost e = opt_time_bytes(self@.dispatched);
        put_le(out, self.id, 8);
        put_opt_addr(out, &self.from);
        put_opt_addr(out, &self.to);
        put_opt_content(out, &self.content);
        put_opt_time(out, self.dispatched);
        assert(out@ == s0 + a + b + c + d + e);
        assert(s0 + a + b + c + d + e =~= s0 + (a + b + c + d + e));
    }

    /// The message in bincode's encoding, whatever its content.
    pub fn as_bytes(&self) -> (b: Vec<u8>)
        ensures
            b@ == msg_bytes(self@),
    {
        let mut out: Vec<u8> = Vec::new();
        self.write_bytes(&mut out);
        assert(out@ == Seq::<u8>::empty() + msg_bytes(self@));
        out
    }
}

impl Mail {
    /// The mail in bincode's encoding, as it travels between nodes.
    pub fn to_bytes(&self) -> (b: Vec<u8>)
        ensures
            b@ == mail_bytes(self@),
    {
        let mut out: Vec<u8> = Vec::new();
        match self {
            Mail::Trade(m) => {
                put_le(&mut out, 0, 4);
                m.write_bytes(&mut out);
            },
            Mail::Bulk(v) => {
                put_le(&mut out, 1, 4);
                put_le(&mut out, v.len() as u64, 8);
                let ghost head = out@;
                let mut i: usize = 0;
                while i < v.len()
                    invariant
                        i <= v.len(),
                        out@ == head + msgs_bytes(msg_views(v@).take(i as int)),
                    decreases v.len() - i,
                {
                    proof {
                        assert(msg_views(v@).take(i + 1).drop_last() == msg_views(v@).take(i as int));
                        assert(msg_views(v@).take(i + 1).last() == v@[i as int]@);
                    }
                    v[i].write_bytes(&mut out);
                    i = i + 1;
                }
                assert(msg_views(v@).take(v.len() as int) == msg_views(v@));
            },
            Mail::Blank => {
                put_le(&mut out, 2, 4);
            },
        }
        out
    }
}

impl Default for Mail {
    /// The blank mail.
    fn default() -> (m: Mail)
        ensures
            m is Blank,
    {
        Mail::Blank
    }
}

impl From<Msg> for Mail {
    /// A `Trade` mail holding `msg`.
    fn from(msg: Msg) -> (m: Mail) {
        Mail::Trade(msg)
    }
}

impl vstd::std_specs::convert::FromSpecImpl<Msg> for Mail {
    open spec fn obeys_from_spec() -> bool {
        true
    }

    open spec fn from_spec(msg: Msg) -> Mail {
        Mail::Trade(msg)
    }
}

impl From<Vec<Msg>> for Mail {
    /// A `Bulk` mail holding `msgs`.
    fn from(msgs: Vec<Msg>) -> (m: Mail) {
        Mail::Bulk(msgs)
    }
}

impl vstd::std_specs::convert::FromSpecImpl<Vec<Msg>> for Mail {
    open spec fn obeys_from_spec() -> bool {
        true
    }

    open spec fn from_spec(msgs: Vec<Msg>) -> Mail {
        Mail::Bulk(msgs)
    }
}

impl From<Option<Mail>> for Mail {
    /// The mail inside `opt`, or a blank mail.
    fn from(opt: Option<Mail>) -> (m: Mail) {
        match opt {
            Some(mail) => mail,
            None => Mail::Blank,
        }
    }
}

impl vstd::std_specs::convert::FromSpecImpl<Option<Mail>> for Mail {
    open spec fn obeys_from_spec() -> bool {
        true
    }

    open spec fn from_spec(opt: Option<Mail>) -> Mail {
        match opt {
            Some(mail) => mail,
            None => Mail::Blank,
        }
    }
}

} // verus!

verus! {

// ---------------------------------------------------------------------------
// Laws
// ---------------------------------------------------------------------------

proof fn lemma_filter_split(msgs: Seq<MsgView>, c: ConfigView, machine_ip: Option<u32>)
    ensures
        msgs.filter(inbound_pred(c, machine_ip)).len() + msgs.filter(outbound_pred(c, machine_ip)).len()
            == msgs.len(),
    decreases msgs.len(),
{
    reveal(Seq::filter);
    if msgs.len() > 0 {
        lemma_filter_split(msgs.drop_last(), c, machine_ip);
    }
}

/// Parting messages into inbound and outbound ones loses and duplicates none: every message
/// lands on exactly one side, inbound ones on the first.
pub proof fn lemma_parted_conserves(msgs: Seq<MsgView>, c: ConfigView, machine_ip: Option<u32>)
    ensures
        parted(msgs, c, machine_ip) matches Some((ins, outs)) ==> {
            &&& ins.len() + outs.len() == msgs.len()
            &&& forall|i: int| 0 <= i < ins.len() ==> msg_inbound(#[trigger] ins[i], c, machine_ip)
            &&& forall|i: int| 0 <= i < outs.len() ==> !msg_inbound(#[trigger] outs[i], c, machine_ip)
        },
        parted(msgs, c, machine_ip) is None <==> msgs.len() == 0,
{
    lemma_filter_split(msgs, c, machine_ip);
    msgs.filter_lemma(inbound_pred(c, machine_ip));
    msgs.filter_lemma(outbound_pred(c, machine_ip));
    if msgs.len() > 0 {
        let ins = msgs.filter(inbound_pred(c, machine_ip));
        let outs = msgs.filter(outbound_pred(c, machine_ip));
        assert forall|i: int| 0 <= i < ins.len() implies msg_inbound(#[trigger] ins[i], c, machine_ip) by {
            assert(inbound_pred(c, machine_ip)(ins[i]));
        }
        assert forall|i: int| 0 <= i < outs.len() implies !msg_inbound(#[trigger] outs[i], c, machine_ip) by {
            assert(outbound_pred(c, machine_ip)(outs[i]));
        }
    }
}

/// Replying twice turns a message back to its original direction.
pub proof fn lemma_reply_twice(m: MsgView, first: Option<ContentView>, second: Option<ContentView>)
    ensures
        reply_msg(reply_msg(m, first), second) == (MsgView { content: second, ..m }),
{
}

} // verus!

verus! {

// ---------------------------------------------------------------------------
// A message's bytes read back
// ---------------------------------------------------------------------------

/// Whether an optional address fits bincode's length prefixes.
pub open spec fn opt_addr_fits(a: Option<AddrView>) -> bool {
    match a {
        Some(v) => addr_fits(v),
        None => true,
    }
}

/// Whether an action fits bincode's length prefixes.
pub open spec fn action_fits(a: ActionView) -> bool {
    match a {
        ActionView::Echo(s) => str_fits(s),
        _ => true,
    }
}

/// Whether an optional content fits bincode's length prefixes.
pub open spec fn opt_content_fits(c: Option<ContentView>) -> bool {
    match c {
        Some(ContentView::Text(s)) => str_fits(s),
        Some(ContentView::Binary(b)) => b.len() < 0x1_0000_0000_0000_0000,
        Some(ContentView::Command(a)) => action_fits(a),
        None => true,
    }
}

/// Whether a message's texts and buffers fit bincode's length prefixes (always so for
/// values that fit in memory).
pub open spec fn msg_fits(m: MsgView) -> bool {
    opt_addr_fits(m.from) && opt_addr_fits(m.to) && opt_content_fits(m.content)
}

/// An optional address's encoding followed by anything determines it and the rest.
pub proof fn lemma_opt_addr_prefix(a: Option<AddrView>, b: Option<AddrView>, r1: Seq<u8>, r2: Seq<u8>)
    requires
        opt_addr_fits(a),
        opt_addr_fits(b),
        opt_addr_bytes(a) + r1 == opt_addr_bytes(b) + r2,
    ensures
        a == b,
        r1 == r2,
{
    let (x, b1) = match a { Some(v) => (1u8, addr_bytes(v) + r1), None => (0u8, r1) };
    let (y, b2) = match b { Some(v) => (1u8, addr_bytes(v) + r2), None => (0u8, r2) };
    assert(opt_addr_bytes(a) + r1 =~= seq![x] + b1);
    assert(opt_addr_bytes(b) + r2 =~= seq![y] + b2);
    lemma_tag_prefix(x, y, b1, b2);
    if a is Some && b is Some {
        lemma_addr_prefix(a.unwrap(), b.unwrap(), r1, r2);
    }
}

proof fn lemma_action_prefix(a: ActionView, b: ActionView, r1: Seq<u8>, r2: Seq<u8>)
    requires
        action_fits(a),
        action_fits(b),
        action_bytes(a) + r1 == action_bytes(b) + r2,
    ensures
        a == b,
        r1 == r2,
{
    lemma_pow256_small();
    let (i, b1) = match a { ActionView::Shutdown => (0nat, r1), ActionView::Echo(s) => (1nat, bincode_str(s) + r1), ActionView::Continue => (2nat, r1) };
    let (j, b2) = match b { ActionView::Shutdown => (0nat, r2), ActionView::Echo(s) => (1nat, bincode_str(s) + r2), ActionView::Continue => (2nat, r2) };
    match a { ActionView::Echo(s) => { lemma_concat_assoc(le_bytes(1, 4), bincode_str(s), r1); }, _ => {} }
    match b { ActionView::Echo(s) => { lemma_concat_assoc(le_bytes(1, 4), bincode_str(s), r2); }, _ => {} }
    assert(action_bytes(a) + r1 == le_bytes(i, 4) + b1);
    assert(action_bytes(b) + r2 == le_bytes(j, 4) + b2);
    lemma_le_prefix(i, j, 4, b1, b2);
    match (a, b) {
        (ActionView::Echo(s), ActionView::Echo(t)) => { lemma_str_prefix(s, t, r1, r2); },
        _ => {},
    }
}

proof fn lemma_opt_content_prefix(c: Option<ContentView>, d: Option<ContentView>, r1: Seq<u8>, r2: Seq<u8>)
    requires
        opt_content_fits(c),
        opt_content_fits(d),
        opt_content_bytes(c) + r1 == opt_content_bytes(d) + r2,
    ensures
        c == d,
        r1 == r2,
{
    lemma_pow256_small();
    let b1 = match c {
        None => r1,
        Some(ContentView::Text(s)) => le_bytes(0, 4) + (bincode_str(s) + r1),
        Some(ContentView::Binary(b)) => le_bytes(1, 4) + (bincode_bytes(b) + r1),
        Some(ContentView::Command(a)) => le_bytes(2, 4) + (action_bytes(a) + r1),
    };
    let b2 = match d {
        None => r2,
        Some(ContentView::Text(s)) => le_bytes(0, 4) + (bincode_str(s) + r2),
        Some(ContentView::Binary(b)) => le_bytes(1, 4) + (bincode_bytes(b) + r2),
        Some(ContentView::Command(a)) => le_bytes(2, 4) + (action_bytes(a) + r2),
    };
    let x: u8 = if c is Some { 1 } else { 0 };
    let y: u8 = if d is Some { 1 } else { 0 };
    assert(opt_content_bytes(c) + r1 =~= seq![x] + b1);
    assert(opt_content_bytes(d) + r2 =~= seq![y] + b2);
    lemma_tag_prefix(x, y, b1, b2);
    if c is Some && d is Some {
        let i: nat = match c.unwrap() { ContentView::Text(_) => 0, ContentView::Binary(_) => 1, ContentView::Command(_) => 2 };
        let j: nat = match d.unwrap() { ContentView::Text(_) => 0, ContentView::Binary(_) => 1, ContentView::Command(_) => 2 };
        let q1 = match c.unwrap() { ContentView::Text(s) => bincode_str(s) + r1, ContentView::Binary(b) => bincode_bytes(b) + r1, ContentView::Command(a) => action_bytes(a) + r1 };
        let q2 = match d.unwrap() { ContentView::Text(s) => bincode_str(s) + r2, ContentView::Binary(b) => bincode_bytes(b) + r2, ContentView::Command(a) => action_bytes(a) + r2 };
        assert(b1 == le_bytes(i, 4) + q1);
        assert(b2 == le_bytes(j, 4) + q2);
        lemma_le_prefix(i, j, 4, q1, q2);
        match (c.unwrap(), d.unwrap()) {
            (ContentView::Text(s), ContentView::Text(t)) => { lemma_str_prefix(s, t, r1, r2); },
            (ContentView::Binary(s), ContentView::Binary(t)) => { lemma_bytes_prefix(s, t, r1, r2); },
            (ContentView::Command(s), ContentView::Command(t)) => { lemma_action_prefix(s, t, r1, r2); },
            _ => {},
        }
    }
}

proof fn lemma_opt_time_prefix(t: Option<Timestamp>, u: Option<Timestamp>, r1: Seq<u8>, r2: Seq<u8>)
    requires
        opt_time_bytes(t) + r1 == opt_time_bytes(u) + r2,
    ensures
        t == u,
        r1 == r2,
{
    lemma_pow256_8();
    lemma_pow256_small();
    let b1 = match t { None => r1, Some(v) => le_bytes(v.secs as nat, 8) + (le_bytes(v.nanos as nat, 4) + r1) };
    let b2 = match u { None => r2, Some(v) => le_bytes(v.secs as nat, 8) + (le_bytes(v.nanos as nat, 4) + r2) };
    let x: u8 = if t is Some { 1 } else { 0 };
    let y: u8 = if u is Some { 1 } else { 0 };
    assert(opt_time_bytes(t) + r1 =~= seq![x] + b1);
    assert(opt_time_bytes(u) + r2 =~= seq![y] + b2);
    lemma_tag_prefix(x, y, b1, b2);
    if t is Some && u is Some {
        let v = t.unwrap();
        let w = u.unwrap();
        lemma_le_prefix(v.secs as nat, w.secs as nat, 8, le_bytes(v.nanos as nat, 4) + r1, le_bytes(w.nanos as nat, 4) + r2);
        lemma_le_prefix(v.nanos as nat, w.nanos as nat, 4, r1, r2);
    }
}

proof fn lemma_msg_bytes_assoc(m: MsgView, r: Seq<u8>)
    ensures
        msg_bytes(m) + r == le_bytes(m.id as nat, 8) + (opt_addr_bytes(m.from) + (opt_addr_bytes(m.to)
            + (opt_content_bytes(m.content) + (opt_time_bytes(m.dispatched) + r)))),
{
    let l = le_bytes(m.id as nat, 8);
    let f = opt_addr_bytes(m.from);
    let t = opt_addr_bytes(m.to);
    let c = opt_content_bytes(m.content);
    let d = opt_time_bytes(m.dispatched);
    lemma_concat_assoc(l + f + t + c, d, r);
    lemma_concat_assoc(l + f + t, c, d + r);
    lemma_concat_assoc(l + f, t, c + (d + r));
    lemma_concat_assoc(l, f, t + (c + (d + r)));
}

/// A message's encoding followed by anything determines the message and the rest.
pub proof fn lemma_msg_prefix(m: MsgView, n: MsgView, r1: Seq<u8>, r2: Seq<u8>)
    requires
        msg_fits(m),
        msg_fits(n),
        msg_bytes(m) + r1 == msg_bytes(n) + r2,
    ensures
        m == n,
        r1 == r2,
{
    lemma_pow256_8();
    lemma_msg_bytes_assoc(m, r1);
    lemma_msg_bytes_assoc(n, r2);
    let d1 = opt_time_bytes(m.dispatched) + r1;
    let d2 = opt_time_bytes(n.dispatched) + r2;
    let c1 = opt_content_bytes(m.content) + d1;
    let c2 = opt_content_bytes(n.content) + d2;
    let t1 = opt_addr_bytes(m.to) + c1;
    let t2 = opt_addr_bytes(n.to) + c2;
    let f1 = opt_addr_bytes(m.from) + t1;
    let f2 = opt_addr_bytes(n.from) + t2;
    lemma_le_prefix(m.id as nat, n.id as nat, 8, f1, f2);
    lemma_opt_addr_prefix(m.from, n.from, t1, t2);
    lemma_opt_addr_prefix(m.to, n.to, c1, c2);
    lemma_opt_content_prefix(m.content, n.content, d1, d2);
    lemma_opt_time_prefix(m.dispatched, n.dispatched, r1, r2);
}

/// A message's bytes read back to the message: two messages with the same bytes are the
/// same message.
pub proof fn lemma_msg_bytes_read_back(m: MsgView, n: MsgView)
    requires
        msg_fits(m),
        msg_fits(n),
        msg_bytes(m) == msg_bytes(n),
    ensures
        m == n,
{
    assert(msg_bytes(m) + Seq::<u8>::empty() =~= msg_bytes(n) + Seq::<u8>::empty());
    lemma_msg_prefix(m, n, Seq::<u8>::empty(), Seq::<u8>::empty());
}

} // verus!
