//! Human-readable texts of addresses, actions, contents, messages and mails, as they are
//! printed in logs.
use vstd::prelude::*;
use vstd::string::StringExecFns;
use crate::addr::{Addr, AddrView};
use crate::mail::{Action, ActionView, Content, ContentView, Mail, MailView, Msg, MsgView, msg_views};
use crate::text::{decimal_string, decimal_text};

verus! {

/// std's `Debug` text of a string: the string in double quotes, with quotes, backslashes
/// and unprintable characters escaped.
pub uninterp spec fn debug_str(s: Seq<char>) -> Seq<char>;

/// std's `Debug` formatting of a `str` (`format!("{:?}", s)`); the result is named by
/// [`debug_str`].
#[verifier::external_body]
fn debug_quoted(s: &str) -> (r: String)
    ensures
        r@ == debug_str(s@),
{
    format!("{:?}", s)
}

/// The text of an optional port, as `Debug` writes an `Option<u16>`.
pub open spec fn port_text(p: Option<u16>) -> Seq<char> {
    match p {
        Some(n) => "Some("@ + decimal_text(n as nat) + ")"@,
        None => "None"@,
    }
}

/// The text of an address: its name, host (or "not set") and port, in the form of a
/// `Debug` struct.
pub open spec fn addr_text(a: AddrView) -> Seq<char> {
    "Addr { name: "@ + debug_str(a.name) + ", host: "@ + debug_str(
        match a.host {
            Some(h) => h,
            None => "not set"@,
        },
    ) + ", port: "@ + port_text(a.port) + " }"@
}

/// The text of an action.
pub open spec fn action_text(a: ActionView) -> Seq<char> {
    match a {
        ActionView::Shutdown => "Shutdown"@,
        ActionView::Continue => "Continue"@,
        ActionView::Echo(s) => "Echo("@ + s + ")"@,
    }
}

/// The text of a content: texts and commands in full, binaries by their length.
pub open spec fn content_text(c: ContentView) -> Seq<char> {
    match c {
        ContentView::Text(t) => "Text("@ + t + ")"@,
        ContentView::Binary(b) => "Binary(..) -> length "@ + decimal_text(b.len()),
        ContentView::Command(a) => "Command("@ + action_text(a) + ")"@,
    }
}

/// The text of a message: id, sender, recipient and content.
pub open spec fn msg_text(m: MsgView) -> Seq<char> {
    "Msg("@ + decimal_text(m.id as nat) + "), "@ + match m.from {
        Some(a) => "from: "@ + addr_text(a) + ", "@,
        None => "from: None, "@,
    } + match m.to {
        Some(a) => "to: "@ + addr_text(a) + ", "@,
        None => "to: None, "@,
    } + match m.content {
        Some(c) => "content: "@ + content_text(c),
        None => "content: None"@,
    }
}

/// The texts of messages, one per line.
pub open spec fn msg_lines(v: Seq<MsgView>) -> Seq<char>
    decreases v.len(),
{
    if v.len() == 0 {
        seq![]
    } else if v.len() == 1 {
        msg_text(v[0])
    } else {
        msg_lines(v.drop_last()) + "\n"@ + msg_text(v.last())
    }
}

/// The text of a mail: a single message, a bulk of messages (their count, then one per
/// line, or " Empty"), or "Blank".
pub open spec fn mail_text(m: MailView) -> Seq<char> {
    match m {
        MailView::Trade(msg) => "Trade("@ + msg_text(msg) + ")"@,
        MailView::Bulk(v) => "Bulk("@ + decimal_text(v.len()) + ")\n"@ + if v.len() > 0 {
            msg_lines(v)
        } else {
            " Empty"@
        },
        MailView::Blank => "Blank"@,
    }
}

fn port_string(p: Option<u16>) -> (s: String)
    ensures
        s@ == port_text(p),
{
    match p {
        Some(n) => {
            let mut s = String::from_str("Some(");
            s.append(decimal_string(n as u64).as_str());
            s.append(")");
            s
        },
        None => String::from_str("None"),
    }
}

impl Addr {
    /// The address's text (see [`addr_text`]).
    pub fn to_string(&self) -> (s: String)
        ensures
            s@ == addr_text(self@),
    {
        let mut s = String::from_str("Addr { name: ");
        s.append(debug_quoted(self.get_name().as_str()).as_str());
        s.append(", host: ");
        let host = match self.get_host() {
            Some(h) => debug_quoted(h.as_str()),
            None => debug_quoted("not set"),
        };
        s.append(host.as_str());
        s.append(", port: ");
        s.append(port_string(self.get_port()).as_str());
        s.append(" }");
        s
    }
}

impl Action {
    /// The action's text (see [`action_text`]).
    pub fn to_string(&self) -> (s: String)
        ensures
            s@ == action_text(self@),
    {
        match self {
            Action::Shutdown => String::from_str("Shutdown"),
            Action::Continue => String::from_str("Continue"),
            Action::Echo(t) => {
                let mut s = String::from_str("Echo(");
                s.append(t.as_str());
                s.append(")");
                s
            },
        }
    }
}

impl Content {
    /// The content's text (see [`content_text`]).
    pub fn to_string(&self) -> (s: String)
        ensures
            s@ == content_text(self@),
    {
        match self {
            Content::Text(t) => {
                let mut s = String::from_str("Text(");
                s.append(t.as_str());
                s.append(")");
                s
            },
            Content::Binary(b) => {
                let mut s = String::from_str("Binary(..) -> length ");
                s.append(decimal_string(b.len() as u64).as_str());
                s
            },
            Content::Command(a) => {
                let mut s = String::from_str("Command(");
                s.append(a.to_string().as_str());
                s.append(")");
                s
            },
        }
    }
}

impl Msg {
    /// The message's text (see [`msg_text`]).
    pub fn to_string(&self) -> (s: String)
        ensures
            s@ == msg_text(self@),
    {
        let mut s = String::from_str("Msg(");
        s.append(decimal_string(*self.get_id()).as_str());
        s.append("), ");
        match self.get_from() {
            Some(a) => {
                s.append("from: ");
                s.append(a.to_string().as_str());
                s.append(", ");
            },
            None => s.append("from: None, "),
        }
        match self.get_to() {
            Some(a) => {
                s.append("to: ");
                s.append(a.to_string().as_str());
                s.append(", ");
            },
            None => s.append("to: None, "),
        }
        match self.get_content() {
            Some(c) => {
                s.append("content: ");
                s.append(c.to_string().as_str());
            },
            None => s.append("content: None"),
        }
        s
    }
}

impl Mail {
    /// The mail's text (see [`mail_text`]).
    pub fn to_string(&self) -> (s: String)
        ensures
            s@ == mail_text(self@),
    {
        match self {
            Mail::Trade(m) => {
                let mut s = String::from_str("Trade(");
                s.append(m.to_string().as_str());
                s.append(")");
                s
            },
            Mail::Bulk(msgs) => {
                let mut s = String::from_str("Bulk(");
                s.append(decimal_string(msgs.len() as u64).as_str());
                s.append(")\n");
                if msgs.len() == 0 {
                    s.append(" Empty");
                    return s;
                }
                let ghost head = s@;
                let ghost views = msg_views(msgs@);
                let mut lines = msgs[0].to_string();
                let mut i: usize = 1;
                assert(views.take(1).len() == 1 && views.take(1)[0] == views[0]);
                while i < msgs.len()
                    invariant
                        1 <= i <= msgs.len(),
                        views == msg_views(msgs@),
                        lines@ == msg_lines(views.take(i as int)),
                    decreases msgs.len() - i,
                {
                    lines.append("\n");
                    lines.append(msgs[i].to_string().as_str());
                    assert(views.take(i + 1).drop_last() == views.take(i as int));
                    i = i + 1;
                }
                assert(views.take(msgs.len() as int) == views);
                s.append(lines.as_str());
                s
            },
            Mail::Blank => String::from_str("Blank"),
        }
    }
}

} // verus!
