//! Routing between nodes: outgoing messages are grouped by the socket address of their
//! recipients' nodes, a node that refused a connection may be booted up, and the listener
//! decides what to do with each mail it receives. Connecting, sending and booting are left
//! to the caller.
use vstd::prelude::*;
use crate::mail::{
    Mail, MailView, Msg, MsgView, Action, ActionView, msg_views, msg_action, same_command,
    mail_action, mail_is_command, bare_msg, ContentView,
};
use crate::addr::Addr;
use crate::config::{Config, ConfigView};
use crate::text::{IpValue, ip_value, parse_ip};

verus! {

// ---------------------------------------------------------------------------
// Grouping by node
// ---------------------------------------------------------------------------

/// Whether a message's recipient, if it names one, has an IP address as host and a port, so
/// that its node's socket address is known.
pub open spec fn has_socket(m: MsgView) -> bool {
    m.to matches Some(a) ==> (a.host is Some && ip_value(a.host.unwrap()) is Some && a.port is Some)
}

/// The socket address (IP address and port) of the node of a message's recipient.
pub open spec fn socket_of(m: MsgView) -> Option<(IpValue, u16)> {
    match m.to {
        Some(a) => Some((ip_value(a.host.unwrap()).unwrap(), a.port.unwrap())),
        None => None,
    }
}

/// The predicate "bound for the node at socket address `k`".
pub open spec fn bound_for(k: (IpValue, u16)) -> spec_fn(MsgView) -> bool {
    |m: MsgView| socket_of(m) == Some(k)
}

/// The views of the messages of groups.
pub open spec fn group_msgs(g: ((IpValue, u16), Vec<Msg>)) -> Seq<MsgView> {
    msg_views(g.1@)
}

/// Whether `groups` groups `msgs` by node: one group per node, each holding the messages
/// bound for that node in their order in `msgs`, and every message that names a recipient
/// in the group of its node. Messages without a recipient are left out.
pub open spec fn grouped(msgs: Seq<MsgView>, groups: Seq<((IpValue, u16), Vec<Msg>)>) -> bool {
    &&& forall|i: int, j: int| 0 <= i < j < groups.len() ==> (#[trigger] groups[i]).0 != (#[trigger] groups[j]).0
    &&& forall|i: int| 0 <= i < groups.len() ==> group_msgs(#[trigger] groups[i]) == msgs.filter(bound_for(groups[i].0))
    &&& forall|i: int| 0 <= i < groups.len() ==> (#[trigger] groups[i]).1.len() > 0
    &&& forall|j: int| 0 <= j < msgs.len() && (#[trigger] msgs[j]).to is Some ==> exists|i: int|
        0 <= i < groups.len() && Some((#[trigger] groups[i]).0) == socket_of(msgs[j])
}

fn socket_key(msg: &Msg) -> (k: Option<(IpValue, u16)>)
    requires
        has_socket(msg@),
    ensures
        k == socket_of(msg@),
{
    match msg.get_to() {
        Some(addr) => addr.get_socket_addr(),
        None => None,
    }
}

/// Whether some message of `msgs` is bound for node `a`.
pub open spec fn node_occurs(msgs: Seq<MsgView>, a: (IpValue, u16)) -> bool {
    exists|p: int| 0 <= p < msgs.len() && socket_of(#[trigger] msgs[p]) == Some(a)
}

/// Whether a message bound for node `a` comes in `msgs` before any message bound for `b`.
pub open spec fn occurs_before(msgs: Seq<MsgView>, a: (IpValue, u16), b: (IpValue, u16)) -> bool {
    exists|p: int| 0 <= p < msgs.len() && socket_of(#[trigger] msgs[p]) == Some(a)
        && forall|q: int| 0 <= q < p ==> socket_of(#[trigger] msgs[q]) != Some(b)
}

/// Whether the groups come in the order in which their nodes first occur in `msgs`.
pub open spec fn in_first_order(msgs: Seq<MsgView>, groups: Seq<((IpValue, u16), Vec<Msg>)>) -> bool {
    forall|i: int, j: int| 0 <= i < j < groups.len() ==> occurs_before(msgs, (#[trigger] groups[i]).0, (#[trigger] groups[j]).0)
}

proof fn lemma_order_push(s: Seq<MsgView>, x: MsgView, groups: Seq<((IpValue, u16), Vec<Msg>)>)
    requires
        in_first_order(s, groups),
        forall|i: int| 0 <= i < groups.len() ==> node_occurs(s, (#[trigger] groups[i]).0),
    ensures
        in_first_order(s.push(x), groups),
        forall|i: int| 0 <= i < groups.len() ==> node_occurs(s.push(x), (#[trigger] groups[i]).0),
{
    let t = s.push(x);
    assert forall|i: int, j: int| 0 <= i < j < groups.len() implies occurs_before(t, (#[trigger] groups[i]).0, (#[trigger] groups[j]).0) by {
        let p = choose|p: int| 0 <= p < s.len() && socket_of(#[trigger] s[p]) == Some(groups[i].0)
            && forall|q: int| 0 <= q < p ==> socket_of(#[trigger] s[q]) != Some(groups[j].0);
        assert(t[p] == s[p]);
        assert forall|q: int| 0 <= q < p implies socket_of(#[trigger] t[q]) != Some(groups[j].0) by {
            assert(t[q] == s[q]);
        }
    }
    assert forall|i: int| 0 <= i < groups.len() implies node_occurs(t, (#[trigger] groups[i]).0) by {
        let p = choose|p: int| 0 <= p < s.len() && socket_of(#[trigger] s[p]) == Some(groups[i].0);
        assert(t[p] == s[p]);
    }
}

proof fn lemma_filter_push(s: Seq<MsgView>, x: MsgView, k: (IpValue, u16))
    ensures
        s.push(x).filter(bound_for(k)) == if socket_of(x) == Some(k) {
            s.filter(bound_for(k)).push(x)
        } else {
            s.filter(bound_for(k))
        },
{
    reveal(Seq::filter);
    assert(s.push(x).drop_last() == s);
}

proof fn lemma_filter_none(s: Seq<MsgView>, k: (IpValue, u16))
    requires
        forall|j: int| 0 <= j < s.len() ==> socket_of(#[trigger] s[j]) != Some(k),
    ensures
        s.filter(bound_for(k)) =~= Seq::<MsgView>::empty(),
    decreases s.len(),
{
    reveal(Seq::filter);
    if s.len() > 0 {
        lemma_filter_none(s.drop_last(), k);
        assert(socket_of(s[s.len() - 1]) != Some(k));
    }
}

/// Groups messages by the node of their recipients (see [`grouped`]); groups come in the
/// order in which their nodes first occur.
pub fn group_by(msgs: Vec<Msg>) -> (groups: Vec<((IpValue, u16), Vec<Msg>)>)
    requires
        forall|i: int| 0 <= i < msgs@.len() ==> has_socket(#[trigger] msgs@[i]@),
    ensures
        grouped(msg_views(msgs@), groups@),
        in_first_order(msg_views(msgs@), groups@),
{
    let ghost all = msg_views(msgs@);
    let mut groups: Vec<((IpValue, u16), Vec<Msg>)> = Vec::new();
    for msg in it: msgs.into_iter()
        invariant
            it.seq() == msgs@,
            all == msg_views(msgs@),
            forall|i: int| 0 <= i < msgs@.len() ==> has_socket(#[trigger] msgs@[i]@),
            grouped(all.take(it.index() as int), groups@),
            in_first_order(all.take(it.index() as int), groups@),
            forall|i: int| 0 <= i < groups@.len() ==> node_occurs(all.take(it.index() as int), (#[trigger] groups@[i]).0),
    {
        let ghost k = it.index() as int;
        let ghost pre = all.take(k);
        assert(msg == msgs@[k]);
        assert(all.take(k + 1) == pre.push(msg@));
        let ghost before = groups@;
        proof {
            lemma_order_push(pre, msg@, before);
        }
        let key = socket_key(&msg);
        match key {
            None => {
                assert forall|i: int| 0 <= i < groups@.len() implies group_msgs(#[trigger] groups@[i])
                    == all.take(k + 1).filter(bound_for(groups@[i].0)) by {
                    lemma_filter_push(pre, msg@, groups@[i].0);
                }
                assert forall|j: int| 0 <= j < all.take(k + 1).len() && (#[trigger] all.take(k + 1)[j]).to is Some
                    implies exists|i: int| 0 <= i < groups@.len() && Some((#[trigger] groups@[i]).0) == socket_of(all.take(k + 1)[j]) by {
                    assert(j < k);
                    assert(all.take(k + 1)[j] == pre[j]);
                }
            },
            Some(key) => {
                let mut found = false;
                let mut g: usize = 0;
                while g < groups.len()
                    invariant_except_break
                        !found,
                        forall|i: int| 0 <= i < g ==> (#[trigger] groups@[i]).0 != key,
                    invariant
                        g <= groups.len(),
                        groups@ == before,
                    ensures
                        found ==> g < groups.len() && groups@[g as int].0 == key,
                        !found ==> forall|i: int| 0 <= i < groups.len() ==> (#[trigger] groups@[i]).0 != key,
                    decreases groups.len() - g,
                {
                    let gk = groups[g].0;
                    if gk.0 == key.0 && gk.1 == key.1 {
                        found = true;
                        break;
                    }
                    g = g + 1;
                }
                if found {
                    let ghost gv = msg@;
                    let ghost old_group = groups@[g as int];
                    groups[g].1.push(msg);
                    assert(groups@ == before.update(g as int, (key, groups@[g as int].1)));
                    assert(group_msgs(groups@[g as int]) == group_msgs(old_group).push(gv));
                    assert forall|i: int| 0 <= i < groups@.len() implies group_msgs(#[trigger] groups@[i])
                        == all.take(k + 1).filter(bound_for(groups@[i].0)) by {
                        lemma_filter_push(pre, gv, groups@[i].0);
                    }
                    assert forall|j: int| 0 <= j < all.take(k + 1).len() && (#[trigger] all.take(k + 1)[j]).to is Some
                        implies exists|i: int| 0 <= i < groups@.len() && Some((#[trigger] groups@[i]).0) == socket_of(all.take(k + 1)[j]) by {
                        if j < k {
                            assert(all.take(k + 1)[j] == pre[j]);
                            let i0 = choose|i: int| 0 <= i < before.len() && Some((#[trigger] before[i]).0) == socket_of(pre[j]);
                            assert(groups@[i0].0 == before[i0].0);
                        } else {
                            assert(groups@[g as int].0 == key);
                        }
                    }
                } else {
                    let ghost gv = msg@;
                    let mut v: Vec<Msg> = Vec::new();
                    v.push(msg);
                    groups.push((key, v));
                    let ghost n = before.len() as int;
                    assert(group_msgs(groups@[n]) =~= seq![gv]);
                    assert(pre.filter(bound_for(key)) =~= Seq::<MsgView>::empty()) by {
                        assert forall|j: int| 0 <= j < pre.len() implies socket_of(#[trigger] pre[j]) != Some(key) by {
                            if pre[j].to is Some {
                                assert(pre[j] == all.take(k)[j]);
                                let i0 = choose|i: int| 0 <= i < before.len() && Some((#[trigger] before[i]).0) == socket_of(pre[j]);
                                assert(before[i0].0 != key);
                            }
                        }
                        lemma_filter_none(pre, key);
                    }
                    assert forall|i: int| 0 <= i < groups@.len() implies group_msgs(#[trigger] groups@[i])
                        == all.take(k + 1).filter(bound_for(groups@[i].0)) by {
                        lemma_filter_push(pre, gv, groups@[i].0);
                        if i < n {
                            assert(groups@[i] == before[i]);
                        }
                    }
                    assert forall|j: int| 0 <= j < all.take(k + 1).len() && (#[trigger] all.take(k + 1)[j]).to is Some
                        implies exists|i: int| 0 <= i < groups@.len() && Some((#[trigger] groups@[i]).0) == socket_of(all.take(k + 1)[j]) by {
                        if j < k {
                            assert(all.take(k + 1)[j] == pre[j]);
                            let i0 = choose|i: int| 0 <= i < before.len() && Some((#[trigger] before[i]).0) == socket_of(pre[j]);
                            assert(groups@[i0] == before[i0]);
                        } else {
                            assert(groups@[n].0 == key);
                        }
                    }
                    let ghost t = all.take(k + 1);
                    assert(t[k] == gv);
                    assert forall|j: int| 0 <= j < pre.len() implies socket_of(#[trigger] t[j]) != Some(key) by {
                        assert(t[j] == pre[j]);
                        if pre[j].to is Some {
                            assert(pre[j] == all.take(k)[j]);
                            let i0 = choose|i: int| 0 <= i < before.len() && Some((#[trigger] before[i]).0) == socket_of(pre[j]);
                            assert(before[i0].0 != key);
                        }
                    }
                    assert forall|i: int, j: int| 0 <= i < j < groups@.len() implies occurs_before(t, (#[trigger] groups@[i]).0, (#[trigger] groups@[j]).0) by {
                        if j < n {
                            assert(groups@[i] == before[i]);
                            assert(groups@[j] == before[j]);
                        } else {
                            assert(groups@[i] == before[i]);
                            assert(groups@[j].0 == key);
                            let p = choose|p: int| 0 <= p < t.len() && socket_of(#[trigger] t[p]) == Some(before[i].0);
                            if p == k {
                                assert(before[i].0 == key);
                            }
                            assert(p < k);
                            assert forall|q: int| 0 <= q < p implies socket_of(#[trigger] t[q]) != Some(key) by {
                                assert(t[q] == pre[q]);
                            }
                        }
                    }
                    assert forall|i: int| 0 <= i < groups@.len() implies node_occurs(t, (#[trigger] groups@[i]).0) by {
                        if i < n {
                            assert(groups@[i] == before[i]);
                        } else {
                            assert(socket_of(t[k]) == Some(key));
                        }
                    }
                    assert forall|i: int, j: int| 0 <= i < j < groups@.len() implies (#[trigger] groups@[i]).0 != (#[trigger] groups@[j]).0 by {
                        if j < n {
                            assert(groups@[i] == before[i]);
                            assert(groups@[j] == before[j]);
                        } else {
                            assert(groups@[i] == before[i]);
                        }
                    }
                }
            },
        }
    }
    assert(all.take(msgs@.len() as int) == all);
    groups
}

/// Addresses every message to `addr`, as the messenger does before it sends a group of
/// messages to one actor; nothing else about them changes.
pub fn address_to(addr: &Addr, msgs: &mut Vec<Msg>)
    ensures
        final(msgs)@.len() == old(msgs)@.len(),
        forall|i: int| 0 <= i < final(msgs)@.len() ==> (#[trigger] final(msgs)@[i])@ == (MsgView {
            to: Some(addr@),
            ..old(msgs)@[i]@
        }),
{
    let n = msgs.len();
    let mut i: usize = 0;
    while i < n
        invariant
            n == msgs.len(),
            n == old(msgs)@.len(),
            i <= n,
            forall|j: int| 0 <= j < i ==> (#[trigger] msgs@[j])@ == (MsgView { to: Some(addr@), ..old(msgs)@[j]@ }),
            forall|j: int| i <= j < n ==> (#[trigger] msgs@[j]) == old(msgs)@[j],
        decreases n - i,
    {
        let mut m = msgs[i].duplicate();
        m.set_recipient_addr(addr);
        msgs.set(i, m);
        i = i + 1;
    }
}

// ---------------------------------------------------------------------------
// Booting a node that refused a connection
// ---------------------------------------------------------------------------

/// Whether messages whose node refused the connection warrant booting that node up (and
/// sending them again): the node's IP address is the one this node is configured to listen
/// on, and the first message is neither a shut-down nor an echo command.
pub open spec fn warrants_bootup(msgs: Seq<MsgView>, ip: IpValue, c: ConfigView) -> bool {
    &&& ip_value(c.host) == Some(ip)
    &&& !(msgs.len() > 0 && (msg_action(msgs[0]) matches Some(a) && (same_command(a, ActionView::Shutdown)
        || same_command(a, ActionView::Echo(Seq::empty())))))
}

/// See [`warrants_bootup`].
pub fn should_bootup(msgs: &Vec<Msg>, ip: IpValue, config: &Config) -> (b: bool)
    ensures
        b == warrants_bootup(msg_views(msgs@), ip, config@),
{
    if !Addr::is_ip_local(ip, config) {
        return false;
    }
    if msgs.len() > 0 {
        assert(msg_views(msgs@)[0] == msgs@[0]@);
        if msgs[0].command_equals(Action::Shutdown) || msgs[0].command_equals(Action::Echo(String::new())) {
            return false;
        }
    }
    true
}

// ---------------------------------------------------------------------------
// The listener
// ---------------------------------------------------------------------------

/// What the listener does on a command mail: a shut-down or carry-on command is obeyed as
/// it is; an echo command is run on the mail and the action of its answer (the echo of the
/// reversed text) is what the listener does; anything else carries on.
pub open spec fn command_outcome(m: MailView) -> ActionView {
    match mail_action(m) {
        Some(ActionView::Shutdown) => ActionView::Shutdown,
        Some(ActionView::Continue) => ActionView::Continue,
        Some(ActionView::Echo(s)) => ActionView::Echo(s.reverse()),
        None => ActionView::Continue,
    }
}

/// The listener's action on a command mail (see [`command_outcome`]).
pub fn process_cmd(cmd: Mail) -> (a: Action)
    ensures
        a@ == command_outcome(cmd@),
{
    match cmd.action() {
        Some(Action::Shutdown) => Action::Shutdown,
        Some(Action::Continue) => Action::Continue,
        Some(Action::Echo(text)) => {
            let mut echo = Action::Echo(text);
            match echo.execute(cmd) {
                Some(mail) => {
                    assert(mail_action(mail@) == Some(ActionView::Echo(action_text(echo@).reverse())));
                    match mail.action() {
                        Some(a) => a,
                        None => Action::Continue,
                    }
                },
                None => Action::Continue,
            }
        },
        None => Action::Continue,
    }
}

/// The text of an echo action.
pub open spec fn action_text(a: ActionView) -> Seq<char> {
    match a {
        ActionView::Echo(s) => s,
        _ => Seq::empty(),
    }
}

/// What the listener makes of a received mail: a bulk command is processed (see
/// [`command_outcome`]) and nothing is stored; other bulk mail is stored (ingress) and the
/// listener carries on; anything else is ignored.
pub open spec fn received_mail(m: MailView) -> (ActionView, Option<MailView>) {
    match m {
        MailView::Bulk(_) => if mail_is_command(m) {
            (command_outcome(m), None)
        } else {
            (ActionView::Continue, Some(m))
        },
        _ => (ActionView::Continue, None),
    }
}

/// The listener's action on a received mail, and the mail to store, if any (see
/// [`received_mail`]).
pub fn process(payload: Mail) -> (r: (Action, Option<Mail>))
    ensures
        (r.0@, match r.1 { Some(m) => Some(m@), None => None }) == received_mail(payload@),
{
    match payload {
        Mail::Bulk(msgs) => {
            let m = Mail::Bulk(msgs);
            if m.is_command() {
                (process_cmd(m), None)
            } else {
                (Action::Continue, Some(m))
            }
        },
        _ => (Action::Continue, None),
    }
}

/// What the listener does after one mail of a connection.
#[derive(PartialEq, Eq, Structural, Clone, Copy, Debug)]
pub enum Flow {
    /// Stop listening.
    Shutdown,
    /// Go on with the next mail.
    Next,
    /// Stop reading the connection and answer it.
    Answer,
}

/// The flow after an action, and the answer to the connection: an echo answers its text;
/// other actions leave the answer (initially "Ok") as it is.
pub fn next_flow(action: Action, response: &mut String) -> (f: Flow)
    ensures
        match action@ {
            ActionView::Shutdown => f == Flow::Shutdown && final(response)@ == old(response)@,
            ActionView::Continue => f == Flow::Next && final(response)@ == old(response)@,
            ActionView::Echo(t) => f == Flow::Answer && final(response)@ == t,
        },
{
    match action {
        Action::Shutdown => Flow::Shutdown,
        Action::Continue => Flow::Next,
        Action::Echo(text) => {
            *response = text;
            Flow::Answer
        },
    }
}

/// A single-message bulk mail carrying the echo command with text `s`, as a client sends it
/// to check that a listener is alive.
pub open spec fn echo_mail(s: Seq<char>) -> MailView {
    MailView::Bulk(seq![bare_msg(Some(ContentView::Command(ActionView::Echo(s))))])
}

/// The listener answers an echo with its text reversed, so echoing the answer gives the
/// original text back; neither is stored.
pub proof fn lemma_echo_round_trip(s: Seq<char>)
    ensures
        received_mail(echo_mail(s)) == (ActionView::Echo(s.reverse()), None::<MailView>),
        received_mail(echo_mail(s.reverse())) == (ActionView::Echo(s), None::<MailView>),
{
    assert(s.reverse().reverse() =~= s);
}

} // verus!
