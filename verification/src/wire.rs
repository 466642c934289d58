//! Mail on the wire: messages travel between nodes as one bulk mail in bincode's encoding,
//! followed by the tail mark that tells the receiver where the mail ends.
use vstd::prelude::*;
use vstd::utf8::encode_utf8;
use crate::mail::{Mail, MailView, Msg, msg_views, mail_bytes};
use crate::text::chars_of;

verus! {

/// Whether no character occurs twice in `s`.
pub open spec fn all_distinct(s: Seq<char>) -> bool {
    forall|i: int, j: int| 0 <= i < j < s.len() ==> s[i] != s[j]
}

/// Whether a mark and a tail can delimit bytes, as `byte_marks` demands of them: the mark
/// is not empty, mark and tail differ, and neither repeats a character.
pub open spec fn marks_ok(mark: Seq<char>, tail: Seq<char>) -> bool {
    &&& mark.len() > 0
    &&& mark != tail
    &&& all_distinct(mark)
    &&& all_distinct(tail)
}

fn distinct_chars(s: &str) -> (b: bool)
    ensures
        b == all_distinct(s@),
{
    let v = chars_of(s);
    let n = v.len();
    let mut i: usize = 0;
    while i < n
        invariant
            n == v.len(),
            v@ == s@,
            i <= n,
            forall|a: int, b: int| 0 <= a < i && a < b < n ==> v@[a] != v@[b],
        decreases n - i,
    {
        let mut j: usize = i + 1;
        while j < n
            invariant
                n == v.len(),
                v@ == s@,
                i < n,
                i + 1 <= j <= n,
                forall|a: int, b: int| 0 <= a < i && a < b < n ==> v@[a] != v@[b],
                forall|b: int| i < b < j ==> v@[i as int] != v@[b],
            decreases n - j,
        {
            if v[i] == v[j] {
                return false;
            }
            j = j + 1;
        }
        i = i + 1;
    }
    true
}

/// Whether `mark` and `tail` can delimit bytes (see [`marks_ok`]).
pub fn valid_marks(mark: &str, tail: &str) -> (b: bool)
    ensures
        b == marks_ok(mark@, tail@),
{
    let m = chars_of(mark);
    let t = chars_of(tail);
    if m.len() == 0 {
        return false;
    }
    let mut same = m.len() == t.len();
    let mut i: usize = 0;
    while i < m.len() && same
        invariant
            m@ == mark@,
            t@ == tail@,
            i <= m.len(),
            same ==> m.len() == t.len() && forall|k: int| 0 <= k < i ==> m@[k] == t@[k],
            !same ==> m@ != t@,
        decreases m.len() - i,
    {
        if m[i] != t[i] {
            same = false;
            assert(m@[i as int] != t@[i as int]);
        }
        i = i + 1;
    }
    if same {
        assert(m@ =~= t@);
        return false;
    }
    distinct_chars(mark) && distinct_chars(tail)
}

/// `byte_marks`'s `ByteMarker::new(mark, tail).mark_tail`: appends the UTF-8 bytes of
/// `tail`. `ByteMarker::new` panics unless the mark and tail are as [`marks_ok`] says, so
/// that is required.
#[verifier::external_body]
fn mark_tail(bytes: &mut Vec<u8>, mark: &str, tail: &str)
    requires
        marks_ok(mark@, tail@),
    ensures
        final(bytes)@ == old(bytes)@ + encode_utf8(tail@),
{
    byte_marks::ByteMarker::new(mark, tail).mark_tail(bytes)
}

/// The bytes that carry `msgs` to another node: the bulk mail of `msgs` in bincode's
/// encoding, then the tail `tail` in UTF-8.
pub fn frame_msgs(msgs: Vec<Msg>, mark: &str, tail: &str) -> (bytes: Vec<u8>)
    requires
        marks_ok(mark@, tail@),
    ensures
        bytes@ == mail_bytes(MailView::Bulk(msg_views(msgs@))) + encode_utf8(tail@),
{
    let bulk = Mail::Bulk(msgs);
    let mut bytes = bulk.to_bytes();
    mark_tail(&mut bytes, mark, tail);
    bytes
}

} // verus!
