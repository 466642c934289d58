//! The SQL statements of the backing store: each actor has an inbox and an outbox table,
//! named after the actor's id, holding messages by message id. The statements are built
//! here; running them is left to the caller.
use vstd::prelude::*;
use vstd::string::StringExecFns;
use crate::text::decimal_string;
use crate::text::decimal_text;

verus! {

/// How many inbox messages one read fetches.
pub const FETCH_LIMIT: u64 = 100;

/// The statement that creates the inbox table of `actor_id` if it is missing.
pub open spec fn inbox_table_text(actor_id: Seq<char>) -> Seq<char> {
    "CREATE TABLE IF NOT EXISTS inbox_"@ + actor_id + " (msg_id TEXT PRIMARY KEY, msg BLOB)"@
}

/// The statement that creates the outbox table of `actor_id` if it is missing.
pub open spec fn outbox_table_text(actor_id: Seq<char>) -> Seq<char> {
    "CREATE TABLE IF NOT EXISTS outbox_"@ + actor_id + " (msg_id TEXT PRIMARY KEY, msg BLOB)"@
}

/// The statement that counts the inbox tables of `actor_id` (0 or 1).
pub open spec fn inbox_exists_text(actor_id: Seq<char>) -> Seq<char> {
    "SELECT count(1) FROM sqlite_master WHERE type='table' AND name='inbox_"@ + actor_id + "'"@
}

/// The statement that empties the inbox of `actor_id`.
pub open spec fn purge_inbox_text(actor_id: Seq<char>) -> Seq<char> {
    "DELETE FROM inbox_"@ + actor_id
}

/// The statement that deletes one message, by id, from the inbox of `actor_id`.
pub open spec fn delete_from_inbox_text(actor_id: Seq<char>) -> Seq<char> {
    "DELETE FROM inbox_"@ + actor_id + " WHERE msg_id = ?"@
}

/// The statement that inserts a message into the inbox of `actor_id`.
pub open spec fn inbox_insert_text(actor_id: Seq<char>) -> Seq<char> {
    "INSERT INTO inbox_"@ + actor_id + " (msg_id, msg) VALUES (:msg_id, :msg)"@
}

/// The statement that inserts a message into the outbox of `actor_id`.
pub open spec fn outbox_insert_text(actor_id: Seq<char>) -> Seq<char> {
    "INSERT INTO outbox_"@ + actor_id + " (msg_id, msg) VALUES (:msg_id, :msg)"@
}

/// The statement that reads the oldest `limit` messages of the inbox of `actor_id`.
pub open spec fn read_inbox_text(actor_id: Seq<char>, limit: u64) -> Seq<char> {
    "SELECT msg FROM inbox_"@ + actor_id + " ORDER BY rowid ASC LIMIT "@ + decimal_text(limit as nat)
}

/// The statement that reads all messages of the inbox of `actor_id`, oldest first.
pub open spec fn read_inbox_full_text(actor_id: Seq<char>) -> Seq<char> {
    "SELECT msg FROM inbox_"@ + actor_id + " ORDER BY rowid ASC"@
}

/// The message ids, each in single quotes, separated by commas.
pub open spec fn quoted_list(ids: Seq<Seq<char>>) -> Seq<char>
    decreases ids.len(),
{
    if ids.len() == 0 {
        seq![]
    } else if ids.len() == 1 {
        "'"@ + ids[0] + "'"@
    } else {
        quoted_list(ids.drop_last()) + ","@ + "'"@ + ids.last() + "'"@
    }
}

/// The statement that reads the messages with the given ids from the inbox of `actor_id`.
pub open spec fn select_from_inbox_text(actor_id: Seq<char>, ids: Seq<Seq<char>>) -> Seq<char> {
    "SELECT msg FROM inbox_"@ + actor_id + " WHERE msg_id in ("@ + quoted_list(ids) + ")"@
}

fn three(a: &str, b: &str, c: &str) -> (s: String)
    ensures
        s@ == a@ + b@ + c@,
{
    let mut s = String::from_str(a);
    s.append(b);
    s.append(c);
    s
}

/// See [`inbox_table_text`].
pub fn inbox_table(actor_id: &str) -> (s: String)
    ensures
        s@ == inbox_table_text(actor_id@),
{
    three("CREATE TABLE IF NOT EXISTS inbox_", actor_id, " (msg_id TEXT PRIMARY KEY, msg BLOB)")
}

/// See [`outbox_table_text`].
pub fn outbox_table(actor_id: &str) -> (s: String)
    ensures
        s@ == outbox_table_text(actor_id@),
{
    three("CREATE TABLE IF NOT EXISTS outbox_", actor_id, " (msg_id TEXT PRIMARY KEY, msg BLOB)")
}

/// See [`inbox_exists_text`].
pub fn inbox_exists(actor_id: &str) -> (s: String)
    ensures
        s@ == inbox_exists_text(actor_id@),
{
    three("SELECT count(1) FROM sqlite_master WHERE type='table' AND name='inbox_", actor_id, "'")
}

/// See [`purge_inbox_text`].
pub fn purge_inbox(actor_id: &str) -> (s: String)
    ensures
        s@ == purge_inbox_text(actor_id@),
{
    let mut s = String::from_str("DELETE FROM inbox_");
    s.append(actor_id);
    s
}

/// See [`delete_from_inbox_text`].
pub fn delete_from_inbox(actor_id: &str) -> (s: String)
    ensures
        s@ == delete_from_inbox_text(actor_id@),
{
    three("DELETE FROM inbox_", actor_id, " WHERE msg_id = ?")
}

/// See [`inbox_insert_text`].
pub fn inbox_insert(actor_id: &str) -> (s: String)
    ensures
        s@ == inbox_insert_text(actor_id@),
{
    three("INSERT INTO inbox_", actor_id, " (msg_id, msg) VALUES (:msg_id, :msg)")
}

/// See [`outbox_insert_text`].
pub fn outbox_insert(actor_id: &str) -> (s: String)
    ensures
        s@ == outbox_insert_text(actor_id@),
{
    three("INSERT INTO outbox_", actor_id, " (msg_id, msg) VALUES (:msg_id, :msg)")
}

/// See [`read_inbox_text`].
pub fn read_inbox(actor_id: &str, limit: u64) -> (s: String)
    ensures
        s@ == read_inbox_text(actor_id@, limit),
{
    let n = decimal_string(limit);
    three("SELECT msg FROM inbox_", actor_id, " ORDER BY rowid ASC LIMIT ").concat(n.as_str())
}

/// See [`read_inbox_full_text`].
pub fn read_inbox_full(actor_id: &str) -> (s: String)
    ensures
        s@ == read_inbox_full_text(actor_id@),
{
    three("SELECT msg FROM inbox_", actor_id, " ORDER BY rowid ASC")
}

/// The ids, quoted and separated by commas (see [`quoted_list`]).
pub fn quoted_ids(msg_ids: &Vec<&str>) -> (s: String)
    ensures
        s@ == quoted_list(msg_ids@.map_values(|p: &str| p@)),
{
    let ghost ids = msg_ids@.map_values(|p: &str| p@);
    let mut s = String::new();
    let mut count: usize = 0;
    let size = msg_ids.len();
    proof {
        assert(ids.take(0) =~= Seq::<Seq<char>>::empty());
    }
    while count < size
        invariant
            size == msg_ids.len(),
            count <= size,
            ids == msg_ids@.map_values(|p: &str| p@),
            s@ == quoted_list(ids.take(count as int)),
        decreases size - count,
    {
        let ghost before = s@;
        let id = msg_ids[count];
        if count > 0 {
            s.append(",");
        }
        s.append("'");
        s.append(id);
        s.append("'");
        proof {
            let t = ids.take(count + 1);
            assert(t.drop_last() == ids.take(count as int));
            assert(t.last() == id@);
            if count == 0 {
                assert(t.len() == 1);
                assert(t[0] == id@);
                assert(before =~= Seq::<char>::empty());
                assert(s@ =~= "'"@ + id@ + "'"@);
            } else {
                assert(s@ =~= quoted_list(t.drop_last()) + ","@ + "'"@ + t.last() + "'"@);
            }
        }
        count = count + 1;
    }
    assert(ids.take(size as int) == ids);
    s
}

/// See [`select_from_inbox_text`].
pub fn select_from_inbox(actor_id: &str, msg_ids: &Vec<&str>) -> (s: String)
    ensures
        s@ == select_from_inbox_text(actor_id@, msg_ids@.map_values(|p: &str| p@)),
{
    let list = quoted_ids(msg_ids);
    let mut s = three("SELECT msg FROM inbox_", actor_id, " WHERE msg_id in (");
    s.append(list.as_str());
    s.append(")");
    s
}

/// Rows read oldest first, as the inbox read gives them back: newest first.
pub fn newest_first<T>(rows: Vec<T>) -> (r: Vec<T>)
    ensures
        r@ == rows@.reverse(),
{
    let mut rows = rows;
    let mut r: Vec<T> = Vec::new();
    let ghost orig = rows@;
    while rows.len() > 0
        invariant
            rows@ == orig.take(rows.len() as int),
            r@ == orig.skip(rows.len() as int).reverse(),
            rows.len() <= orig.len(),
        decreases rows.len(),
    {
        let ghost n = rows.len() as int;
        let x = rows.pop().unwrap();
        r.push(x);
        proof {
            assert(rows@ == orig.take(n - 1));
            assert(orig.skip(n - 1).reverse() =~= orig.skip(n).reverse().push(orig[n - 1]));
        }
    }
    assert(orig.skip(0) == orig);
    r
}

} // verus!
