//! Regrouping mail: rows of mail (one row per producer) turned into columns, so that the
//! `j`-th mail of every row goes out together.
use vstd::prelude::*;
use crate::mail::{Mail, MailView};

verus! {

/// The views of rows of mail.
pub open spec fn mail_rows(rows: Seq<Vec<Mail>>) -> Seq<Seq<MailView>> {
    rows.map_values(|r: Vec<Mail>| r@.map_values(|m: Mail| m@))
}

/// The length of the longest row (0 for no rows).
pub open spec fn widest(rows: Seq<Seq<MailView>>) -> nat
    decreases rows.len(),
{
    if rows.len() == 0 {
        0
    } else {
        let w = widest(rows.drop_last());
        if rows.last().len() > w { rows.last().len() } else { w }
    }
}

/// The rows turned into columns: column `j` holds the `j`-th mail of each row, in row
/// order, and a blank mail for each row that is shorter than `j + 1`. There are as many
/// columns as the longest row is long.
pub open spec fn transposed(rows: Seq<Seq<MailView>>) -> Seq<Seq<MailView>> {
    Seq::new(
        widest(rows),
        |j: int|
            Seq::new(
                rows.len(),
                |i: int| if j < rows[i].len() { rows[i][j] } else { MailView::Blank },
            ),
    )
}

proof fn lemma_widest_bounds(rows: Seq<Seq<MailView>>)
    ensures
        forall|i: int| 0 <= i < rows.len() ==> #[trigger] rows[i].len() <= widest(rows),
        rows.len() > 0 ==> exists|i: int| 0 <= i < rows.len() && #[trigger] rows[i].len() == widest(rows),
    decreases rows.len(),
{
    if rows.len() > 0 {
        let init = rows.drop_last();
        lemma_widest_bounds(init);
        assert forall|i: int| 0 <= i < rows.len() implies #[trigger] rows[i].len() <= widest(rows) by {
            if i < rows.len() - 1 {
                assert(rows[i] == init[i]);
            }
        }
        if rows.last().len() > widest(init) {
            assert(rows[rows.len() - 1].len() == widest(rows));
        } else if init.len() == 0 {
            assert(rows[0].len() == 0);
        } else {
            let k = choose|i: int| 0 <= i < init.len() && #[trigger] init[i].len() == widest(init);
            assert(rows[k] == init[k]);
            assert(rows[k].len() == widest(rows));
        }
    }
}

/// Turns `rows` into columns (see [`transposed`]); the rows are emptied. Rows shorter than
/// the longest are padded with blank mail.
pub fn transpose(rows: &mut Vec<Vec<Mail>>) -> (columns: Vec<Vec<Mail>>)
    requires
        old(rows).len() > 0,
    ensures
        mail_rows(columns@) == transposed(mail_rows(old(rows)@)),
        final(rows).len() == old(rows).len(),
        forall|i: int| 0 <= i < final(rows).len() ==> (#[trigger] final(rows)@[i]).len() == 0,
{
    let ghost orig = mail_rows(rows@);
    let n = rows.len();
    let mut size: usize = 0;
    let mut k: usize = 0;
    while k < n
        invariant
            n == rows.len(),
            orig == mail_rows(rows@),
            k <= n,
            size == widest(orig.take(k as int)),
        decreases n - k,
    {
        assert(orig.take(k as int + 1).drop_last() == orig.take(k as int));
        assert(orig[k as int].len() == rows[k as int].len());
        if rows[k].len() > size {
            size = rows[k].len();
        }
        k = k + 1;
    }
    assert(orig.take(n as int) == orig);
    proof {
        lemma_widest_bounds(orig);
    }
    let ghost tr = transposed(orig);
    let mut columns: Vec<Vec<Mail>> = Vec::new();
    let mut j: usize = 0;
    while j < size
        invariant
            j <= size,
            columns.len() == j,
            forall|a: int| 0 <= a < j ==> (#[trigger] columns@[a]).len() == n,
            forall|a: int, c: int|
                0 <= a < j && 0 <= c < n ==> (#[trigger] columns@[a]@[c])@ == MailView::Blank,
        decreases size - j,
    {
        let mut col: Vec<Mail> = Vec::new();
        let mut c: usize = 0;
        while c < n
            invariant
                c <= n,
                col.len() == c,
                forall|b: int| 0 <= b < c ==> (#[trigger] col@[b])@ == MailView::Blank,
            decreases n - c,
        {
            col.push(Mail::Blank);
            c = c + 1;
        }
        columns.push(col);
        j = j + 1;
    }
    let mut i: usize = 0;
    while i < n
        invariant
            n == rows.len(),
            n == orig.len(),
            size == widest(orig),
            tr == transposed(orig),
            i <= n,
            columns.len() == size,
            forall|a: int| 0 <= a < size ==> (#[trigger] columns@[a]).len() == n,
            forall|a: int, c: int|
                0 <= a < size && 0 <= c < n ==> (#[trigger] columns@[a]@[c])@ == (if c < i {
                    tr[a][c]
                } else {
                    MailView::Blank
                }),
            forall|c: int| 0 <= c < i ==> (#[trigger] rows@[c]).len() == 0,
            forall|c: int|
                i <= c < n ==> (#[trigger] rows@[c])@.map_values(|m: Mail| m@) == orig[c],
            forall|c: int| 0 <= c < n ==> (#[trigger] orig[c]).len() <= size,
        decreases n - i,
    {
        let mut row: Vec<Mail> = Vec::new();
        std::mem::swap(&mut row, &mut rows[i]);
        let ghost r = orig[i as int];
        assert(row@.map_values(|m: Mail| m@) == r);
        while row.len() > 0
            invariant
                n == orig.len(),
                i < n,
                r == orig[i as int],
                tr == transposed(orig),
                size == widest(orig),
                r.len() <= size,
                row.len() <= r.len(),
                forall|b: int| 0 <= b < row.len() ==> (#[trigger] row@[b])@ == r[b],
                columns.len() == size,
                forall|a: int| 0 <= a < size ==> (#[trigger] columns@[a]).len() == n,
                forall|a: int, c: int|
                    0 <= a < size && 0 <= c < n ==> (#[trigger] columns@[a]@[c])@ == (if c < i {
                        tr[a][c]
                    } else if c == i && row.len() <= a {
                        tr[a][c]
                    } else {
                        MailView::Blank
                    }),
            decreases row.len(),
        {
            let last = row.len() - 1;
            let e = row.pop().unwrap();
            assert(e@ == r[last as int]);
            assert(tr[last as int][i as int] == r[last as int]);
            columns[last].set(i, e);
        }
        proof {
            assert forall|a: int, c: int|
                0 <= a < size && 0 <= c < n implies (#[trigger] columns@[a]@[c])@ == (if c
                < i + 1 {
                tr[a][c]
            } else {
                MailView::Blank
            }) by {
                if c == i && a >= r.len() {
                    assert(tr[a][c] == MailView::Blank);
                }
            }
        }
        i = i + 1;
    }
    proof {
        assert forall|c: int| 0 <= c < n implies (#[trigger] rows@[c]).len() == 0 by {}
        let got = mail_rows(columns@);
        assert(got.len() == tr.len());
        assert forall|a: int| 0 <= a < size implies #[trigger] got[a] == tr[a] by {
            assert(got[a].len() == tr[a].len());
            assert forall|c: int| 0 <= c < n implies got[a][c] == tr[a][c] by {
                assert(columns@[a]@[c]@ == tr[a][c]);
            }
            assert(got[a] =~= tr[a]);
        }
        assert(got =~= tr);
    }
    columns
}

proof fn lemma_widest_of_rectangle(rows: Seq<Seq<MailView>>, w: nat)
    requires
        rows.len() > 0,
        forall|i: int| 0 <= i < rows.len() ==> (#[trigger] rows[i]).len() == w,
    ensures
        widest(rows) == w,
{
    lemma_widest_bounds(rows);
}

/// Turning rows of equal, non-zero length into columns and those columns back into rows gives
/// the rows back: no blank is padded in and every mail returns to its place.
pub proof fn lemma_transpose_twice(rows: Seq<Seq<MailView>>)
    requires
        rows.len() > 0,
        rows[0].len() > 0,
        forall|i: int| 0 <= i < rows.len() ==> (#[trigger] rows[i]).len() == rows[0].len(),
    ensures
        transposed(transposed(rows)) == rows,
{
    let w = rows[0].len();
    let n = rows.len();
    lemma_widest_of_rectangle(rows, w);
    let t = transposed(rows);
    assert(t.len() == w);
    assert forall|j: int| 0 <= j < t.len() implies (#[trigger] t[j]).len() == t[0].len() by {}
    lemma_widest_of_rectangle(t, n);
    let tt = transposed(t);
    assert(tt.len() == n);
    assert forall|i: int| 0 <= i < n implies #[trigger] tt[i] == rows[i] by {
        assert(tt[i] =~= rows[i]);
    }
    assert(tt =~= rows);
}

} // verus!
