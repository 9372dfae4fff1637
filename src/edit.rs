use vstd::prelude::*;
use crate::buffer::{Index2, doc, lemma_doc, before};
use crate::editor::EditorState;
use crate::motion::valid_pos;

verus! {

/// The text from `a` up to `b` (not included), rows joined by `'\n'`.
pub open spec fn range_text(d: Seq<Seq<char>>, a: (int, int), b: (int, int)) -> Seq<char>
    decreases b.0 - a.0,
{
    if b.0 <= a.0 {
        d[a.0].subrange(a.1, b.1)
    } else {
        range_text(d, a, (b.0 - 1, d[b.0 - 1].len() as int)) + seq!['\n'] + d[b.0].subrange(0, b.1)
    }
}

/// The document with the text from `a` up to `b` (not included) taken out and
/// the two ends joined on row `a.0`.
pub open spec fn delete_range_doc(d: Seq<Seq<char>>, a: (int, int), b: (int, int)) -> Seq<Seq<char>> {
    d.subrange(0, a.0).push(d[a.0].subrange(0, a.1) + d[b.0].subrange(b.1, d[b.0].len() as int))
        + d.subrange(b.0 + 1, d.len() as int)
}

/// A text cut into rows at each `'\n'`.
pub open spec fn split_lines(s: Seq<char>) -> Seq<Seq<char>>
    decreases s.len(),
{
    if s.len() == 0 {
        seq![Seq::<char>::empty()]
    } else {
        let prev = split_lines(s.drop_last());
        if s.last() == '\n' {
            prev.push(Seq::<char>::empty())
        } else {
            prev.update(prev.len() - 1, prev.last().push(s.last()))
        }
    }
}

/// Both positions stand on rows of the document, at most one past the row's
/// end, `a` not after `b`.
pub open spec fn valid_range(d: Seq<Seq<char>>, a: (int, int), b: (int, int)) -> bool {
    &&& valid_pos(d, a)
    &&& valid_pos(d, b)
    &&& !before(b, a)
}

pub proof fn lemma_split_lines_nonempty(s: Seq<char>)
    ensures
        split_lines(s).len() >= 1,
    decreases s.len(),
{
    if s.len() > 0 {
        lemma_split_lines_nonempty(s.drop_last());
    }
}

/// Copies `s[from..to]` onto the end of `acc`.
fn append_chars(acc: &mut Vec<char>, s: &Vec<char>, from: usize, to: usize)
    requires
        from <= to <= s.len(),
    ensures
        final(acc)@ == old(acc)@ + s@.subrange(from as int, to as int),
{
    let mut i = from;
    while i < to
        invariant
            from <= i <= to <= s.len(),
            acc@ == old(acc)@ + s@.subrange(from as int, i as int),
        decreases to - i,
    {
        acc.push(s[i]);
        i += 1;
        assert(acc@ =~= old(acc)@ + s@.subrange(from as int, i as int));
    }
}

/// Cuts a text into rows at each `'\n'`.
pub fn split_text(s: &Vec<char>) -> (r: Vec<Vec<char>>)
    ensures
        doc(r) == split_lines(s@),
{
    let mut rows: Vec<Vec<char>> = Vec::new();
    rows.push(Vec::new());
    proof {
        lemma_doc(rows);
        assert(doc(rows) =~= split_lines(s@.subrange(0, 0)));
    }
    let mut i: usize = 0;
    while i < s.len()
        invariant
            i <= s.len(),
            rows.len() >= 1,
            doc(rows) == split_lines(s@.subrange(0, i as int)),
        decreases s.len() - i,
    {
        let ghost prev = doc(rows);
        proof {
            lemma_doc(rows);
            assert(s@.subrange(0, i + 1).drop_last() =~= s@.subrange(0, i as int));
        }
        let c = s[i];
        if c == '\n' {
            rows.push(Vec::new());
            proof {
                lemma_doc(rows);
                assert(doc(rows) =~= prev.push(Seq::<char>::empty()));
            }
        } else {
            let last = rows.len() - 1;
            let mut row = rows.remove(last);
            row.push(c);
            rows.push(row);
            proof {
                lemma_doc(rows);
                assert(doc(rows) =~= prev.update(prev.len() - 1, prev.last().push(c)));
            }
        }
        i += 1;
    }
    proof {
        assert(s@.subrange(0, s@.len() as int) =~= s@);
    }
    rows
}

impl EditorState {
    /// The text from `a` up to `b` (not included).
    pub fn text_between(&self, a: Index2, b: Index2) -> (r: Vec<char>)
        requires
            valid_range(self.d(), a.pos(), b.pos()),
        ensures
            r@ == range_text(self.d(), a.pos(), b.pos()),
    {
        proof {
            lemma_doc(self.lines);
        }
        let ghost d = self.d();
        let mut acc: Vec<char> = Vec::new();
        if a.row == b.row {
            append_chars(&mut acc, &self.lines[a.row], a.col, b.col);
            proof {
                assert(acc@ =~= range_text(d, a.pos(), b.pos()));
            }
            return acc;
        }
        let first = &self.lines[a.row];
        append_chars(&mut acc, first, a.col, first.len());
        let mut r = a.row;
        proof {
            assert(acc@ =~= range_text(d, a.pos(), (r as int, d[r as int].len() as int)));
        }
        while r + 1 < b.row
            invariant
                a.row <= r < b.row < self.lines.len(),
                d == self.d(),
                d.len() == self.lines.len(),
                forall|i: int| 0 <= i < self.lines.len() ==> #[trigger] d[i] == self.lines@[i]@,
                acc@ == range_text(d, a.pos(), (r as int, d[r as int].len() as int)),
            decreases b.row - r,
        {
            let ghost before_acc = acc@;
            acc.push('\n');
            let row = &self.lines[r + 1];
            append_chars(&mut acc, row, 0, row.len());
            r += 1;
            proof {
                assert(acc@ =~= before_acc + seq!['\n'] + d[r as int].subrange(0, d[r as int].len() as int));
            }
        }
        let ghost before_acc = acc@;
        acc.push('\n');
        append_chars(&mut acc, &self.lines[b.row], 0, b.col);
        proof {
            assert(acc@ =~= before_acc + seq!['\n'] + d[b.row as int].subrange(0, b.col as int));
        }
        acc
    }

    /// Takes out the text from `a` up to `b` (not included) and puts the cursor at `a`.
    pub fn delete_between(&mut self, a: Index2, b: Index2)
        requires
            valid_range(old(self).d(), a.pos(), b.pos()),
        ensures
            final(self).d() == delete_range_doc(old(self).d(), a.pos(), b.pos()),
            final(self).cursor == a,
            final(self).mode == old(self).mode,
            final(self).selection == old(self).selection,
            final(self).wf(),
    {
        proof {
            lemma_doc(self.lines);
        }
        let ghost d = self.d();
        let mut merged: Vec<char> = Vec::new();
        append_chars(&mut merged, &self.lines[a.row], 0, a.col);
        let tail_len = self.lines[b.row].len();
        append_chars(&mut merged, &self.lines[b.row], b.col, tail_len);
        let mut k: usize = 0;
        let count = b.row - a.row + 1;
        while k < count
            invariant
                k <= count == b.row - a.row + 1,
                b.row < d.len(),
                self.lines.len() == d.len() - k,
                self.mode == old(self).mode,
                self.selection == old(self).selection,
                doc(self.lines) == d.subrange(0, a.row as int) + d.subrange(a.row + k, d.len() as int),
            decreases count - k,
        {
            let ghost prev = doc(self.lines);
            proof {
                lemma_doc(self.lines);
            }
            self.lines.remove(a.row);
            proof {
                lemma_doc(self.lines);
                assert(doc(self.lines) =~= prev.remove(a.row as int));
                assert(doc(self.lines) =~= d.subrange(0, a.row as int) + d.subrange(a.row + k + 1, d.len() as int));
            }
            k += 1;
        }
        let ghost prev = doc(self.lines);
        proof {
            lemma_doc(self.lines);
        }
        self.lines.insert(a.row, merged);
        proof {
            lemma_doc(self.lines);
            assert(doc(self.lines) =~= prev.insert(a.row as int, merged@));
            assert(doc(self.lines) =~= delete_range_doc(d, a.pos(), b.pos()));
        }
        self.cursor = a;
    }
}


/// The rows that inserting text `t` at position `p` of row `p.0` makes of
/// that row.
pub open spec fn inserted_rows(row: Seq<char>, c: int, t: Seq<char>) -> Seq<Seq<char>> {
    let rows = split_lines(t);
    let pre = row.subrange(0, c);
    let post = row.subrange(c, row.len() as int);
    if rows.len() == 1 {
        seq![pre + rows[0] + post]
    } else {
        seq![pre + rows[0]] + rows.subrange(1, rows.len() - 1) + seq![rows.last() + post]
    }
}

/// The document with `t` inserted at `p`; a `'\n'` in `t` starts a new row.
pub open spec fn insert_text_doc(d: Seq<Seq<char>>, p: (int, int), t: Seq<char>) -> Seq<Seq<char>> {
    d.subrange(0, p.0) + inserted_rows(d[p.0], p.1, t) + d.subrange(p.0 + 1, d.len() as int)
}

/// A copy of `s`.
pub fn copy_row(s: &Vec<char>) -> (r: Vec<char>)
    ensures
        r@ == s@,
{
    let mut r: Vec<char> = Vec::new();
    append_chars(&mut r, s, 0, s.len());
    proof {
        assert(r@ =~= s@);
    }
    r
}

/// A copy of every row.
pub fn copy_lines(lines: &Vec<Vec<char>>) -> (r: Vec<Vec<char>>)
    ensures
        doc(r) == doc(*lines),
{
    let mut r: Vec<Vec<char>> = Vec::new();
    let mut i: usize = 0;
    while i < lines.len()
        invariant
            i <= lines.len(),
            doc(r) == doc(*lines).subrange(0, i as int),
        decreases lines.len() - i,
    {
        let ghost prev = doc(r);
        proof {
            lemma_doc(r);
            lemma_doc(*lines);
        }
        r.push(copy_row(&lines[i]));
        i += 1;
        proof {
            lemma_doc(r);
            assert(doc(r) =~= doc(*lines).subrange(0, i as int));
        }
    }
    proof {
        assert(doc(*lines).subrange(0, lines.len() as int) =~= doc(*lines));
    }
    r
}

impl EditorState {
    /// Replaces `k` rows from row `at` with `new_rows`.
    pub fn splice_rows(&mut self, at: usize, k: usize, new_rows: Vec<Vec<char>>)
        requires
            at + k <= old(self).lines.len(),
        ensures
            final(self).d() == old(self).d().subrange(0, at as int) + doc(new_rows)
                + old(self).d().subrange(at + k, old(self).d().len() as int),
            final(self).cursor == old(self).cursor,
            final(self).mode == old(self).mode,
            final(self).selection == old(self).selection,
    {
        proof {
            lemma_doc(self.lines);
            lemma_doc(new_rows);
        }
        let ghost d = self.d();
        let ghost nr = doc(new_rows);
        let mut j: usize = 0;
        while j < k
            invariant
                j <= k,
                at + k <= d.len(),
                self.lines.len() == d.len() - j,
                doc(self.lines) == d.subrange(0, at as int) + d.subrange(at + j, d.len() as int),
                self.cursor == old(self).cursor,
                self.mode == old(self).mode,
                self.selection == old(self).selection,
            decreases k - j,
        {
            let ghost prev = doc(self.lines);
            proof {
                lemma_doc(self.lines);
            }
            self.lines.remove(at);
            proof {
                lemma_doc(self.lines);
                assert(doc(self.lines) =~= prev.remove(at as int));
                assert(doc(self.lines) =~= d.subrange(0, at as int) + d.subrange(at + j + 1, d.len() as int));
            }
            j += 1;
        }
        let mut rows = new_rows;
        let mut i: usize = 0;
        let n = rows.len();
        let ghost rest = d.subrange(at + k, d.len() as int);
        while i < n
            invariant
                i <= n == nr.len(),
                rows.len() == n - i,
                forall|q: int| 0 <= q < rows.len() ==> #[trigger] rows@[q]@ == nr[q + i],
                self.lines.len() == at + i + rest.len(),
                doc(self.lines) == d.subrange(0, at as int) + nr.subrange(0, i as int) + rest,
                self.cursor == old(self).cursor,
                self.mode == old(self).mode,
                self.selection == old(self).selection,
            decreases n - i,
        {
            let ghost prev = doc(self.lines);
            proof {
                lemma_doc(self.lines);
            }
            let row = rows.remove(0);
            self.lines.insert(at + i, row);
            proof {
                lemma_doc(self.lines);
                assert(doc(self.lines) =~= prev.insert(at + i, nr[i as int]));
                assert(doc(self.lines) =~= d.subrange(0, at as int) + nr.subrange(0, i + 1) + rest);
            }
            i += 1;
        }
        proof {
            assert(nr.subrange(0, n as int) =~= nr);
        }
    }

    /// Inserts `t` at `p`; the cursor is left where it was.
    pub fn insert_text(&mut self, p: Index2, t: &Vec<char>)
        requires
            valid_pos(old(self).d(), p.pos()),
        ensures
            final(self).d() == insert_text_doc(old(self).d(), p.pos(), t@),
            final(self).cursor == old(self).cursor,
            final(self).mode == old(self).mode,
            final(self).selection == old(self).selection,
    {
        proof {
            lemma_doc(self.lines);
        }
        let ghost d = self.d();
        let row = &self.lines[p.row];
        let ghost rs = row@;
        let mut rows = split_text(t);
        proof {
            lemma_split_lines_nonempty(t@);
            lemma_doc(rows);
        }
        let ghost sp = doc(rows);
        let n = rows.len();
        let mut first: Vec<char> = Vec::new();
        append_chars(&mut first, row, 0, p.col);
        let mut post: Vec<char> = Vec::new();
        append_chars(&mut post, row, p.col, row.len());
        assert(sp.len() == n);
        assert(rs == d[p.row as int]);
        let mut head = rows.remove(0);
        assert(head@ == sp[0]);
        assert(forall|q: int| 0 <= q < rows.len() ==> #[trigger] rows@[q]@ == sp[q + 1]);
        let mut mid: Vec<Vec<char>> = Vec::new();
        if n == 1 {
            append_chars(&mut first, &head, 0, head.len());
            append_chars(&mut first, &post, 0, post.len());
            mid.push(first);
            proof {
                lemma_doc(mid);
                assert(head@.subrange(0, head@.len() as int) =~= head@);
                assert(post@.subrange(0, post@.len() as int) =~= post@);
                assert(doc(mid)[0] == rs.subrange(0, p.col as int) + sp[0] + rs.subrange(p.col as int, rs.len() as int));
                assert(doc(mid) =~= inserted_rows(rs, p.col as int, t@));
            }
        } else {
            append_chars(&mut first, &head, 0, head.len());
            assert(head@.subrange(0, head@.len() as int) =~= head@);
            mid.push(first);
            let mut last = rows.pop().unwrap();
            assert(last@ == sp[n - 1]);
            append_chars(&mut last, &post, 0, post.len());
            assert(post@.subrange(0, post@.len() as int) =~= post@);
            assert(forall|q: int| 0 <= q < rows.len() ==> #[trigger] rows@[q]@ == sp[q + 1]);
            let ghost midrows = rows@;
            let mut i: usize = 0;
            let m = rows.len();
            while i < m
                invariant
                    i <= m == rows.len(),
                    m == n - 2,
                    sp.len() == n,
                    rows@ == midrows,
                    forall|q: int| 0 <= q < m ==> #[trigger] midrows[q]@ == sp[q + 1],
                    mid.len() == i + 1,
                    mid@[0]@ == rs.subrange(0, p.col as int) + sp[0],
                    forall|q: int| 1 <= q <= i ==> #[trigger] mid@[q]@ == sp[q],
                decreases m - i,
            {
                mid.push(copy_row(&rows[i]));
                i += 1;
            }
            mid.push(last);
            proof {
                lemma_doc(mid);
                assert(doc(mid).len() == n);
                assert(forall|q: int| 1 <= q < n - 1 ==> doc(mid)[q] == sp[q]);
                assert(doc(mid) =~= inserted_rows(rs, p.col as int, t@));
            }
        }
        self.splice_rows(p.row, 1, mid);
    }
}

} // verus!
