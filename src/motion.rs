use vstd::prelude::*;
use crate::buffer::{Index2, doc, lemma_doc, last_row, last_col};
use crate::chars::{is_ws, class_code, char_class, whitespace};

verus! {

/// The first column at or after `c` holding a non-whitespace character, or
/// the row's length if there is none.
pub open spec fn first_non_ws_from(s: Seq<char>, c: int) -> int
    decreases s.len() - c,
{
    if c < 0 || c >= s.len() {
        s.len() as int
    } else if !is_ws(s[c]) {
        c
    } else {
        first_non_ws_from(s, c + 1)
    }
}

/// The first non-whitespace position at or after `(r, c)`, crossing into
/// later rows from their first column; when there is none, the start
/// position on the last row reached, with `false`.
pub open spec fn skip_ws_spec(d: Seq<Seq<char>>, r: int, c: int) -> (int, int, bool)
    decreases d.len() - r,
{
    if r < 0 || r >= d.len() {
        (r, c, false)
    } else if first_non_ws_from(d[r], c) < d[r].len() {
        (r, first_non_ws_from(d[r], c), true)
    } else if r >= last_row(d) {
        (r, c, false)
    } else {
        skip_ws_spec(d, r + 1, 0)
    }
}

/// The first column at or after `i` whose class is not `k`, or the length.
pub open spec fn run_end_from(s: Seq<char>, i: int, k: u8) -> int
    decreases s.len() - i,
{
    if i < 0 || i >= s.len() {
        s.len() as int
    } else if class_code(s[i]) != k {
        i
    } else {
        run_end_from(s, i + 1, k)
    }
}

/// The first column of the run of class `k` that ends at column `i`.
pub open spec fn run_start(s: Seq<char>, i: int, k: u8) -> int
    decreases i,
{
    if i <= 0 {
        0
    } else if class_code(s[i - 1]) != k {
        i
    } else {
        run_start(s, i - 1, k)
    }
}

/// The last column at or before `i` that holds a non-whitespace character, or 0.
pub open spec fn skip_ws_rev_spec(s: Seq<char>, i: int) -> int
    decreases i,
{
    if i <= 0 {
        0
    } else if !is_ws(s[i]) {
        i
    } else {
        skip_ws_rev_spec(s, i - 1)
    }
}

/// One `w` motion from `(r, c)`.
pub open spec fn word_forward_once(d: Seq<Seq<char>>, r: int, c: int) -> (int, int) {
    if c >= last_col(d, r) {
        if r >= last_row(d) {
            (r, c)
        } else {
            (skip_ws_spec(d, r + 1, 0).0, skip_ws_spec(d, r + 1, 0).1)
        }
    } else {
        let e = run_end_from(d[r], c + 1, class_code(d[r][c]));
        if e >= d[r].len() {
            if r >= last_row(d) {
                (r, last_col(d, r))
            } else {
                (skip_ws_spec(d, r + 1, 0).0, skip_ws_spec(d, r + 1, 0).1)
            }
        } else {
            (skip_ws_spec(d, r, e).0, skip_ws_spec(d, r, e).1)
        }
    }
}

/// One `b` motion from `(r, c)`.
pub open spec fn word_back_once(d: Seq<Seq<char>>, r: int, c: int) -> (int, int)
    decreases r, c,
{
    if r <= 0 && c <= 0 {
        (r, c)
    } else if c <= 0 {
        word_back_once(d, r - 1, last_col(d, r - 1))
    } else {
        let i = skip_ws_rev_spec(d[r], c - 1);
        if is_ws(d[r][i]) && r > 0 {
            // only column 0 can still hold whitespace here
            word_back_once(d, r, 0)
        } else {
            (r, run_start(d[r], i, class_code(d[r][i])))
        }
    }
}

/// One `e` motion from `(r, c)`.
pub open spec fn word_end_once(d: Seq<Seq<char>>, r: int, c: int) -> (int, int) {
    if c >= last_col(d, r) && r >= last_row(d) {
        (r, c)
    } else {
        let t = if c >= last_col(d, r) {
            skip_ws_spec(d, r + 1, 0)
        } else {
            skip_ws_spec(d, r, c + 1)
        };
        if !t.2 {
            (r, c)
        } else {
            (t.0, run_end_from(d[t.0], t.1 + 1, class_code(d[t.0][t.1])) - 1)
        }
    }
}

/// A document with at least one row, and a position on one of its rows that
/// is at most one past the row's last character.
pub open spec fn valid_pos(d: Seq<Seq<char>>, p: (int, int)) -> bool {
    &&& d.len() > 0
    &&& 0 <= p.0 < d.len()
    &&& 0 <= p.1 <= d[p.0].len()
}

proof fn lemma_first_non_ws_bounds(s: Seq<char>, c: int)
    requires
        0 <= c,
    ensures
        c <= first_non_ws_from(s, c) <= s.len() || (c > s.len() && first_non_ws_from(s, c) == s.len()),
        first_non_ws_from(s, c) < s.len() ==> !is_ws(s[first_non_ws_from(s, c)]),
    decreases s.len() - c,
{
    if c < s.len() && is_ws(s[c]) {
        lemma_first_non_ws_bounds(s, c + 1);
    }
}

proof fn lemma_skip_ws_bounds(d: Seq<Seq<char>>, r: int, c: int)
    requires
        d.len() > 0,
        0 <= r < d.len(),
        0 <= c,
    ensures
        r <= skip_ws_spec(d, r, c).0 < d.len(),
        skip_ws_spec(d, r, c).2 ==> {
            let t = skip_ws_spec(d, r, c);
            0 <= t.1 < d[t.0].len() && !is_ws(d[t.0][t.1])
        },
        !skip_ws_spec(d, r, c).2 ==> skip_ws_spec(d, r, c).0 == last_row(d),
        !skip_ws_spec(d, r, c).2 && skip_ws_spec(d, r, c).0 == r ==> skip_ws_spec(d, r, c).1 == c,
        !skip_ws_spec(d, r, c).2 && skip_ws_spec(d, r, c).0 != r ==> skip_ws_spec(d, r, c).1 == 0,
        skip_ws_spec(d, r, c).0 == r ==> skip_ws_spec(d, r, c).1 >= c,
    decreases d.len() - r,
{
    lemma_first_non_ws_bounds(d[r], c);
    if first_non_ws_from(d[r], c) < d[r].len() {
    } else if r >= last_row(d) {
    } else {
        lemma_skip_ws_bounds(d, r + 1, 0);
    }
}

proof fn lemma_run_end_bounds(s: Seq<char>, i: int, k: u8)
    requires
        0 <= i,
    ensures
        i <= run_end_from(s, i, k) <= s.len() || (i > s.len() && run_end_from(s, i, k) == s.len()),
        forall|j: int| i <= j < run_end_from(s, i, k) ==> class_code(#[trigger] s[j]) == k,
    decreases s.len() - i,
{
    if i < s.len() && class_code(s[i]) == k {
        lemma_run_end_bounds(s, i + 1, k);
    }
}

proof fn lemma_run_start_bounds(s: Seq<char>, i: int, k: u8)
    requires
        0 <= i,
    ensures
        0 <= run_start(s, i, k) <= i,
        forall|j: int| run_start(s, i, k) <= j < i ==> class_code(#[trigger] s[j]) == k,
    decreases i,
{
    if i > 0 && class_code(s[i - 1]) == k {
        lemma_run_start_bounds(s, i - 1, k);
    }
}

proof fn lemma_skip_ws_rev_bounds(s: Seq<char>, i: int)
    requires
        0 <= i,
    ensures
        0 <= skip_ws_rev_spec(s, i) <= i,
        skip_ws_rev_spec(s, i) > 0 ==> !is_ws(s[skip_ws_rev_spec(s, i)]),
    decreases i,
{
    if i > 0 && is_ws(s[i]) {
        lemma_skip_ws_rev_bounds(s, i - 1);
    }
}

/// Moves `idx` to the first non-whitespace position at or after it, crossing
/// rows; returns whether one was found.
fn skip_ws(lines: &Vec<Vec<char>>, idx: &mut Index2) -> (found: bool)
    requires
        lines.len() > 0,
        old(idx).row < lines.len(),
    ensures
        (final(idx).row as int, final(idx).col as int, found)
            == skip_ws_spec(doc(*lines), old(idx).row as int, old(idx).col as int),
{
    let ghost d = doc(*lines);
    proof {
        lemma_doc(*lines);
    }
    let ghost target = skip_ws_spec(d, idx.row as int, idx.col as int);
    let last_row: usize = lines.len() - 1;
    loop
        invariant
            d == doc(*lines),
            lines.len() > 0,
            last_row == lines.len() - 1,
            idx.row < lines.len(),
            skip_ws_spec(d, idx.row as int, idx.col as int) == target,
            target == skip_ws_spec(d, old(idx).row as int, old(idx).col as int),
        decreases lines.len() - idx.row,
    {
        let line = &lines[idx.row];
        let row = idx.row;
        let col = idx.col;
        assert(line@ == d[row as int]);
        let mut i: usize = col;
        while i < line.len()
            invariant
                col <= i,
                row < d.len(),
                line@ == d[row as int],
                first_non_ws_from(line@, col as int) == first_non_ws_from(line@, i as int),
            ensures
                i < line.len() ==> !is_ws(line@[i as int]),
                first_non_ws_from(line@, col as int) == first_non_ws_from(line@, i as int),
            decreases line.len() - i,
        {
            if !whitespace(line[i]) {
                break;
            }
            i += 1;
        }
        if i < line.len() {
            idx.col = i;
            return true;
        }
        if idx.row >= last_row {
            return false;
        }
        idx.row += 1;
        idx.col = 0;
    }
}

/// Moves `idx` back over whitespace on its own row, stopping at column 0.
fn skip_ws_rev(lines: &Vec<Vec<char>>, idx: &mut Index2)
    requires
        old(idx).row < lines.len(),
        old(idx).col < lines@[old(idx).row as int].len(),
    ensures
        final(idx).row == old(idx).row,
        final(idx).col as int == skip_ws_rev_spec(doc(*lines)[old(idx).row as int], old(idx).col as int),
{
    proof {
        lemma_doc(*lines);
    }
    let ghost s = doc(*lines)[idx.row as int];
    let line = &lines[idx.row];
    assert(line@ == s);
    assert(idx.col < s.len());
    loop
        invariant
            line@ == s,
            s == doc(*lines)[old(idx).row as int],
            idx.col < line.len(),
            idx.row == old(idx).row,
            skip_ws_rev_spec(s, idx.col as int) == skip_ws_rev_spec(s, old(idx).col as int),
        decreases idx.col,
    {
        if !whitespace(line[idx.col]) {
            return;
        }
        if idx.col == 0 {
            return;
        }
        idx.col -= 1;
    }
}

} // verus!

verus! {

/// Moves `cur` one word forward (`w`).
pub fn word_forward_step(lines: &Vec<Vec<char>>, cur: &mut Index2)
    requires
        valid_pos(doc(*lines), old(cur).pos()),
    ensures
        final(cur).pos() == word_forward_once(doc(*lines), old(cur).row as int, old(cur).col as int),
        valid_pos(doc(*lines), final(cur).pos()),
{
    proof {
        lemma_doc(*lines);
    }
    let ghost d = doc(*lines);
    let c0 = *cur;
    let last_row: usize = lines.len() - 1;
    let line = &lines[c0.row];
    assert(line@ == d[c0.row as int]);
    let line_len: usize = line.len();
    let last_col: usize = if line_len == 0 { 0 } else { line_len - 1 };
    if c0.col >= last_col {
        if c0.row >= last_row {
            return;
        }
        *cur = Index2::new(c0.row + 1, 0);
        skip_ws(lines, cur);
        proof {
            lemma_skip_ws_bounds(d, c0.row + 1, 0);
        }
        return;
    }
    let start_class = char_class(&line[c0.col]);
    let mut i: usize = c0.col + 1;
    while i < line_len
        invariant
            c0.col + 1 <= i <= line_len,
            line_len == line.len(),
            run_end_from(line@, c0.col + 1, start_class) == run_end_from(line@, i as int, start_class),
        ensures
            run_end_from(line@, c0.col + 1, start_class) == i as int,
        decreases line_len - i,
    {
        if char_class(&line[i]) != start_class {
            break;
        }
        i += 1;
    }
    if i >= line_len {
        if c0.row >= last_row {
            *cur = Index2::new(c0.row, last_col);
        } else {
            *cur = Index2::new(c0.row + 1, 0);
            skip_ws(lines, cur);
            proof {
                lemma_skip_ws_bounds(d, c0.row + 1, 0);
            }
        }
        return;
    }
    *cur = Index2::new(c0.row, i);
    skip_ws(lines, cur);
    proof {
        lemma_skip_ws_bounds(d, c0.row as int, i as int);
    }
}

/// Moves `cur` back to the start of the previous word (`b`).
pub fn word_back_step(lines: &Vec<Vec<char>>, cur: &mut Index2)
    requires
        valid_pos(doc(*lines), old(cur).pos()),
    ensures
        final(cur).pos() == word_back_once(doc(*lines), old(cur).row as int, old(cur).col as int),
        valid_pos(doc(*lines), final(cur).pos()),
{
    proof {
        lemma_doc(*lines);
    }
    let ghost d = doc(*lines);
    let ghost target = word_back_once(d, cur.row as int, cur.col as int);
    loop
        invariant
            d == doc(*lines),
            d.len() == lines.len(),
            forall|i: int| 0 <= i < lines.len() ==> #[trigger] d[i] == lines@[i]@,
            valid_pos(d, cur.pos()),
            word_back_once(d, cur.row as int, cur.col as int) == target,
            target == word_back_once(d, old(cur).row as int, old(cur).col as int),
        decreases cur.row, cur.col,
    {
        let r = cur.row;
        let c = cur.col;
        if r == 0 && c == 0 {
            return;
        }
        if c == 0 {
            let prev = r - 1;
            let len = lines[prev].len();
            cur.row = prev;
            cur.col = if len == 0 { 0 } else { len - 1 };
            continue;
        }
        let line = &lines[r];
        assert(line@ == d[r as int]);
        let mut idx = Index2::new(r, c - 1);
        skip_ws_rev(lines, &mut idx);
        proof {
            lemma_skip_ws_rev_bounds(line@, c - 1);
        }
        let ch = line[idx.col];
        if whitespace(ch) && r > 0 {
            cur.col = idx.col;
            continue;
        }
        let k = char_class(&ch);
        let i = idx.col;
        let mut j: usize = i;
        while j > 0
            invariant
                j <= i,
                i < line.len(),
                run_start(line@, i as int, k) == run_start(line@, j as int, k),
            ensures
                run_start(line@, i as int, k) == j as int,
            decreases j,
        {
            if char_class(&line[j - 1]) != k {
                break;
            }
            j -= 1;
        }
        cur.col = j;
        return;
    }
}

/// Moves `cur` to the end of the current or next word (`e`).
pub fn word_end_step(lines: &Vec<Vec<char>>, cur: &mut Index2)
    requires
        valid_pos(doc(*lines), old(cur).pos()),
    ensures
        final(cur).pos() == word_end_once(doc(*lines), old(cur).row as int, old(cur).col as int),
        valid_pos(doc(*lines), final(cur).pos()),
{
    proof {
        lemma_doc(*lines);
    }
    let ghost d = doc(*lines);
    let c0 = *cur;
    let last_row: usize = lines.len() - 1;
    let line_len: usize = lines[c0.row].len();
    let last_col: usize = if line_len == 0 { 0 } else { line_len - 1 };
    let is_last_col = c0.col >= last_col;
    if is_last_col && c0.row >= last_row {
        return;
    }
    let mut start = if is_last_col {
        Index2::new(c0.row + 1, 0)
    } else {
        Index2::new(c0.row, c0.col + 1)
    };
    let ghost s0 = start;
    if !skip_ws(lines, &mut start) {
        return;
    }
    proof {
        lemma_skip_ws_bounds(d, s0.row as int, s0.col as int);
    }
    let line = &lines[start.row];
    assert(line@ == d[start.row as int]);
    assert(skip_ws_spec(d, s0.row as int, s0.col as int).2);
    assert(start.col < line.len());
    let k = char_class(&line[start.col]);
    let mut i: usize = start.col + 1;
    while i < line.len()
        invariant
            start.col + 1 <= i <= line.len(),
            run_end_from(line@, start.col + 1, k) == run_end_from(line@, i as int, k),
        ensures
            run_end_from(line@, start.col + 1, k) == i as int,
        decreases line.len() - i,
    {
        if char_class(&line[i]) != k {
            break;
        }
        i += 1;
    }
    *cur = Index2::new(start.row, i - 1);
}

} // verus!

verus! {

/// `n` repetitions of `w`.
pub open spec fn word_forward_n(d: Seq<Seq<char>>, p: (int, int), n: nat) -> (int, int)
    decreases n,
{
    if n == 0 {
        p
    } else {
        let q = word_forward_n(d, p, (n - 1) as nat);
        word_forward_once(d, q.0, q.1)
    }
}

/// `n` repetitions of `b`.
pub open spec fn word_back_n(d: Seq<Seq<char>>, p: (int, int), n: nat) -> (int, int)
    decreases n,
{
    if n == 0 {
        p
    } else {
        let q = word_back_n(d, p, (n - 1) as nat);
        word_back_once(d, q.0, q.1)
    }
}

/// `n` repetitions of `e`.
pub open spec fn word_end_n(d: Seq<Seq<char>>, p: (int, int), n: nat) -> (int, int)
    decreases n,
{
    if n == 0 {
        p
    } else {
        let q = word_end_n(d, p, (n - 1) as nat);
        word_end_once(d, q.0, q.1)
    }
}

/// The run of one class that holds column `c` of a row: its first and last column.
pub open spec fn inner_word(s: Seq<char>, c: int) -> (int, int) {
    (run_start(s, c, class_code(s[c])), run_end_from(s, c + 1, class_code(s[c])) - 1)
}

/// Moves `cur` forward by `n` words.
pub fn word_forward_from(lines: &Vec<Vec<char>>, cur: &mut Index2, n: usize)
    requires
        valid_pos(doc(*lines), old(cur).pos()),
    ensures
        final(cur).pos() == word_forward_n(doc(*lines), old(cur).pos(), n as nat),
        valid_pos(doc(*lines), final(cur).pos()),
{
    let ghost origin = cur.pos();
    let mut i: usize = 0;
    while i < n
        invariant
            i <= n,
            valid_pos(doc(*lines), cur.pos()),
            cur.pos() == word_forward_n(doc(*lines), origin, i as nat),
            origin == old(cur).pos(),
        decreases n - i,
    {
        word_forward_step(lines, cur);
        i += 1;
    }
}

/// Moves `cur` back by `n` words.
pub fn word_back_from(lines: &Vec<Vec<char>>, cur: &mut Index2, n: usize)
    requires
        valid_pos(doc(*lines), old(cur).pos()),
    ensures
        final(cur).pos() == word_back_n(doc(*lines), old(cur).pos(), n as nat),
        valid_pos(doc(*lines), final(cur).pos()),
{
    let ghost origin = cur.pos();
    let mut i: usize = 0;
    while i < n
        invariant
            i <= n,
            valid_pos(doc(*lines), cur.pos()),
            cur.pos() == word_back_n(doc(*lines), origin, i as nat),
            origin == old(cur).pos(),
        decreases n - i,
    {
        word_back_step(lines, cur);
        i += 1;
    }
}

/// Moves `cur` to the end of a word `n` times.
pub fn word_end_from(lines: &Vec<Vec<char>>, cur: &mut Index2, n: usize)
    requires
        valid_pos(doc(*lines), old(cur).pos()),
    ensures
        final(cur).pos() == word_end_n(doc(*lines), old(cur).pos(), n as nat),
        valid_pos(doc(*lines), final(cur).pos()),
{
    let ghost origin = cur.pos();
    let mut i: usize = 0;
    while i < n
        invariant
            i <= n,
            valid_pos(doc(*lines), cur.pos()),
            cur.pos() == word_end_n(doc(*lines), origin, i as nat),
            origin == old(cur).pos(),
        decreases n - i,
    {
        word_end_step(lines, cur);
        i += 1;
    }
}

/// The first and last column of the run of one class (word, whitespace or
/// punctuation) under column `col` of `line`; `None` when `col` is past the end.
pub fn inner_word_bounds(line: &Vec<char>, col: usize) -> (r: Option<(usize, usize)>)
    ensures
        col >= line.len() ==> r is None,
        col < line.len() ==> r is Some,
        r matches Some((a, b)) ==> a as int == inner_word(line@, col as int).0 && b as int == inner_word(line@, col as int).1,
        r matches Some((a, b)) ==> a <= col <= b < line.len(),
{
    let len = line.len();
    if len == 0 || col >= len {
        return None;
    }
    let k = char_class(&line[col]);
    let mut start: usize = col;
    while start > 0
        invariant
            start <= col < len,
            len == line.len(),
            run_start(line@, col as int, k) == run_start(line@, start as int, k),
        ensures
            run_start(line@, col as int, k) == start as int,
        decreases start,
    {
        if char_class(&line[start - 1]) != k {
            break;
        }
        start -= 1;
    }
    let mut end: usize = col;
    while end + 1 < len
        invariant
            col <= end < len,
            len == line.len(),
            run_end_from(line@, col + 1, k) == run_end_from(line@, end + 1, k),
        ensures
            run_end_from(line@, col + 1, k) == end + 1,
        decreases len - end,
    {
        if char_class(&line[end + 1]) != k {
            break;
        }
        end += 1;
    }
    proof {
        lemma_run_start_bounds(line@, col as int, k);
        lemma_run_end_bounds(line@, col + 1, k);
    }
    Some((start, end))
}

} // verus!

verus! {

/// At the last column of the last row, `w` does not move the cursor, however
/// often it is repeated.
pub proof fn lemma_word_forward_at_end_is_noop(d: Seq<Seq<char>>, p: (int, int), n: nat)
    requires
        valid_pos(d, p),
        p.0 == last_row(d),
        p.1 >= last_col(d, p.0),
    ensures
        word_forward_n(d, p, n) == p,
    decreases n,
{
    if n > 0 {
        lemma_word_forward_at_end_is_noop(d, p, (n - 1) as nat);
    }
}

} // verus!

verus! {

/// A separator: whitespace of the whitespace class.
pub open spec fn is_sep(c: char) -> bool {
    is_ws(c) && class_code(c) == 1
}

/// A word character that is not whitespace.
pub open spec fn is_wordc(c: char) -> bool {
    !is_ws(c) && class_code(c) == 0
}

/// A row of words of word characters, separated by single separators, with
/// no separator at either end (such as `"hello big world"`).
pub open spec fn canonical(s: Seq<char>) -> bool {
    &&& s.len() > 0
    &&& forall|i: int| 0 <= i < s.len() ==> is_sep(#[trigger] s[i]) || is_wordc(s[i])
    &&& is_wordc(s[0])
    &&& is_wordc(s.last())
    &&& forall|i: int| 0 <= i < s.len() - 1 ==> !(is_sep(#[trigger] s[i]) && is_sep(s[i + 1]))
}

/// Column `c` starts a word.
pub open spec fn word_start(s: Seq<char>, c: int) -> bool {
    0 <= c < s.len() && is_wordc(s[c]) && (c == 0 || is_sep(s[c - 1]))
}

/// The first separator at or after `i`, or the length.
pub open spec fn next_sep(s: Seq<char>, i: int) -> int
    decreases s.len() - i,
{
    if i < 0 || i >= s.len() {
        s.len() as int
    } else if is_sep(s[i]) {
        i
    } else {
        next_sep(s, i + 1)
    }
}

/// How many separators stand at or after `i`.
pub open spec fn seps_from(s: Seq<char>, i: int) -> nat
    decreases s.len() - i,
{
    if i < 0 || i >= s.len() {
        0
    } else {
        (if is_sep(s[i]) { 1nat } else { 0nat }) + seps_from(s, i + 1)
    }
}

proof fn lemma_next_sep(s: Seq<char>, i: int)
    requires
        0 <= i,
    ensures
        i <= next_sep(s, i) <= s.len() || (i > s.len() && next_sep(s, i) == s.len()),
        forall|j: int| i <= j < next_sep(s, i) ==> !is_sep(#[trigger] s[j]),
        next_sep(s, i) < s.len() ==> is_sep(s[next_sep(s, i)]),
        next_sep(s, i) < s.len() ==> seps_from(s, i) == seps_from(s, next_sep(s, i) + 1) + 1,
        next_sep(s, i) >= s.len() ==> seps_from(s, i) == 0,
    decreases s.len() - i,
{
    if i < s.len() && !is_sep(s[i]) {
        lemma_next_sep(s, i + 1);
    }
}

proof fn lemma_run_end_canonical(s: Seq<char>, i: int)
    requires
        canonical(s),
        0 <= i,
    ensures
        run_end_from(s, i, 0) == next_sep(s, i),
    decreases s.len() - i,
{
    if i < s.len() {
        assert(is_sep(s[i]) || is_wordc(s[i]));
        if !is_sep(s[i]) {
            lemma_run_end_canonical(s, i + 1);
        }
    }
}

proof fn lemma_run_start_canonical(s: Seq<char>, c: int, j: int)
    requires
        canonical(s),
        word_start(s, c),
        c <= j < s.len(),
        forall|q: int| c <= q <= j ==> is_wordc(#[trigger] s[q]),
    ensures
        run_start(s, j, 0) == c,
    decreases j - c,
{
    if j > c {
        assert(is_wordc(s[j - 1]));
        lemma_run_start_canonical(s, c, j - 1);
    }
}

/// On a canonical row, `w` from a word start that has a separator after it
/// lands just past that separator, and `b` from there comes back.
proof fn lemma_step_round_trip(s: Seq<char>, c: int)
    requires
        canonical(s),
        word_start(s, c),
        seps_from(s, c) >= 1,
    ensures
        ({
            let sp = next_sep(s, c);
            &&& word_forward_once(seq![s], 0, c) == (0int, sp + 1)
            &&& word_start(s, sp + 1)
            &&& seps_from(s, sp + 1) == seps_from(s, c) - 1
            &&& word_back_once(seq![s], 0, sp + 1) == (0int, c)
        }),
{
    let d = seq![s];
    lemma_next_sep(s, c);
    let sp = next_sep(s, c);
    assert(sp < s.len());
    assert(sp != s.len() - 1);
    assert(c < sp);
    assert(is_wordc(s[sp + 1])) by {
        assert(is_sep(s[sp + 1]) || is_wordc(s[sp + 1]));
    }
    // forward
    lemma_next_sep(s, c + 1);
    assert(next_sep(s, c) == next_sep(s, c + 1));
    lemma_run_end_canonical(s, c + 1);
    assert(d[0] == s);
    assert(first_non_ws_from(s, sp + 1) == sp + 1);
    assert(first_non_ws_from(s, sp) == sp + 1);
    assert(skip_ws_spec(d, 0, sp) == (0int, sp + 1, true));
    // backward
    assert(forall|q: int| c <= q <= sp - 1 ==> is_wordc(#[trigger] s[q])) by {
        assert forall|q: int| c <= q <= sp - 1 implies is_wordc(#[trigger] s[q]) by {
            assert(!is_sep(s[q]));
            assert(is_sep(s[q]) || is_wordc(s[q]));
        }
    }
    assert(skip_ws_rev_spec(s, sp - 1) == sp - 1);
    assert(skip_ws_rev_spec(s, sp) == sp - 1);
    lemma_run_start_canonical(s, c, sp - 1);
}

proof fn lemma_back_n_unfold(d: Seq<Seq<char>>, x: (int, int), k: nat)
    requires
        k >= 1,
    ensures
        word_back_n(d, x, k) == word_back_n(d, word_back_once(d, x.0, x.1), (k - 1) as nat),
    decreases k,
{
    let bx = word_back_once(d, x.0, x.1);
    if k > 1 {
        lemma_back_n_unfold(d, x, (k - 1) as nat);
        assert(word_back_n(d, x, k) == {
            let q = word_back_n(d, x, (k - 1) as nat);
            word_back_once(d, q.0, q.1)
        });
        assert(word_back_n(d, bx, (k - 1) as nat) == {
            let q = word_back_n(d, bx, (k - 2) as nat);
            word_back_once(d, q.0, q.1)
        });
    } else {
        assert(word_back_n(d, x, 0) == x);
        assert(word_back_n(d, bx, 0) == bx);
    }
}

proof fn lemma_forward_n_canonical(s: Seq<char>, c: int, k: nat)
    requires
        canonical(s),
        word_start(s, c),
        seps_from(s, c) >= k,
    ensures
        word_forward_n(seq![s], (0, c), k).0 == 0,
        word_start(s, word_forward_n(seq![s], (0, c), k).1),
        seps_from(s, word_forward_n(seq![s], (0, c), k).1) == seps_from(s, c) - k,
    decreases k,
{
    if k > 0 {
        lemma_forward_n_canonical(s, c, (k - 1) as nat);
        let q = word_forward_n(seq![s], (0, c), (k - 1) as nat);
        lemma_step_round_trip(s, q.1);
    }
}

/// On a single canonical row, `k` repetitions of `b` undo `k` repetitions of
/// `w` from the start of a word, as long as `w` does not run out of words.
pub proof fn lemma_word_round_trip(s: Seq<char>, c: int, k: nat)
    requires
        canonical(s),
        word_start(s, c),
        seps_from(s, c) >= k,
    ensures
        word_back_n(seq![s], word_forward_n(seq![s], (0, c), k), k) == (0int, c),
    decreases k,
{
    let d = seq![s];
    if k > 0 {
        lemma_forward_n_canonical(s, c, (k - 1) as nat);
        let q = word_forward_n(d, (0, c), (k - 1) as nat);
        lemma_step_round_trip(s, q.1);
        lemma_back_n_unfold(d, word_forward_n(d, (0, c), k), k);
        lemma_word_round_trip(s, c, (k - 1) as nat);
    }
}

} // verus!

verus! {

/// Every whitespace character is of the whitespace class (no character is
/// both whitespace and alphanumeric, as in Unicode).
pub open spec fn ws_in_ws_class(d: Seq<Seq<char>>) -> bool {
    forall|i: int, j: int| 0 <= i < d.len() && 0 <= j < d[i].len() && is_ws(#[trigger] d[i][j]) ==> class_code(d[i][j]) == 1
}

/// Position `(i, j)` holds the first character of a word: a non-whitespace
/// character that starts its row or follows one of another class.
pub open spec fn starts_word(d: Seq<Seq<char>>, i: int, j: int) -> bool {
    &&& 0 <= i < d.len()
    &&& 0 <= j < d[i].len()
    &&& !is_ws(d[i][j])
    &&& (j == 0 || class_code(d[i][j - 1]) != class_code(d[i][j]))
}

/// Position `(i, j)` holds a character and comes at or after `(r, c)`.
pub open spec fn at_or_after(d: Seq<Seq<char>>, r: int, c: int, i: int, j: int) -> bool {
    &&& 0 <= i < d.len()
    &&& 0 <= j < d[i].len()
    &&& (i > r || (i == r && j >= c))
}

proof fn lemma_first_non_ws_scan(s: Seq<char>, c: int, j: int)
    requires
        0 <= c <= j < first_non_ws_from(s, c),
        j < s.len(),
    ensures
        is_ws(s[j]),
    decreases j - c,
{
    if c < j {
        if !is_ws(s[c]) {
            assert(first_non_ws_from(s, c) == c);
        }
        lemma_first_non_ws_scan(s, c + 1, j);
    } else {
        if !is_ws(s[c]) {
            assert(first_non_ws_from(s, c) == c);
        }
    }
}

/// What `skip_ws_spec` finds is the first non-whitespace character at or
/// after the start; when it finds none, there is none.
proof fn lemma_skip_ws_first(d: Seq<Seq<char>>, r: int, c: int)
    requires
        d.len() > 0,
        0 <= r < d.len(),
        0 <= c,
    ensures
        ({
            let t = skip_ws_spec(d, r, c);
            &&& t.2 ==> at_or_after(d, r, c, t.0, t.1) && !is_ws(d[t.0][t.1])
            &&& forall|i: int, j: int| at_or_after(d, r, c, i, j) && (!t.2 || i < t.0 || (i == t.0 && j < t.1))
                ==> is_ws(#[trigger] d[i][j])
        }),
    decreases d.len() - r,
{
    lemma_first_non_ws_bounds(d[r], c);
    let f = first_non_ws_from(d[r], c);
    assert forall|j: int| c <= j < d[r].len() && j < f implies is_ws(#[trigger] d[r][j]) by {
        lemma_first_non_ws_scan(d[r], c, j);
    }
    if f < d[r].len() {
    } else if r >= last_row(d) {
    } else {
        lemma_skip_ws_first(d, r + 1, 0);
    }
}


proof fn lemma_run_end_stops(s: Seq<char>, i: int, k: u8)
    requires
        0 <= i,
        run_end_from(s, i, k) < s.len(),
    ensures
        class_code(s[run_end_from(s, i, k)]) != k,
    decreases s.len() - i,
{
    if i < s.len() && class_code(s[i]) == k {
        lemma_run_end_stops(s, i + 1, k);
    }
}

/// A non-whitespace character found by skipping whitespace from `(r0, c0)`
/// starts a word when the character before the start position, if on the
/// same row, is of another class.
proof fn lemma_skip_lands_on_word(d: Seq<Seq<char>>, r0: int, c0: int)
    requires
        d.len() > 0,
        0 <= r0 < d.len(),
        0 <= c0,
        ws_in_ws_class(d),
        skip_ws_spec(d, r0, c0).2,
        c0 > 0 && c0 < d[r0].len() && !is_ws(d[r0][c0]) ==> class_code(d[r0][c0 - 1]) != class_code(d[r0][c0]),
    ensures
        starts_word(d, skip_ws_spec(d, r0, c0).0, skip_ws_spec(d, r0, c0).1),
        at_or_after(d, r0, c0, skip_ws_spec(d, r0, c0).0, skip_ws_spec(d, r0, c0).1),
        forall|i: int, j: int| at_or_after(d, r0, c0, i, j) && (i < skip_ws_spec(d, r0, c0).0
            || (i == skip_ws_spec(d, r0, c0).0 && j < skip_ws_spec(d, r0, c0).1)) ==> !starts_word(d, i, j),
{
    let t = skip_ws_spec(d, r0, c0);
    lemma_skip_ws_first(d, r0, c0);
    if t.1 > 0 && !(t.0 == r0 && t.1 == c0) {
        assert(at_or_after(d, r0, c0, t.0, t.1 - 1));
        assert(is_ws(d[t.0][t.1 - 1]));
        assert(class_code(d[t.0][t.1 - 1]) == 1);
    }
}

/// Whenever a word starts somewhere after the cursor, `w` lands on the first
/// such start.
pub proof fn lemma_word_forward_finds_next_word(d: Seq<Seq<char>>, r: int, c: int)
    requires
        valid_pos(d, (r, c)),
        ws_in_ws_class(d),
        exists|i: int, j: int| starts_word(d, i, j) && (i > r || (i == r && j > c)),
    ensures
        ({
            let q = word_forward_once(d, r, c);
            &&& starts_word(d, q.0, q.1)
            &&& (q.0 > r || (q.0 == r && q.1 > c))
            &&& forall|i: int, j: int| starts_word(d, i, j) && (i > r || (i == r && j > c))
                ==> !(i < q.0 || (i == q.0 && j < q.1))
        }),
{
    let (wi, wj) = choose|i: int, j: int| starts_word(d, i, j) && (i > r || (i == r && j > c));
    let s = d[r];
    let q = word_forward_once(d, r, c);
    if c >= last_col(d, r) {
        assert(wi > r);
        assert(r < last_row(d));
        lemma_skip_ws_first(d, r + 1, 0);
        assert(at_or_after(d, r + 1, 0, wi, wj));
        lemma_skip_lands_on_word(d, r + 1, 0);
        assert forall|i: int, j: int| starts_word(d, i, j) && (i > r || (i == r && j > c))
            implies !(i < q.0 || (i == q.0 && j < q.1)) by {
            assert(at_or_after(d, r + 1, 0, i, j));
        }
    } else {
        let k = class_code(s[c]);
        let e = run_end_from(s, c + 1, k);
        lemma_run_end_bounds(s, c + 1, k);
        assert forall|j: int| c < j < e implies !starts_word(d, r, j) by {
            assert(class_code(s[j]) == k);
            if j - 1 > c {
                assert(class_code(s[j - 1]) == k);
            }
        }
        if e >= s.len() {
            assert(wi > r);
            lemma_skip_ws_first(d, r + 1, 0);
            assert(at_or_after(d, r + 1, 0, wi, wj));
            lemma_skip_lands_on_word(d, r + 1, 0);
            assert forall|i: int, j: int| starts_word(d, i, j) && (i > r || (i == r && j > c))
                implies !(i < q.0 || (i == q.0 && j < q.1)) by {
                if i > r {
                    assert(at_or_after(d, r + 1, 0, i, j));
                }
            }
        } else {
            lemma_run_end_stops(s, c + 1, k);
            lemma_skip_ws_first(d, r, e);
            if wi == r {
                assert(wj >= e);
            }
            assert(at_or_after(d, r, e, wi, wj));
            lemma_skip_lands_on_word(d, r, e);
            assert forall|i: int, j: int| starts_word(d, i, j) && (i > r || (i == r && j > c))
                implies !(i < q.0 || (i == q.0 && j < q.1)) by {
                if i > r || j >= e {
                    assert(at_or_after(d, r, e, i, j));
                }
            }
        }
    }
}


proof fn lemma_run_start_stops(s: Seq<char>, i: int, k: u8)
    requires
        0 <= i,
        run_start(s, i, k) > 0,
    ensures
        class_code(s[run_start(s, i, k) - 1]) != k,
    decreases i,
{
    if i > 0 && class_code(s[i - 1]) == k {
        lemma_run_start_stops(s, i - 1, k);
    }
}

proof fn lemma_skip_ws_rev_last(s: Seq<char>, x: int)
    requires
        0 <= x < s.len(),
    ensures
        forall|j: int| skip_ws_rev_spec(s, x) < j <= x ==> is_ws(#[trigger] s[j]),
        (exists|j: int| 0 <= j <= x && !is_ws(#[trigger] s[j])) ==> !is_ws(s[skip_ws_rev_spec(s, x)]),
    decreases x,
{
    if x > 0 && is_ws(s[x]) {
        lemma_skip_ws_rev_last(s, x - 1);
        if exists|j: int| 0 <= j <= x && !is_ws(#[trigger] s[j]) {
            let j = choose|j: int| 0 <= j <= x && !is_ws(#[trigger] s[j]);
            assert(j <= x - 1);
        }
    }
}

/// Whenever a word starts before the cursor on its row, `b` lands on the
/// last such start.
pub proof fn lemma_word_back_finds_previous_word(d: Seq<Seq<char>>, r: int, c: int)
    requires
        valid_pos(d, (r, c)),
        ws_in_ws_class(d),
        exists|j: int| j < c && starts_word(d, r, j),
    ensures
        ({
            let q = word_back_once(d, r, c);
            &&& q.0 == r
            &&& q.1 < c
            &&& starts_word(d, r, q.1)
            &&& forall|j: int| q.1 < j < c ==> !starts_word(d, r, j)
        }),
{
    let s = d[r];
    let w = choose|j: int| j < c && starts_word(d, r, j);
    lemma_skip_ws_rev_bounds(s, c - 1);
    lemma_skip_ws_rev_last(s, c - 1);
    assert(0 <= w <= c - 1 && !is_ws(s[w]));
    let i = skip_ws_rev_spec(s, c - 1);
    assert(!is_ws(s[i]));
    let k = class_code(s[i]);
    assert(k != 1);
    lemma_run_start_bounds(s, i, k);
    let rs = run_start(s, i, k);
    assert forall|j: int| rs <= j <= i implies !is_ws(#[trigger] s[j]) by {
        if j < i {
            assert(class_code(s[j]) == k);
        }
    }
    if rs > 0 {
        lemma_run_start_stops(s, i, k);
    }
    assert forall|j: int| rs < j < c implies !starts_word(d, r, j) by {
        if j <= i {
            assert(class_code(s[j - 1]) == k);
            if j < i {
                assert(class_code(s[j]) == k);
            }
        } else {
            assert(is_ws(s[j]));
        }
    }
}

} // verus!
