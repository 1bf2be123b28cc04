//! The mathematical model of a document and of the operations on it.
//!
//! A line is two character sequences, `pre` and `post`: on the active
//! line they are the text before and after the cursor column; on every
//! other line the split merely records where the cursor last sat on it
//! (empty `pre` if it never did), and only their concatenation matters.
//! A document is two line sequences, `pre` and `post`: `pre` holds the
//! lines from the start of the document through the active line, which
//! is always its last element, and `post` holds the rest. The cursor
//! row is the index of the active line and the cursor column is the
//! length of the active line's `pre`.
//!
//! Motions that cross a line boundary move one whole line between the
//! two sequences and leave its recorded split untouched, so the column
//! the cursor lands in is whatever that line's split last was. That is
//! deliberate, preserved behaviour, not a snap to the line's start or
//! end.

use crate::text::{join_lines, lemma_join_split, lemma_split_lines_nonempty, split_lines};
use vstd::prelude::*;

verus! {

/// One line of a document, split into the text before and after the
/// cursor column.
#[verifier::ext_equal]
pub struct LineV {
    pub pre: Seq<char>,
    pub post: Seq<char>,
}

impl LineV {
    /// The full content of the line.
    pub open spec fn text(self) -> Seq<char> {
        self.pre + self.post
    }

    /// A line whose content is `t`, with the cursor split at column 0.
    pub open spec fn fresh(t: Seq<char>) -> LineV {
        LineV { pre: Seq::empty(), post: t }
    }
}

/// A document split at the active line: `pre` ends with the active
/// line and is never empty, `post` holds the lines after it.
#[verifier::ext_equal]
pub struct DocV {
    pub pre: Seq<LineV>,
    pub post: Seq<LineV>,
}

impl DocV {
    /// The one structural invariant: there is always an active line.
    pub open spec fn wf(self) -> bool {
        self.pre.len() >= 1
    }

    /// The line the cursor sits on.
    pub open spec fn active(self) -> LineV {
        self.pre.last()
    }

    /// Row index of the active line.
    pub open spec fn row(self) -> int {
        self.pre.len() - 1
    }

    /// Column index of the cursor within the active line.
    pub open spec fn col(self) -> int {
        self.active().pre.len() as int
    }

    /// How many lines the document has.
    pub open spec fn line_count(self) -> int {
        self.pre.len() + self.post.len() as int
    }

    /// The content of every line, in document order.
    pub open spec fn lines(self) -> Seq<Seq<char>> {
        (self.pre + self.post).map_values(|l: LineV| l.text())
    }

    /// The line at absolute index `i`, wherever the cursor is.
    pub open spec fn line_at(self, i: int) -> LineV {
        if i < self.pre.len() {
            self.pre[i]
        } else {
            self.post[i - self.pre.len()]
        }
    }

    /// The whole text of the document, lines joined by newlines.
    pub open spec fn text(self) -> Seq<char> {
        join_lines(self.lines())
    }
}

/// The document a buffer starts from: the text split on newlines, the
/// first line active, cursor at row 0, column 0.
pub open spec fn doc_new(s: Seq<char>) -> DocV {
    let ls = split_lines(s);
    DocV { pre: seq![LineV::fresh(ls[0])], post: ls.skip(1).map_values(|t: Seq<char>| LineV::fresh(t)) }
}

/// Cursor one step left: take the last character of the active line's
/// `pre` and put it at the front of its `post`; at column 0, fall back
/// to the previous line's recorded split, if there is a previous line.
pub open spec fn doc_move_left(d: DocV) -> DocV {
    let a = d.active();
    if a.pre.len() > 0 {
        let a2 = LineV { pre: a.pre.drop_last(), post: seq![a.pre.last()] + a.post };
        DocV { pre: d.pre.update(d.pre.len() - 1, a2), post: d.post }
    } else if d.pre.len() > 1 {
        DocV { pre: d.pre.drop_last(), post: seq![a] + d.post }
    } else {
        d
    }
}

/// Cursor one step right: the mirror of [`doc_move_left`], moving the
/// first character of `post` or, at line end, the next line in.
pub open spec fn doc_move_right(d: DocV) -> DocV {
    let a = d.active();
    if a.post.len() > 0 {
        let a2 = LineV { pre: a.pre.push(a.post[0]), post: a.post.drop_first() };
        DocV { pre: d.pre.update(d.pre.len() - 1, a2), post: d.post }
    } else if d.post.len() > 0 {
        DocV { pre: d.pre.push(d.post[0]), post: d.post.drop_first() }
    } else {
        d
    }
}

/// Cursor one row down: the next line becomes active, keeping its
/// recorded split; a no-op on the last line.
pub open spec fn doc_move_down(d: DocV) -> DocV {
    if d.post.len() > 0 {
        DocV { pre: d.pre.push(d.post[0]), post: d.post.drop_first() }
    } else {
        d
    }
}

/// Cursor one row up: the active line moves to the front of `post`,
/// keeping its split; a no-op on the first line.
pub open spec fn doc_move_up(d: DocV) -> DocV {
    if d.pre.len() > 1 {
        DocV { pre: d.pre.drop_last(), post: seq![d.pre.last()] + d.post }
    } else {
        d
    }
}

/// Insert one character at the cursor: appended to the active line's
/// `pre`.
pub open spec fn doc_insert_char(d: DocV, c: char) -> DocV {
    let a = d.active();
    let a2 = LineV { pre: a.pre.push(c), post: a.post };
    DocV { pre: d.pre.update(d.pre.len() - 1, a2), post: d.post }
}

/// Delete one character before the cursor; at column 0 the active line
/// merges into the previous one, and on the very first column of the
/// document nothing changes.
pub open spec fn doc_backspace(d: DocV) -> DocV {
    let a = d.active();
    if a.pre.len() > 0 {
        let a2 = LineV { pre: a.pre.drop_last(), post: a.post };
        DocV { pre: d.pre.update(d.pre.len() - 1, a2), post: d.post }
    } else if d.pre.len() > 1 {
        let prev = d.pre[d.pre.len() - 2];
        let merged = LineV { pre: prev.pre, post: prev.post + a.post };
        DocV { pre: d.pre.drop_last().update(d.pre.len() - 2, merged), post: d.post }
    } else {
        d
    }
}

/// Split the active line at the cursor: its `post` moves into a new
/// line pushed below, which becomes active with the cursor at column 0.
pub open spec fn doc_split_line(d: DocV) -> DocV {
    let a = d.active();
    let closed = LineV { pre: a.pre, post: Seq::empty() };
    DocV {
        pre: d.pre.update(d.pre.len() - 1, closed).push(LineV::fresh(a.post)),
        post: d.post,
    }
}

/// `n` consecutive downward motions.
pub open spec fn doc_move_down_n(d: DocV, n: nat) -> DocV
    decreases n,
{
    if n == 0 {
        d
    } else {
        doc_move_down_n(doc_move_down(d), (n - 1) as nat)
    }
}

/// `n` consecutive upward motions.
pub open spec fn doc_move_up_n(d: DocV, n: nat) -> DocV
    decreases n,
{
    if n == 0 {
        d
    } else {
        doc_move_up_n(doc_move_up(d), (n - 1) as nat)
    }
}

/// The characters of `cs` inserted at the cursor, in order.
pub open spec fn doc_insert_chars(d: DocV, cs: Seq<char>) -> DocV
    decreases cs.len(),
{
    if cs.len() == 0 {
        d
    } else {
        doc_insert_chars(doc_insert_char(d, cs[0]), cs.drop_first())
    }
}

/// `n` consecutive backspaces.
pub open spec fn doc_backspace_n(d: DocV, n: nat) -> DocV
    decreases n,
{
    if n == 0 {
        d
    } else {
        doc_backspace_n(doc_backspace(d), (n - 1) as nat)
    }
}

/// Round trip: the document built from any text still spells out that
/// text, so creating a buffer and rendering it gives the text back.
pub proof fn lemma_doc_new_text(s: Seq<char>)
    ensures
        doc_new(s).wf(),
        doc_new(s).text() == s,
{
    lemma_split_lines_nonempty(s);
    let ls = split_lines(s);
    let d = doc_new(s);
    assert(d.lines() =~~= ls) by {
        assert forall|i: int| 0 <= i < ls.len() implies d.lines()[i] =~= ls[i] by {
            if i == 0 {
                assert((d.pre + d.post)[0] == LineV::fresh(ls[0]));
            } else {
                assert((d.pre + d.post)[i] == d.post[i - 1]);
                assert(d.post[i - 1] == LineV::fresh(ls.skip(1)[i - 1]));
                assert(ls.skip(1)[i - 1] == ls[i]);
            }
        }
    }
    lemma_join_split(s);
}

/// Moving down then up across one line is exact: nothing about the
/// document changes, not even the recorded splits.
proof fn lemma_up_undoes_down(d: DocV)
    requires
        d.wf(),
        d.post.len() > 0,
    ensures
        doc_move_up(doc_move_down(d)) == d,
{
    let dn = doc_move_down(d);
    assert(doc_move_up(dn).pre =~= d.pre);
    assert(doc_move_up(dn).post =~= d.post);
    assert(doc_move_up(dn) =~= d);
}

/// Shape of an `n`-fold downward motion while lines remain below: the
/// cursor row advances by exactly `n`.
proof fn lemma_move_down_n_shape(d: DocV, n: nat)
    requires
        d.wf(),
        n <= d.post.len(),
    ensures
        doc_move_down_n(d, n).wf(),
        doc_move_down_n(d, n).pre.len() == d.pre.len() + n,
        doc_move_down_n(d, n).post.len() == d.post.len() - n,
    decreases n,
{
    if n > 0 {
        lemma_move_down_n_shape(doc_move_down(d), (n - 1) as nat);
    }
}

/// Unrolling an `n`-fold downward motion from its far end.
proof fn lemma_move_down_n_last(d: DocV, n: nat)
    requires
        n >= 1,
    ensures
        doc_move_down_n(d, n) == doc_move_down(doc_move_down_n(d, (n - 1) as nat)),
    decreases n,
{
    let m = (n - 1) as nat;
    assert(doc_move_down_n(d, n) == doc_move_down_n(doc_move_down(d), m));
    if n == 1 {
        assert(doc_move_down_n(doc_move_down(d), 0) == doc_move_down(d));
        assert(doc_move_down_n(d, 0) == d);
    } else {
        lemma_move_down_n_last(doc_move_down(d), m);
        assert(doc_move_down_n(d, m) == doc_move_down_n(doc_move_down(d), (m - 1) as nat));
    }
}

/// Motion symmetry: any run of downward motions that stays within the
/// document, followed by as many upward motions, restores the document
/// exactly — in particular the cursor row is back where it started.
pub proof fn lemma_motion_symmetry(d: DocV, n: nat)
    requires
        d.wf(),
        n <= d.post.len(),
    ensures
        doc_move_up_n(doc_move_down_n(d, n), n) == d,
        doc_move_up_n(doc_move_down_n(d, n), n).row() == d.row(),
    decreases n,
{
    if n > 0 {
        let dn1 = doc_move_down_n(d, (n - 1) as nat);
        lemma_move_down_n_last(d, n);
        lemma_move_down_n_shape(d, (n - 1) as nat);
        lemma_up_undoes_down(dn1);
        lemma_motion_symmetry(d, (n - 1) as nat);
        assert(doc_move_up_n(doc_move_down_n(d, n), n) == doc_move_up_n(
            doc_move_up(doc_move_down(dn1)),
            (n - 1) as nat,
        ));
    }
}

/// A backspace right after an insertion is exact: the inserted
/// character goes and everything else stays.
proof fn lemma_backspace_undoes_insert(d: DocV, c: char)
    requires
        d.wf(),
    ensures
        doc_backspace(doc_insert_char(d, c)) == d,
{
    let di = doc_insert_char(d, c);
    assert(di.active().pre.len() > 0);
    assert(doc_backspace(di).pre =~~= d.pre);
    assert(doc_backspace(di) =~~= d);
}

/// Inserting characters never moves the cursor off its line and keeps
/// the document well formed.
proof fn lemma_insert_chars_shape(d: DocV, cs: Seq<char>)
    requires
        d.wf(),
    ensures
        doc_insert_chars(d, cs).wf(),
        doc_insert_chars(d, cs).pre.len() == d.pre.len(),
    decreases cs.len(),
{
    if cs.len() > 0 {
        lemma_insert_chars_shape(doc_insert_char(d, cs[0]), cs.drop_first());
    }
}

/// Unrolling an insertion run from its far end.
proof fn lemma_insert_chars_last(d: DocV, cs: Seq<char>)
    requires
        cs.len() >= 1,
    ensures
        doc_insert_chars(d, cs) == doc_insert_char(doc_insert_chars(d, cs.drop_last()), cs.last()),
    decreases cs.len(),
{
    assert(doc_insert_chars(d, cs) == doc_insert_chars(doc_insert_char(d, cs[0]), cs.drop_first()));
    if cs.len() == 1 {
        assert(cs.drop_last() =~= Seq::<char>::empty());
        assert(cs.drop_first() =~= Seq::<char>::empty());
        assert(doc_insert_chars(doc_insert_char(d, cs[0]), cs.drop_first()) == doc_insert_char(
            d,
            cs[0],
        ));
        assert(doc_insert_chars(d, cs.drop_last()) == d);
    } else {
        lemma_insert_chars_last(doc_insert_char(d, cs[0]), cs.drop_first());
        assert(cs.drop_first().drop_last() =~= cs.drop_last().drop_first());
        assert(cs.drop_first().last() == cs.last());
        assert(cs.drop_last()[0] == cs[0]);
        assert(doc_insert_chars(d, cs.drop_last()) == doc_insert_chars(
            doc_insert_char(d, cs.drop_last()[0]),
            cs.drop_last().drop_first(),
        ));
    }
}

/// Insert then backspace, inverse: inserting any `n` characters and
/// then backspacing `n` times restores the document exactly — the
/// active line's split and the rendered text are as before.
pub proof fn lemma_insert_backspace_inverse(d: DocV, cs: Seq<char>)
    requires
        d.wf(),
    ensures
        doc_backspace_n(doc_insert_chars(d, cs), cs.len()) == d,
        doc_backspace_n(doc_insert_chars(d, cs), cs.len()).text() == d.text(),
    decreases cs.len(),
{
    if cs.len() > 0 {
        let shorter = cs.drop_last();
        let x = doc_insert_chars(d, shorter);
        lemma_insert_chars_last(d, cs);
        lemma_insert_chars_shape(d, shorter);
        lemma_backspace_undoes_insert(x, cs.last());
        lemma_insert_backspace_inverse(d, shorter);
        assert(doc_backspace_n(doc_insert_chars(d, cs), cs.len()) == doc_backspace_n(
            doc_backspace(doc_insert_char(x, cs.last())),
            (cs.len() - 1) as nat,
        ));
    }
}

} // verus!
