//! One open document: its lines, the cursor, the motion and edit
//! operations, the scroll state, and rendering back to text.
//!
//! Every operation is total: at a document boundary a motion or edit
//! that has nothing to do simply does nothing. Each operation's
//! contract states the new document as a function of the old one,
//! using the model in [`crate::doc`].

use crate::doc::{
    doc_backspace, doc_insert_char, doc_move_down, doc_move_left, doc_move_right, doc_move_up,
    doc_new, doc_split_line, lemma_doc_new_text, DocV, LineV,
};
use crate::scroll::{clamp_hscroll, clamp_vscroll};
use crate::text::{join_lines, lemma_join_lines_push, lemma_split_lines_nonempty, split_lines};
use vstd::prelude::*;
use vstd::string::StrSliceExecFns;

verus! {

/// One line of a buffer, kept as the text before and after the cursor
/// column. On every line but the active one the split merely records
/// where the cursor last sat.
pub struct BufferLine {
    pub pre: Vec<char>,
    pub post: Vec<char>,
}

impl View for BufferLine {
    type V = LineV;

    open spec fn view(&self) -> LineV {
        LineV { pre: self.pre@, post: self.post@ }
    }
}

/// One open document with its metadata and scroll state. The lines up
/// to and including the active one are in `pre`, the rest in `post`;
/// `pre` is never empty.
pub struct Buffer {
    /// Display name, and the path written to when the buffer is persistable.
    pub name: String,
    /// Whether the buffer may be written to storage under `name`.
    pub is_file: bool,
    /// Whether the buffer has unsaved edits.
    pub modified: bool,
    /// First visible row of the viewport.
    pub vscroll: usize,
    /// Whether the vertical offset must be recomputed before use.
    pub update_vscroll: bool,
    /// First visible column of the viewport.
    pub hscroll: usize,
    /// Whether the horizontal offset must be recomputed before use.
    pub update_hscroll: bool,
    /// The lines up to and including the active one; never empty. Kept
    /// consistent by the operations below, which all preserve [`Buffer::wf`].
    pub pre: Vec<BufferLine>,
    /// The lines after the active one.
    pub post: Vec<BufferLine>,
}

impl Buffer {
    /// The document this buffer holds.
    pub open spec fn doc(&self) -> DocV {
        DocV {
            pre: self.pre@.map_values(|l: BufferLine| l@),
            post: self.post@.map_values(|l: BufferLine| l@),
        }
    }

    /// Whether the vertical offset must be recomputed before use.
    pub open spec fn vscroll_dirty(&self) -> bool {
        self.update_vscroll
    }

    /// Whether the horizontal offset must be recomputed before use.
    pub open spec fn hscroll_dirty(&self) -> bool {
        self.update_hscroll
    }

    /// There is always an active line.
    pub open spec fn wf(&self) -> bool {
        self.doc().wf()
    }

    /// A buffer over `contents`, split on newlines, with the first
    /// line active and the cursor at row 0, column 0. Rendering it
    /// gives `contents` back.
    pub fn new(name: &str, is_file: bool, contents: &str) -> (b: Buffer)
        ensures
            b.wf(),
            b.doc() == doc_new(contents@),
            b.doc().text() == contents@,
            b.name@ == name@,
            b.is_file == is_file,
            !b.modified,
            b.vscroll == 0,
            b.hscroll == 0,
            !b.vscroll_dirty(),
            !b.hscroll_dirty(),
    {
        let chars = chars_of(contents);
        let mut rest: Vec<BufferLine> = Vec::new();
        let mut cur: Vec<char> = Vec::new();
        let mut i: usize = 0;
        while i < chars.len()
            invariant
                i <= chars@.len(),
                forall|j: int| 0 <= j < rest@.len() ==> #[trigger] rest@[j]@.pre.len() == 0,
                rest@.map_values(|l: BufferLine| l@.post).push(cur@) == split_lines(
                    chars@.take(i as int),
                ),
            decreases chars@.len() - i,
        {
            let ghost rest0 = rest@;
            let ghost cur0 = cur@;
            let c = chars[i];
            if c == '\n' {
                rest.push(BufferLine { pre: Vec::new(), post: cur });
                cur = Vec::new();
            } else {
                cur.push(c);
            }
            proof {
                let t = chars@.take(i + 1 as int);
                assert(t.drop_last() =~= chars@.take(i as int));
                assert(t.last() == c);
                let r = split_lines(chars@.take(i as int));
                if c == '\n' {
                    assert(split_lines(t) == r.push(Seq::<char>::empty()));
                    assert(rest@.map_values(|l: BufferLine| l@.post).push(cur@) =~= r.push(
                        Seq::<char>::empty(),
                    ));
                } else {
                    assert(split_lines(t) == r.update(r.len() - 1, r.last().push(c)));
                    assert(rest@.map_values(|l: BufferLine| l@.post).push(cur@) =~= r.update(
                        r.len() - 1,
                        r.last().push(c),
                    ));
                }
            }
            i += 1;
        }
        proof {
            assert(chars@.take(chars@.len() as int) =~= chars@);
            lemma_split_lines_nonempty(chars@);
        }
        rest.push(BufferLine { pre: Vec::new(), post: cur });
        let first = rest.remove(0);
        let mut start: Vec<BufferLine> = Vec::new();
        start.push(first);
        let b = Buffer {
            name: name.to_owned(),
            is_file,
            modified: false,
            vscroll: 0,
            update_vscroll: false,
            hscroll: 0,
            update_hscroll: false,
            pre: start,
            post: rest,
        };
        proof {
            lemma_doc_new_text(contents@);
            assert(b.doc() =~~= doc_new(contents@));
        }
        b
    }

    /// Move the cursor one step left, wrapping to the previous line's
    /// recorded split at column 0. Marks the horizontal offset dirty,
    /// and the vertical one too when a line boundary is crossed.
    pub fn move_left(&mut self)
        requires
            old(self).wf(),
        ensures
            final(self).wf(),
            final(self).doc() == doc_move_left(old(self).doc()),
            final(self).name@ == old(self).name@,
            final(self).is_file == old(self).is_file,
            final(self).modified == old(self).modified,
            final(self).vscroll == old(self).vscroll,
            final(self).hscroll == old(self).hscroll,
            final(self).hscroll_dirty(),
            final(self).vscroll_dirty() == (old(self).vscroll_dirty() || (old(self).doc().col()
                == 0 && old(self).doc().row() > 0)),
    {
        let mut line = self.pre.pop().unwrap();
        if line.pre.len() > 0 {
            let c = line.pre.pop().unwrap();
            line.post.insert(0, c);
            self.pre.push(line);
        } else if self.pre.len() > 0 {
            self.post.insert(0, line);
            self.update_vscroll = true;
        } else {
            self.pre.push(line);
        }
        self.update_hscroll = true;
        proof {
            assert(self.doc() =~~= doc_move_left(old(self).doc()));
        }
    }

    /// Move the cursor one step right, wrapping to the next line's
    /// recorded split at line end. Marks the horizontal offset dirty,
    /// and the vertical one too when a line boundary is crossed.
    pub fn move_right(&mut self)
        requires
            old(self).wf(),
        ensures
            final(self).wf(),
            final(self).doc() == doc_move_right(old(self).doc()),
            final(self).name@ == old(self).name@,
            final(self).is_file == old(self).is_file,
            final(self).modified == old(self).modified,
            final(self).vscroll == old(self).vscroll,
            final(self).hscroll == old(self).hscroll,
            final(self).hscroll_dirty(),
            final(self).vscroll_dirty() == (old(self).vscroll_dirty() || (old(
                self,
            ).doc().active().post.len() == 0 && old(self).doc().post.len() > 0)),
    {
        let mut line = self.pre.pop().unwrap();
        if line.post.len() > 0 {
            let c = line.post.remove(0);
            line.pre.push(c);
            self.pre.push(line);
        } else {
            self.pre.push(line);
            if self.post.len() > 0 {
                let next_line = self.post.remove(0);
                self.pre.push(next_line);
                self.update_vscroll = true;
            }
        }
        self.update_hscroll = true;
        proof {
            assert(self.doc() =~~= doc_move_right(old(self).doc()));
        }
    }

    /// Move the cursor one row down; the next line's recorded split
    /// decides the new column. Marks the vertical offset dirty when it
    /// moves.
    pub fn move_down(&mut self)
        requires
            old(self).wf(),
        ensures
            final(self).wf(),
            final(self).doc() == doc_move_down(old(self).doc()),
            final(self).name@ == old(self).name@,
            final(self).is_file == old(self).is_file,
            final(self).modified == old(self).modified,
            final(self).vscroll == old(self).vscroll,
            final(self).hscroll == old(self).hscroll,
            final(self).hscroll_dirty() == old(self).hscroll_dirty(),
            final(self).vscroll_dirty() == (old(self).vscroll_dirty() || old(
                self,
            ).doc().post.len() > 0),
    {
        if self.post.len() > 0 {
            let line = self.post.remove(0);
            self.pre.push(line);
            self.update_vscroll = true;
        }
        proof {
            assert(self.doc() =~~= doc_move_down(old(self).doc()));
        }
    }

    /// Move the cursor one row up; the previous line's recorded split
    /// decides the new column. Marks the vertical offset dirty when it
    /// moves.
    pub fn move_up(&mut self)
        requires
            old(self).wf(),
        ensures
            final(self).wf(),
            final(self).doc() == doc_move_up(old(self).doc()),
            final(self).name@ == old(self).name@,
            final(self).is_file == old(self).is_file,
            final(self).modified == old(self).modified,
            final(self).vscroll == old(self).vscroll,
            final(self).hscroll == old(self).hscroll,
            final(self).hscroll_dirty() == old(self).hscroll_dirty(),
            final(self).vscroll_dirty() == (old(self).vscroll_dirty() || old(self).doc().row()
                > 0),
    {
        if self.pre.len() > 1 {
            let line = self.pre.pop().unwrap();
            self.post.insert(0, line);
            self.update_vscroll = true;
        }
        proof {
            assert(self.doc() =~~= doc_move_up(old(self).doc()));
        }
    }

    /// Insert one character at the cursor. Marks the buffer modified
    /// and the horizontal offset dirty.
    pub fn char(&mut self, c: char)
        requires
            old(self).wf(),
        ensures
            final(self).wf(),
            final(self).doc() == doc_insert_char(old(self).doc(), c),
            final(self).name@ == old(self).name@,
            final(self).is_file == old(self).is_file,
            final(self).modified,
            final(self).vscroll == old(self).vscroll,
            final(self).hscroll == old(self).hscroll,
            final(self).hscroll_dirty(),
            final(self).vscroll_dirty() == old(self).vscroll_dirty(),
    {
        let mut line = self.pre.pop().unwrap();
        line.pre.push(c);
        self.pre.push(line);
        self.modified = true;
        self.update_hscroll = true;
        proof {
            assert(self.doc() =~~= doc_insert_char(old(self).doc(), c));
        }
    }

    /// Delete the character before the cursor, merging with the
    /// previous line at column 0. Always marks the buffer modified,
    /// even when there was nothing to delete; marks the horizontal
    /// offset dirty, and the vertical one on a merge.
    pub fn backspace(&mut self)
        requires
            old(self).wf(),
        ensures
            final(self).wf(),
            final(self).doc() == doc_backspace(old(self).doc()),
            final(self).name@ == old(self).name@,
            final(self).is_file == old(self).is_file,
            final(self).modified,
            final(self).vscroll == old(self).vscroll,
            final(self).hscroll == old(self).hscroll,
            final(self).hscroll_dirty(),
            final(self).vscroll_dirty() == (old(self).vscroll_dirty() || (old(self).doc().col()
                == 0 && old(self).doc().row() > 0)),
    {
        let mut line = self.pre.pop().unwrap();
        if line.pre.len() > 0 {
            let _ = line.pre.pop();
            self.pre.push(line);
        } else if self.pre.len() > 0 {
            let mut prev = self.pre.pop().unwrap();
            prev.post.append(&mut line.post);
            self.pre.push(prev);
            self.update_vscroll = true;
        } else {
            self.pre.push(line);
        }
        self.modified = true;
        self.update_hscroll = true;
        proof {
            assert(self.doc() =~~= doc_backspace(old(self).doc()));
        }
    }

    /// Split the active line at the cursor: the text after the cursor
    /// becomes a new line below, which becomes active with the cursor
    /// at column 0. Marks the buffer modified and the vertical offset
    /// dirty.
    pub fn enter(&mut self)
        requires
            old(self).wf(),
        ensures
            final(self).wf(),
            final(self).doc() == doc_split_line(old(self).doc()),
            final(self).name@ == old(self).name@,
            final(self).is_file == old(self).is_file,
            final(self).modified,
            final(self).vscroll == old(self).vscroll,
            final(self).hscroll == old(self).hscroll,
            final(self).hscroll_dirty() == old(self).hscroll_dirty(),
            final(self).vscroll_dirty(),
    {
        let line = self.pre.pop().unwrap();
        let BufferLine { pre: before_cursor, post: after_cursor } = line;
        self.pre.push(BufferLine { pre: before_cursor, post: Vec::new() });
        self.pre.push(BufferLine { pre: Vec::new(), post: after_cursor });
        self.update_vscroll = true;
        self.modified = true;
        proof {
            assert(self.doc() =~~= doc_split_line(old(self).doc()));
        }
    }

    /// Recompute each scroll offset whose dirty flag is set, against a
    /// viewport of `width` by `height`, and clear the flags. The
    /// clamps are those of [`crate::scroll`].
    pub fn update_scrolls(&mut self, width: usize, height: usize)
        requires
            old(self).wf(),
            width >= 1,
        ensures
            final(self).wf(),
            final(self).doc() == old(self).doc(),
            final(self).name@ == old(self).name@,
            final(self).is_file == old(self).is_file,
            final(self).modified == old(self).modified,
            !final(self).vscroll_dirty(),
            !final(self).hscroll_dirty(),
            final(self).vscroll as int == if old(self).vscroll_dirty() {
                clamp_vscroll(
                    old(self).doc().pre.len() as int,
                    old(self).vscroll as int,
                    height as int,
                )
            } else {
                old(self).vscroll as int
            },
            final(self).hscroll as int == if old(self).hscroll_dirty() {
                clamp_hscroll(old(self).doc().col(), old(self).hscroll as int, width as int)
            } else {
                old(self).hscroll as int
            },
    {
        if self.update_vscroll {
            self.update_vscroll = false;
            let n = self.pre.len();
            if n > height && n - height > self.vscroll {
                self.vscroll = n - height;
            } else if n <= self.vscroll {
                self.vscroll = n - 1;
            }
        }
        if self.update_hscroll {
            self.update_hscroll = false;
            let c = self.pre[self.pre.len() - 1].pre.len();
            if c >= width && c - width >= self.hscroll {
                self.hscroll = c - width + 1;
            } else if c <= self.hscroll {
                self.hscroll = c;
            }
        }
    }

    /// Where the cursor falls on screen, for a viewport whose top left
    /// corner is at `(x, y)`: the cursor's column and row, each shifted
    /// by the viewport origin and its scroll offset.
    pub fn cursor_pos(&self, x: usize, y: usize) -> (p: (usize, usize))
        requires
            self.wf(),
            x + self.doc().col() <= usize::MAX,
            self.hscroll <= x + self.doc().col(),
            y + self.doc().pre.len() <= usize::MAX,
            self.vscroll < y + self.doc().pre.len(),
        ensures
            p.0 == x + self.doc().col() - self.hscroll,
            p.1 == y + self.doc().pre.len() - self.vscroll - 1,
    {
        let c = self.pre[self.pre.len() - 1].pre.len();
        (x + c - self.hscroll, y + self.pre.len() - self.vscroll - 1)
    }

    /// How many lines the document has.
    pub fn line_count(&self) -> (n: usize)
        requires
            self.doc().line_count() <= usize::MAX,
        ensures
            n == self.doc().line_count(),
    {
        self.pre.len() + self.post.len()
    }

    /// The line the cursor sits on.
    pub fn active_line(&self) -> (l: &BufferLine)
        requires
            self.wf(),
        ensures
            l@ == self.doc().active(),
    {
        &self.pre[self.pre.len() - 1]
    }

    /// The line at absolute index `i`, wherever the cursor is.
    pub(crate) fn line_ref(&self, i: usize) -> (l: &BufferLine)
        requires
            self.wf(),
            (i as int) < self.doc().line_count(),
        ensures
            l@ == self.doc().line_at(i as int),
    {
        if i < self.pre.len() {
            &self.pre[i]
        } else {
            &self.post[i - self.pre.len()]
        }
    }

    /// The whole text of the buffer: every line's content, in order,
    /// joined by newlines. Used for persistence; a buffer created from
    /// some text renders back exactly that text.
    pub fn render(&self) -> (r: String)
        requires
            self.wf(),
        ensures
            r@ == self.doc().text(),
    {
        let ghost lines = self.doc().lines();
        let mut out = String::new();
        let mut k: usize = 0;
        while k < self.pre.len()
            invariant
                self.wf(),
                lines == self.doc().lines(),
                k <= self.pre@.len(),
                out@ == join_lines(lines.take(k as int)),
            decreases self.pre@.len() - k,
        {
            let ghost out0 = out@;
            if k > 0 {
                push_char(&mut out, '\n');
            }
            push_line(&mut out, &self.pre[k]);
            proof {
                assert((self.doc().pre + self.doc().post)[k as int] == self.doc().pre[k as int]);
                assert(lines[k as int] == self.pre@[k as int]@.text());
                assert(lines.take(k + 1).drop_last() =~= lines.take(k as int));
                if k > 0 {
                    lemma_join_lines_push(lines.take(k as int), lines[k as int]);
                    assert(lines.take(k as int).push(lines[k as int]) =~= lines.take(k + 1));
                    assert(out@ =~= join_lines(lines.take(k + 1)));
                } else {
                    assert(out@ =~= lines[0]);
                    assert(join_lines(lines.take(1)) == lines.take(1)[0]);
                }
            }
            k += 1;
        }
        let mut m: usize = 0;
        while m < self.post.len()
            invariant
                self.wf(),
                lines == self.doc().lines(),
                m <= self.post@.len(),
                out@ == join_lines(lines.take(self.pre@.len() + m)),
            decreases self.post@.len() - m,
        {
            push_char(&mut out, '\n');
            push_line(&mut out, &self.post[m]);
            proof {
                let ghost j = self.pre@.len() + m;
                assert((self.doc().pre + self.doc().post)[j as int] == self.doc().post[m as int]);
                assert(lines[j as int] == self.post@[m as int]@.text());
                lemma_join_lines_push(lines.take(j as int), lines[j as int]);
                assert(lines.take(j as int).push(lines[j as int]) =~= lines.take(j + 1));
                assert(out@ =~= join_lines(lines.take(j + 1)));
            }
            m += 1;
        }
        proof {
            assert(lines.take(lines.len() as int) =~= lines);
        }
        out
    }
}

/// The characters of `s`, collected into a vector.
fn chars_of(s: &str) -> (r: Vec<char>)
    ensures
        r@ == s@,
{
    let n = s.unicode_len();
    let mut r: Vec<char> = Vec::new();
    let mut i: usize = 0;
    while i < n
        invariant
            n == s@.len(),
            i <= n,
            r@ == s@.take(i as int),
        decreases n - i,
    {
        let c = s.get_char(i);
        r.push(c);
        i += 1;
    }
    proof {
        assert(s@.take(n as int) =~= s@);
    }
    r
}

/// Relies on String::push: it appends exactly the one character given.
#[verifier::external_body]
pub(crate) fn push_char(s: &mut String, c: char)
    ensures
        final(s)@ == old(s)@.push(c),
{
    s.push(c);
}

/// Append one line's full content to `out`.
fn push_line(out: &mut String, line: &BufferLine)
    ensures
        final(out)@ == old(out)@ + line@.text(),
{
    let ghost out0 = out@;
    let mut j: usize = 0;
    while j < line.pre.len()
        invariant
            j <= line.pre@.len(),
            out@ == out0 + line.pre@.take(j as int),
        decreases line.pre@.len() - j,
    {
        push_char(out, line.pre[j]);
        j += 1;
    }
    let mut k: usize = 0;
    while k < line.post.len()
        invariant
            k <= line.post@.len(),
            out@ == out0 + line.pre@ + line.post@.take(k as int),
        decreases line.post@.len() - k,
    {
        push_char(out, line.post[k]);
        k += 1;
    }
    proof {
        assert(out@ =~= out0 + line@.text());
    }
}

} // verus!
