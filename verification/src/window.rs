//! The viewport windowing sequence: the visible rows of a buffer, and
//! within each row the visible column slice of every segment.
//!
//! A window is asked for once per frame and stepped row by row; it
//! yields at most `height` rows and stops early when the document runs
//! out of lines. Each row is the active-split segments of one line,
//! clipped to the half-open column window `[hscroll, hscroll + width)`
//! by interval intersection: a segment wholly outside the window is
//! dropped, one straddling a boundary is truncated there, one fully
//! inside passes through unchanged. An empty segment is kept (as an
//! empty fragment) only when it lies strictly inside the window.

use crate::buffer::{push_char, Buffer};
use crate::doc::LineV;
use vstd::prelude::*;

verus! {

/// The visible part of a text segment `s` whose first character sits
/// at absolute column `j`, within the column window `[h, h + w)`:
/// `None` when nothing of it is visible.
pub open spec fn clip_segment(s: Seq<char>, j: int, h: int, w: int) -> Option<Seq<char>> {
    if s.len() == 0 {
        if h < j && j < h + w {
            Some(s)
        } else {
            None
        }
    } else {
        let lo = if j > h {
            j
        } else {
            h
        };
        let hi = if j + s.len() < h + w {
            j + s.len() as int
        } else {
            h + w
        };
        if lo < hi {
            Some(s.subrange(lo - j, hi - j))
        } else {
            None
        }
    }
}

/// Zero or one fragments, as a sequence.
pub open spec fn opt_fragment(o: Option<Seq<char>>) -> Seq<Seq<char>> {
    match o {
        Some(f) => seq![f],
        None => Seq::empty(),
    }
}

/// The visible fragments of one line: its `pre` segment, which starts
/// at column 0, then its `post` segment, which starts where `pre`
/// ends, each clipped to the window.
pub open spec fn spec_row(l: LineV, h: int, w: int) -> Seq<Seq<char>> {
    opt_fragment(clip_segment(l.pre, 0, h, w)) + opt_fragment(
        clip_segment(l.post, l.pre.len() as int, h, w),
    )
}

/// The number of columns a row of fragments covers.
pub open spec fn row_width(row: Seq<Seq<char>>) -> int
    decreases row.len(),
{
    if row.len() == 0 {
        0
    } else {
        row[0].len() + row_width(row.drop_first())
    }
}

/// The views of the fragment strings of a rendered row.
pub open spec fn frag_views(row: Seq<String>) -> Seq<Seq<char>> {
    row.map_values(|s: String| s@)
}

/// Windowing bounds: a row never covers more columns than the viewport
/// is wide, whatever the line and the horizontal offset.
pub proof fn lemma_row_within_width(l: LineV, h: int, w: int)
    requires
        w >= 1,
        h >= 0,
    ensures
        spec_row(l, h, w).len() <= 2,
        row_width(spec_row(l, h, w)) <= w,
{
    let a = clip_segment(l.pre, 0, h, w);
    let b = clip_segment(l.post, l.pre.len() as int, h, w);
    assert(row_width(Seq::<Seq<char>>::empty()) == 0);
    if a is Some && b is Some {
        let fa = a.unwrap();
        let fb = b.unwrap();
        assert(seq![fa, fb].drop_first() =~= seq![fb]);
        assert(seq![fb].drop_first() =~= Seq::<Seq<char>>::empty());
        assert(spec_row(l, h, w) =~= seq![fa, fb]);
        assert(row_width(seq![fb]) == fb.len() + row_width(seq![fb].drop_first()));
        assert(row_width(seq![fa, fb]) == fa.len() + row_width(seq![fa, fb].drop_first()));
        assert(row_width(seq![fa, fb]) == fa.len() + fb.len());
    } else if a is Some {
        let fa = a.unwrap();
        assert(seq![fa].drop_first() =~= Seq::<Seq<char>>::empty());
        assert(spec_row(l, h, w) =~= seq![fa]);
    } else if b is Some {
        let fb = b.unwrap();
        assert(seq![fb].drop_first() =~= Seq::<Seq<char>>::empty());
        assert(spec_row(l, h, w) =~= seq![fb]);
    } else {
        assert(spec_row(l, h, w) =~= Seq::<Seq<char>>::empty());
    }
}

/// A non-restartable walk over the visible rows of one buffer, for a
/// viewport of `width` by `height`. A fresh one must be requested
/// every frame; it yields at most `height` rows.
pub struct BufferWindow<'a> {
    /// The buffer being windowed.
    pub buffer: &'a Buffer,
    /// How many rows have been yielded so far.
    pub i: usize,
    /// Viewport width in columns.
    pub width: usize,
    /// Viewport height in rows.
    pub height: usize,
}

impl Buffer {
    /// Start a windowing walk over this buffer's visible rows.
    pub fn window(&self, width: usize, height: usize) -> (w: BufferWindow<'_>)
        ensures
            w.buffer == self,
            w.i == 0,
            w.width == width,
            w.height == height,
    {
        BufferWindow { buffer: self, i: 0, width, height }
    }
}

impl<'a> BufferWindow<'a> {
    /// The next visible row: the clipped fragments of the line at
    /// absolute index `i + vscroll`. `None` once `height` rows have
    /// been yielded or the document has run out of lines.
    pub fn next(&mut self) -> (r: Option<Vec<String>>)
        requires
            old(self).buffer.wf(),
            old(self).i + old(self).buffer.vscroll <= usize::MAX,
            old(self).buffer.hscroll + old(self).width <= usize::MAX,
        ensures
            final(self).buffer == old(self).buffer,
            final(self).width == old(self).width,
            final(self).height == old(self).height,
            old(self).i >= old(self).height ==> r is None && final(self).i == old(self).i,
            old(self).i < old(self).height ==> final(self).i == old(self).i + 1 && (if old(self).i
                + old(self).buffer.vscroll < old(self).buffer.doc().line_count() {
                r is Some && frag_views(r.unwrap()@) == spec_row(
                    old(self).buffer.doc().line_at(old(self).i + old(self).buffer.vscroll),
                    old(self).buffer.hscroll as int,
                    old(self).width as int,
                )
            } else {
                r is None
            }),
            r is Some && old(self).width >= 1 ==> row_width(frag_views(r.unwrap()@)) <= old(
                self,
            ).width,
    {
        if self.i >= self.height {
            return None;
        }
        let b = self.buffer;
        let abs = self.i + b.vscroll;
        self.i = self.i + 1;
        let in_range = abs < b.pre.len() || abs - b.pre.len() < b.post.len();
        if !in_range {
            return None;
        }
        let line = b.line_ref(abs);
        let mut row: Vec<String> = Vec::new();
        match clip_exec(&line.pre, 0, b.hscroll, self.width) {
            Some(f) => row.push(f),
            None => (),
        }
        match clip_exec(&line.post, line.pre.len(), b.hscroll, self.width) {
            Some(f) => row.push(f),
            None => (),
        }
        proof {
            assert(frag_views(row@) =~~= spec_row(
                b.doc().line_at(abs as int),
                b.hscroll as int,
                self.width as int,
            ));
            if self.width >= 1 {
                lemma_row_within_width(line@, b.hscroll as int, self.width as int);
            }
        }
        Some(row)
    }
}

/// The visible part of one segment, as a fresh string.
fn clip_exec(s: &Vec<char>, j: usize, h: usize, w: usize) -> (r: Option<String>)
    requires
        h + w <= usize::MAX,
    ensures
        (r is Some) == (clip_segment(s@, j as int, h as int, w as int) is Some),
        r is Some ==> r.unwrap()@ == clip_segment(s@, j as int, h as int, w as int).unwrap(),
{
    if s.len() == 0 {
        if h < j && j < h + w {
            proof {
                assert(s@ =~= Seq::<char>::empty());
            }
            Some(String::new())
        } else {
            None
        }
    } else {
        if j >= h + w {
            return None;
        }
        let start = if h > j {
            h - j
        } else {
            0
        };
        let rem = h + w - j;
        let stop = if s.len() < rem {
            s.len()
        } else {
            rem
        };
        if start < stop {
            let mut f = String::new();
            let mut t = start;
            while t < stop
                invariant
                    start <= t <= stop,
                    stop <= s@.len(),
                    f@ == s@.subrange(start as int, t as int),
                decreases stop - t,
            {
                push_char(&mut f, s[t]);
                proof {
                    assert(s@.subrange(start as int, t + 1).drop_last() =~= s@.subrange(
                        start as int,
                        t as int,
                    ));
                    assert(f@ =~= s@.subrange(start as int, t + 1));
                }
                t += 1;
            }
            Some(f)
        } else {
            None
        }
    }
}

} // verus!
