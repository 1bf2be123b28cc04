//! Splitting a text into lines and joining lines back into a text.
//!
//! A document is kept as a sequence of lines; the text it stands for is
//! those lines joined with a newline between each pair. The two
//! directions are exact inverses, which is what makes rendering a
//! buffer a faithful round trip of the text it was created from.

use vstd::prelude::*;

verus! {

/// The lines of `s`, split at every newline character. There is always
/// at least one line: an empty text gives one empty line, and a text
/// ending in a newline gives a trailing empty line. The separators are
/// not part of any line.
pub open spec fn split_lines(s: Seq<char>) -> Seq<Seq<char>>
    decreases s.len(),
{
    if s.len() == 0 {
        seq![Seq::<char>::empty()]
    } else if s.last() == '\n' {
        split_lines(s.drop_last()).push(Seq::<char>::empty())
    } else {
        let r = split_lines(s.drop_last());
        r.update(r.len() - 1, r.last().push(s.last()))
    }
}

/// The lines joined back into one text, with a newline between each
/// adjacent pair and none at either end.
pub open spec fn join_lines(ls: Seq<Seq<char>>) -> Seq<char>
    decreases ls.len(),
{
    if ls.len() == 0 {
        Seq::empty()
    } else if ls.len() == 1 {
        ls[0]
    } else {
        join_lines(ls.drop_last()) + seq!['\n'] + ls.last()
    }
}

/// Splitting never yields an empty sequence of lines.
pub proof fn lemma_split_lines_nonempty(s: Seq<char>)
    ensures
        split_lines(s).len() >= 1,
    decreases s.len(),
{
    if s.len() != 0 && s.last() != '\n' {
        lemma_split_lines_nonempty(s.drop_last());
    }
}

/// Joining after appending one more line inserts exactly one newline.
pub proof fn lemma_join_lines_push(ls: Seq<Seq<char>>, l: Seq<char>)
    requires
        ls.len() >= 1,
    ensures
        join_lines(ls.push(l)) == join_lines(ls) + seq!['\n'] + l,
{
    assert(ls.push(l).drop_last() =~= ls);
    assert(ls.push(l).last() == l);
}

/// Appending a character to the last line appends it to the joined text.
proof fn lemma_join_lines_extend_last(ls: Seq<Seq<char>>, c: char)
    requires
        ls.len() >= 1,
    ensures
        join_lines(ls.update(ls.len() - 1, ls.last().push(c))) == join_lines(ls).push(c),
    decreases ls.len(),
{
    let ls2 = ls.update(ls.len() - 1, ls.last().push(c));
    if ls.len() == 1 {
        assert(join_lines(ls2) == ls.last().push(c));
        assert(join_lines(ls) == ls[0]);
        assert(ls.last() == ls[0]);
    } else {
        assert(ls2.drop_last() =~= ls.drop_last());
        assert(ls2.last() == ls.last().push(c));
        assert(join_lines(ls2) == join_lines(ls.drop_last()) + seq!['\n'] + ls.last().push(c));
        assert(join_lines(ls.drop_last()) + seq!['\n'] + ls.last().push(c) =~= (join_lines(
            ls.drop_last(),
        ) + seq!['\n'] + ls.last()).push(c));
    }
}

/// Round trip: joining the lines a text was split into gives back that
/// same text.
pub proof fn lemma_join_split(s: Seq<char>)
    ensures
        join_lines(split_lines(s)) == s,
    decreases s.len(),
{
    if s.len() == 0 {
        assert(join_lines(split_lines(s)) =~= s);
    } else {
        let s0 = s.drop_last();
        lemma_join_split(s0);
        lemma_split_lines_nonempty(s0);
        if s.last() == '\n' {
            lemma_join_lines_push(split_lines(s0), Seq::<char>::empty());
            assert(join_lines(split_lines(s)) =~= s);
        } else {
            lemma_join_lines_extend_last(split_lines(s0), s.last());
            assert(join_lines(split_lines(s)) =~= s);
        }
    }
}

} // verus!
