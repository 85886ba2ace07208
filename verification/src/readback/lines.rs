use crate::cursor::{content_lines, split_lines, strip_cr};
use crate::readback::joining::{all_lack, lacks, lemma_split_join};
use crate::serialize::join;
use crate::text::{is_blank, split};
use vstd::prelude::*;

verus! {

/// Whether each of the lines can stand on a line of its own: it holds no line feed and
/// does not end with a carriage return.
pub open spec fn are_lines(lines: Seq<Seq<char>>) -> bool {
    forall|i: int|
        0 <= i < lines.len() ==> lacks(#[trigger] lines[i], '\n') && !(lines[i].len() > 0
            && lines[i].last() == '\r')
}

/// Lines that are written with a line feed after each are read back.
pub proof fn lemma_lines_read_back(lines: Seq<Seq<char>>)
    requires
        lines.len() >= 1,
        are_lines(lines),
    ensures
        split_lines(join(lines, '\n').push('\n')) == lines,
{
    let text = join(lines, '\n').push('\n');
    let parts = lines.push(Seq::<char>::empty());
    assert(parts.drop_last() =~= lines);
    assert(join(parts, '\n') =~= text);
    assert(all_lack(parts, '\n')) by {
        assert forall|i: int| 0 <= i < parts.len() implies lacks(#[trigger] parts[i], '\n') by {
            if i < lines.len() {
                assert(parts[i] == lines[i]);
            }
        }
    }
    lemma_split_join(parts, '\n');
    assert(split(text, '\n') == parts);
    assert(split_lines(text) =~= lines) by {
        assert forall|i: int| 0 <= i < lines.len() implies split_lines(text)[i] == lines[i] by {
            assert(parts[i] == lines[i]);
            assert(strip_cr(lines[i]) == lines[i]);
        }
    }
}

/// The lines that are not blank, in their order.
pub open spec fn unblank(all: Seq<Seq<char>>) -> Seq<Seq<char>>
    decreases all.len(),
{
    if all.len() == 0 {
        Seq::empty()
    } else if is_blank(all.last()) {
        unblank(all.drop_last())
    } else {
        unblank(all.drop_last()).push(all.last())
    }
}

/// The texts of numbered lines.
pub open spec fn line_texts(lines: Seq<(nat, Seq<char>)>) -> Seq<Seq<char>> {
    Seq::new(lines.len(), |i: int| lines[i].1)
}

/// The lines that a cursor sees are the lines that are not blank.
pub proof fn lemma_content_lines_texts(all: Seq<Seq<char>>)
    ensures
        line_texts(content_lines(all)) == unblank(all),
    decreases all.len(),
{
    if all.len() == 0 {
        assert(line_texts(content_lines(all)) =~= unblank(all));
    } else {
        lemma_content_lines_texts(all.drop_last());
        assert(line_texts(content_lines(all)) =~= unblank(all));
    }
}

/// The lines of two texts in a row that are not blank are those of the first, then those
/// of the second.
pub proof fn lemma_unblank_concat(a: Seq<Seq<char>>, b: Seq<Seq<char>>)
    ensures
        unblank(a + b) == unblank(a) + unblank(b),
    decreases b.len(),
{
    if b.len() == 0 {
        assert(a + b =~= a);
        assert(unblank(a) + unblank(b) =~= unblank(a));
    } else {
        lemma_unblank_concat(a, b.drop_last());
        assert((a + b).drop_last() =~= a + b.drop_last());
        assert((a + b).last() == b.last());
        if !is_blank(b.last()) {
            assert((unblank(a) + unblank(b.drop_last())).push(b.last()) =~= unblank(a)
                + unblank(b.drop_last()).push(b.last()));
        }
    }
}

/// Where no line is blank, all lines are kept.
pub proof fn lemma_unblank_all(a: Seq<Seq<char>>)
    requires
        forall|i: int| 0 <= i < a.len() ==> !is_blank(#[trigger] a[i]),
    ensures
        unblank(a) == a,
    decreases a.len(),
{
    if a.len() == 0 {
        assert(unblank(a) =~= a);
    } else {
        assert forall|i: int| 0 <= i < a.drop_last().len() implies !is_blank(
            #[trigger] a.drop_last()[i],
        ) by {
            assert(a.drop_last()[i] == a[i]);
        }
        lemma_unblank_all(a.drop_last());
        assert(a.drop_last().push(a.last()) =~= a);
    }
}

/// An empty line is blank, and is not kept.
pub proof fn lemma_unblank_empty_line()
    ensures
        unblank(seq![Seq::<char>::empty()]) == Seq::<Seq<char>>::empty(),
{
    let one = seq![Seq::<char>::empty()];
    assert(one.drop_last() =~= Seq::<Seq<char>>::empty());
    assert(is_blank(one.last()));
    assert(unblank(one.drop_last()) =~= Seq::<Seq<char>>::empty());
}

} // verus!
