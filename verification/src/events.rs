use crate::beatmap::{
    Record, at, beatmap_of, default_beatmap, header_title, keyed_section,
    lemma_section_moves_on, next_header, records_from, section_at, sections_from, stored,
    version_at,
};
use crate::colours::{ColourScan, ColourScanView, default_colours};
use crate::cursor::{lines_of, split_lines};
use crate::error::ErrorView;
use crate::keyed::{KeyedSection, pair_of, scan_pairs};
use crate::model::{
    BeatmapView, DifficultySection, EditorSection, GeneralSection, HitObject, MetadataSection,
    TimingPoint,
};
use crate::outcomes::lemma_events_are_passed_over;
use crate::readback::lines::{lemma_content_lines_texts, lemma_unblank_concat, line_texts};
use crate::sections::{default_difficulty, default_editor, default_general, default_metadata};
use crate::text::split;
use vstd::prelude::*;

verus! {

/// A text has one field at least.
proof fn lemma_split_has_fields(s: Seq<char>, sep: char)
    ensures
        split(s, sep).len() >= 1,
    decreases s.len(),
{
    if s.len() > 0 {
        lemma_split_has_fields(s.drop_last(), sep);
    }
}

/// The fields of a text that follows one that ends with the separator are the fields of
/// the first, but for the empty one at its end, and then the fields of the second.
proof fn lemma_split_after_ended(a: Seq<char>, b: Seq<char>, sep: char)
    requires
        a.len() > 0,
        a.last() == sep,
    ensures
        split(a + b, sep) == split(a, sep).drop_last() + split(b, sep),
    decreases b.len(),
{
    lemma_split_has_fields(a.drop_last(), sep);
    if b.len() == 0 {
        assert(a + b =~= a);
        assert(split(a, sep).drop_last() =~= split(a.drop_last(), sep));
        assert(split(a, sep).drop_last() + split(b, sep) =~= split(a, sep));
    } else {
        let init = b.drop_last();
        lemma_split_after_ended(a, init, sep);
        lemma_split_has_fields(init, sep);
        assert((a + b).drop_last() =~= a + init);
        assert((a + b).last() == b.last());
        let first = split(a, sep).drop_last();
        let before = split(init, sep);
        if b.last() == sep {
            assert((first + before).push(Seq::<char>::empty()) =~= first + before.push(
                Seq::<char>::empty(),
            ));
        } else {
            let grown = before.last().push(b.last());
            assert((first + before).update((first + before).len() - 1, grown) =~= first
                + before.update(before.len() - 1, grown));
            assert((first + before).last() == before.last());
        }
    }
}

/// The lines of a text that follows one that ends with a line feed are the lines of the
/// first and then the lines of the second.
pub proof fn lemma_lines_of_texts_in_a_row(a: Seq<char>, b: Seq<char>)
    requires
        a.len() > 0,
        a.last() == '\n',
    ensures
        split_lines(a + b) == split_lines(a) + split_lines(b),
        line_texts(lines_of(a + b)) == line_texts(lines_of(a)) + line_texts(lines_of(b)),
{
    lemma_split_after_ended(a, b, '\n');
    lemma_split_has_fields(a.drop_last(), '\n');
    lemma_split_has_fields(b, '\n');
    let first = split(a, '\n').drop_last();
    let second = split(b, '\n');
    let whole = split(a + b, '\n');
    assert(split(a, '\n') =~= first.push(Seq::<char>::empty()));
    assert(whole.last() == second.last());
    let joined = split_lines(a) + split_lines(b);
    assert(split_lines(a + b).len() == joined.len());
    assert forall|i: int| 0 <= i < joined.len() implies split_lines(a + b)[i] == joined[i] by {
        if i < first.len() {
            assert(whole[i] == first[i]);
            assert(split(a, '\n')[i] == first[i]);
        } else {
            assert(whole[i] == second[i - first.len()]);
        }
    }
    assert(split_lines(a + b) =~= joined);
    lemma_content_lines_texts(split_lines(a + b));
    lemma_content_lines_texts(split_lines(a));
    lemma_content_lines_texts(split_lines(b));
    lemma_unblank_concat(split_lines(a), split_lines(b));
}

/// Whether two lists of lines hold the same texts, the one from place `p` on and the
/// other from place `q` on; the indices of the lines may differ.
pub open spec fn same_texts(
    one: Seq<(nat, Seq<char>)>,
    p: nat,
    other: Seq<(nat, Seq<char>)>,
    q: nat,
) -> bool {
    p <= one.len() && q <= other.len() && line_texts(one).skip(p as int) == line_texts(
        other,
    ).skip(q as int)
}

/// Lists that hold the same texts from two places on hold the same text there, where
/// there is one, and hold the same texts from the places that follow.
proof fn lemma_same_texts_step(
    one: Seq<(nat, Seq<char>)>,
    p: nat,
    other: Seq<(nat, Seq<char>)>,
    q: nat,
    k: nat,
)
    requires
        same_texts(one, p, other, q),
        p + k <= one.len(),
    ensures
        one.len() - p == other.len() - q,
        same_texts(one, p + k, other, q + k),
        p + k < one.len() ==> one[p as int + k].1 == other[q as int + k].1,
{
    let a = line_texts(one).skip(p as int);
    let b = line_texts(other).skip(q as int);
    assert(a.len() == b.len());
    assert(line_texts(one).skip(p as int + k) =~= a.skip(k as int));
    assert(line_texts(other).skip(q as int + k) =~= b.skip(k as int));
    if p + k < one.len() {
        assert(a[k as int] == one[p as int + k].1);
        assert(b[k as int] == other[q as int + k].1);
    }
}

/// What keys and values are read as depends on the texts of the lines alone.
proof fn lemma_scan_pairs_reads_texts<S: KeyedSection>(
    one: Seq<(nat, Seq<char>)>,
    p: nat,
    other: Seq<(nat, Seq<char>)>,
    q: nat,
    section: S::V,
)
    requires
        same_texts(one, p, other, q),
    ensures
        scan_pairs::<S>(one, p, section).0 == scan_pairs::<S>(other, q, section).0,
        scan_pairs::<S>(one, p, section).1 - p == scan_pairs::<S>(other, q, section).1 - q,
    decreases one.len() - p,
{
    lemma_same_texts_step(one, p, other, q, 0);
    if p < one.len() {
        match pair_of(one[p as int].1) {
            None => {},
            Some((key, value)) => match S::assigned(section, key, value) {
                Err(_) => {},
                Ok(next) => {
                    lemma_same_texts_step(one, p, other, q, 1);
                    lemma_scan_pairs_reads_texts::<S>(one, p + 1, other, q + 1, next);
                },
            },
        }
    }
}

/// What records are read as depends on the texts of the lines alone.
proof fn lemma_records_read_texts<R: Record>(
    one: Seq<(nat, Seq<char>)>,
    p: nat,
    other: Seq<(nat, Seq<char>)>,
    q: nat,
    done: Seq<R::V>,
)
    requires
        same_texts(one, p, other, q),
    ensures
        records_from::<R>(one, p, done).0 == records_from::<R>(other, q, done).0,
        records_from::<R>(one, p, done).1 - p == records_from::<R>(other, q, done).1 - q,
    decreases one.len() - p,
{
    lemma_same_texts_step(one, p, other, q, 0);
    if p < one.len() && header_title(one[p as int].1) is None {
        match R::written(one[p as int].1) {
            Err(_) => {},
            Ok(record) => {
                lemma_same_texts_step(one, p, other, q, 1);
                lemma_records_read_texts::<R>(one, p + 1, other, q + 1, done.push(record));
            },
        }
    }
}

/// Where the next header stands depends on the texts of the lines alone.
proof fn lemma_next_header_reads_texts(
    one: Seq<(nat, Seq<char>)>,
    p: nat,
    other: Seq<(nat, Seq<char>)>,
    q: nat,
)
    requires
        same_texts(one, p, other, q),
    ensures
        next_header(one, p) - p == next_header(other, q) - q,
    decreases one.len() - p,
{
    lemma_same_texts_step(one, p, other, q, 0);
    if p < one.len() && header_title(one[p as int].1) is None {
        lemma_same_texts_step(one, p, other, q, 1);
        lemma_next_header_reads_texts(one, p + 1, other, q + 1);
    }
}

/// A section of keys and values that is read without an error depends on the texts of
/// the lines alone.
proof fn lemma_keyed_reads_texts<S: KeyedSection>(
    one: Seq<(nat, Seq<char>)>,
    p: nat,
    other: Seq<(nat, Seq<char>)>,
    q: nat,
    start: S::V,
)
    requires
        same_texts(one, p, other, q),
        p < one.len(),
    ensures
        keyed_section::<S>(one, p, start).0 is Ok ==> keyed_section::<S>(other, q, start).0
            == keyed_section::<S>(one, p, start).0,
        keyed_section::<S>(one, p, start).1 - p == keyed_section::<S>(other, q, start).1 - q,
{
    lemma_same_texts_step(one, p, other, q, 1);
    lemma_scan_pairs_reads_texts::<S>(one, p + 1, other, q + 1, start);
}

/// A section that is read without an error depends on the texts of the lines alone.
proof fn lemma_section_reads_texts(
    one: Seq<(nat, Seq<char>)>,
    p: nat,
    other: Seq<(nat, Seq<char>)>,
    q: nat,
)
    requires
        same_texts(one, p, other, q),
        p < one.len(),
        section_at(one, p).0 is Ok,
    ensures
        section_at(other, q).0 == section_at(one, p).0,
        section_at(one, p).1 - p == section_at(other, q).1 - q,
{
    reveal(section_at);
    lemma_same_texts_step(one, p, other, q, 0);
    lemma_same_texts_step(one, p, other, q, 1);
    lemma_keyed_reads_texts::<GeneralSection>(one, p, other, q, default_general());
    lemma_keyed_reads_texts::<EditorSection>(one, p, other, q, default_editor());
    lemma_keyed_reads_texts::<MetadataSection>(one, p, other, q, default_metadata());
    lemma_keyed_reads_texts::<DifficultySection>(one, p, other, q, default_difficulty());
    lemma_scan_pairs_reads_texts::<ColourScan>(
        one,
        p + 1,
        other,
        q + 1,
        ColourScanView { combos: Seq::empty(), section: default_colours() },
    );
    lemma_records_read_texts::<TimingPoint>(one, p + 1, other, q + 1, Seq::empty());
    lemma_records_read_texts::<HitObject>(one, p + 1, other, q + 1, Seq::empty());
    lemma_next_header_reads_texts(one, p + 1, other, q + 1);
}

/// Sections that are read without an error depend on the texts of the lines alone: lists
/// of lines that hold the same texts from two places on are read as the same beatmap.
pub proof fn lemma_sections_read_texts(
    one: Seq<(nat, Seq<char>)>,
    p: nat,
    other: Seq<(nat, Seq<char>)>,
    q: nat,
    map: BeatmapView,
)
    requires
        same_texts(one, p, other, q),
        sections_from(one, p, map) is Ok,
    ensures
        sections_from(other, q, map) == sections_from(one, p, map),
    decreases one.len() - p,
{
    lemma_same_texts_step(one, p, other, q, 0);
    if p < one.len() {
        let r = section_at(one, p);
        lemma_section_reads_texts(one, p, other, q);
        lemma_section_moves_on(one, p);
        let k = (r.1 - p) as nat;
        lemma_same_texts_step(one, p, other, q, k);
        match r.0 {
            Err(_) => {},
            Ok(section) => {
                assert(section_at(other, q).1 == q + k);
                lemma_sections_read_texts(one, r.1, other, q + k, stored(map, section));
            },
        }
    }
}

/// Where sections are read without an error, a header stands at the place where the
/// reading starts, unless no line is left there.
proof fn lemma_sections_start_with_header(
    lines: Seq<(nat, Seq<char>)>,
    position: nat,
    map: BeatmapView,
)
    requires
        sections_from(lines, position, map) is Ok,
        position < lines.len(),
    ensures
        header_title(lines[position as int].1) is Some,
{
    reveal(section_at);
}

/// The next header stands at the first place, from the place where the search starts,
/// that holds a header or no line.
proof fn lemma_next_header_is(lines: Seq<(nat, Seq<char>)>, from: nat, to: nat)
    requires
        from <= to <= lines.len(),
        forall|i: int| from <= i < to ==> header_title(#[trigger] lines[i].1) is None,
        to < lines.len() ==> header_title(lines[to as int].1) is Some,
    ensures
        next_header(lines, from) == to,
    decreases to - from,
{
    if from < to {
        assert(header_title(lines[from as int].1) is None);
        lemma_next_header_is(lines, from + 1, to);
    }
}

/// An events section that is put into a text changes nothing: where a text that is made
/// of the version line and of what follows it is read as a beatmap, the text with an
/// events section between the two is read as the same beatmap, whatever the lines of
/// the events hold, as long as none of them is a header.
pub proof fn lemma_events_put_in_change_nothing(
    head: Seq<char>,
    events: Seq<char>,
    rest: Seq<char>,
    m: BeatmapView,
)
    requires
        head.len() > 0 && head.last() == '\n',
        lines_of(head).len() == 1,
        events.len() > 0 && events.last() == '\n',
        lines_of(events).len() >= 1,
        header_title(lines_of(events)[0].1) == Some("Events"@),
        forall|i: int|
            1 <= i < lines_of(events).len() ==> header_title(#[trigger] lines_of(events)[i].1)
                is None,
        beatmap_of(head + rest) == Ok::<BeatmapView, ErrorView>(m),
    ensures
        beatmap_of(head + events + rest) == Ok::<BeatmapView, ErrorView>(m),
{
    let one = lines_of(head + rest);
    let other = lines_of(head + events + rest);
    let first = line_texts(lines_of(head));
    let put_in = line_texts(lines_of(events));
    let after = line_texts(lines_of(rest));
    let n = put_in.len();
    assert(line_texts(one) == first + after) by {
        lemma_lines_of_texts_in_a_row(head, rest);
    }
    assert(line_texts(other) == first + put_in + after) by {
        lemma_lines_of_texts_in_a_row(head, events);
        lemma_lines_of_texts_in_a_row(head + events, rest);
    }
    assert(first.len() == 1 && put_in.len() == lines_of(events).len());
    assert(one.len() == 1 + after.len() && other.len() == 1 + n + after.len()) by {
        assert(line_texts(one).len() == one.len());
        assert(line_texts(other).len() == other.len());
    }
    assert(one[0].1 == other[0].1) by {
        assert(line_texts(one)[0] == first[0]);
        assert(line_texts(other)[0] == first[0]);
    }
    let start = at(one, 0);
    let start_other = at(other, 0);
    assert(version_at(start) is Ok);
    let version = version_at(start)->Ok_0;
    assert(version_at(start_other) == Ok::<i32, ErrorView>(version));
    let map = BeatmapView { version, ..default_beatmap() };
    assert(sections_from(one, 1, map) == Ok::<BeatmapView, ErrorView>(m));
    assert(header_title(other[1].1) == Some("Events"@)) by {
        assert(line_texts(other)[1] == put_in[0]);
        assert(put_in[0] == lines_of(events)[0].1);
    }
    lemma_events_are_passed_over(other, 1, map);
    let to = (1 + n) as nat;
    assert(next_header(other, 2) == to) by {
        assert forall|i: int| 2 <= i < to implies header_title(#[trigger] other[i].1) is None by {
            assert(line_texts(other)[i] == put_in[i - 1]);
            assert(put_in[i - 1] == lines_of(events)[i - 1].1);
        }
        if to < other.len() {
            assert(line_texts(other)[to as int] == after[0]);
            assert(line_texts(one)[1] == after[0]);
            lemma_sections_start_with_header(one, 1, map);
        }
        lemma_next_header_is(other, 2, to);
    }
    assert(same_texts(one, 1, other, to)) by {
        assert(line_texts(one).skip(1) =~= after);
        assert(line_texts(other).skip(to as int) =~= after);
    }
    lemma_sections_read_texts(one, 1, other, to, map);
}

} // verus!
