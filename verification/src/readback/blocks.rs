use crate::beatmap::{Record, SectionView, header_title, records_from, section_at};
use crate::error::ErrorView;
use crate::model::{HitObject, HitObjectView, TimingPoint, TimingPointView};
use crate::readback::joining::{lacks, lemma_not_blank};
use crate::readback::keys::{
    block_at, header, is_key, is_line, lemma_block_line, lemma_header_reads_back,
};
use crate::readback::lines::{are_lines, lemma_unblank_all, line_texts, unblank};
use crate::readback::plain::is_number_char;
use crate::readback::records::{
    lemma_hit_object_reads_back, lemma_timing_point_reads_back, lemma_timing_point_text_shape,
};
use crate::serialize::{hit_object_lines, hit_object_text, timing_point_lines, timing_point_text};
use crate::text::is_space;
use vstd::prelude::*;

verus! {

/// Whether the reading of records stops at place `at`: no line is left there, or a
/// section header.
pub open spec fn records_stop_at(lines: Seq<(nat, Seq<char>)>, at: nat) -> bool {
    at >= lines.len() || header_title(lines[at as int].1) is Some
}

/// A text that starts and ends with characters that numbers are written with, and holds
/// no line feed, can stand on a line of its own and is no header.
pub proof fn lemma_record_is_line(s: Seq<char>)
    requires
        s.len() > 0,
        is_number_char(s[0]),
        !is_space(s.last()),
        lacks(s, '\n'),
    ensures
        is_line(s),
        header_title(s) is None,
{
    lemma_not_blank(s);
}

/// Lines that each write a record are read as the records, up to the line where the
/// reading stops.
pub proof fn lemma_records_read<R: Record>(
    lines: Seq<(nat, Seq<char>)>,
    from: nat,
    done: Seq<R::V>,
    texts: Seq<Seq<char>>,
    records: Seq<R::V>,
)
    requires
        texts.len() == records.len(),
        block_at(lines, from, texts),
        forall|i: int|
            0 <= i < records.len() ==> header_title(#[trigger] texts[i]) is None && R::written(
                texts[i],
            ) == Ok::<R::V, ErrorView>(records[i]),
        records_stop_at(lines, from + records.len()),
    ensures
        records_from::<R>(lines, from, done) == (
            Ok::<Seq<R::V>, ErrorView>(done + records),
            from + records.len(),
        ),
    decreases records.len(),
{
    if records.len() == 0 {
        assert(done + records =~= done);
    } else {
        let rest = records.skip(1);
        let rest_texts = texts.skip(1);
        lemma_block_line(lines, from, texts, 0);
        assert(header_title(texts[0]) is None);
        assert(block_at(lines, from + 1, rest_texts)) by {
            assert(line_texts(lines).subrange(from as int + 1, from as int + 1 + rest_texts.len())
                =~= line_texts(lines).subrange(from as int, from as int + texts.len()).skip(1));
        }
        assert forall|i: int| 0 <= i < rest.len() implies header_title(
            #[trigger] rest_texts[i],
        ) is None && R::written(rest_texts[i]) == Ok::<R::V, ErrorView>(rest[i]) by {
            assert(rest_texts[i] == texts[i + 1]);
            assert(rest[i] == records[i + 1]);
        }
        lemma_records_read::<R>(lines, from + 1, done.push(records[0]), rest_texts, rest);
        assert(done.push(records[0]) + rest =~= done + records);
    }
}

impl TimingPointView {
    /// Whether the timing point is read back once it is written.
    pub open spec fn valid(self) -> bool {
        self.wf()
    }
}

/// Whether each of the timing points is read back once it is written.
pub open spec fn timing_points_valid(points: Seq<TimingPointView>) -> bool {
    forall|i: int| 0 <= i < points.len() ==> (#[trigger] points[i]).valid()
}

/// Whether each of the hit objects is read back once it is written.
pub open spec fn hit_objects_valid(objects: Seq<HitObjectView>) -> bool {
    forall|i: int| 0 <= i < objects.len() ==> (#[trigger] objects[i]).valid()
}

/// The lines of the timing points section that are seen by a cursor: its header and one
/// line for each timing point.
pub open spec fn timing_points_block(points: Seq<TimingPointView>) -> Seq<Seq<char>> {
    seq!["[TimingPoints]"@] + timing_point_lines(points)
}

/// The lines of the hit objects section that are seen by a cursor: its header and one
/// line for each hit object.
pub open spec fn hit_objects_block(objects: Seq<HitObjectView>) -> Seq<Seq<char>> {
    seq!["[HitObjects]"@] + hit_object_lines(objects)
}

/// A hit object that is written can stand on a line of its own and is no header.
pub proof fn lemma_hit_object_is_line(h: HitObjectView)
    requires
        h.valid(),
    ensures
        is_line(hit_object_text(h)),
        header_title(hit_object_text(h)) is None,
{
    lemma_hit_object_reads_back(h);
    lemma_record_is_line(hit_object_text(h));
}

/// The lines of the timing points can each stand on a line of its own, and none of them
/// is blank.
pub proof fn lemma_timing_points_block_shape(points: Seq<TimingPointView>)
    requires
        timing_points_valid(points),
    ensures
        are_lines(timing_points_block(points)),
        unblank(timing_points_block(points)) == timing_points_block(points),
        timing_points_block(points).len() == points.len() + 1,
{
    let lines = timing_points_block(points);
    assert forall|i: int| 0 <= i < lines.len() implies is_line(#[trigger] lines[i]) by {
        if i == 0 {
            reveal_strlit("[TimingPoints]");
            reveal_strlit("TimingPoints");
            assert("[TimingPoints]"@ =~= header("TimingPoints"@));
            lemma_header_reads_back("TimingPoints"@);
        } else {
            assert(lines[i] == timing_point_text(points[i - 1]));
            assert(points[i - 1].valid());
            lemma_timing_point_text_shape(points[i - 1]);
            lemma_record_is_line(lines[i]);
        }
    }
    lemma_unblank_all(lines);
}

/// The lines of the hit objects can each stand on a line of its own, and none of them is
/// blank.
pub proof fn lemma_hit_objects_block_shape(objects: Seq<HitObjectView>)
    requires
        hit_objects_valid(objects),
    ensures
        are_lines(hit_objects_block(objects)),
        unblank(hit_objects_block(objects)) == hit_objects_block(objects),
        hit_objects_block(objects).len() == objects.len() + 1,
{
    let lines = hit_objects_block(objects);
    assert forall|i: int| 0 <= i < lines.len() implies is_line(#[trigger] lines[i]) by {
        if i == 0 {
            reveal_strlit("[HitObjects]");
            reveal_strlit("HitObjects");
            assert("[HitObjects]"@ =~= header("HitObjects"@));
            lemma_header_reads_back("HitObjects"@);
        } else {
            assert(lines[i] == hit_object_text(objects[i - 1]));
            assert(objects[i - 1].valid());
            lemma_hit_object_is_line(objects[i - 1]);
        }
    }
    lemma_unblank_all(lines);
}

/// The name of the timing points section is a key, and the name of no section that comes
/// before it where the name of a section is looked up.
proof fn lemma_timing_points_name()
    ensures
        is_key("TimingPoints"@),
        "[TimingPoints]"@ == header("TimingPoints"@),
        "TimingPoints"@ != "General"@,
        "TimingPoints"@ != "Editor"@,
        "TimingPoints"@ != "Metadata"@,
        "TimingPoints"@ != "Difficulty"@,
        "TimingPoints"@ != "Events"@,
{
    reveal_strlit("[TimingPoints]");
    reveal_strlit("TimingPoints");
    reveal_strlit("General");
    reveal_strlit("Editor");
    reveal_strlit("Metadata");
    reveal_strlit("Difficulty");
    reveal_strlit("Events");
    assert("[TimingPoints]"@ =~= header("TimingPoints"@));
    assert("TimingPoints"@.len() == 12);
}

/// The name of the hit objects section is a key, and the name of no section that comes
/// before it where the name of a section is looked up.
proof fn lemma_hit_objects_name()
    ensures
        is_key("HitObjects"@),
        "[HitObjects]"@ == header("HitObjects"@),
        "HitObjects"@ != "General"@,
        "HitObjects"@ != "Editor"@,
        "HitObjects"@ != "Metadata"@,
        "HitObjects"@ != "Difficulty"@,
        "HitObjects"@ != "Events"@,
        "HitObjects"@ != "TimingPoints"@,
{
    reveal_strlit("[HitObjects]");
    reveal_strlit("HitObjects");
    reveal_strlit("General");
    reveal_strlit("Editor");
    reveal_strlit("Metadata");
    reveal_strlit("Difficulty");
    reveal_strlit("Events");
    reveal_strlit("TimingPoints");
    assert("[HitObjects]"@ =~= header("HitObjects"@));
    assert("HitObjects"@.len() == 10);
    assert("HitObjects"@[0] != "Difficulty"@[0]);
}

/// A section whose header names the timing points holds the records that follow the
/// header.
proof fn lemma_timing_points_dispatch(lines: Seq<(nat, Seq<char>)>, p: nat)
    requires
        p < lines.len(),
        lines[p as int].1 == "[TimingPoints]"@,
    ensures
        section_at(lines, p) == (
            match records_from::<TimingPoint>(lines, p + 1, Seq::empty()).0 {
                Ok(s) => Ok::<SectionView, ErrorView>(SectionView::TimingPoints(s)),
                Err(e) => Err(e),
            },
            records_from::<TimingPoint>(lines, p + 1, Seq::empty()).1,
        ),
{
    reveal(section_at);
    lemma_timing_points_name();
    lemma_header_reads_back("TimingPoints"@);
}

/// A section whose header names the hit objects holds the records that follow the
/// header.
proof fn lemma_hit_objects_dispatch(lines: Seq<(nat, Seq<char>)>, p: nat)
    requires
        p < lines.len(),
        lines[p as int].1 == "[HitObjects]"@,
    ensures
        section_at(lines, p) == (
            match records_from::<HitObject>(lines, p + 1, Seq::empty()).0 {
                Ok(s) => Ok::<SectionView, ErrorView>(SectionView::HitObjects(s)),
                Err(e) => Err(e),
            },
            records_from::<HitObject>(lines, p + 1, Seq::empty()).1,
        ),
{
    reveal(section_at);
    lemma_hit_objects_name();
    lemma_header_reads_back("HitObjects"@);
}

/// The timing points section that is written is read back, up to the line that follows
/// it.
pub proof fn lemma_timing_points_section(
    lines: Seq<(nat, Seq<char>)>,
    p: nat,
    points: Seq<TimingPointView>,
)
    requires
        timing_points_valid(points),
        block_at(lines, p, timing_points_block(points)),
        records_stop_at(lines, p + timing_points_block(points).len()),
    ensures
        section_at(lines, p) == (
            Ok::<SectionView, ErrorView>(SectionView::TimingPoints(points)),
            p + timing_points_block(points).len(),
        ),
{
    let block = timing_points_block(points);
    assert(block.len() == points.len() + 1);
    let texts = timing_point_lines(points);
    assert(block.skip(1) =~= texts);
    assert(block_at(lines, p + 1, texts)) by {
        assert(line_texts(lines).subrange(p as int + 1, p as int + 1 + texts.len())
            =~= line_texts(lines).subrange(p as int, p as int + block.len()).skip(1));
    }
    assert forall|i: int| 0 <= i < points.len() implies header_title(#[trigger] texts[i])
        is None && TimingPoint::written(texts[i]) == Ok::<TimingPointView, ErrorView>(
        points[i],
    ) by {
        assert(texts[i] == timing_point_text(points[i]));
        assert(points[i].valid());
        lemma_timing_point_reads_back(points[i]);
        lemma_timing_point_text_shape(points[i]);
        lemma_record_is_line(texts[i]);
    }
    lemma_records_read::<TimingPoint>(lines, p + 1, Seq::empty(), texts, points);
    assert(Seq::<TimingPointView>::empty() + points =~= points);
    lemma_block_line(lines, p, block, 0);
    lemma_timing_points_dispatch(lines, p);
}

/// The hit objects section that is written is read back, up to the line that follows it.
pub proof fn lemma_hit_objects_section(
    lines: Seq<(nat, Seq<char>)>,
    p: nat,
    objects: Seq<HitObjectView>,
)
    requires
        hit_objects_valid(objects),
        block_at(lines, p, hit_objects_block(objects)),
        records_stop_at(lines, p + hit_objects_block(objects).len()),
    ensures
        section_at(lines, p) == (
            Ok::<SectionView, ErrorView>(SectionView::HitObjects(objects)),
            p + hit_objects_block(objects).len(),
        ),
{
    let block = hit_objects_block(objects);
    assert(block.len() == objects.len() + 1);
    let texts = hit_object_lines(objects);
    assert(block.skip(1) =~= texts);
    assert(block_at(lines, p + 1, texts)) by {
        assert(line_texts(lines).subrange(p as int + 1, p as int + 1 + texts.len())
            =~= line_texts(lines).subrange(p as int, p as int + block.len()).skip(1));
    }
    assert forall|i: int| 0 <= i < objects.len() implies header_title(#[trigger] texts[i])
        is None && HitObject::written(texts[i]) == Ok::<HitObjectView, ErrorView>(
        objects[i],
    ) by {
        assert(texts[i] == hit_object_text(objects[i]));
        assert(objects[i].valid());
        lemma_hit_object_reads_back(objects[i]);
        lemma_hit_object_is_line(objects[i]);
    }
    lemma_records_read::<HitObject>(lines, p + 1, Seq::empty(), texts, objects);
    assert(Seq::<HitObjectView>::empty() + objects =~= objects);
    lemma_block_line(lines, p, block, 0);
    lemma_hit_objects_dispatch(lines, p);
}

} // verus!
