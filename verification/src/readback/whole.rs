use crate::beatmap::{
    SectionView, at, beatmap_of, default_beatmap, section_at, sections_from, stored, version_at,
    version_of, version_tag,
};
use crate::cursor::lines_of;
use crate::error::ErrorView;
use crate::model::BeatmapView;
use crate::number::int_text;
use crate::readback::blocks::{
    hit_objects_block, hit_objects_valid, lemma_hit_objects_block_shape,
    lemma_hit_objects_section, lemma_timing_points_block_shape, lemma_timing_points_section,
    records_stop_at, timing_points_block, timing_points_valid,
};
use crate::readback::colours::{lemma_colours_lines_shape, lemma_colours_section};
use crate::readback::difficulty::{lemma_difficulty_lines_shape, lemma_difficulty_section};
use crate::readback::editor::{lemma_editor_lines_shape, lemma_editor_section};
use crate::readback::general::{lemma_general_lines_shape, lemma_general_section};
use crate::readback::joining::{lacks, lemma_not_blank};
use crate::readback::keys::{
    block_at, header, is_key, is_line, lemma_header_reads_back, pairs_stop_at,
};
use crate::readback::lines::{
    are_lines, lemma_content_lines_texts, lemma_lines_read_back, lemma_unblank_all,
    lemma_unblank_concat, lemma_unblank_empty_line, line_texts, unblank,
};
use crate::readback::metadata::{lemma_metadata_lines_shape, lemma_metadata_section};
use crate::readback::plain::{lemma_plain_lacks, lemma_plain_trimmed};
use crate::readback::records::lemma_number_reads_back;
use crate::serialize::{
    beatmap_lines, beatmap_text, blank, colours_lines, difficulty_lines, editor_lines,
    general_lines, hit_object_lines, metadata_lines, or_blank, timing_point_lines, version_line,
};
use crate::text::trim_end;
use vstd::prelude::*;

verus! {

impl BeatmapView {
    /// Whether the beatmap is read back once it is written: its version is not negative,
    /// and each of its sections, timing points and hit objects is read back.
    pub open spec fn valid(self) -> bool {
        &&& self.version >= 0
        &&& self.general.valid()
        &&& self.editor.valid()
        &&& self.metadata.valid()
        &&& self.difficulty.valid()
        &&& timing_points_valid(self.timing_points)
        &&& self.colours.valid()
        &&& hit_objects_valid(self.hit_objects)
    }
}

/// The headers of the sections are names in brackets, and the names are keys.
pub proof fn lemma_headers()
    ensures
        is_key("General"@) && "[General]"@ == header("General"@),
        is_key("Editor"@) && "[Editor]"@ == header("Editor"@),
        is_key("Metadata"@) && "[Metadata]"@ == header("Metadata"@),
        is_key("Difficulty"@) && "[Difficulty]"@ == header("Difficulty"@),
        is_key("TimingPoints"@) && "[TimingPoints]"@ == header("TimingPoints"@),
        is_key("Colours"@) && "[Colours]"@ == header("Colours"@),
        is_key("HitObjects"@) && "[HitObjects]"@ == header("HitObjects"@),
{
    reveal_strlit("General");
    reveal_strlit("[General]");
    reveal_strlit("Editor");
    reveal_strlit("[Editor]");
    reveal_strlit("Metadata");
    reveal_strlit("[Metadata]");
    reveal_strlit("Difficulty");
    reveal_strlit("[Difficulty]");
    reveal_strlit("TimingPoints");
    reveal_strlit("[TimingPoints]");
    reveal_strlit("Colours");
    reveal_strlit("[Colours]");
    reveal_strlit("HitObjects");
    reveal_strlit("[HitObjects]");
    assert("[General]"@ =~= header("General"@));
    assert("[Editor]"@ =~= header("Editor"@));
    assert("[Metadata]"@ =~= header("Metadata"@));
    assert("[Difficulty]"@ =~= header("Difficulty"@));
    assert("[TimingPoints]"@ =~= header("TimingPoints"@));
    assert("[Colours]"@ =~= header("Colours"@));
    assert("[HitObjects]"@ =~= header("HitObjects"@));
}

/// The line that states the version can stand on a line of its own, and the version is
/// read back from it.
pub proof fn lemma_version_reads_back(version: i32)
    requires
        version >= 0,
    ensures
        version_of(version_line(version)) == Some(version),
        is_line(version_line(version)),
{
    reveal_strlit("osu file format v");
    let line = version_line(version);
    let tag = version_tag();
    let digits = int_text(version as int);
    lemma_number_reads_back(version);
    lemma_plain_trimmed(digits);
    lemma_plain_lacks(digits, '\n');
    assert(line.subrange(0, 0 + tag.len() as int) =~= tag);
    assert(line.skip(0 + tag.len() as int) =~= digits);
    assert(trim_end(digits) == digits);
    assert(line[0] == tag[0]);
    lemma_not_blank(line);
    assert(line.last() == digits.last());
    assert forall|i: int| 0 <= i < line.len() implies line[i] != '\n' by {
        if i < tag.len() {
            assert(line[i] == tag[i]);
        } else {
            assert(line[i] == digits[i - tag.len()]);
        }
    }
}

/// Lines after lines: each of them can stand on a line of its own, and those of them
/// that are not blank are those of the first and those of the second.
proof fn lemma_append(
    a: Seq<Seq<char>>,
    b: Seq<Seq<char>>,
    kept_a: Seq<Seq<char>>,
    kept_b: Seq<Seq<char>>,
)
    requires
        are_lines(a),
        are_lines(b),
        unblank(a) == kept_a,
        unblank(b) == kept_b,
    ensures
        are_lines(a + b),
        unblank(a + b) == kept_a + kept_b,
{
    lemma_unblank_concat(a, b);
    assert forall|i: int| 0 <= i < (a + b).len() implies lacks(#[trigger] (a + b)[i], '\n')
        && !((a + b)[i].len() > 0 && (a + b)[i].last() == '\r') by {
        if i < a.len() {
            assert((a + b)[i] == a[i]);
        } else {
            assert((a + b)[i] == b[i - a.len()]);
        }
    }
}

/// A blank line can stand on a line of its own and is not kept.
proof fn lemma_blank()
    ensures
        are_lines(blank()),
        unblank(blank()) == Seq::<Seq<char>>::empty(),
{
    lemma_unblank_empty_line();
}

/// The lines of records, or one blank line where there are none, after their header.
proof fn lemma_records_lines(head: Seq<char>, lines: Seq<Seq<char>>)
    requires
        are_lines(seq![head] + lines),
        unblank(seq![head] + lines) == seq![head] + lines,
    ensures
        are_lines(seq![head] + or_blank(lines)),
        unblank(seq![head] + or_blank(lines)) == seq![head] + lines,
{
    if lines.len() == 0 {
        lemma_blank();
        assert(seq![head] + lines =~= seq![head]);
        lemma_append(seq![head], blank(), seq![head], Seq::empty());
        assert(seq![head] + Seq::<Seq<char>>::empty() =~= seq![head]);
    }
}

/// The lines of a beatmap that a cursor sees: the version, then the lines of each
/// section that are not blank.
pub open spec fn beatmap_block(m: BeatmapView) -> Seq<Seq<char>> {
    seq![version_line(m.version)] + unblank(general_lines(m.general)) + unblank(
        editor_lines(m.editor),
    ) + unblank(metadata_lines(m.metadata)) + unblank(difficulty_lines(m.difficulty))
        + timing_points_block(m.timing_points) + colours_lines(m.colours) + hit_objects_block(
        m.hit_objects,
    )
}

/// Lines of a version and of seven sections, with a blank line before each section: each
/// of them can stand on a line of its own, and those that are not blank are those of the
/// version and of the sections.
proof fn lemma_assemble(
    first: Seq<Seq<char>>,
    parts: Seq<Seq<Seq<char>>>,
    kept: Seq<Seq<Seq<char>>>,
)
    requires
        parts.len() == 7,
        kept.len() == 7,
        are_lines(first),
        unblank(first) == first,
        forall|i: int| 0 <= i < 7 ==> are_lines(#[trigger] parts[i]),
        forall|i: int| 0 <= i < 7 ==> unblank(#[trigger] parts[i]) == kept[i],
    ensures
        are_lines(
            first + blank() + parts[0] + blank() + parts[1] + blank() + parts[2] + blank()
                + parts[3] + blank() + parts[4] + blank() + parts[5] + blank() + parts[6],
        ),
        unblank(
            first + blank() + parts[0] + blank() + parts[1] + blank() + parts[2] + blank()
                + parts[3] + blank() + parts[4] + blank() + parts[5] + blank() + parts[6],
        ) == first + kept[0] + kept[1] + kept[2] + kept[3] + kept[4] + kept[5] + kept[6],
{
    let none = Seq::<Seq<char>>::empty();
    lemma_blank();
    let a0 = first;
    let k0 = first;
    let b0 = a0 + blank();
    lemma_append(a0, blank(), k0, none);
    assert(k0 + none =~= k0);
    let a1 = b0 + parts[0];
    let k1 = k0 + kept[0];
    lemma_append(b0, parts[0], k0, kept[0]);
    let b1 = a1 + blank();
    lemma_append(a1, blank(), k1, none);
    assert(k1 + none =~= k1);
    let a2 = b1 + parts[1];
    let k2 = k1 + kept[1];
    lemma_append(b1, parts[1], k1, kept[1]);
    let b2 = a2 + blank();
    lemma_append(a2, blank(), k2, none);
    assert(k2 + none =~= k2);
    let a3 = b2 + parts[2];
    let k3 = k2 + kept[2];
    lemma_append(b2, parts[2], k2, kept[2]);
    let b3 = a3 + blank();
    lemma_append(a3, blank(), k3, none);
    assert(k3 + none =~= k3);
    let a4 = b3 + parts[3];
    let k4 = k3 + kept[3];
    lemma_append(b3, parts[3], k3, kept[3]);
    let b4 = a4 + blank();
    lemma_append(a4, blank(), k4, none);
    assert(k4 + none =~= k4);
    let a5 = b4 + parts[4];
    let k5 = k4 + kept[4];
    lemma_append(b4, parts[4], k4, kept[4]);
    let b5 = a5 + blank();
    lemma_append(a5, blank(), k5, none);
    assert(k5 + none =~= k5);
    let a6 = b5 + parts[5];
    let k6 = k5 + kept[5];
    lemma_append(b5, parts[5], k5, kept[5]);
    let b6 = a6 + blank();
    lemma_append(a6, blank(), k6, none);
    assert(k6 + none =~= k6);
    lemma_append(b6, parts[6], k6, kept[6]);
}

/// The lines of the timing points section as they are written.
pub open spec fn timing_points_lines(m: BeatmapView) -> Seq<Seq<char>> {
    seq!["[TimingPoints]"@] + or_blank(timing_point_lines(m.timing_points))
}

/// The lines of the hit objects section as they are written.
pub open spec fn hit_objects_lines(m: BeatmapView) -> Seq<Seq<char>> {
    seq!["[HitObjects]"@] + or_blank(hit_object_lines(m.hit_objects))
}

/// The lines of the seven sections of a beatmap, section by section.
pub open spec fn section_lines(m: BeatmapView) -> Seq<Seq<Seq<char>>> {
    seq![
        general_lines(m.general),
        editor_lines(m.editor),
        metadata_lines(m.metadata),
        difficulty_lines(m.difficulty),
        timing_points_lines(m),
        colours_lines(m.colours),
        hit_objects_lines(m),
    ]
}

/// The lines of the seven sections of a beatmap that a cursor sees, section by section.
pub open spec fn section_blocks(m: BeatmapView) -> Seq<Seq<Seq<char>>> {
    seq![
        unblank(general_lines(m.general)),
        unblank(editor_lines(m.editor)),
        unblank(metadata_lines(m.metadata)),
        unblank(difficulty_lines(m.difficulty)),
        timing_points_block(m.timing_points),
        colours_lines(m.colours),
        hit_objects_block(m.hit_objects),
    ]
}

/// The lines of each section can stand on lines of their own, and a cursor sees those of
/// them that are not blank.
proof fn lemma_section_lines_shape(m: BeatmapView, i: int)
    requires
        m.valid(),
        0 <= i < 7,
    ensures
        are_lines(section_lines(m)[i]),
        unblank(section_lines(m)[i]) == section_blocks(m)[i],
{
    if i == 0 {
        lemma_general_lines_shape(m.general);
    } else if i == 1 {
        lemma_editor_lines_shape(m.editor);
    } else if i == 2 {
        lemma_metadata_lines_shape(m.metadata);
    } else if i == 3 {
        lemma_difficulty_lines_shape(m.difficulty);
    } else if i == 4 {
        lemma_timing_points_block_shape(m.timing_points);
        lemma_records_lines("[TimingPoints]"@, timing_point_lines(m.timing_points));
    } else if i == 5 {
        lemma_colours_lines_shape(m.colours);
    } else {
        lemma_hit_objects_block_shape(m.hit_objects);
        lemma_records_lines("[HitObjects]"@, hit_object_lines(m.hit_objects));
    }
}

/// The lines of a beatmap are the version and the lines of the sections, with a blank line
/// before each section.
proof fn lemma_beatmap_lines_are_spaced(m: BeatmapView)
    ensures
        beatmap_lines(m) == seq![version_line(m.version)] + blank() + section_lines(m)[0]
            + blank() + section_lines(m)[1] + blank() + section_lines(m)[2] + blank()
            + section_lines(m)[3] + blank() + section_lines(m)[4] + blank() + section_lines(
            m,
        )[5] + blank() + section_lines(m)[6],
{
}

/// The lines of a beatmap that a cursor sees are the version and the blocks of the
/// sections.
proof fn lemma_beatmap_block_is_joined(m: BeatmapView)
    ensures
        beatmap_block(m) == seq![version_line(m.version)] + section_blocks(m)[0]
            + section_blocks(m)[1] + section_blocks(m)[2] + section_blocks(m)[3]
            + section_blocks(m)[4] + section_blocks(m)[5] + section_blocks(m)[6],
{
}

/// The lines of the sections can stand on lines of their own, and a cursor sees those of
/// them that are not blank.
proof fn lemma_sections_lines_shape(m: BeatmapView)
    requires
        m.valid(),
    ensures
        section_lines(m).len() == 7,
        section_blocks(m).len() == 7,
        forall|i: int| 0 <= i < 7 ==> are_lines(#[trigger] section_lines(m)[i]),
        forall|i: int| 0 <= i < 7 ==> unblank(#[trigger] section_lines(m)[i]) == section_blocks(
            m,
        )[i],
{
    let parts = section_lines(m);
    let kept = section_blocks(m);
    assert(parts.len() == 7 && kept.len() == 7);
    lemma_section_lines_shape(m, 0);
    lemma_section_lines_shape(m, 1);
    lemma_section_lines_shape(m, 2);
    lemma_section_lines_shape(m, 3);
    lemma_section_lines_shape(m, 4);
    lemma_section_lines_shape(m, 5);
    lemma_section_lines_shape(m, 6);
    assert forall|i: int| 0 <= i < 7 implies are_lines(#[trigger] parts[i]) && unblank(parts[i])
        == kept[i] by {
        if i == 0 {
        } else if i == 1 {
        } else if i == 2 {
        } else if i == 3 {
        } else if i == 4 {
        } else if i == 5 {
        } else {
        }
    }
}

/// The lines of a beatmap can each stand on a line of its own, and those of them that
/// are not blank are the version and the lines of the sections.
proof fn lemma_beatmap_lines_shape(m: BeatmapView)
    requires
        m.valid(),
    ensures
        are_lines(beatmap_lines(m)),
        beatmap_lines(m).len() >= 1,
        unblank(beatmap_lines(m)) == beatmap_block(m),
{
    let first = seq![version_line(m.version)];
    assert(are_lines(first) && unblank(first) == first) by {
        lemma_version_reads_back(m.version);
        lemma_unblank_all(first);
    }
    lemma_sections_lines_shape(m);
    lemma_assemble(first, section_lines(m), section_blocks(m));
    lemma_beatmap_lines_are_spaced(m);
    lemma_beatmap_block_is_joined(m);
}

/// A section that is read is stored, and the reading goes on where the section ends.
proof fn lemma_section_step(
    lines: Seq<(nat, Seq<char>)>,
    p: nat,
    map: BeatmapView,
    section: SectionView,
    next: nat,
)
    requires
        p < lines.len(),
        section_at(lines, p) == (Ok::<SectionView, ErrorView>(section), next),
    ensures
        sections_from(lines, p, map) == sections_from(lines, next, stored(map, section)),
{
}

/// The numbered lines hold `block` after the lines of `before`.
proof fn lemma_block_after(
    lines: Seq<(nat, Seq<char>)>,
    before: Seq<Seq<char>>,
    block: Seq<Seq<char>>,
    after: Seq<Seq<char>>,
)
    requires
        line_texts(lines) == before + block + after,
    ensures
        block_at(lines, before.len(), block),
        lines.len() == before.len() + block.len() + after.len(),
        after.len() > 0 ==> lines[before.len() as int + block.len()].1 == after[0],
{
    let texts = line_texts(lines);
    assert(texts.len() == lines.len());
    assert(texts.subrange(before.len() as int, before.len() as int + block.len()) =~= block);
    if after.len() > 0 {
        assert(texts[before.len() as int + block.len()] == after[0]);
    }
}

/// The lines of a list of blocks, one block after the other.
pub open spec fn flat(blocks: Seq<Seq<Seq<char>>>) -> Seq<Seq<char>>
    decreases blocks.len(),
{
    if blocks.len() == 0 {
        Seq::empty()
    } else {
        flat(blocks.drop_last()) + blocks.last()
    }
}

/// The lines of blocks are those of the blocks before one of them, those of that one,
/// and those of the blocks after it.
proof fn lemma_flat_split(blocks: Seq<Seq<Seq<char>>>, k: int)
    requires
        0 <= k < blocks.len(),
    ensures
        flat(blocks) == flat(blocks.take(k)) + blocks[k] + flat(blocks.skip(k + 1)),
        flat(blocks.take(k + 1)) == flat(blocks.take(k)) + blocks[k],
    decreases blocks.len(),
{
    assert(blocks.take(k + 1).drop_last() =~= blocks.take(k));
    if k == blocks.len() - 1 {
        assert(blocks.take(k) =~= blocks.drop_last());
        assert(blocks.skip(k + 1) =~= Seq::<Seq<Seq<char>>>::empty());
        assert(flat(blocks.take(k)) + blocks[k] + Seq::<Seq<char>>::empty() =~= flat(
            blocks.take(k),
        ) + blocks[k]);
    } else {
        let init = blocks.drop_last();
        lemma_flat_split(init, k);
        assert(init.take(k) =~= blocks.take(k));
        assert(blocks.skip(k + 1).drop_last() =~= init.skip(k + 1));
        assert(flat(blocks) =~= flat(blocks.take(k)) + blocks[k] + flat(blocks.skip(k + 1)));
    }
}

/// The lines of a beatmap that a cursor sees are the version and the blocks of the
/// sections.
proof fn lemma_beatmap_block_is_flat(m: BeatmapView)
    ensures
        beatmap_block(m) == seq![version_line(m.version)] + flat(section_blocks(m)),
{
    let b = section_blocks(m);
    let none = Seq::<Seq<Seq<char>>>::empty();
    assert(b.take(0) =~= none);
    assert(flat(b.take(0)) =~= Seq::<Seq<char>>::empty());
    lemma_flat_split(b, 0);
    lemma_flat_split(b, 1);
    lemma_flat_split(b, 2);
    lemma_flat_split(b, 3);
    lemma_flat_split(b, 4);
    lemma_flat_split(b, 5);
    lemma_flat_split(b, 6);
    assert(b.take(7) =~= b);
    assert(beatmap_block(m) =~= seq![version_line(m.version)] + flat(b));
}

/// The place of the header of section `k` among the lines that a cursor sees; for `k`
/// the number of sections, the number of those lines.
pub open spec fn start_of(m: BeatmapView, k: int) -> nat {
    1 + flat(section_blocks(m).take(k)).len()
}

/// The names of the sections, in the order in which they are written.
pub open spec fn section_names() -> Seq<Seq<char>> {
    seq![
        "General"@,
        "Editor"@,
        "Metadata"@,
        "Difficulty"@,
        "TimingPoints"@,
        "Colours"@,
        "HitObjects"@,
    ]
}

/// The block of a section starts with its header.
proof fn lemma_block_head(m: BeatmapView, k: int)
    requires
        m.valid(),
        0 <= k < 7,
    ensures
        section_blocks(m)[k].len() >= 1,
        section_blocks(m)[k][0] == header(section_names()[k]),
        is_key(section_names()[k]),
{
    lemma_headers();
    if k == 0 {
        lemma_general_lines_shape(m.general);
    } else if k == 1 {
        lemma_editor_lines_shape(m.editor);
    } else if k == 2 {
        lemma_metadata_lines_shape(m.metadata);
    } else if k == 3 {
        lemma_difficulty_lines_shape(m.difficulty);
    } else if k == 4 {
    } else if k == 5 {
    } else {
    }
}

/// Where the block of section `k` stands among the lines that a cursor sees, and what
/// follows it: the header of the next section, or nothing.
proof fn lemma_section_place(lines: Seq<(nat, Seq<char>)>, m: BeatmapView, k: int)
    requires
        m.valid(),
        line_texts(lines) == beatmap_block(m),
        0 <= k < 7,
    ensures
        block_at(lines, start_of(m, k), section_blocks(m)[k]),
        start_of(m, k) < lines.len(),
        start_of(m, k) + section_blocks(m)[k].len() == start_of(m, k + 1),
        k < 6 ==> start_of(m, k + 1) < lines.len() && lines[start_of(m, k + 1) as int].1
            == header(section_names()[k + 1]),
        k == 6 ==> start_of(m, k + 1) == lines.len(),
{
    let b = section_blocks(m);
    let first = seq![version_line(m.version)];
    lemma_beatmap_block_is_flat(m);
    lemma_flat_split(b, k);
    lemma_block_head(m, k);
    let before = first + flat(b.take(k));
    let after = flat(b.skip(k + 1));
    assert(line_texts(lines) =~= before + b[k] + after);
    lemma_block_after(lines, before, b[k], after);
    if k < 6 {
        lemma_block_head(m, k + 1);
        let rest = b.skip(k + 1);
        lemma_flat_split(rest, 0);
        assert(rest.take(0) =~= Seq::<Seq<Seq<char>>>::empty());
        assert(flat(rest.take(0)) =~= Seq::<Seq<char>>::empty());
        assert(rest[0] == b[k + 1]);
        assert(after[0] == b[k + 1][0]);
    } else {
        assert(b.skip(7) =~= Seq::<Seq<Seq<char>>>::empty());
    }
}

/// Where a block is followed by the header of a section or by nothing, the reading of
/// keys and values stops there, and so does the reading of records.
proof fn lemma_section_stops(lines: Seq<(nat, Seq<char>)>, m: BeatmapView, k: int)
    requires
        m.valid(),
        line_texts(lines) == beatmap_block(m),
        0 <= k < 7,
    ensures
        pairs_stop_at(lines, start_of(m, k + 1)),
        records_stop_at(lines, start_of(m, k + 1)),
{
    lemma_section_place(lines, m, k);
    if k < 6 {
        lemma_block_head(m, k + 1);
        lemma_header_reads_back(section_names()[k + 1]);
    }
}

/// The general section of a beatmap that is written is read and stored.
proof fn lemma_read_general(lines: Seq<(nat, Seq<char>)>, m: BeatmapView, map: BeatmapView)
    requires
        m.valid(),
        line_texts(lines) == beatmap_block(m),
    ensures
        sections_from(lines, start_of(m, 0), map) == sections_from(
            lines,
            start_of(m, 1),
            BeatmapView { general: m.general, ..map },
        ),
{
    lemma_section_place(lines, m, 0);
    lemma_section_stops(lines, m, 0);
    assert(section_blocks(m)[0] == unblank(general_lines(m.general)));
    lemma_general_section(lines, start_of(m, 0), m.general);
    lemma_section_step(
        lines,
        start_of(m, 0),
        map,
        SectionView::General(m.general),
        start_of(m, 1),
    );
}

/// The editor section of a beatmap that is written is read and stored.
proof fn lemma_read_editor(lines: Seq<(nat, Seq<char>)>, m: BeatmapView, map: BeatmapView)
    requires
        m.valid(),
        line_texts(lines) == beatmap_block(m),
    ensures
        sections_from(lines, start_of(m, 1), map) == sections_from(
            lines,
            start_of(m, 2),
            BeatmapView { editor: m.editor, ..map },
        ),
{
    lemma_section_place(lines, m, 1);
    lemma_section_stops(lines, m, 1);
    assert(section_blocks(m)[1] == unblank(editor_lines(m.editor)));
    lemma_editor_section(lines, start_of(m, 1), m.editor);
    lemma_section_step(
        lines,
        start_of(m, 1),
        map,
        SectionView::Editor(m.editor),
        start_of(m, 2),
    );
}

/// The metadata section of a beatmap that is written is read and stored.
proof fn lemma_read_metadata(lines: Seq<(nat, Seq<char>)>, m: BeatmapView, map: BeatmapView)
    requires
        m.valid(),
        line_texts(lines) == beatmap_block(m),
    ensures
        sections_from(lines, start_of(m, 2), map) == sections_from(
            lines,
            start_of(m, 3),
            BeatmapView { metadata: m.metadata, ..map },
        ),
{
    lemma_section_place(lines, m, 2);
    lemma_section_stops(lines, m, 2);
    assert(section_blocks(m)[2] == unblank(metadata_lines(m.metadata)));
    lemma_metadata_section(lines, start_of(m, 2), m.metadata);
    lemma_section_step(
        lines,
        start_of(m, 2),
        map,
        SectionView::Metadata(m.metadata),
        start_of(m, 3),
    );
}

/// The difficulty section of a beatmap that is written is read and stored.
proof fn lemma_read_difficulty(lines: Seq<(nat, Seq<char>)>, m: BeatmapView, map: BeatmapView)
    requires
        m.valid(),
        line_texts(lines) == beatmap_block(m),
    ensures
        sections_from(lines, start_of(m, 3), map) == sections_from(
            lines,
            start_of(m, 4),
            BeatmapView { difficulty: m.difficulty, ..map },
        ),
{
    lemma_section_place(lines, m, 3);
    lemma_section_stops(lines, m, 3);
    assert(section_blocks(m)[3] == unblank(difficulty_lines(m.difficulty)));
    lemma_difficulty_section(lines, start_of(m, 3), m.difficulty);
    lemma_section_step(
        lines,
        start_of(m, 3),
        map,
        SectionView::Difficulty(m.difficulty),
        start_of(m, 4),
    );
}

/// The timing points section of a beatmap that is written is read and stored.
proof fn lemma_read_timing_points(lines: Seq<(nat, Seq<char>)>, m: BeatmapView, map: BeatmapView)
    requires
        m.valid(),
        line_texts(lines) == beatmap_block(m),
    ensures
        sections_from(lines, start_of(m, 4), map) == sections_from(
            lines,
            start_of(m, 5),
            BeatmapView { timing_points: m.timing_points, ..map },
        ),
{
    lemma_section_place(lines, m, 4);
    lemma_section_stops(lines, m, 4);
    assert(section_blocks(m)[4] == timing_points_block(m.timing_points));
    lemma_timing_points_section(lines, start_of(m, 4), m.timing_points);
    lemma_section_step(
        lines,
        start_of(m, 4),
        map,
        SectionView::TimingPoints(m.timing_points),
        start_of(m, 5),
    );
}

/// The colours section of a beatmap that is written is read and stored.
proof fn lemma_read_colours(lines: Seq<(nat, Seq<char>)>, m: BeatmapView, map: BeatmapView)
    requires
        m.valid(),
        line_texts(lines) == beatmap_block(m),
    ensures
        sections_from(lines, start_of(m, 5), map) == sections_from(
            lines,
            start_of(m, 6),
            BeatmapView { colours: m.colours, ..map },
        ),
{
    lemma_section_place(lines, m, 5);
    lemma_section_stops(lines, m, 5);
    assert(section_blocks(m)[5] == colours_lines(m.colours));
    lemma_colours_section(lines, start_of(m, 5), m.colours);
    lemma_section_step(
        lines,
        start_of(m, 5),
        map,
        SectionView::Colours(m.colours),
        start_of(m, 6),
    );
}

/// The hit objects section of a beatmap that is written is read and stored.
proof fn lemma_read_hit_objects(lines: Seq<(nat, Seq<char>)>, m: BeatmapView, map: BeatmapView)
    requires
        m.valid(),
        line_texts(lines) == beatmap_block(m),
    ensures
        sections_from(lines, start_of(m, 6), map) == sections_from(
            lines,
            start_of(m, 7),
            BeatmapView { hit_objects: m.hit_objects, ..map },
        ),
{
    lemma_section_place(lines, m, 6);
    lemma_section_stops(lines, m, 6);
    assert(section_blocks(m)[6] == hit_objects_block(m.hit_objects));
    lemma_hit_objects_section(lines, start_of(m, 6), m.hit_objects);
    lemma_section_step(
        lines,
        start_of(m, 6),
        map,
        SectionView::HitObjects(m.hit_objects),
        start_of(m, 7),
    );
}

/// A beatmap that is written is read back: for every beatmap `m` that is valid, reading
/// the text that writes `m` gives `m`.
pub proof fn lemma_beatmap_reads_back(m: BeatmapView)
    requires
        m.valid(),
    ensures
        beatmap_of(beatmap_text(m)) == Ok::<BeatmapView, ErrorView>(m),
{
    let text = beatmap_text(m);
    let lines = lines_of(text);
    assert(line_texts(lines) == beatmap_block(m)) by {
        lemma_beatmap_lines_shape(m);
        lemma_lines_read_back(beatmap_lines(m));
        lemma_content_lines_texts(beatmap_lines(m));
    }
    let start = at(lines, 0);
    assert(lines.len() >= 1 && lines[0].1 == version_line(m.version)) by {
        lemma_beatmap_block_is_flat(m);
        let texts = line_texts(lines);
        let first = seq![version_line(m.version)];
        assert(texts == first + flat(section_blocks(m)));
        assert(texts.len() == lines.len());
        assert(texts.len() >= 1);
        assert(texts[0] == first[0]);
        assert(texts[0] == lines[0].1);
    }
    assert(version_at(start) == Ok::<i32, ErrorView>(m.version)) by {
        lemma_version_reads_back(m.version);
    }
    assert(start.advanced().position == start_of(m, 0)) by {
        assert(section_blocks(m).take(0) =~= Seq::<Seq<Seq<char>>>::empty());
    }
    let m0 = BeatmapView { version: m.version, ..default_beatmap() };
    let m1 = BeatmapView { general: m.general, ..m0 };
    let m2 = BeatmapView { editor: m.editor, ..m1 };
    let m3 = BeatmapView { metadata: m.metadata, ..m2 };
    let m4 = BeatmapView { difficulty: m.difficulty, ..m3 };
    let m5 = BeatmapView { timing_points: m.timing_points, ..m4 };
    let m6 = BeatmapView { colours: m.colours, ..m5 };
    let m7 = BeatmapView { hit_objects: m.hit_objects, ..m6 };
    lemma_read_general(lines, m, m0);
    lemma_read_editor(lines, m, m1);
    lemma_read_metadata(lines, m, m2);
    lemma_read_difficulty(lines, m, m3);
    lemma_read_timing_points(lines, m, m4);
    lemma_read_colours(lines, m, m5);
    lemma_read_hit_objects(lines, m, m6);
    assert(sections_from(lines, start_of(m, 7), m7) == Ok::<BeatmapView, ErrorView>(m7)) by {
        lemma_section_place(lines, m, 6);
    }
    assert(m7 == m);
}

} // verus!
