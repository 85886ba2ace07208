use crate::beatmap::{SectionView, section_at};
use crate::error::ErrorView;
use crate::keyed::{KeyedSection, scan_pairs};
use crate::model::{EditorSection, EditorSectionView};
use crate::number::{int_text, is_decimal_text};
use crate::readback::joining::lacks;
use crate::readback::keys::{
    block_at, header, is_key, is_line, lemma_block_line, lemma_bookmarks_read_back,
    lemma_decimal_is_value, lemma_entry_is_line, lemma_header_reads_back,
    lemma_key_matches_itself, lemma_keys_differ, lemma_number_is_value, lemma_plain_is_value,
    lemma_scan_step, lemma_scan_stop, pairs_stop_at,
};
use crate::readback::lines::{are_lines, lemma_unblank_all, unblank};
use crate::readback::records::{is_value, lemma_decimal_reads_back, lemma_number_reads_back};
use crate::sections::default_editor;
use crate::serialize::{editor_lines, join, number_texts};
use vstd::prelude::*;

verus! {

impl EditorSectionView {
    /// Whether the section is read back once it is written: its real numbers are
    /// written as such.
    pub open spec fn valid(self) -> bool {
        self.wf()
    }
}

/// The keys of the editor section are made of letters and digits.
proof fn lemma_editor_keys()
    ensures
        is_key("Bookmarks"@),
        is_key("DistanceSpacing"@),
        is_key("BeatDivisor"@),
        is_key("GridSize"@),
        is_key("TimelineZoom"@),
        is_key("Editor"@),
        "[Editor]"@ == header("Editor"@),
{
    reveal_strlit("Bookmarks");
    reveal_strlit("DistanceSpacing");
    reveal_strlit("BeatDivisor");
    reveal_strlit("GridSize");
    reveal_strlit("TimelineZoom");
    reveal_strlit("Editor");
    reveal_strlit("[Editor]");
    assert("[Editor]"@ =~= header("Editor"@));
}

/// What the line of `Bookmarks` stores is read back.
proof fn lemma_editor_bookmarks(s: EditorSectionView, x: Seq<i32>)
    requires
        x.len() > 0,
    ensures
        is_key("Bookmarks"@),
        is_value(join(number_texts(x), ',')),
        EditorSection::assigned(s, "Bookmarks"@, join(number_texts(x), ',')) == Ok::<
            EditorSectionView,
            ErrorView,
        >(EditorSectionView { bookmarks: x, ..s }),
{
    reveal(crate::sections::editor_assigned);
    lemma_editor_keys();
    reveal_strlit("Bookmarks");
    lemma_bookmarks_read_back(x);
    lemma_key_matches_itself("Bookmarks"@);
}

/// What the line of `DistanceSpacing` stores is read back.
proof fn lemma_editor_distance_spacing(s: EditorSectionView, x: Seq<char>)
    requires
        is_decimal_text(x),
    ensures
        is_key("DistanceSpacing"@),
        is_value(x),
        EditorSection::assigned(s, "DistanceSpacing"@, x) == Ok::<
            EditorSectionView,
            ErrorView,
        >(EditorSectionView { distance_spacing: x, ..s }),
{
    reveal(crate::sections::editor_assigned);
    lemma_editor_keys();
    reveal_strlit("Bookmarks");
    reveal_strlit("DistanceSpacing");
    lemma_decimal_reads_back(x);
    lemma_plain_is_value(x);
    lemma_keys_differ("DistanceSpacing"@, "Bookmarks"@);
    lemma_key_matches_itself("DistanceSpacing"@);
}

/// What the line of `BeatDivisor` stores is read back.
proof fn lemma_editor_beat_divisor(s: EditorSectionView, x: i32)
    ensures
        is_key("BeatDivisor"@),
        is_value(int_text(x as int)),
        EditorSection::assigned(s, "BeatDivisor"@, int_text(x as int)) == Ok::<
            EditorSectionView,
            ErrorView,
        >(EditorSectionView { beat_divisor: x, ..s }),
{
    reveal(crate::sections::editor_assigned);
    lemma_editor_keys();
    reveal_strlit("Bookmarks");
    reveal_strlit("DistanceSpacing");
    reveal_strlit("BeatDivisor");
    lemma_number_reads_back(x);
    lemma_plain_is_value(int_text(x as int));
    lemma_keys_differ("BeatDivisor"@, "Bookmarks"@);
    lemma_keys_differ("BeatDivisor"@, "DistanceSpacing"@);
    lemma_key_matches_itself("BeatDivisor"@);
}

/// What the line of `GridSize` stores is read back.
proof fn lemma_editor_grid_size(s: EditorSectionView, x: i32)
    ensures
        is_key("GridSize"@),
        is_value(int_text(x as int)),
        EditorSection::assigned(s, "GridSize"@, int_text(x as int)) == Ok::<
            EditorSectionView,
            ErrorView,
        >(EditorSectionView { grid_size: x, ..s }),
{
    reveal(crate::sections::editor_assigned);
    lemma_editor_keys();
    reveal_strlit("Bookmarks");
    reveal_strlit("DistanceSpacing");
    reveal_strlit("BeatDivisor");
    reveal_strlit("GridSize");
    lemma_number_reads_back(x);
    lemma_plain_is_value(int_text(x as int));
    lemma_keys_differ("GridSize"@, "Bookmarks"@);
    lemma_keys_differ("GridSize"@, "DistanceSpacing"@);
    lemma_keys_differ("GridSize"@, "BeatDivisor"@);
    lemma_key_matches_itself("GridSize"@);
}

/// What the line of `TimelineZoom` stores is read back.
proof fn lemma_editor_timeline_zoom(s: EditorSectionView, x: Seq<char>)
    requires
        is_decimal_text(x),
    ensures
        is_key("TimelineZoom"@),
        is_value(x),
        EditorSection::assigned(s, "TimelineZoom"@, x) == Ok::<
            EditorSectionView,
            ErrorView,
        >(EditorSectionView { timeline_zoom: x, ..s }),
{
    reveal(crate::sections::editor_assigned);
    lemma_editor_keys();
    reveal_strlit("Bookmarks");
    reveal_strlit("DistanceSpacing");
    reveal_strlit("BeatDivisor");
    reveal_strlit("GridSize");
    reveal_strlit("TimelineZoom");
    lemma_decimal_reads_back(x);
    lemma_plain_is_value(x);
    lemma_keys_differ("TimelineZoom"@, "Bookmarks"@);
    lemma_keys_differ("TimelineZoom"@, "DistanceSpacing"@);
    lemma_keys_differ("TimelineZoom"@, "BeatDivisor"@);
    lemma_keys_differ("TimelineZoom"@, "GridSize"@);
    lemma_key_matches_itself("TimelineZoom"@);
}

/// The lines of the editor section can each stand on a line of its own, and those of
/// them that are not blank are the header and the lines that store something.
pub proof fn lemma_editor_lines_shape(v: EditorSectionView)
    requires
        v.valid(),
    ensures
        are_lines(editor_lines(v)),
        editor_lines(v).len() == 6,
        v.bookmarks.len() > 0 ==> unblank(editor_lines(v)) == editor_lines(v),
        !(v.bookmarks.len() > 0) ==> unblank(editor_lines(v)) == editor_lines(v).remove(1),
{
    let lines = editor_lines(v);
    assert(lines.len() == 6);
    assert(is_line(lines[0])) by {
        lemma_editor_keys();
        lemma_header_reads_back("Editor"@);
    }
    assert(v.bookmarks.len() > 0 ==> is_line(lines[1])) by {
        lemma_editor_keys();
        if v.bookmarks.len() > 0 {
            lemma_bookmarks_read_back(v.bookmarks);
            lemma_entry_is_line("Bookmarks"@, join(number_texts(v.bookmarks), ','));
        }
    }
    assert(is_line(lines[2])) by {
        lemma_editor_keys();
        lemma_decimal_is_value(v.distance_spacing);
        lemma_entry_is_line("DistanceSpacing"@, v.distance_spacing);
    }
    assert(is_line(lines[3])) by {
        lemma_editor_keys();
        lemma_number_is_value(v.beat_divisor);
        lemma_entry_is_line("BeatDivisor"@, int_text(v.beat_divisor as int));
    }
    assert(is_line(lines[4])) by {
        lemma_editor_keys();
        lemma_number_is_value(v.grid_size);
        lemma_entry_is_line("GridSize"@, int_text(v.grid_size as int));
    }
    assert(is_line(lines[5])) by {
        lemma_editor_keys();
        lemma_decimal_is_value(v.timeline_zoom);
        lemma_entry_is_line("TimelineZoom"@, v.timeline_zoom);
    }
    assert(!(v.bookmarks.len() > 0) ==> lines[1].len() == 0);
    assert forall|i: int| 0 <= i < lines.len() implies lacks(#[trigger] lines[i], '\n') && !(
    lines[i].len() > 0 && lines[i].last() == '\r') by {
    }
    if v.bookmarks.len() > 0 {
        lemma_unblank_all(lines);
    } else {
        let before = lines.subrange(0, 1);
        let one = lines.subrange(1, 2);
        let after = lines.subrange(2, 6);
        assert(lines =~= before + one + after);
        assert(lines.remove(1) =~= before + after);
        assert(one =~= seq![Seq::<char>::empty()]);
        crate::readback::lines::lemma_unblank_empty_line();
        lemma_unblank_all(before);
        lemma_unblank_all(after);
        crate::readback::lines::lemma_unblank_concat(before, one);
        crate::readback::lines::lemma_unblank_concat(before + one, after);
        assert(before + Seq::<Seq<char>>::empty() =~= before);
    }
}

/// The lines of the editor section are read back, where none of them is left out.
proof fn lemma_editor_scan_with(lines: Seq<(nat, Seq<char>)>, p: nat, v: EditorSectionView)
    requires
        v.valid(),
        v.bookmarks.len() > 0,
        block_at(lines, p, unblank(editor_lines(v))),
        pairs_stop_at(lines, p + unblank(editor_lines(v)).len()),
    ensures
        scan_pairs::<EditorSection>(lines, p + 1, default_editor()) == (
            Ok::<EditorSectionView, ErrorView>(v),
            p + unblank(editor_lines(v)).len(),
        ),
{
    let block = unblank(editor_lines(v));
    lemma_editor_lines_shape(v);
    let s0 = default_editor();
    let s1 = EditorSectionView { bookmarks: v.bookmarks, ..s0 };
    assert(scan_pairs::<EditorSection>(lines, p + 1, s0) == scan_pairs::<EditorSection>(
        lines,
        p + 2,
        s1,
    )) by {
        lemma_editor_bookmarks(s0, v.bookmarks);
        lemma_block_line(lines, p, block, 1);
        assert(block[1] == editor_lines(v)[1]);
        lemma_scan_step::<EditorSection>(
            lines,
            p + 1,
            s0,
            "Bookmarks"@,
            join(number_texts(v.bookmarks), ','),
            s1,
        );
    }
    let s2 = EditorSectionView { distance_spacing: v.distance_spacing, ..s1 };
    assert(scan_pairs::<EditorSection>(lines, p + 2, s1) == scan_pairs::<EditorSection>(
        lines,
        p + 3,
        s2,
    )) by {
        lemma_editor_distance_spacing(s1, v.distance_spacing);
        lemma_block_line(lines, p, block, 2);
        assert(block[2] == editor_lines(v)[2]);
        lemma_scan_step::<EditorSection>(
            lines,
            p + 2,
            s1,
            "DistanceSpacing"@,
            v.distance_spacing,
            s2,
        );
    }
    let s3 = EditorSectionView { beat_divisor: v.beat_divisor, ..s2 };
    assert(scan_pairs::<EditorSection>(lines, p + 3, s2) == scan_pairs::<EditorSection>(
        lines,
        p + 4,
        s3,
    )) by {
        lemma_editor_beat_divisor(s2, v.beat_divisor);
        lemma_block_line(lines, p, block, 3);
        assert(block[3] == editor_lines(v)[3]);
        lemma_scan_step::<EditorSection>(
            lines,
            p + 3,
            s2,
            "BeatDivisor"@,
            int_text(v.beat_divisor as int),
            s3,
        );
    }
    let s4 = EditorSectionView { grid_size: v.grid_size, ..s3 };
    assert(scan_pairs::<EditorSection>(lines, p + 4, s3) == scan_pairs::<EditorSection>(
        lines,
        p + 5,
        s4,
    )) by {
        lemma_editor_grid_size(s3, v.grid_size);
        lemma_block_line(lines, p, block, 4);
        assert(block[4] == editor_lines(v)[4]);
        lemma_scan_step::<EditorSection>(
            lines,
            p + 4,
            s3,
            "GridSize"@,
            int_text(v.grid_size as int),
            s4,
        );
    }
    let s5 = EditorSectionView { timeline_zoom: v.timeline_zoom, ..s4 };
    assert(scan_pairs::<EditorSection>(lines, p + 5, s4) == scan_pairs::<EditorSection>(
        lines,
        p + 6,
        s5,
    )) by {
        lemma_editor_timeline_zoom(s4, v.timeline_zoom);
        lemma_block_line(lines, p, block, 5);
        assert(block[5] == editor_lines(v)[5]);
        lemma_scan_step::<EditorSection>(
            lines,
            p + 5,
            s4,
            "TimelineZoom"@,
            v.timeline_zoom,
            s5,
        );
    }
    assert(block.len() == 6);
    lemma_scan_stop::<EditorSection>(lines, p + 6, s5);
    assert(s5 =~= v);
}

/// The lines of the editor section are read back, where one of them is left out.
proof fn lemma_editor_scan_without(lines: Seq<(nat, Seq<char>)>, p: nat, v: EditorSectionView)
    requires
        v.valid(),
        !(v.bookmarks.len() > 0),
        block_at(lines, p, unblank(editor_lines(v))),
        pairs_stop_at(lines, p + unblank(editor_lines(v)).len()),
    ensures
        scan_pairs::<EditorSection>(lines, p + 1, default_editor()) == (
            Ok::<EditorSectionView, ErrorView>(v),
            p + unblank(editor_lines(v)).len(),
        ),
{
    let block = unblank(editor_lines(v));
    lemma_editor_lines_shape(v);
    let s0 = default_editor();
    let s1 = EditorSectionView { distance_spacing: v.distance_spacing, ..s0 };
    assert(scan_pairs::<EditorSection>(lines, p + 1, s0) == scan_pairs::<EditorSection>(
        lines,
        p + 2,
        s1,
    )) by {
        lemma_editor_distance_spacing(s0, v.distance_spacing);
        lemma_block_line(lines, p, block, 1);
        assert(block[1] == editor_lines(v)[2]);
        lemma_scan_step::<EditorSection>(
            lines,
            p + 1,
            s0,
            "DistanceSpacing"@,
            v.distance_spacing,
            s1,
        );
    }
    let s2 = EditorSectionView { beat_divisor: v.beat_divisor, ..s1 };
    assert(scan_pairs::<EditorSection>(lines, p + 2, s1) == scan_pairs::<EditorSection>(
        lines,
        p + 3,
        s2,
    )) by {
        lemma_editor_beat_divisor(s1, v.beat_divisor);
        lemma_block_line(lines, p, block, 2);
        assert(block[2] == editor_lines(v)[3]);
        lemma_scan_step::<EditorSection>(
            lines,
            p + 2,
            s1,
            "BeatDivisor"@,
            int_text(v.beat_divisor as int),
            s2,
        );
    }
    let s3 = EditorSectionView { grid_size: v.grid_size, ..s2 };
    assert(scan_pairs::<EditorSection>(lines, p + 3, s2) == scan_pairs::<EditorSection>(
        lines,
        p + 4,
        s3,
    )) by {
        lemma_editor_grid_size(s2, v.grid_size);
        lemma_block_line(lines, p, block, 3);
        assert(block[3] == editor_lines(v)[4]);
        lemma_scan_step::<EditorSection>(
            lines,
            p + 3,
            s2,
            "GridSize"@,
            int_text(v.grid_size as int),
            s3,
        );
    }
    let s4 = EditorSectionView { timeline_zoom: v.timeline_zoom, ..s3 };
    assert(scan_pairs::<EditorSection>(lines, p + 4, s3) == scan_pairs::<EditorSection>(
        lines,
        p + 5,
        s4,
    )) by {
        lemma_editor_timeline_zoom(s3, v.timeline_zoom);
        lemma_block_line(lines, p, block, 4);
        assert(block[4] == editor_lines(v)[5]);
        lemma_scan_step::<EditorSection>(
            lines,
            p + 4,
            s3,
            "TimelineZoom"@,
            v.timeline_zoom,
            s4,
        );
    }
    assert(block.len() == 5);
    lemma_scan_stop::<EditorSection>(lines, p + 5, s4);
    assert(v.bookmarks =~= s0.bookmarks);
    assert(s4 =~= v);
}

/// The lines of the editor section that follow its header are read back.
pub proof fn lemma_editor_scan(lines: Seq<(nat, Seq<char>)>, p: nat, v: EditorSectionView)
    requires
        v.valid(),
        block_at(lines, p, unblank(editor_lines(v))),
        pairs_stop_at(lines, p + unblank(editor_lines(v)).len()),
    ensures
        scan_pairs::<EditorSection>(lines, p + 1, default_editor()) == (
            Ok::<EditorSectionView, ErrorView>(v),
            p + unblank(editor_lines(v)).len(),
        ),
{
    if v.bookmarks.len() > 0 {
        lemma_editor_scan_with(lines, p, v);
    } else {
        lemma_editor_scan_without(lines, p, v);
    }
}

/// The editor section that is written is read back, up to the line that follows it.
pub proof fn lemma_editor_section(
    lines: Seq<(nat, Seq<char>)>,
    p: nat,
    v: EditorSectionView,
)
    requires
        v.valid(),
        block_at(lines, p, unblank(editor_lines(v))),
        pairs_stop_at(lines, p + unblank(editor_lines(v)).len()),
    ensures
        section_at(lines, p) == (
            Ok::<SectionView, ErrorView>(SectionView::Editor(v)),
            p + unblank(editor_lines(v)).len(),
        ),
{
    reveal(section_at);
    let block = unblank(editor_lines(v));
    lemma_editor_lines_shape(v);
    lemma_editor_keys();
    lemma_header_reads_back("Editor"@);
    lemma_block_line(lines, p, block, 0);
    assert(block[0] == "[Editor]"@);
    assert("Editor"@ != "General"@) by {
        reveal_strlit("Editor");
        reveal_strlit("General");
        assert("Editor"@.len() != "General"@.len() || "Editor"@[0] != "General"@[0]);
    }
    lemma_editor_scan(lines, p, v);
}

} // verus!
