use crate::beatmap::{beatmap_of, default_beatmap, records_from, section_at, sections_from, stored};
use crate::grammar::{colour_skip_bits, hit_object_of, timing_point_of};
use crate::keyed::{KeyedSection, pair_of, scan_pairs};
use crate::model::{
    BeatmapView, DifficultySection, DifficultySectionView, EditorSection, EditorSectionView,
    GeneralSection, GeneralSectionView, HitObject, HitObjectView, TimingPoint, TimingPointView,
};
use crate::number::{digit_run, is_number_text};
use crate::sections::{default_difficulty, default_editor, default_general};
use vstd::prelude::*;

verus! {

/// Bits 4 to 6 of a number are a number from 0 to 7.
pub proof fn lemma_colour_skip_range(kind: i32)
    ensures
        0 <= colour_skip_bits(kind) <= 7,
{
    assert(0 <= ((kind >> 4) & 7) <= 7) by (bit_vector);
}

/// A timing point that was read is well formed.
pub proof fn lemma_timing_point_wf(line: Seq<char>)
    ensures
        timing_point_of(line) matches Ok(t) ==> t.wf(),
{
}

/// A hit object that was read is well formed.
pub proof fn lemma_hit_object_wf(line: Seq<char>)
    ensures
        hit_object_of(line) matches Ok(h) ==> h.wf(),
{
    let f = crate::text::split(line, ',');
    match crate::grammar::common_of(f) {
        Ok(c) => {
            lemma_colour_skip_range(c.kind);
        },
        Err(_) => {},
    }
}

/// The general section stays well formed while lines are read into it.
pub proof fn lemma_general_scan_wf(
    lines: Seq<(nat, Seq<char>)>,
    from: nat,
    section: GeneralSectionView,
)
    requires
        section.wf(),
    ensures
        scan_pairs::<GeneralSection>(lines, from, section).0 matches Ok(s) ==> s.wf(),
    decreases lines.len() - from,
{
    reveal(crate::sections::general_assigned);
    if from < lines.len() {
        match pair_of(lines[from as int].1) {
            None => {},
            Some((key, value)) => match GeneralSection::assigned(section, key, value) {
                Err(_) => {},
                Ok(next) => {
                    lemma_general_scan_wf(lines, from + 1, next);
                },
            },
        }
    }
}

/// The editor section stays well formed while lines are read into it.
pub proof fn lemma_editor_scan_wf(
    lines: Seq<(nat, Seq<char>)>,
    from: nat,
    section: EditorSectionView,
)
    requires
        section.wf(),
    ensures
        scan_pairs::<EditorSection>(lines, from, section).0 matches Ok(s) ==> s.wf(),
    decreases lines.len() - from,
{
    reveal(crate::sections::editor_assigned);
    if from < lines.len() {
        match pair_of(lines[from as int].1) {
            None => {},
            Some((key, value)) => match EditorSection::assigned(section, key, value) {
                Err(_) => {},
                Ok(next) => {
                    lemma_editor_scan_wf(lines, from + 1, next);
                },
            },
        }
    }
}

/// The difficulty section stays well formed while lines are read into it.
pub proof fn lemma_difficulty_scan_wf(
    lines: Seq<(nat, Seq<char>)>,
    from: nat,
    section: DifficultySectionView,
)
    requires
        section.wf(),
    ensures
        scan_pairs::<DifficultySection>(lines, from, section).0 matches Ok(s) ==> s.wf(),
    decreases lines.len() - from,
{
    reveal(crate::sections::difficulty_assigned);
    if from < lines.len() {
        match pair_of(lines[from as int].1) {
            None => {},
            Some((key, value)) => match DifficultySection::assigned(section, key, value) {
                Err(_) => {},
                Ok(next) => {
                    lemma_difficulty_scan_wf(lines, from + 1, next);
                },
            },
        }
    }
}

/// Whether each of the timing points is well formed.
pub open spec fn timing_points_wf(points: Seq<TimingPointView>) -> bool {
    forall|i: int| 0 <= i < points.len() ==> (#[trigger] points[i]).wf()
}

/// Whether each of the hit objects is well formed.
pub open spec fn hit_objects_wf(objects: Seq<HitObjectView>) -> bool {
    forall|i: int| 0 <= i < objects.len() ==> (#[trigger] objects[i]).wf()
}

/// Timing points that were read are well formed.
pub proof fn lemma_timing_points_wf(
    lines: Seq<(nat, Seq<char>)>,
    from: nat,
    done: Seq<TimingPointView>,
)
    requires
        timing_points_wf(done),
    ensures
        records_from::<TimingPoint>(lines, from, done).0 matches Ok(points) ==> timing_points_wf(
            points,
        ),
    decreases lines.len() - from,
{
    if from < lines.len() && crate::beatmap::header_title(lines[from as int].1) is None {
        match timing_point_of(lines[from as int].1) {
            Err(_) => {},
            Ok(t) => {
                lemma_timing_point_wf(lines[from as int].1);
                lemma_timing_points_wf(lines, from + 1, done.push(t));
            },
        }
    }
}

/// Hit objects that were read are well formed.
pub proof fn lemma_hit_objects_wf(
    lines: Seq<(nat, Seq<char>)>,
    from: nat,
    done: Seq<HitObjectView>,
)
    requires
        hit_objects_wf(done),
    ensures
        records_from::<HitObject>(lines, from, done).0 matches Ok(objects) ==> hit_objects_wf(
            objects,
        ),
    decreases lines.len() - from,
{
    if from < lines.len() && crate::beatmap::header_title(lines[from as int].1) is None {
        match hit_object_of(lines[from as int].1) {
            Err(_) => {},
            Ok(h) => {
                lemma_hit_object_wf(lines[from as int].1);
                lemma_hit_objects_wf(lines, from + 1, done.push(h));
            },
        }
    }
}

/// The defaults of the sections are well formed.
pub proof fn lemma_defaults_wf()
    ensures
        default_general().wf(),
        default_editor().wf(),
        default_difficulty().wf(),
        default_beatmap().wf(),
{
    reveal_strlit("0");
    reveal_strlit("1");
    reveal_strlit("5");
    reveal_strlit("1.4");
    reveal_strlit("1.22");
    reveal_with_fuel(digit_run, 5);
    assert(is_number_text("0"@));
    assert(is_number_text("1"@));
    assert(is_number_text("5"@));
    assert(digit_run("1.4"@, 0) == 1);
    assert(is_number_text("1.4"@));
    assert(digit_run("1.22"@, 0) == 1);
    assert(is_number_text("1.22"@));
}

/// A beatmap stays well formed once a section that was read is stored in it.
pub proof fn lemma_section_wf(lines: Seq<(nat, Seq<char>)>, position: nat, map: BeatmapView)
    requires
        map.wf(),
    ensures
        section_at(lines, position).0 matches Ok(section) ==> stored(map, section).wf(),
{
    reveal(section_at);
    lemma_defaults_wf();
    lemma_general_scan_wf(lines, position + 1, default_general());
    lemma_editor_scan_wf(lines, position + 1, default_editor());
    lemma_difficulty_scan_wf(lines, position + 1, default_difficulty());
    lemma_timing_points_wf(lines, position + 1, Seq::empty());
    lemma_hit_objects_wf(lines, position + 1, Seq::empty());
}

/// A beatmap stays well formed while sections are read into it.
pub proof fn lemma_sections_wf(lines: Seq<(nat, Seq<char>)>, position: nat, map: BeatmapView)
    requires
        map.wf(),
    ensures
        sections_from(lines, position, map) matches Ok(m) ==> m.wf(),
    decreases lines.len() - position,
{
    if position < lines.len() {
        let r = section_at(lines, position);
        match r.0 {
            Err(_) => {},
            Ok(section) => {
                lemma_section_wf(lines, position, map);
                crate::beatmap::lemma_section_moves_on(lines, position);
                lemma_sections_wf(lines, r.1, stored(map, section));
            },
        }
    }
}

/// A beatmap that was read is well formed.
pub proof fn lemma_beatmap_wf(text: Seq<char>)
    ensures
        beatmap_of(text) matches Ok(m) ==> m.wf(),
{
    lemma_defaults_wf();
    let start = crate::beatmap::at(crate::cursor::lines_of(text), 0);
    match crate::beatmap::version_at(start) {
        Err(_) => {},
        Ok(version) => {
            lemma_sections_wf(
                start.lines,
                start.advanced().position,
                BeatmapView { version, ..default_beatmap() },
            );
        },
    }
}

} // verus!
