use crate::beatmap::{
    Record, SectionView, at, beatmap_of, default_beatmap, header_title, keyed_section,
    lemma_next_header_moves_on, lemma_records_move_on, lemma_scan_pairs_moves_on,
    lemma_section_moves_on, next_header, records_from, section_at, sections_from, stored,
    version_at, version_of,
};
use crate::colours::{ColourScan, ColourScanView, default_colours};
use crate::cursor::{content_lines, lines_of, split_lines};
use crate::error::{ErrorView, Result, agrees};
use crate::keyed::{KeyedSection, pair_of, scan_pairs};
use crate::model::{
    Beatmap, BeatmapView, DifficultySection, EditorSection, GeneralSection, HitObject,
    MetadataSection, TimingPoint,
};
use crate::sections::{default_difficulty, default_editor, default_general, default_metadata};
use crate::text::is_blank;
use vstd::prelude::*;

verus! {

/// Reading is a function of the text: whatever two readings of one text gave, they gave
/// the same beatmap or the same error.
pub proof fn lemma_reading_is_a_function(
    text: Seq<char>,
    first: Result<Beatmap>,
    second: Result<Beatmap>,
)
    requires
        agrees(first, beatmap_of(text)),
        agrees(second, beatmap_of(text)),
    ensures
        match (first, second) {
            (Ok(a), Ok(b)) => a@ == b@,
            (Err(e), Err(f)) => e@ == f@,
            _ => false,
        },
{
}

/// An error of the sections names its line, or says that a field is missing.
pub proof fn lemma_section_errors_name_lines(
    lines: Seq<(nat, Seq<char>)>,
    position: nat,
    map: BeatmapView,
)
    ensures
        sections_from(lines, position, map) matches Err(e) ==> !(e is Message),
    decreases lines.len() - position,
{
    if position < lines.len() {
        let r = section_at(lines, position);
        match r.0 {
            Err(_) => {},
            Ok(section) => {
                lemma_section_moves_on(lines, position);
                lemma_section_errors_name_lines(lines, r.1, stored(map, section));
            },
        }
    }
}

/// An error of the reading names its line, or says that a field is missing: no error
/// leaves the reading without the line that the cursor stood on, where it can have one.
pub proof fn lemma_errors_name_lines(text: Seq<char>)
    ensures
        beatmap_of(text) matches Err(e) ==> !(e is Message),
{
    let start = at(lines_of(text), 0);
    match version_at(start) {
        Err(_) => {},
        Ok(version) => {
            lemma_section_errors_name_lines(
                start.lines,
                start.advanced().position,
                BeatmapView { version, ..default_beatmap() },
            );
        },
    }
}

/// The first line of a text, where it is not blank, is the first line that a cursor sees,
/// and its index is 0.
pub proof fn lemma_first_line(all: Seq<Seq<char>>)
    requires
        all.len() > 0,
        !is_blank(all[0]),
    ensures
        content_lines(all).len() > 0,
        content_lines(all)[0] == (0nat, all[0]),
    decreases all.len(),
{
    if all.len() > 1 {
        let init = all.drop_last();
        assert(init[0] == all[0]);
        lemma_first_line(init);
    } else {
        assert(all.drop_last() =~= Seq::<Seq<char>>::empty());
        assert(content_lines(all.drop_last()) =~= Seq::<(nat, Seq<char>)>::empty());
        assert(all.last() == all[0]);
    }
}

/// A text whose first line is not blank and states no version is not read: the error is a
/// syntax error that points at that line, the line with index 0.
pub proof fn lemma_version_is_needed(text: Seq<char>)
    requires
        split_lines(text).len() > 0,
        !is_blank(split_lines(text)[0]),
        version_of(split_lines(text)[0]) is None,
    ensures
        beatmap_of(text) == Err::<BeatmapView, ErrorView>(
            ErrorView::Syntax(
                Some((0nat, split_lines(text)[0])),
                "Unable to parse version line"@,
            ),
        ),
{
    lemma_first_line(split_lines(text));
}

/// A text without a line that is not blank is not read: the error is a syntax error that
/// points at no line.
pub proof fn lemma_some_line_is_needed(text: Seq<char>)
    requires
        lines_of(text).len() == 0,
    ensures
        beatmap_of(text) == Err::<BeatmapView, ErrorView>(
            ErrorView::Syntax(None, "Unable to parse version line"@),
        ),
{
}

/// Whether a name is the name of a section that is known.
pub open spec fn is_section_name(title: Seq<char>) -> bool {
    title == "General"@ || title == "Editor"@ || title == "Metadata"@ || title == "Difficulty"@
        || title == "Events"@ || title == "TimingPoints"@ || title == "HitObjects"@ || title
        == "Colours"@
}

/// A header that names no section that is known ends the reading: the error is a syntax
/// error that points at the header.
pub proof fn lemma_section_must_be_known(
    lines: Seq<(nat, Seq<char>)>,
    position: nat,
    map: BeatmapView,
)
    requires
        position < lines.len(),
        header_title(lines[position as int].1) matches Some(title) && !is_section_name(title),
    ensures
        sections_from(lines, position, map) == Err::<BeatmapView, ErrorView>(
            ErrorView::Syntax(Some(lines[position as int]), "Unknown section header"@),
        ),
{
    reveal(section_at);
}

/// A line that is no header, where a header is due, ends the reading: the error is a
/// syntax error that points at the line.
pub proof fn lemma_header_is_needed(lines: Seq<(nat, Seq<char>)>, position: nat, map: BeatmapView)
    requires
        position < lines.len(),
        header_title(lines[position as int].1) is None,
    ensures
        sections_from(lines, position, map) == Err::<BeatmapView, ErrorView>(
            ErrorView::Syntax(Some(lines[position as int]), "Malformed section header"@),
        ),
{
    reveal(section_at);
}

/// The name of the events section is the name of no section that comes before it where
/// the name of a section is looked up.
proof fn lemma_events_name()
    ensures
        "Events"@ != "General"@,
        "Events"@ != "Editor"@,
        "Events"@ != "Metadata"@,
        "Events"@ != "Difficulty"@,
{
    reveal_strlit("Events");
    reveal_strlit("General");
    reveal_strlit("Editor");
    reveal_strlit("Metadata");
    reveal_strlit("Difficulty");
    assert("Events"@.len() != "General"@.len());
    assert("Events"@[1] != "Editor"@[1]);
    assert("Events"@.len() != "Metadata"@.len());
    assert("Events"@.len() != "Difficulty"@.len());
}

/// The events section is read as nothing, up to the next header.
pub proof fn lemma_events_section(lines: Seq<(nat, Seq<char>)>, position: nat)
    requires
        position < lines.len(),
        header_title(lines[position as int].1) == Some("Events"@),
    ensures
        section_at(lines, position) == (
            Ok::<SectionView, ErrorView>(SectionView::Events),
            next_header(lines, position + 1),
        ),
{
    reveal(section_at);
    lemma_events_name();
}

/// The events are passed over: whatever the lines of the events section hold, no error
/// comes of them and nothing of them is stored; the reading goes on at the next header
/// with the beatmap as it was.
pub proof fn lemma_events_are_passed_over(
    lines: Seq<(nat, Seq<char>)>,
    position: nat,
    map: BeatmapView,
)
    requires
        position < lines.len(),
        header_title(lines[position as int].1) == Some("Events"@),
    ensures
        sections_from(lines, position, map) == sections_from(
            lines,
            next_header(lines, position + 1),
            map,
        ),
{
    lemma_events_section(lines, position);
}

/// Where the next header stands depends on which lines are headers, and on nothing else
/// that the lines hold.
pub proof fn lemma_next_header_sees_headers_only(
    one: Seq<(nat, Seq<char>)>,
    other: Seq<(nat, Seq<char>)>,
    from: nat,
)
    requires
        one.len() == other.len(),
        forall|i: int|
            from <= i < one.len() ==> (header_title(#[trigger] one[i].1) is Some) == (header_title(
                other[i].1,
            ) is Some),
    ensures
        next_header(one, from) == next_header(other, from),
    decreases one.len() - from,
{
    if from < one.len() {
        assert((header_title(one[from as int].1) is Some) == (header_title(other[from as int].1)
            is Some));
        if header_title(one[from as int].1) is None {
            lemma_next_header_sees_headers_only(one, other, from + 1);
        }
    }
}

/// Whether two lists of lines are the same from place `from` on.
pub open spec fn same_from(
    one: Seq<(nat, Seq<char>)>,
    other: Seq<(nat, Seq<char>)>,
    from: nat,
) -> bool {
    one.len() == other.len() && forall|i: int| from <= i < one.len() ==> one[i] == other[i]
}

/// What keys and values are read as depends on no line before the first that is read.
pub proof fn lemma_scan_pairs_looks_ahead<S: KeyedSection>(
    one: Seq<(nat, Seq<char>)>,
    other: Seq<(nat, Seq<char>)>,
    from: nat,
    section: S::V,
)
    requires
        same_from(one, other, from),
    ensures
        scan_pairs::<S>(one, from, section) == scan_pairs::<S>(other, from, section),
    decreases one.len() - from,
{
    if from < one.len() {
        assert(one[from as int] == other[from as int]);
        match pair_of(one[from as int].1) {
            None => {},
            Some((key, value)) => match S::assigned(section, key, value) {
                Err(_) => {},
                Ok(next) => {
                    lemma_scan_pairs_looks_ahead::<S>(one, other, from + 1, next);
                },
            },
        }
    }
}

/// What records are read as depends on no line before the first that is read.
pub proof fn lemma_records_look_ahead<R: Record>(
    one: Seq<(nat, Seq<char>)>,
    other: Seq<(nat, Seq<char>)>,
    from: nat,
    done: Seq<R::V>,
)
    requires
        same_from(one, other, from),
    ensures
        records_from::<R>(one, from, done) == records_from::<R>(other, from, done),
    decreases one.len() - from,
{
    if from < one.len() {
        assert(one[from as int] == other[from as int]);
        if header_title(one[from as int].1) is None {
            match R::written(one[from as int].1) {
                Err(_) => {},
                Ok(record) => {
                    lemma_records_look_ahead::<R>(one, other, from + 1, done.push(record));
                },
            }
        }
    }
}

/// What a section is read as depends on no line before its header.
pub proof fn lemma_section_looks_ahead(
    one: Seq<(nat, Seq<char>)>,
    other: Seq<(nat, Seq<char>)>,
    position: nat,
)
    requires
        same_from(one, other, position),
    ensures
        section_at(one, position) == section_at(other, position),
{
    reveal(section_at);
    if position < one.len() {
        assert(one[position as int] == other[position as int]);
        assert(at(one, position).syntax_error("Malformed section header"@) == at(
            other,
            position,
        ).syntax_error("Malformed section header"@));
        assert(at(one, position).syntax_error("Unknown section header"@) == at(
            other,
            position,
        ).syntax_error("Unknown section header"@));
        lemma_keyed_looks_ahead::<GeneralSection>(one, other, position, default_general());
        lemma_keyed_looks_ahead::<EditorSection>(one, other, position, default_editor());
        lemma_keyed_looks_ahead::<MetadataSection>(one, other, position, default_metadata());
        lemma_keyed_looks_ahead::<DifficultySection>(one, other, position, default_difficulty());
        lemma_scan_pairs_looks_ahead::<ColourScan>(
            one,
            other,
            position + 1,
            ColourScanView { combos: Seq::empty(), section: default_colours() },
        );
        lemma_records_look_ahead::<TimingPoint>(one, other, position + 1, Seq::empty());
        lemma_records_look_ahead::<HitObject>(one, other, position + 1, Seq::empty());
        lemma_next_header_sees_headers_only(one, other, position + 1);
    }
}

/// What a section of keys and values is read as depends on no line before its header.
proof fn lemma_keyed_looks_ahead<S: KeyedSection>(
    one: Seq<(nat, Seq<char>)>,
    other: Seq<(nat, Seq<char>)>,
    position: nat,
    start: S::V,
)
    requires
        same_from(one, other, position),
    ensures
        keyed_section::<S>(one, position, start) == keyed_section::<S>(other, position, start),
{
    lemma_scan_pairs_looks_ahead::<S>(one, other, position + 1, start);
    let scan = scan_pairs::<S>(one, position + 1, start);
    lemma_scan_pairs_moves_on::<S>(one, position + 1, start);
    if scan.1 < one.len() {
        assert(one[scan.1 as int] == other[scan.1 as int]);
    }
    match scan.0 {
        Ok(_) => {},
        Err(e) => {
            assert(at(one, scan.1).wrapped(e) == at(other, scan.1).wrapped(e));
        },
    }
}

/// What the sections from a place on are read as depends on no line before that place.
pub proof fn lemma_sections_look_ahead(
    one: Seq<(nat, Seq<char>)>,
    other: Seq<(nat, Seq<char>)>,
    position: nat,
    map: BeatmapView,
)
    requires
        same_from(one, other, position),
    ensures
        sections_from(one, position, map) == sections_from(other, position, map),
    decreases one.len() - position,
{
    if position < one.len() {
        lemma_section_looks_ahead(one, other, position);
        let r = section_at(one, position);
        lemma_section_moves_on(one, position);
        lemma_section_stops_within(one, position);
        match r.0 {
            Err(e) => {
                if r.1 < one.len() {
                    assert(one[r.1 as int] == other[r.1 as int]);
                }
                assert(at(one, r.1).wrapped(e) == at(other, r.1).wrapped(e));
            },
            Ok(section) => {
                lemma_sections_look_ahead(one, other, r.1, stored(map, section));
            },
        }
    }
}

/// The reading of a section stops at its header or after it.
proof fn lemma_section_stops_within(lines: Seq<(nat, Seq<char>)>, position: nat)
    ensures
        section_at(lines, position).1 >= position,
{
    reveal(section_at);
    lemma_scan_pairs_moves_on::<GeneralSection>(lines, position + 1, default_general());
    lemma_scan_pairs_moves_on::<EditorSection>(lines, position + 1, default_editor());
    lemma_scan_pairs_moves_on::<MetadataSection>(lines, position + 1, default_metadata());
    lemma_scan_pairs_moves_on::<DifficultySection>(lines, position + 1, default_difficulty());
    lemma_scan_pairs_moves_on::<ColourScan>(
        lines,
        position + 1,
        ColourScanView { combos: Seq::empty(), section: default_colours() },
    );
    lemma_records_move_on::<TimingPoint>(lines, position + 1, Seq::empty());
    lemma_records_move_on::<HitObject>(lines, position + 1, Seq::empty());
    lemma_next_header_moves_on(lines, position + 1);
}

/// What the lines of the events section hold makes no difference: two texts that differ
/// in those lines alone, neither with a header among them, are read as the same beatmap
/// or as the same error.
pub proof fn lemma_events_make_no_difference(
    one: Seq<(nat, Seq<char>)>,
    other: Seq<(nat, Seq<char>)>,
    position: nat,
    map: BeatmapView,
)
    requires
        one.len() == other.len(),
        position < one.len(),
        header_title(one[position as int].1) == Some("Events"@),
        header_title(other[position as int].1) == Some("Events"@),
        next_header(one, position + 1) == next_header(other, position + 1),
        same_from(one, other, next_header(one, position + 1)),
    ensures
        sections_from(one, position, map) == sections_from(other, position, map),
{
    lemma_events_are_passed_over(one, position, map);
    lemma_events_are_passed_over(other, position, map);
    lemma_sections_look_ahead(one, other, next_header(one, position + 1), map);
}

} // verus!
