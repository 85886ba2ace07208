use crate::colours::{ColourScan, ColourScanView, colours_from, default_colours, parse_colours};
use crate::cursor::{ParseState, ParseStateView, lines_of};
use crate::error::{ErrorView, Outcome, Result, agrees};
use crate::grammar::{hit_object_of, timing_point_of};
use crate::keyed::{KeyedSection, pair_of, read_pairs, scan_pairs};
use crate::model::{
    Beatmap, BeatmapView, ColoursSection, ColoursSectionView, DifficultySection,
    DifficultySectionView, EditorSection, EditorSectionView, GeneralSection, GeneralSectionView,
    HitObject, HitObjectView, MetadataSection, MetadataSectionView, TimingPoint,
    TimingPointView, views,
};
use crate::number::{i32_of_text, scan_i32};
use crate::parse::{hit_object_in, timing_point_in};
use crate::sections::{default_difficulty, default_editor, default_general, default_metadata};
use crate::text::{find_from, find_text, same_text, to_chars, trim_end, trim_end_range};
use vstd::prelude::*;
use vstd::string::StrSliceExecFns;

verus! {

/// Whether a text can stand as the name in a section header: it holds no bracket.
pub open spec fn is_name(s: Seq<char>) -> bool {
    forall|i: int| 0 <= i < s.len() ==> s[i] != '[' && s[i] != ']'
}

/// The name in a section header: what stands between the bracket that opens the line and
/// the bracket that closes it, blanks after the latter set aside. No bracket stands in the
/// name.
pub open spec fn header_title(line: Seq<char>) -> Option<Seq<char>> {
    let t = trim_end(line);
    if t.len() >= 2 && t[0] == '[' && t.last() == ']' && is_name(t.subrange(1, t.len() - 1)) {
        Some(t.subrange(1, t.len() - 1))
    } else {
        None
    }
}

/// Whether the characters at `lo..hi` can stand as the name in a section header.
fn names_section(v: &Vec<char>, lo: usize, hi: usize) -> (r: bool)
    requires
        lo <= hi <= v.len(),
    ensures
        r == is_name(v@.subrange(lo as int, hi as int)),
{
    let ghost s = v@.subrange(lo as int, hi as int);
    let mut i: usize = lo;
    while i < hi
        invariant
            lo <= i <= hi <= v.len(),
            s == v@.subrange(lo as int, hi as int),
            forall|j: int| 0 <= j < i - lo ==> s[j] != '[' && s[j] != ']',
        decreases hi - i,
    {
        if v[i] == '[' || v[i] == ']' {
            assert(s[i - lo] == v@[i as int]);
            return false;
        }
        i += 1;
    }
    true
}

/// The name in a section header, where the line is one.
pub fn match_header_line(line: &str) -> (r: Option<&str>)
    ensures
        match r {
            Some(title) => header_title(line@) == Some(title@),
            None => header_title(line@) is None,
        },
{
    let v = to_chars(line);
    let end = trim_end_range(&v, 0, v.len());
    assert(v@.subrange(0, v@.len() as int) == v@);
    let ghost t = v@.subrange(0, end as int);
    if end >= 2 && v[0] == '[' && v[end - 1] == ']' {
        assert(t.subrange(1, t.len() - 1) == v@.subrange(1, end - 1));
        if names_section(&v, 1, end - 1) {
            Some(line.substring_char(1, end - 1))
        } else {
            None
        }
    } else {
        assert(end >= 2 ==> t[0] == v@[0] && t.last() == v@[end - 1]);
        None
    }
}

/// A kind of record that is written on one line.
pub trait Record: View + Sized {
    /// The record that a line writes.
    spec fn written(line: Seq<char>) -> Outcome<Self::V>;

    /// Reads the record that a line writes.
    fn read(line: &str) -> (r: Result<Self>)
        ensures
            agrees(r, Self::written(line@)),
    ;
}

impl Record for TimingPoint {
    open spec fn written(line: Seq<char>) -> Outcome<TimingPointView> {
        timing_point_of(line)
    }

    fn read(line: &str) -> (r: Result<TimingPoint>) {
        let v = to_chars(line);
        assert(v@.subrange(0, v@.len() as int) == v@);
        timing_point_in(&v, 0, v.len())
    }
}

impl Record for HitObject {
    open spec fn written(line: Seq<char>) -> Outcome<HitObjectView> {
        hit_object_of(line)
    }

    fn read(line: &str) -> (r: Result<HitObject>) {
        let v = to_chars(line);
        assert(v@.subrange(0, v@.len() as int) == v@);
        hit_object_in(&v, 0, v.len())
    }
}

/// The records that the lines from `from` on write after those in `done`, and where the
/// reading stops: at the first section header, at the line that writes no record, or at
/// the end.
pub open spec fn records_from<R: Record>(
    lines: Seq<(nat, Seq<char>)>,
    from: nat,
    done: Seq<R::V>,
) -> (Outcome<Seq<R::V>>, nat)
    decreases lines.len() - from,
{
    if from >= lines.len() || header_title(lines[from as int].1) is Some {
        (Ok(done), from)
    } else {
        match R::written(lines[from as int].1) {
            Err(e) => (Err(e), from),
            Ok(record) => records_from::<R>(lines, from + 1, done.push(record)),
        }
    }
}

/// Reads one record from each line after the current one, up to the next section header,
/// which is then the current line.
pub fn read_records<R: Record>(state: &mut ParseState) -> (r: Result<Vec<R>>)
    ensures
        final(state)@.lines == old(state)@.lines,
        final(state)@.position == records_from::<R>(
            old(state)@.lines,
            old(state)@.advanced().position,
            Seq::empty(),
        ).1,
        match records_from::<R>(
            old(state)@.lines,
            old(state)@.advanced().position,
            Seq::empty(),
        ).0 {
            Ok(records) => r is Ok && views(r->Ok_0@) == records,
            Err(e) => r is Err && r->Err_0@ == e,
        },
{
    let ghost lines = state@.lines;
    let ghost goal = records_from::<R>(lines, state@.advanced().position, Seq::empty());
    let mut records: Vec<R> = Vec::new();
    assert(views(records@) =~= Seq::<R::V>::empty());
    loop
        invariant_except_break
            goal == records_from::<R>(lines, state@.advanced().position, views(records@)),
        invariant
            state@.lines == lines,
            lines == old(state)@.lines,
            goal == records_from::<R>(
                old(state)@.lines,
                old(state)@.advanced().position,
                Seq::empty(),
            ),
        ensures
            state@.position == goal.1,
            goal.0 == Ok::<Seq<R::V>, ErrorView>(views(records@)),
        decreases lines.len() - state@.position,
    {
        match state.read_next_line() {
            Some(line) => {
                if match_header_line(line).is_some() {
                    break ;
                }
                match R::read(line) {
                    Ok(record) => {
                        let ghost before = views(records@);
                        records.push(record);
                        assert(views(records@) =~= before.push(record@));
                    },
                    Err(e) => {
                        return Err(e);
                    },
                }
            },
            None => {
                break ;
            },
        }
    }
    Ok(records)
}

/// Reads the timing points that stand after the current line.
pub fn parse_timing_points(state: &mut ParseState) -> (r: Result<Vec<TimingPoint>>)
    ensures
        final(state)@.lines == old(state)@.lines,
        final(state)@.position == records_from::<TimingPoint>(
            old(state)@.lines,
            old(state)@.advanced().position,
            Seq::empty(),
        ).1,
        match records_from::<TimingPoint>(
            old(state)@.lines,
            old(state)@.advanced().position,
            Seq::empty(),
        ).0 {
            Ok(records) => r is Ok && views(r->Ok_0@) == records,
            Err(e) => r is Err && r->Err_0@ == e,
        },
{
    read_records::<TimingPoint>(state)
}

/// Reads the hit objects that stand after the current line.
pub fn parse_hit_objects(state: &mut ParseState) -> (r: Result<Vec<HitObject>>)
    ensures
        final(state)@.lines == old(state)@.lines,
        final(state)@.position == records_from::<HitObject>(
            old(state)@.lines,
            old(state)@.advanced().position,
            Seq::empty(),
        ).1,
        match records_from::<HitObject>(
            old(state)@.lines,
            old(state)@.advanced().position,
            Seq::empty(),
        ).0 {
            Ok(records) => r is Ok && views(r->Ok_0@) == records,
            Err(e) => r is Err && r->Err_0@ == e,
        },
{
    read_records::<HitObject>(state)
}

/// The place of the first section header from `from` on, or of the end.
pub open spec fn next_header(lines: Seq<(nat, Seq<char>)>, from: nat) -> nat
    decreases lines.len() - from,
{
    if from >= lines.len() || header_title(lines[from as int].1) is Some {
        from
    } else {
        next_header(lines, from + 1)
    }
}

/// Passes over the lines after the current one, up to the next section header, which is
/// then the current line. What the lines hold is not looked at.
pub fn skip_section(state: &mut ParseState)
    ensures
        final(state)@.lines == old(state)@.lines,
        final(state)@.position == next_header(
            old(state)@.lines,
            old(state)@.advanced().position,
        ),
{
    let ghost lines = state@.lines;
    let ghost goal = next_header(lines, state@.advanced().position);
    loop
        invariant_except_break
            goal == next_header(lines, state@.advanced().position),
        invariant
            state@.lines == lines,
        ensures
            state@.position == goal,
        decreases lines.len() - state@.position,
    {
        match state.read_next_line() {
            Some(line) => {
                if match_header_line(line).is_some() {
                    break ;
                }
            },
            None => {
                break ;
            },
        }
    }
}

/// The words that the first line of a beatmap holds, before its version.
pub open spec fn version_tag() -> Seq<char> {
    "osu file format v"@
}

/// The version that a line states: the integer that follows the first `osu file format v`
/// on it and ends the line, blanks after it set aside. It is not negative.
pub open spec fn version_of(line: Seq<char>) -> Option<i32> {
    match find_from(line, version_tag(), 0) {
        None => None,
        Some(at) => match i32_of_text(trim_end(line.skip(at + version_tag().len()))) {
            Some(v) => if v >= 0 {
                Some(v)
            } else {
                None
            },
            None => None,
        },
    }
}

/// The version that the current line states; a syntax error that points at the line
/// where it states none.
pub open spec fn version_at(state: ParseStateView) -> Outcome<i32> {
    match state.current_line() {
        Some(line) => match version_of(line) {
            Some(v) => Ok(v),
            None => Err(state.syntax_error("Unable to parse version line"@)),
        },
        None => Err(state.syntax_error("Unable to parse version line"@)),
    }
}

/// Reads the version that a line states.
pub fn version_in(line: &str) -> (r: Option<i32>)
    ensures
        r == version_of(line@),
{
    let v = to_chars(line);
    let tag = to_chars("osu file format v");
    match find_text(&v, &tag) {
        None => None,
        Some(at) => {
            let from = at + tag.len();
            let end = trim_end_range(&v, from, v.len());
            assert(v@.skip(from as int) == v@.subrange(from as int, v@.len() as int));
            match scan_i32(&v, from, end) {
                Some(n) => if n >= 0 {
                    Some(n)
                } else {
                    None
                },
                None => None,
            }
        },
    }
}

/// Reads the version of the file format from the current line, and leaves the cursor
/// where it is.
pub fn parse_version_string(state: &mut ParseState) -> (r: Result<i32>)
    ensures
        *final(state) == *old(state),
        agrees(r, version_at(old(state)@)),
{
    let found = match state.get_current_line() {
        Some(line) => version_in(line),
        None => None,
    };
    match found {
        Some(v) => Ok(v),
        None => Err(state.syntax_error("Unable to parse version line")),
    }
}

/// What one section of a beatmap holds.
pub enum Section {
    General(GeneralSection),
    Editor(EditorSection),
    Metadata(MetadataSection),
    TimingPoints(Vec<TimingPoint>),
    HitObjects(Vec<HitObject>),
    Difficulty(DifficultySection),
    Colours(ColoursSection),
    /// The events of a beatmap are passed over.
    Events,
    /// No section is left.
    End,
}

/// What one section of a beatmap holds, with its texts as sequences of characters.
pub enum SectionView {
    General(GeneralSectionView),
    Editor(EditorSectionView),
    Metadata(MetadataSectionView),
    TimingPoints(Seq<TimingPointView>),
    HitObjects(Seq<HitObjectView>),
    Difficulty(DifficultySectionView),
    Colours(ColoursSectionView),
    Events,
    End,
}

impl View for Section {
    type V = SectionView;

    open spec fn view(&self) -> SectionView {
        match self {
            Section::General(s) => SectionView::General(s@),
            Section::Editor(s) => SectionView::Editor(s@),
            Section::Metadata(s) => SectionView::Metadata(s@),
            Section::TimingPoints(s) => SectionView::TimingPoints(views(s@)),
            Section::HitObjects(s) => SectionView::HitObjects(views(s@)),
            Section::Difficulty(s) => SectionView::Difficulty(s@),
            Section::Colours(s) => SectionView::Colours(s@),
            Section::Events => SectionView::Events,
            Section::End => SectionView::End,
        }
    }
}

/// The cursor at place `position` of `lines`.
pub open spec fn at(lines: Seq<(nat, Seq<char>)>, position: nat) -> ParseStateView {
    ParseStateView { lines, position }
}

/// A section of keys and values that starts after the header at `position`. A value that
/// is malformed is a syntax error that points at its line.
pub open spec fn keyed_section<S: KeyedSection>(
    lines: Seq<(nat, Seq<char>)>,
    position: nat,
    start: S::V,
) -> (Outcome<S::V>, nat) {
    let scan = scan_pairs::<S>(lines, position + 1, start);
    match scan.0 {
        Ok(s) => (Ok(s), scan.1),
        Err(e) => (Err(at(lines, scan.1).wrapped(e)), scan.1),
    }
}

/// The section that starts at `position`, and where the reading of it stops: at the header
/// of the next section, at the line that is malformed, or at the end.
#[verifier::opaque]
pub open spec fn section_at(lines: Seq<(nat, Seq<char>)>, position: nat) -> (
    Outcome<SectionView>,
    nat,
) {
    if position >= lines.len() {
        (Ok(SectionView::End), position)
    } else {
        match header_title(lines[position as int].1) {
            None => (
                Err(at(lines, position).syntax_error("Malformed section header"@)),
                position,
            ),
            Some(title) => if title == "General"@ {
                let r = keyed_section::<GeneralSection>(lines, position, default_general());
                match r.0 {
                    Ok(s) => (Ok(SectionView::General(s)), r.1),
                    Err(e) => (Err(e), r.1),
                }
            } else if title == "Editor"@ {
                let r = keyed_section::<EditorSection>(lines, position, default_editor());
                match r.0 {
                    Ok(s) => (Ok(SectionView::Editor(s)), r.1),
                    Err(e) => (Err(e), r.1),
                }
            } else if title == "Metadata"@ {
                let r = keyed_section::<MetadataSection>(lines, position, default_metadata());
                match r.0 {
                    Ok(s) => (Ok(SectionView::Metadata(s)), r.1),
                    Err(e) => (Err(e), r.1),
                }
            } else if title == "Difficulty"@ {
                let r = keyed_section::<DifficultySection>(
                    lines,
                    position,
                    default_difficulty(),
                );
                match r.0 {
                    Ok(s) => (Ok(SectionView::Difficulty(s)), r.1),
                    Err(e) => (Err(e), r.1),
                }
            } else if title == "Events"@ {
                (Ok(SectionView::Events), next_header(lines, position + 1))
            } else if title == "TimingPoints"@ {
                let r = records_from::<TimingPoint>(lines, position + 1, Seq::empty());
                match r.0 {
                    Ok(s) => (Ok(SectionView::TimingPoints(s)), r.1),
                    Err(e) => (Err(e), r.1),
                }
            } else if title == "HitObjects"@ {
                let r = records_from::<HitObject>(lines, position + 1, Seq::empty());
                match r.0 {
                    Ok(s) => (Ok(SectionView::HitObjects(s)), r.1),
                    Err(e) => (Err(e), r.1),
                }
            } else if title == "Colours"@ {
                let r = colours_from(lines, position + 1);
                match r.0 {
                    Ok(s) => (Ok(SectionView::Colours(s)), r.1),
                    Err(e) => (Err(e), r.1),
                }
            } else {
                (Err(at(lines, position).syntax_error("Unknown section header"@)), position)
            },
        }
    }
}

/// Reads a section of keys and values whose header is the current line.
fn parse_keyed<S: KeyedSection>(state: &mut ParseState, start: S) -> (r: Result<S>)
    requires
        old(state)@.position < old(state)@.lines.len(),
    ensures
        final(state)@.lines == old(state)@.lines,
        final(state)@.position == keyed_section::<S>(
            old(state)@.lines,
            old(state)@.position,
            start@,
        ).1,
        match keyed_section::<S>(old(state)@.lines, old(state)@.position, start@).0 {
            Ok(s) => r is Ok && r->Ok_0@ == s,
            Err(e) => r is Err && r->Err_0@ == e,
        },
{
    let r = read_pairs(state, start);
    state.wrap_syntax_error(r)
}

/// Reads the section whose header is the current line.
pub fn parse_section(state: &mut ParseState) -> (r: Result<Section>)
    ensures
        final(state)@.lines == old(state)@.lines,
        final(state)@.position == section_at(old(state)@.lines, old(state)@.position).1,
        agrees(r, section_at(old(state)@.lines, old(state)@.position).0),
{
    reveal(section_at);
    let title: String = match state.get_current_line() {
        None => {
            return Ok(Section::End);
        },
        Some(line) => match match_header_line(line) {
            None => {
                return Err(state.syntax_error("Malformed section header"));
            },
            Some(title) => title.to_owned(),
        },
    };
    let title = title.as_str();
    if same_text(title, "General") {
        match parse_keyed(state, GeneralSection::default()) {
            Ok(s) => Ok(Section::General(s)),
            Err(e) => Err(e),
        }
    } else if same_text(title, "Editor") {
        match parse_keyed(state, EditorSection::default()) {
            Ok(s) => Ok(Section::Editor(s)),
            Err(e) => Err(e),
        }
    } else if same_text(title, "Metadata") {
        match parse_keyed(state, MetadataSection::default()) {
            Ok(s) => Ok(Section::Metadata(s)),
            Err(e) => Err(e),
        }
    } else if same_text(title, "Difficulty") {
        match parse_keyed(state, DifficultySection::default()) {
            Ok(s) => Ok(Section::Difficulty(s)),
            Err(e) => Err(e),
        }
    } else if same_text(title, "Events") {
        skip_section(state);
        Ok(Section::Events)
    } else if same_text(title, "TimingPoints") {
        match parse_timing_points(state) {
            Ok(s) => Ok(Section::TimingPoints(s)),
            Err(e) => Err(e),
        }
    } else if same_text(title, "HitObjects") {
        match parse_hit_objects(state) {
            Ok(s) => Ok(Section::HitObjects(s)),
            Err(e) => Err(e),
        }
    } else if same_text(title, "Colours") {
        match parse_colours(state) {
            Ok(s) => Ok(Section::Colours(s)),
            Err(e) => Err(e),
        }
    } else {
        Err(state.syntax_error("Unknown section header"))
    }
}

/// A beatmap that states nothing.
pub open spec fn default_beatmap() -> BeatmapView {
    BeatmapView {
        version: 0,
        general: default_general(),
        editor: default_editor(),
        metadata: default_metadata(),
        timing_points: Seq::empty(),
        hit_objects: Seq::empty(),
        difficulty: default_difficulty(),
        colours: default_colours(),
    }
}

impl Default for Beatmap {
    fn default() -> (r: Beatmap)
        ensures
            r@ == default_beatmap(),
    {
        let r = Beatmap {
            version: 0,
            general: GeneralSection::default(),
            editor: EditorSection::default(),
            metadata: MetadataSection::default(),
            timing_points: Vec::new(),
            hit_objects: Vec::new(),
            difficulty: DifficultySection::default(),
            colours: ColoursSection::default(),
        };
        assert(r@.timing_points =~= Seq::empty());
        assert(r@.hit_objects =~= Seq::empty());
        r
    }
}

/// The beatmap once a section is stored in it: the section takes the place of the one
/// of its kind. The events are not stored.
pub open spec fn stored(map: BeatmapView, section: SectionView) -> BeatmapView {
    match section {
        SectionView::General(s) => BeatmapView { general: s, ..map },
        SectionView::Editor(s) => BeatmapView { editor: s, ..map },
        SectionView::Metadata(s) => BeatmapView { metadata: s, ..map },
        SectionView::TimingPoints(s) => BeatmapView { timing_points: s, ..map },
        SectionView::HitObjects(s) => BeatmapView { hit_objects: s, ..map },
        SectionView::Difficulty(s) => BeatmapView { difficulty: s, ..map },
        SectionView::Colours(s) => BeatmapView { colours: s, ..map },
        SectionView::Events => map,
        SectionView::End => map,
    }
}

/// The reading of keys and values stops at the line it starts from or after it.
pub proof fn lemma_scan_pairs_moves_on<S: KeyedSection>(
    lines: Seq<(nat, Seq<char>)>,
    from: nat,
    section: S::V,
)
    ensures
        scan_pairs::<S>(lines, from, section).1 >= from,
        from <= lines.len() ==> scan_pairs::<S>(lines, from, section).1 <= lines.len(),
    decreases lines.len() - from,
{
    if from < lines.len() {
        match pair_of(lines[from as int].1) {
            None => {},
            Some((key, value)) => match S::assigned(section, key, value) {
                Err(e) => {},
                Ok(next) => {
                    lemma_scan_pairs_moves_on::<S>(lines, from + 1, next);
                },
            },
        }
    }
}

/// The reading of records stops at the line it starts from or after it.
pub proof fn lemma_records_move_on<R: Record>(
    lines: Seq<(nat, Seq<char>)>,
    from: nat,
    done: Seq<R::V>,
)
    ensures
        records_from::<R>(lines, from, done).1 >= from,
        from <= lines.len() ==> records_from::<R>(lines, from, done).1 <= lines.len(),
    decreases lines.len() - from,
{
    if from < lines.len() && header_title(lines[from as int].1) is None {
        match R::written(lines[from as int].1) {
            Err(e) => {},
            Ok(record) => {
                lemma_records_move_on::<R>(lines, from + 1, done.push(record));
            },
        }
    }
}

/// The next header stands at the line the search starts from or after it.
pub proof fn lemma_next_header_moves_on(lines: Seq<(nat, Seq<char>)>, from: nat)
    ensures
        next_header(lines, from) >= from,
        from <= lines.len() ==> next_header(lines, from) <= lines.len(),
    decreases lines.len() - from,
{
    if from < lines.len() && header_title(lines[from as int].1) is None {
        lemma_next_header_moves_on(lines, from + 1);
    }
}

/// The end is read where no line is left, and only there.
pub proof fn lemma_section_end(lines: Seq<(nat, Seq<char>)>, position: nat)
    ensures
        position >= lines.len() <==> section_at(lines, position).0 == Ok::<
            SectionView,
            ErrorView,
        >(SectionView::End),
        position >= lines.len() ==> section_at(lines, position).1 == position,
{
    reveal(section_at);
}

/// A section that is read without an error ends after its header, within the lines.
pub proof fn lemma_section_moves_on(lines: Seq<(nat, Seq<char>)>, position: nat)
    ensures
        position < lines.len() && section_at(lines, position).0 is Ok ==> position
            < section_at(lines, position).1 <= lines.len(),
{
    reveal(section_at);
    lemma_scan_pairs_moves_on::<GeneralSection>(lines, position + 1, default_general());
    lemma_scan_pairs_moves_on::<EditorSection>(lines, position + 1, default_editor());
    lemma_scan_pairs_moves_on::<MetadataSection>(lines, position + 1, default_metadata());
    lemma_scan_pairs_moves_on::<DifficultySection>(lines, position + 1, default_difficulty());
    lemma_scan_pairs_moves_on::<ColourScan>(
        lines,
        position + 1,
        ColourScanView { combos: Seq::empty(), section: default_colours() },
    );
    lemma_records_move_on::<TimingPoint>(lines, position + 1, Seq::empty());
    lemma_records_move_on::<HitObject>(lines, position + 1, Seq::empty());
    lemma_next_header_moves_on(lines, position + 1);
}

/// The beatmap that the sections from `position` on make of `map`: each section in its
/// turn is stored in it, and the first error ends the reading. An error that names no
/// line yet points at the line where the reading stopped.
pub open spec fn sections_from(
    lines: Seq<(nat, Seq<char>)>,
    position: nat,
    map: BeatmapView,
) -> Outcome<BeatmapView>
    decreases lines.len() - position,
    via sections_from_decreases
{
    if position >= lines.len() {
        Ok(map)
    } else {
        let r = section_at(lines, position);
        match r.0 {
            Err(e) => Err(at(lines, r.1).wrapped(e)),
            Ok(section) => sections_from(lines, r.1, stored(map, section)),
        }
    }
}

/// The reading of sections ends: each section that is read ends after its header.
#[via_fn]
proof fn sections_from_decreases(lines: Seq<(nat, Seq<char>)>, position: nat, map: BeatmapView) {
    lemma_section_moves_on(lines, position);
}

/// The beatmap that a text writes: its first line that is not blank states the version,
/// and sections follow.
pub open spec fn beatmap_of(text: Seq<char>) -> Outcome<BeatmapView> {
    let start = at(lines_of(text), 0);
    match version_at(start) {
        Err(e) => Err(e),
        Ok(version) => sections_from(
            start.lines,
            start.advanced().position,
            BeatmapView { version, ..default_beatmap() },
        ),
    }
}

/// Reads a beatmap from the text of a chart file.
pub fn parse_beatmap(input: &str) -> (r: Result<Beatmap>)
    ensures
        agrees(r, beatmap_of(input@)),
        r matches Ok(map) ==> map@.wf(),
        r matches Err(e) ==> !(e is Message),
{
    proof {
        crate::wellformed::lemma_beatmap_wf(input@);
        crate::outcomes::lemma_errors_name_lines(input@);
    }
    let mut state = ParseState::new(input);
    let version = parse_version_string(&mut state)?;
    state.read_next_line();
    let mut map = Beatmap::default();
    map.version = version;
    let ghost lines = state@.lines;
    let ghost goal = beatmap_of(input@);
    loop
        invariant_except_break
            goal == sections_from(lines, state@.position, map@),
        invariant
            state@.lines == lines,
            goal == beatmap_of(input@),
        ensures
            goal == Ok::<BeatmapView, ErrorView>(map@),
        decreases lines.len() - state@.position,
    {
        let ghost position = state@.position;
        let section = parse_section(&mut state);
        let section = state.wrap_syntax_error(section);
        proof {
            lemma_section_moves_on(lines, position);
            lemma_section_end(lines, position);
            assert(state@ == at(lines, state@.position));
        }
        match section {
            Err(e) => {
                return Err(e);
            },
            Ok(Section::General(s)) => {
                map.general = s;
            },
            Ok(Section::Editor(s)) => {
                map.editor = s;
            },
            Ok(Section::Metadata(s)) => {
                map.metadata = s;
            },
            Ok(Section::TimingPoints(s)) => {
                map.timing_points = s;
            },
            Ok(Section::HitObjects(s)) => {
                map.hit_objects = s;
            },
            Ok(Section::Difficulty(s)) => {
                map.difficulty = s;
            },
            Ok(Section::Colours(s)) => {
                map.colours = s;
            },
            Ok(Section::Events) => {},
            Ok(Section::End) => {
                break ;
            },
        }
    }
    Ok(map)
}

} // verus!
