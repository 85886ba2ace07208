use crate::model::{
    Beatmap, BeatmapView, Colour, ColoursSection, ColoursSectionView, DifficultySection,
    DifficultySectionView, EditorSection, EditorSectionView, GameMode, GeneralSection,
    GeneralSectionView, HitCircle, HitCircleView, HitObject, HitObjectExtras,
    HitObjectExtrasView, HitObjectView, HoldNote, HoldNoteView, MetadataSection,
    MetadataSectionView, Slider, SliderType, SliderView, Spinner, SpinnerView, TimingPoint,
    TimingPointView, texts, views,
};
use crate::number::{int_text, nat_text, push_int, push_nat};
use vstd::prelude::*;
use vstd::string::StringExecFns;

verus! {

/// The texts with `sep` between each two of them.
pub open spec fn join(parts: Seq<Seq<char>>, sep: char) -> Seq<char>
    decreases parts.len(),
{
    if parts.len() == 0 {
        Seq::empty()
    } else if parts.len() == 1 {
        parts[0]
    } else {
        join(parts.drop_last(), sep).push(sep) + parts.last()
    }
}

/// Joins strings with `sep` between each two of them.
pub fn join_strings(parts: &Vec<String>, sep: char) -> (s: String)
    ensures
        s@ == join(texts(parts@), sep),
{
    let mut s = String::new();
    let mut i: usize = 0;
    assert(texts(parts@).take(0) =~= Seq::empty());
    while i < parts.len()
        invariant
            0 <= i <= parts.len(),
            s@ == join(texts(parts@).take(i as int), sep),
        decreases parts.len() - i,
    {
        let ghost next = texts(parts@).take(i + 1);
        assert(next.drop_last() =~= texts(parts@).take(i as int));
        assert(next.last() == parts@[i as int]@);
        if i > 0 {
            s.push(sep);
        }
        s.append(parts[i].as_str());
        assert(s@ =~= join(next, sep));
        i += 1;
    }
    assert(texts(parts@).take(parts.len() as int) == texts(parts@));
    s
}

/// The decimal notation of a number, as a string.
pub fn int_string(n: i32) -> (s: String)
    ensures
        s@ == int_text(n as int),
{
    let mut s = String::new();
    push_int(&mut s, n as i64);
    assert(s@ =~= int_text(n as int));
    s
}

/// A flag is written as 1 where it is set and as 0 where it is not.
pub open spec fn flag_text(b: bool) -> Seq<char> {
    if b {
        seq!['1']
    } else {
        seq!['0']
    }
}

/// A flag as it is written, as a string.
pub fn flag_string(b: bool) -> (s: String)
    ensures
        s@ == flag_text(b),
{
    let mut s = String::new();
    s.push(if b {
        '1'
    } else {
        '0'
    });
    assert(s@ =~= flag_text(b));
    s
}

/// A game mode is written as its ordinal.
pub open spec fn mode_text(m: GameMode) -> Seq<char> {
    match m {
        GameMode::Osu => seq!['0'],
        GameMode::Taiko => seq!['1'],
        GameMode::CTB => seq!['2'],
        GameMode::Mania => seq!['3'],
    }
}

/// A game mode as it is written, as a string.
pub fn mode_string(m: GameMode) -> (s: String)
    ensures
        s@ == mode_text(m),
{
    let mut s = String::new();
    s.push(
        match m {
            GameMode::Osu => '0',
            GameMode::Taiko => '1',
            GameMode::CTB => '2',
            GameMode::Mania => '3',
        },
    );
    assert(s@ =~= mode_text(m));
    s
}

/// The shape of a slider's curve is written as one letter.
pub open spec fn shape_text(t: SliderType) -> Seq<char> {
    match t {
        SliderType::Linear => seq!['L'],
        SliderType::Bezier => seq!['B'],
        SliderType::Perfect => seq!['P'],
        SliderType::Catmull => seq!['C'],
    }
}

/// A colour is written as its red, green and blue with commas between them.
pub open spec fn colour_text(c: Colour) -> Seq<char> {
    join(seq![int_text(c.0 as int), int_text(c.1 as int), int_text(c.2 as int)], ',')
}

/// A pair of numbers is written with a colon between them.
pub open spec fn pair_text(p: (i32, i32)) -> Seq<char> {
    join(seq![int_text(p.0 as int), int_text(p.1 as int)], ':')
}

/// The sample overrides of a hit object are written as four numbers and the file name,
/// with colons between them.
pub open spec fn extras_text(e: HitObjectExtrasView) -> Seq<char> {
    join(
        seq![
            int_text(e.sample_set as int),
            int_text(e.addition_set as int),
            int_text(e.custom_index as int),
            int_text(e.sample_volume as int),
            e.filename,
        ],
        ':',
    )
}

/// The type of a hit object: the bit of its kind, 4 where it starts a new combo, and 16
/// times the number of combo colours that it skips.
pub open spec fn type_byte(base: int, new_combo: bool, color_skip: int) -> int {
    base + (if new_combo {
        4int
    } else {
        0int
    }) + 16 * color_skip
}

/// Whether `base` is the bit of one of the four kinds of hit object.
pub open spec fn is_kind_bit(base: int) -> bool {
    base == 1 || base == 2 || base == 8 || base == 128
}

/// The type of a hit object of the kind with bit `base`.
pub fn get_type(base: u8, new_combo: bool, color_skip: i32) -> (r: u8)
    requires
        is_kind_bit(base as int),
        0 <= color_skip <= 7,
    ensures
        r == type_byte(base as int, new_combo, color_skip as int),
{
    let mut ret: u8 = base;
    if new_combo {
        assert(base | 4 == base + 4) by (bit_vector)
            requires
                base == 1 || base == 2 || base == 8 || base == 128,
        ;
        ret |= 4;
    }
    let skip: u8 = color_skip as u8;
    assert((skip << 4) == 16 * skip) by (bit_vector)
        requires
            skip <= 7,
    ;
    ret += skip << 4;
    ret
}

/// What can be written as a part of a chart file.
pub trait Parsable {
    /// What holds of a value that was read or built with care.
    spec fn wf(&self) -> bool;

    /// The text that writes the value.
    spec fn text(&self) -> Seq<char>;

    /// The text that writes the value: read again, it gives the value back.
    fn as_parsed(&self) -> (s: String)
        requires
            self.wf(),
        ensures
            s@ == self.text(),
    ;
}

impl Parsable for Colour {
    open spec fn wf(&self) -> bool {
        true
    }

    open spec fn text(&self) -> Seq<char> {
        colour_text(*self)
    }

    fn as_parsed(&self) -> (s: String) {
        let mut parts: Vec<String> = Vec::new();
        parts.push(int_string(self.0));
        parts.push(int_string(self.1));
        parts.push(int_string(self.2));
        assert(texts(parts@) =~= seq![
            int_text(self.0 as int),
            int_text(self.1 as int),
            int_text(self.2 as int),
        ]);
        join_strings(&parts, ',')
    }
}

/// A pair of numbers with a colon between them, as a string.
pub fn pair_string(p: (i32, i32)) -> (s: String)
    ensures
        s@ == pair_text(p),
{
    let mut parts: Vec<String> = Vec::new();
    parts.push(int_string(p.0));
    parts.push(int_string(p.1));
    assert(texts(parts@) =~= seq![int_text(p.0 as int), int_text(p.1 as int)]);
    join_strings(&parts, ':')
}

impl Parsable for HitObjectExtras {
    open spec fn wf(&self) -> bool {
        true
    }

    open spec fn text(&self) -> Seq<char> {
        extras_text(self@)
    }

    fn as_parsed(&self) -> (s: String) {
        let mut parts: Vec<String> = Vec::new();
        parts.push(int_string(self.sample_set));
        parts.push(int_string(self.addition_set));
        parts.push(int_string(self.custom_index));
        parts.push(int_string(self.sample_volume));
        parts.push(self.filename.clone());
        assert(texts(parts@) =~= seq![
            int_text(self.sample_set as int),
            int_text(self.addition_set as int),
            int_text(self.custom_index as int),
            int_text(self.sample_volume as int),
            self.filename@,
        ]);
        join_strings(&parts, ':')
    }
}

impl Parsable for SliderType {
    open spec fn wf(&self) -> bool {
        true
    }

    open spec fn text(&self) -> Seq<char> {
        shape_text(*self)
    }

    fn as_parsed(&self) -> (s: String) {
        let mut s = String::new();
        s.push(
            match self {
                SliderType::Linear => 'L',
                SliderType::Bezier => 'B',
                SliderType::Perfect => 'P',
                SliderType::Catmull => 'C',
            },
        );
        assert(s@ =~= shape_text(*self));
        s
    }
}

/// A timing point is written as its eight fields with commas between them.
pub open spec fn timing_point_text(t: TimingPointView) -> Seq<char> {
    join(
        seq![
            t.offset,
            t.ms_per_beat,
            int_text(t.meter as int),
            int_text(t.sample_set as int),
            int_text(t.sample_index as int),
            int_text(t.volume as int),
            flag_text(t.inherited),
            flag_text(t.kiai_mode),
        ],
        ',',
    )
}

impl Parsable for TimingPoint {
    open spec fn wf(&self) -> bool {
        self@.wf()
    }

    open spec fn text(&self) -> Seq<char> {
        timing_point_text(self@)
    }

    fn as_parsed(&self) -> (s: String) {
        let mut parts: Vec<String> = Vec::new();
        parts.push(String::from_str(self.offset.as_str()));
        parts.push(String::from_str(self.ms_per_beat.as_str()));
        parts.push(int_string(self.meter));
        parts.push(int_string(self.sample_set));
        parts.push(int_string(self.sample_index));
        parts.push(int_string(self.volume));
        parts.push(flag_string(self.inherited));
        parts.push(flag_string(self.kiai_mode));
        assert(texts(parts@) =~= seq![
            self.offset@,
            self.ms_per_beat@,
            int_text(self.meter as int),
            int_text(self.sample_set as int),
            int_text(self.sample_index as int),
            int_text(self.volume as int),
            flag_text(self.inherited),
            flag_text(self.kiai_mode),
        ]);
        join_strings(&parts, ',')
    }
}

/// A hit circle is written as the five fields that all hit objects share, then its
/// sample overrides, with commas between them.
pub open spec fn circle_text(c: HitCircleView) -> Seq<char> {
    join(
        seq![
            int_text(c.x as int),
            int_text(c.y as int),
            int_text(c.time as int),
            int_text(type_byte(1, c.new_combo, c.color_skip as int)),
            int_text(c.hitsound as int),
            extras_text(c.extras),
        ],
        ',',
    )
}

impl Parsable for HitCircle {
    open spec fn wf(&self) -> bool {
        self@.wf()
    }

    open spec fn text(&self) -> Seq<char> {
        circle_text(self@)
    }

    fn as_parsed(&self) -> (s: String) {
        let mut parts: Vec<String> = Vec::new();
        parts.push(int_string(self.x));
        parts.push(int_string(self.y));
        parts.push(int_string(self.time));
        parts.push(int_string(get_type(1, self.new_combo, self.color_skip) as i32));
        parts.push(int_string(self.hitsound));
        parts.push(self.extras.as_parsed());
        assert(texts(parts@) =~= seq![
            int_text(self.x as int),
            int_text(self.y as int),
            int_text(self.time as int),
            int_text(type_byte(1, self.new_combo, self.color_skip as int)),
            int_text(self.hitsound as int),
            extras_text(self.extras@),
        ]);
        join_strings(&parts, ',')
    }
}

/// The decimal notations of the numbers.
pub open spec fn number_texts(ns: Seq<i32>) -> Seq<Seq<char>> {
    Seq::new(ns.len(), |i: int| int_text(ns[i] as int))
}

/// The texts of the pairs.
pub open spec fn pair_texts(ps: Seq<(i32, i32)>) -> Seq<Seq<char>> {
    Seq::new(ps.len(), |i: int| pair_text(ps[i]))
}

/// A slider's curve is written as the letter of its shape, then its control points, with
/// bars between them.
pub open spec fn curve_text(shape: SliderType, points: Seq<(i32, i32)>) -> Seq<char> {
    join(seq![shape_text(shape)] + pair_texts(points), '|')
}

/// A string for the decimal notation of each number.
pub fn number_strings(ns: &Vec<i32>) -> (r: Vec<String>)
    ensures
        texts(r@) == number_texts(ns@),
{
    let mut r: Vec<String> = Vec::new();
    let mut i: usize = 0;
    while i < ns.len()
        invariant
            0 <= i <= ns.len(),
            r.len() == i,
            forall|k: int| 0 <= k < i ==> (#[trigger] r[k])@ == int_text(ns[k] as int),
        decreases ns.len() - i,
    {
        r.push(int_string(ns[i]));
        i += 1;
    }
    assert(texts(r@) =~= number_texts(ns@));
    r
}

/// Appends a string for the text of each pair.
pub fn push_pair_strings(r: &mut Vec<String>, ps: &Vec<(i32, i32)>)
    ensures
        texts(final(r)@) == texts(old(r)@) + pair_texts(ps@),
{
    let mut i: usize = 0;
    let ghost before = texts(r@);
    while i < ps.len()
        invariant
            0 <= i <= ps.len(),
            r.len() == before.len() + i,
            forall|k: int| 0 <= k < before.len() ==> (#[trigger] r[k])@ == before[k],
            forall|k: int|
                before.len() <= k < before.len() + i ==> (#[trigger] r[k])@ == pair_text(
                    ps[k - before.len()],
                ),
        decreases ps.len() - i,
    {
        r.push(pair_string(ps[i]));
        i += 1;
    }
    assert(texts(r@) =~= before + pair_texts(ps@));
}

/// A slider is written as the five fields that all hit objects share, then its curve,
/// how often it repeats, its length, the hit sounds and the sample sets of its edges,
/// and its sample overrides, with commas between them.
pub open spec fn slider_text(s: SliderView) -> Seq<char> {
    join(
        seq![
            int_text(s.x as int),
            int_text(s.y as int),
            int_text(s.time as int),
            int_text(type_byte(2, s.new_combo, s.color_skip as int)),
            int_text(s.hitsound as int),
            curve_text(s.slider_type, s.curve_points),
            int_text(s.repeat as int),
            s.pixel_length,
            join(number_texts(s.edge_hitsounds), '|'),
            join(pair_texts(s.edge_additions), '|'),
            extras_text(s.extras),
        ],
        ',',
    )
}

impl Parsable for Slider {
    open spec fn wf(&self) -> bool {
        self@.wf()
    }

    open spec fn text(&self) -> Seq<char> {
        slider_text(self@)
    }

    fn as_parsed(&self) -> (s: String) {
        let mut curve: Vec<String> = Vec::new();
        curve.push(self.slider_type.as_parsed());
        assert(texts(curve@) =~= seq![shape_text(self.slider_type)]);
        push_pair_strings(&mut curve, &self.curve_points);
        let hitsounds = number_strings(&self.edge_hitsounds);
        let mut additions: Vec<String> = Vec::new();
        assert(texts(additions@) =~= Seq::empty());
        push_pair_strings(&mut additions, &self.edge_additions);
        assert(texts(additions@) =~= pair_texts(self.edge_additions@));
        let mut parts: Vec<String> = Vec::new();
        parts.push(int_string(self.x));
        parts.push(int_string(self.y));
        parts.push(int_string(self.time));
        parts.push(int_string(get_type(2, self.new_combo, self.color_skip) as i32));
        parts.push(int_string(self.hitsound));
        parts.push(join_strings(&curve, '|'));
        parts.push(int_string(self.repeat));
        parts.push(String::from_str(self.pixel_length.as_str()));
        parts.push(join_strings(&hitsounds, '|'));
        parts.push(join_strings(&additions, '|'));
        parts.push(self.extras.as_parsed());
        assert(texts(parts@) =~= seq![
            int_text(self.x as int),
            int_text(self.y as int),
            int_text(self.time as int),
            int_text(type_byte(2, self.new_combo, self.color_skip as int)),
            int_text(self.hitsound as int),
            curve_text(self.slider_type, self.curve_points@),
            int_text(self.repeat as int),
            self.pixel_length@,
            join(number_texts(self.edge_hitsounds@), '|'),
            join(pair_texts(self.edge_additions@), '|'),
            extras_text(self.extras@),
        ]);
        join_strings(&parts, ',')
    }
}

/// A spinner is written as the five fields that all hit objects share, then the time
/// at which it ends and its sample overrides, with commas between them.
pub open spec fn spinner_text(s: SpinnerView) -> Seq<char> {
    join(
        seq![
            int_text(s.x as int),
            int_text(s.y as int),
            int_text(s.time as int),
            int_text(type_byte(8, s.new_combo, s.color_skip as int)),
            int_text(s.hitsound as int),
            int_text(s.end_time as int),
            extras_text(s.extras),
        ],
        ',',
    )
}

impl Parsable for Spinner {
    open spec fn wf(&self) -> bool {
        self@.wf()
    }

    open spec fn text(&self) -> Seq<char> {
        spinner_text(self@)
    }

    fn as_parsed(&self) -> (s: String) {
        let mut parts: Vec<String> = Vec::new();
        parts.push(int_string(self.x));
        parts.push(int_string(self.y));
        parts.push(int_string(self.time));
        parts.push(int_string(get_type(8, self.new_combo, self.color_skip) as i32));
        parts.push(int_string(self.hitsound));
        parts.push(int_string(self.end_time));
        parts.push(self.extras.as_parsed());
        assert(texts(parts@) =~= seq![
            int_text(self.x as int),
            int_text(self.y as int),
            int_text(self.time as int),
            int_text(type_byte(8, self.new_combo, self.color_skip as int)),
            int_text(self.hitsound as int),
            int_text(self.end_time as int),
            extras_text(self.extras@),
        ]);
        join_strings(&parts, ',')
    }
}

/// A hold note is written as the five fields that all hit objects share, then one field
/// that holds the time at which it ends, a colon, and its sample overrides.
pub open spec fn hold_note_text(n: HoldNoteView) -> Seq<char> {
    join(
        seq![
            int_text(n.x as int),
            int_text(n.y as int),
            int_text(n.time as int),
            int_text(type_byte(128, n.new_combo, n.color_skip as int)),
            int_text(n.hitsound as int),
            int_text(n.end_time as int).push(':') + extras_text(n.extras),
        ],
        ',',
    )
}

impl Parsable for HoldNote {
    open spec fn wf(&self) -> bool {
        self@.wf()
    }

    open spec fn text(&self) -> Seq<char> {
        hold_note_text(self@)
    }

    fn as_parsed(&self) -> (s: String) {
        let mut last = int_string(self.end_time);
        last.push(':');
        let extras = self.extras.as_parsed();
        last.append(extras.as_str());
        let mut parts: Vec<String> = Vec::new();
        parts.push(int_string(self.x));
        parts.push(int_string(self.y));
        parts.push(int_string(self.time));
        parts.push(int_string(get_type(128, self.new_combo, self.color_skip) as i32));
        parts.push(int_string(self.hitsound));
        parts.push(last);
        assert(texts(parts@) =~= seq![
            int_text(self.x as int),
            int_text(self.y as int),
            int_text(self.time as int),
            int_text(type_byte(128, self.new_combo, self.color_skip as int)),
            int_text(self.hitsound as int),
            int_text(self.end_time as int).push(':') + extras_text(self.extras@),
        ]);
        join_strings(&parts, ',')
    }
}

/// A hit object is written as its kind writes it.
pub open spec fn hit_object_text(h: HitObjectView) -> Seq<char> {
    match h {
        HitObjectView::HitCircle(c) => circle_text(c),
        HitObjectView::Slider(s) => slider_text(s),
        HitObjectView::Spinner(s) => spinner_text(s),
        HitObjectView::HoldNote(n) => hold_note_text(n),
    }
}

impl Parsable for HitObject {
    open spec fn wf(&self) -> bool {
        self@.wf()
    }

    open spec fn text(&self) -> Seq<char> {
        hit_object_text(self@)
    }

    fn as_parsed(&self) -> (s: String) {
        match self {
            HitObject::HitCircle(c) => c.as_parsed(),
            HitObject::Slider(s) => s.as_parsed(),
            HitObject::Spinner(s) => s.as_parsed(),
            HitObject::HoldNote(n) => n.as_parsed(),
        }
    }
}

/// A line that stores `value` under `key`.
pub open spec fn entry(key: Seq<char>, value: Seq<char>) -> Seq<char> {
    key + seq![':', ' '] + value
}

/// A line that stores `value` under `key`, as a string.
pub fn entry_string(key: &str, value: &str) -> (s: String)
    ensures
        s@ == entry(key@, value@),
{
    let mut s = String::from_str(key);
    s.push(':');
    s.push(' ');
    s.append(value);
    assert(s@ =~= entry(key@, value@));
    s
}

/// A line that stores a number under `key`.
fn number_entry(key: &str, n: i32) -> (s: String)
    ensures
        s@ == entry(key@, int_text(n as int)),
{
    let value = int_string(n);
    entry_string(key, value.as_str())
}

/// A line that stores a flag under `key`.
fn flag_entry(key: &str, b: bool) -> (s: String)
    ensures
        s@ == entry(key@, flag_text(b)),
{
    let value = flag_string(b);
    entry_string(key, value.as_str())
}

/// The lines of the general section: its header, then one line for each property. The
/// key of the preview time is written with a small t; keys are read without regard to
/// case.
pub open spec fn general_lines(g: GeneralSectionView) -> Seq<Seq<char>> {
    seq![
        "[General]"@,
        entry("AudioFilename"@, g.audio_filename),
        entry("AudioLeadIn"@, int_text(g.audio_lead_in as int)),
        entry("Previewtime"@, int_text(g.preview_time as int)),
        entry("Countdown"@, flag_text(g.countdown)),
        entry("SampleSet"@, g.sample_set),
        entry("StackLeniency"@, g.stack_leniency),
        entry("Mode"@, mode_text(g.game_mode)),
        entry("LetterboxInBreaks"@, flag_text(g.letterbox_in_breaks)),
        entry("WidescreenStoryboard"@, flag_text(g.widescreen_storyboard)),
        entry("StoryFireInFront"@, flag_text(g.story_fire_in_front)),
        entry("SpecialStyle"@, flag_text(g.special_style)),
        entry("EpilepsyWarning"@, flag_text(g.epilepsy_warning)),
        entry("UseSkinSprites"@, flag_text(g.use_skin_sprites)),
        entry("CountdownOffset"@, int_text(g.countdown_offset as int)),
        entry("SkinPreference"@, g.skin_preference),
    ]
}

/// The lines of the general section, as strings.
fn general_strings(g: &GeneralSection) -> (lines: Vec<String>)
    ensures
        texts(lines@) == general_lines(g@),
{
    let mut lines: Vec<String> = Vec::new();
    lines.push(String::from_str("[General]"));
    lines.push(entry_string("AudioFilename", g.audio_filename.as_str()));
    lines.push(number_entry("AudioLeadIn", g.audio_lead_in));
    lines.push(number_entry("Previewtime", g.preview_time));
    lines.push(flag_entry("Countdown", g.countdown));
    lines.push(entry_string("SampleSet", g.sample_set.as_str()));
    lines.push(entry_string("StackLeniency", g.stack_leniency.as_str()));
    let mode = mode_string(g.game_mode);
    lines.push(entry_string("Mode", mode.as_str()));
    lines.push(flag_entry("LetterboxInBreaks", g.letterbox_in_breaks));
    lines.push(flag_entry("WidescreenStoryboard", g.widescreen_storyboard));
    lines.push(flag_entry("StoryFireInFront", g.story_fire_in_front));
    lines.push(flag_entry("SpecialStyle", g.special_style));
    lines.push(flag_entry("EpilepsyWarning", g.epilepsy_warning));
    lines.push(flag_entry("UseSkinSprites", g.use_skin_sprites));
    lines.push(number_entry("CountdownOffset", g.countdown_offset));
    lines.push(entry_string("SkinPreference", g.skin_preference.as_str()));
    assert(texts(lines@) =~= general_lines(g@));
    lines
}

impl Parsable for GeneralSection {
    open spec fn wf(&self) -> bool {
        self@.wf()
    }

    open spec fn text(&self) -> Seq<char> {
        join(general_lines(self@), '\n')
    }

    fn as_parsed(&self) -> (s: String) {
        let lines = general_strings(self);
        join_strings(&lines, '\n')
    }
}

/// The line of the bookmarks: the numbers with commas between them, and a blank line
/// where there are none.
pub open spec fn bookmarks_line(bookmarks: Seq<i32>) -> Seq<char> {
    if bookmarks.len() > 0 {
        entry("Bookmarks"@, join(number_texts(bookmarks), ','))
    } else {
        Seq::empty()
    }
}

/// The lines of the editor section: its header, then one line for each property.
pub open spec fn editor_lines(e: EditorSectionView) -> Seq<Seq<char>> {
    seq![
        "[Editor]"@,
        bookmarks_line(e.bookmarks),
        entry("DistanceSpacing"@, e.distance_spacing),
        entry("BeatDivisor"@, int_text(e.beat_divisor as int)),
        entry("GridSize"@, int_text(e.grid_size as int)),
        entry("TimelineZoom"@, e.timeline_zoom),
    ]
}

/// The lines of the editor section, as strings.
fn editor_strings(e: &EditorSection) -> (lines: Vec<String>)
    ensures
        texts(lines@) == editor_lines(e@),
{
    let mut lines: Vec<String> = Vec::new();
    lines.push(String::from_str("[Editor]"));
    if e.bookmarks.len() > 0 {
        let numbers = number_strings(&e.bookmarks);
        let list = join_strings(&numbers, ',');
        lines.push(entry_string("Bookmarks", list.as_str()));
    } else {
        lines.push(String::new());
    }
    lines.push(entry_string("DistanceSpacing", e.distance_spacing.as_str()));
    lines.push(number_entry("BeatDivisor", e.beat_divisor));
    lines.push(number_entry("GridSize", e.grid_size));
    lines.push(entry_string("TimelineZoom", e.timeline_zoom.as_str()));
    assert(texts(lines@) =~= editor_lines(e@));
    lines
}

impl Parsable for EditorSection {
    open spec fn wf(&self) -> bool {
        self@.wf()
    }

    open spec fn text(&self) -> Seq<char> {
        join(editor_lines(self@), '\n')
    }

    fn as_parsed(&self) -> (s: String) {
        let lines = editor_strings(self);
        join_strings(&lines, '\n')
    }
}

/// The line of the tags: the tags with one space between each two of them, and a blank
/// line where there are none.
pub open spec fn tags_line(tags: Seq<Seq<char>>) -> Seq<char> {
    if tags.len() > 0 {
        entry("Tags"@, join(tags, ' '))
    } else {
        Seq::empty()
    }
}

/// The lines of the metadata section: its header, then one line for each property.
pub open spec fn metadata_lines(m: MetadataSectionView) -> Seq<Seq<char>> {
    seq![
        "[Metadata]"@,
        entry("Title"@, m.title),
        entry("TitleUnicode"@, m.title_unicode),
        entry("Artist"@, m.artist),
        entry("ArtistUnicode"@, m.artist_unicode),
        entry("Creator"@, m.creator),
        entry("Version"@, m.version),
        entry("Source"@, m.source),
        tags_line(m.tags),
        entry("BeatmapID"@, int_text(m.beatmap_id as int)),
        entry("BeatmapSetID"@, int_text(m.beatmap_set_id as int)),
    ]
}

/// The lines of the metadata section, as strings.
fn metadata_strings(m: &MetadataSection) -> (lines: Vec<String>)
    ensures
        texts(lines@) == metadata_lines(m@),
{
    let mut lines: Vec<String> = Vec::new();
    lines.push(String::from_str("[Metadata]"));
    lines.push(entry_string("Title", m.title.as_str()));
    lines.push(entry_string("TitleUnicode", m.title_unicode.as_str()));
    lines.push(entry_string("Artist", m.artist.as_str()));
    lines.push(entry_string("ArtistUnicode", m.artist_unicode.as_str()));
    lines.push(entry_string("Creator", m.creator.as_str()));
    lines.push(entry_string("Version", m.version.as_str()));
    lines.push(entry_string("Source", m.source.as_str()));
    if m.tags.len() > 0 {
        let list = join_strings(&m.tags, ' ');
        lines.push(entry_string("Tags", list.as_str()));
    } else {
        lines.push(String::new());
    }
    lines.push(number_entry("BeatmapID", m.beatmap_id));
    lines.push(number_entry("BeatmapSetID", m.beatmap_set_id));
    assert(texts(lines@) =~= metadata_lines(m@));
    lines
}

impl Parsable for MetadataSection {
    open spec fn wf(&self) -> bool {
        true
    }

    open spec fn text(&self) -> Seq<char> {
        join(metadata_lines(self@), '\n')
    }

    fn as_parsed(&self) -> (s: String) {
        let lines = metadata_strings(self);
        join_strings(&lines, '\n')
    }
}

/// The lines of the difficulty section: its header, then one line for each rate.
pub open spec fn difficulty_lines(d: DifficultySectionView) -> Seq<Seq<char>> {
    seq![
        "[Difficulty]"@,
        entry("HPDrainRate"@, d.hp_drain_rate),
        entry("CircleSize"@, d.circle_size),
        entry("OverallDifficulty"@, d.overall_difficulty),
        entry("ApproachRate"@, d.approach_rate),
        entry("SliderMultiplier"@, d.slider_multiplier),
        entry("SliderTickRate"@, d.slider_tick_rate),
    ]
}

/// The lines of the difficulty section, as strings.
fn difficulty_strings(d: &DifficultySection) -> (lines: Vec<String>)
    ensures
        texts(lines@) == difficulty_lines(d@),
{
    let mut lines: Vec<String> = Vec::new();
    lines.push(String::from_str("[Difficulty]"));
    lines.push(entry_string("HPDrainRate", d.hp_drain_rate.as_str()));
    lines.push(entry_string("CircleSize", d.circle_size.as_str()));
    lines.push(entry_string("OverallDifficulty", d.overall_difficulty.as_str()));
    lines.push(entry_string("ApproachRate", d.approach_rate.as_str()));
    lines.push(entry_string("SliderMultiplier", d.slider_multiplier.as_str()));
    lines.push(entry_string("SliderTickRate", d.slider_tick_rate.as_str()));
    assert(texts(lines@) =~= difficulty_lines(d@));
    lines
}

impl Parsable for DifficultySection {
    open spec fn wf(&self) -> bool {
        self@.wf()
    }

    open spec fn text(&self) -> Seq<char> {
        join(difficulty_lines(self@), '\n')
    }

    fn as_parsed(&self) -> (s: String) {
        let lines = difficulty_strings(self);
        join_strings(&lines, '\n')
    }
}

/// A line that stores a colour under `key`, with a blank on each side of the colon.
pub open spec fn colour_entry(key: Seq<char>, c: Colour) -> Seq<char> {
    key + seq![' ', ':', ' '] + colour_text(c)
}

/// The line of the combo colour at place `i`, which is counted from zero: its key counts
/// from one.
pub open spec fn combo_line(i: int, c: Colour) -> Seq<char> {
    colour_entry("Combo"@ + nat_text((i + 1) as nat), c)
}

/// The lines of the combo colours, in their order.
pub open spec fn combo_lines(colours: Seq<Colour>) -> Seq<Seq<char>> {
    Seq::new(colours.len(), |i: int| combo_line(i, colours[i]))
}

/// The lines of the colours section: its header, one line for each combo colour in
/// their order, and one line for each of the three colours of sliders.
pub open spec fn colours_lines(c: ColoursSectionView) -> Seq<Seq<char>> {
    seq!["[Colours]"@] + combo_lines(c.colours) + seq![
        colour_entry("SliderBody"@, c.slider_body),
        colour_entry("SliderTrackOverride"@, c.slider_track_override),
        colour_entry("SliderBorder"@, c.slider_border),
    ]
}

/// A line that stores a colour under `key`, as a string.
fn colour_entry_string(key: String, c: Colour) -> (s: String)
    ensures
        s@ == colour_entry(key@, c),
{
    let mut s = key;
    s.push(' ');
    s.push(':');
    s.push(' ');
    let value = c.as_parsed();
    s.append(value.as_str());
    assert(s@ =~= colour_entry(key@, c));
    s
}

/// The lines of the colours section, as strings.
fn colours_strings(c: &ColoursSection) -> (lines: Vec<String>)
    ensures
        texts(lines@) == colours_lines(c@),
{
    let mut lines: Vec<String> = Vec::new();
    lines.push(String::from_str("[Colours]"));
    let mut i: usize = 0;
    while i < c.colours.len()
        invariant
            0 <= i <= c.colours.len(),
            lines.len() == i + 1,
            lines[0]@ == "[Colours]"@,
            forall|k: int|
                0 <= k < i ==> (#[trigger] lines[k + 1])@ == combo_line(k, c.colours@[k]),
        decreases c.colours.len() - i,
    {
        let mut key = String::from_str("Combo");
        push_nat(&mut key, i as u128 + 1);
        lines.push(colour_entry_string(key, c.colours[i]));
        i += 1;
    }
    lines.push(colour_entry_string(String::from_str("SliderBody"), c.slider_body));
    lines.push(
        colour_entry_string(String::from_str("SliderTrackOverride"), c.slider_track_override),
    );
    lines.push(colour_entry_string(String::from_str("SliderBorder"), c.slider_border));
    assert(texts(lines@) =~= colours_lines(c@)) by {
        let a = texts(lines@);
        let b = colours_lines(c@);
        assert(a.len() == b.len());
        assert forall|k: int| 0 <= k < a.len() implies a[k] == b[k] by {
            if 1 <= k <= c.colours.len() {
                assert(lines[(k - 1) + 1]@ == combo_line(k - 1, c.colours@[k - 1]));
            }
        }
    }
    lines
}

impl Parsable for ColoursSection {
    open spec fn wf(&self) -> bool {
        true
    }

    open spec fn text(&self) -> Seq<char> {
        join(colours_lines(self@), '\n')
    }

    fn as_parsed(&self) -> (s: String) {
        let lines = colours_strings(self);
        join_strings(&lines, '\n')
    }
}

/// The first line of a chart file, which states the version of the file format.
pub open spec fn version_line(version: i32) -> Seq<char> {
    "osu file format v"@ + int_text(version as int)
}

/// The lines as they stand, and one blank line where there are none.
pub open spec fn or_blank(lines: Seq<Seq<char>>) -> Seq<Seq<char>> {
    if lines.len() == 0 {
        seq![Seq::<char>::empty()]
    } else {
        lines
    }
}

/// One line for each timing point, in their order.
pub open spec fn timing_point_lines(points: Seq<TimingPointView>) -> Seq<Seq<char>> {
    Seq::new(points.len(), |i: int| timing_point_text(points[i]))
}

/// One line for each hit object, in their order.
pub open spec fn hit_object_lines(objects: Seq<HitObjectView>) -> Seq<Seq<char>> {
    Seq::new(objects.len(), |i: int| hit_object_text(objects[i]))
}

/// One blank line.
pub open spec fn blank() -> Seq<Seq<char>> {
    seq![Seq::<char>::empty()]
}

/// The lines of a chart file: the version, then the sections with a blank line before
/// each; general, editor, metadata, difficulty, timing points, colours, hit objects.
pub open spec fn beatmap_lines(m: BeatmapView) -> Seq<Seq<char>> {
    seq![version_line(m.version)] + blank() + general_lines(m.general) + blank() + editor_lines(
        m.editor,
    ) + blank() + metadata_lines(m.metadata) + blank() + difficulty_lines(m.difficulty)
        + blank() + seq!["[TimingPoints]"@] + or_blank(timing_point_lines(m.timing_points))
        + blank() + colours_lines(m.colours) + blank() + seq!["[HitObjects]"@] + or_blank(
        hit_object_lines(m.hit_objects),
    )
}

/// The text of a chart file: its lines, each with a line feed after it.
pub open spec fn beatmap_text(m: BeatmapView) -> Seq<char> {
    join(beatmap_lines(m), '\n').push('\n')
}

/// Moves the strings of `more` to the end of `lines`.
fn push_lines(lines: &mut Vec<String>, more: Vec<String>)
    ensures
        texts(final(lines)@) == texts(old(lines)@) + texts(more@),
{
    let mut more = more;
    let ghost added = more@;
    lines.append(&mut more);
    assert(texts(lines@) =~= texts(old(lines)@) + texts(added));
}

/// Adds one string, and says so in terms of texts.
fn push_line(lines: &mut Vec<String>, line: String)
    ensures
        texts(final(lines)@) == texts(old(lines)@) + seq![line@],
{
    lines.push(line);
    assert(texts(lines@) =~= texts(old(lines)@) + seq![line@]);
}

/// The lines of the timing points, as strings; one blank line where there are none.
fn timing_point_strings(points: &Vec<TimingPoint>) -> (lines: Vec<String>)
    requires
        forall|i: int| 0 <= i < points.len() ==> (#[trigger] points[i])@.wf(),
    ensures
        texts(lines@) == or_blank(timing_point_lines(views(points@))),
{
    let mut lines: Vec<String> = Vec::new();
    let mut i: usize = 0;
    while i < points.len()
        invariant
            0 <= i <= points.len(),
            lines.len() == i,
            forall|k: int| 0 <= k < points.len() ==> (#[trigger] points[k])@.wf(),
            forall|k: int| 0 <= k < i ==> (#[trigger] lines[k])@ == timing_point_text(points[k]@),
        decreases points.len() - i,
    {
        assert(points[i as int]@.wf());
        lines.push(points[i].as_parsed());
        i += 1;
    }
    if lines.len() == 0 {
        lines.push(String::new());
    }
    assert(texts(lines@) =~= or_blank(timing_point_lines(views(points@))));
    lines
}

/// The lines of the hit objects, as strings; one blank line where there are none.
fn hit_object_strings(objects: &Vec<HitObject>) -> (lines: Vec<String>)
    requires
        forall|i: int| 0 <= i < objects.len() ==> (#[trigger] objects[i])@.wf(),
    ensures
        texts(lines@) == or_blank(hit_object_lines(views(objects@))),
{
    let mut lines: Vec<String> = Vec::new();
    let mut i: usize = 0;
    while i < objects.len()
        invariant
            0 <= i <= objects.len(),
            lines.len() == i,
            forall|k: int| 0 <= k < objects.len() ==> (#[trigger] objects[k])@.wf(),
            forall|k: int| 0 <= k < i ==> (#[trigger] lines[k])@ == hit_object_text(objects[k]@),
        decreases objects.len() - i,
    {
        assert(objects[i as int]@.wf());
        lines.push(objects[i].as_parsed());
        i += 1;
    }
    if lines.len() == 0 {
        lines.push(String::new());
    }
    assert(texts(lines@) =~= or_blank(hit_object_lines(views(objects@))));
    lines
}

impl Parsable for Beatmap {
    open spec fn wf(&self) -> bool {
        self@.wf()
    }

    open spec fn text(&self) -> Seq<char> {
        beatmap_text(self@)
    }

    fn as_parsed(&self) -> (s: String) {
        let mut first = String::from_str("osu file format v");
        push_int(&mut first, self.version as i64);
        let mut lines: Vec<String> = Vec::new();
        assert(texts(lines@) =~= Seq::empty());
        push_line(&mut lines, first);
        push_line(&mut lines, String::new());
        push_lines(&mut lines, general_strings(&self.general));
        push_line(&mut lines, String::new());
        push_lines(&mut lines, editor_strings(&self.editor));
        push_line(&mut lines, String::new());
        push_lines(&mut lines, metadata_strings(&self.metadata));
        push_line(&mut lines, String::new());
        push_lines(&mut lines, difficulty_strings(&self.difficulty));
        push_line(&mut lines, String::new());
        push_line(&mut lines, String::from_str("[TimingPoints]"));
        assert forall|i: int| 0 <= i < self.timing_points.len() implies (
        #[trigger] self.timing_points[i])@.wf() by {
            assert(self@.timing_points[i] == self.timing_points[i]@);
        }
        push_lines(&mut lines, timing_point_strings(&self.timing_points));
        push_line(&mut lines, String::new());
        push_lines(&mut lines, colours_strings(&self.colours));
        push_line(&mut lines, String::new());
        push_line(&mut lines, String::from_str("[HitObjects]"));
        assert forall|i: int| 0 <= i < self.hit_objects.len() implies (
        #[trigger] self.hit_objects[i])@.wf() by {
            assert(self@.hit_objects[i] == self.hit_objects[i]@);
        }
        push_lines(&mut lines, hit_object_strings(&self.hit_objects));
        assert(texts(lines@) =~= beatmap_lines(self@));
        let mut s = join_strings(&lines, '\n');
        s.push('\n');
        s
    }
}

} // verus!
