use crate::number::{is_decimal_text, scan_decimal};
use crate::text::to_chars;
use vstd::prelude::*;
use vstd::string::StringExecFns;

verus! {

/// A real number, held as the text that writes it.
#[derive(Debug, Clone, PartialEq)]
pub struct Decimal {
    text: String,
}

impl View for Decimal {
    type V = Seq<char>;

    closed spec fn view(&self) -> Seq<char> {
        self.text@
    }
}

impl Decimal {
    /// The number that `s` writes, where it writes one.
    pub fn parse(s: &str) -> (r: Option<Decimal>)
        ensures
            match r {
                Some(d) => d@ == s@ && is_decimal_text(s@),
                None => !is_decimal_text(s@),
            },
    {
        let v = to_chars(s);
        assert(v@.subrange(0, v@.len() as int) == v@);
        if scan_decimal(&v, 0, v.len()) {
            Some(Decimal { text: String::from_str(s) })
        } else {
            None
        }
    }

    /// The number that `s` writes.
    pub(crate) fn literal(s: &str) -> (d: Decimal)
        requires
            is_decimal_text(s@),
        ensures
            d@ == s@,
    {
        Decimal { text: String::from_str(s) }
    }

    /// The text that writes the number.
    pub fn as_str(&self) -> (s: &str)
        ensures
            s@ == self@,
    {
        self.text.as_str()
    }
}

/// One of the four game modes.
#[derive(Debug, Clone, Copy, PartialEq, Eq, Structural)]
pub enum GameMode {
    Osu,
    Taiko,
    CTB,
    Mania,
}

impl View for GameMode {
    type V = GameMode;

    open spec fn view(&self) -> GameMode {
        *self
    }
}

/// General properties of a beatmap.
#[derive(Debug, Clone, PartialEq)]
pub struct GeneralSection {
    pub audio_filename: String,
    pub audio_lead_in: i32,
    pub preview_time: i32,
    pub countdown: bool,
    pub sample_set: String,
    pub stack_leniency: Decimal,
    pub countdown_offset: i32,
    pub skin_preference: String,
    pub game_mode: GameMode,
    pub letterbox_in_breaks: bool,
    pub widescreen_storyboard: bool,
    pub story_fire_in_front: bool,
    pub special_style: bool,
    pub epilepsy_warning: bool,
    pub use_skin_sprites: bool,
}

/// A `GeneralSection` with its texts as sequences of characters.
pub struct GeneralSectionView {
    pub audio_filename: Seq<char>,
    pub audio_lead_in: i32,
    pub preview_time: i32,
    pub countdown: bool,
    pub sample_set: Seq<char>,
    pub stack_leniency: Seq<char>,
    pub countdown_offset: i32,
    pub skin_preference: Seq<char>,
    pub game_mode: GameMode,
    pub letterbox_in_breaks: bool,
    pub widescreen_storyboard: bool,
    pub story_fire_in_front: bool,
    pub special_style: bool,
    pub epilepsy_warning: bool,
    pub use_skin_sprites: bool,
}

impl View for GeneralSection {
    type V = GeneralSectionView;

    open spec fn view(&self) -> GeneralSectionView {
        GeneralSectionView {
            audio_filename: self.audio_filename@,
            audio_lead_in: self.audio_lead_in,
            preview_time: self.preview_time,
            countdown: self.countdown,
            sample_set: self.sample_set@,
            stack_leniency: self.stack_leniency@,
            countdown_offset: self.countdown_offset,
            skin_preference: self.skin_preference@,
            game_mode: self.game_mode,
            letterbox_in_breaks: self.letterbox_in_breaks,
            widescreen_storyboard: self.widescreen_storyboard,
            story_fire_in_front: self.story_fire_in_front,
            special_style: self.special_style,
            epilepsy_warning: self.epilepsy_warning,
            use_skin_sprites: self.use_skin_sprites,
        }
    }
}

/// Properties relating to the state of the editor.
#[derive(Debug, Clone, PartialEq)]
pub struct EditorSection {
    pub bookmarks: Vec<i32>,
    pub distance_spacing: Decimal,
    pub beat_divisor: i32,
    pub grid_size: i32,
    pub timeline_zoom: Decimal,
}

/// An `EditorSection` as sequences.
pub struct EditorSectionView {
    pub bookmarks: Seq<i32>,
    pub distance_spacing: Seq<char>,
    pub beat_divisor: i32,
    pub grid_size: i32,
    pub timeline_zoom: Seq<char>,
}

impl View for EditorSection {
    type V = EditorSectionView;

    open spec fn view(&self) -> EditorSectionView {
        EditorSectionView {
            bookmarks: self.bookmarks@,
            distance_spacing: self.distance_spacing@,
            beat_divisor: self.beat_divisor,
            grid_size: self.grid_size,
            timeline_zoom: self.timeline_zoom@,
        }
    }
}

/// The texts of a list of strings.
pub open spec fn texts(v: Seq<String>) -> Seq<Seq<char>> {
    Seq::new(v.len(), |i: int| v[i]@)
}

/// Metadata relating to the beatmap.
#[derive(Debug, Clone, PartialEq)]
pub struct MetadataSection {
    pub title: String,
    pub title_unicode: String,
    pub artist: String,
    pub artist_unicode: String,
    pub creator: String,
    pub version: String,
    pub source: String,
    pub tags: Vec<String>,
    pub beatmap_id: i32,
    pub beatmap_set_id: i32,
}

/// A `MetadataSection` with its texts as sequences of characters.
pub struct MetadataSectionView {
    pub title: Seq<char>,
    pub title_unicode: Seq<char>,
    pub artist: Seq<char>,
    pub artist_unicode: Seq<char>,
    pub creator: Seq<char>,
    pub version: Seq<char>,
    pub source: Seq<char>,
    pub tags: Seq<Seq<char>>,
    pub beatmap_id: i32,
    pub beatmap_set_id: i32,
}

impl View for MetadataSection {
    type V = MetadataSectionView;

    open spec fn view(&self) -> MetadataSectionView {
        MetadataSectionView {
            title: self.title@,
            title_unicode: self.title_unicode@,
            artist: self.artist@,
            artist_unicode: self.artist_unicode@,
            creator: self.creator@,
            version: self.version@,
            source: self.source@,
            tags: texts(self.tags@),
            beatmap_id: self.beatmap_id,
            beatmap_set_id: self.beatmap_set_id,
        }
    }
}

/// Difficulty modifiers for the beatmap.
#[derive(Debug, Clone, PartialEq)]
pub struct DifficultySection {
    pub hp_drain_rate: Decimal,
    pub circle_size: Decimal,
    pub overall_difficulty: Decimal,
    pub approach_rate: Decimal,
    pub slider_multiplier: Decimal,
    pub slider_tick_rate: Decimal,
}

/// A `DifficultySection` with its real numbers as the texts that write them.
pub struct DifficultySectionView {
    pub hp_drain_rate: Seq<char>,
    pub circle_size: Seq<char>,
    pub overall_difficulty: Seq<char>,
    pub approach_rate: Seq<char>,
    pub slider_multiplier: Seq<char>,
    pub slider_tick_rate: Seq<char>,
}

impl View for DifficultySection {
    type V = DifficultySectionView;

    open spec fn view(&self) -> DifficultySectionView {
        DifficultySectionView {
            hp_drain_rate: self.hp_drain_rate@,
            circle_size: self.circle_size@,
            overall_difficulty: self.overall_difficulty@,
            approach_rate: self.approach_rate@,
            slider_multiplier: self.slider_multiplier@,
            slider_tick_rate: self.slider_tick_rate@,
        }
    }
}

/// A change of timing that holds from its offset on.
#[derive(Debug, Clone, PartialEq)]
pub struct TimingPoint {
    /// Milliseconds from the start of the track.
    pub offset: Decimal,
    /// Where positive, the milliseconds that a beat lasts; where negative, a percentage
    /// of the last positive value.
    pub ms_per_beat: Decimal,
    /// Beats in a measure.
    pub meter: i32,
    pub sample_set: i32,
    pub sample_index: i32,
    pub volume: i32,
    pub inherited: bool,
    pub kiai_mode: bool,
}

/// A `TimingPoint` with its real numbers as the texts that write them.
pub struct TimingPointView {
    pub offset: Seq<char>,
    pub ms_per_beat: Seq<char>,
    pub meter: i32,
    pub sample_set: i32,
    pub sample_index: i32,
    pub volume: i32,
    pub inherited: bool,
    pub kiai_mode: bool,
}

impl View for TimingPoint {
    type V = TimingPointView;

    open spec fn view(&self) -> TimingPointView {
        TimingPointView {
            offset: self.offset@,
            ms_per_beat: self.ms_per_beat@,
            meter: self.meter,
            sample_set: self.sample_set,
            sample_index: self.sample_index,
            volume: self.volume,
            inherited: self.inherited,
            kiai_mode: self.kiai_mode,
        }
    }
}

/// Sample overrides of one hit object.
#[derive(Debug, Clone, PartialEq)]
pub struct HitObjectExtras {
    pub sample_set: i32,
    pub addition_set: i32,
    pub custom_index: i32,
    pub sample_volume: i32,
    pub filename: String,
}

/// A `HitObjectExtras` with its file name as a sequence of characters.
pub struct HitObjectExtrasView {
    pub sample_set: i32,
    pub addition_set: i32,
    pub custom_index: i32,
    pub sample_volume: i32,
    pub filename: Seq<char>,
}

impl View for HitObjectExtras {
    type V = HitObjectExtrasView;

    open spec fn view(&self) -> HitObjectExtrasView {
        HitObjectExtrasView {
            sample_set: self.sample_set,
            addition_set: self.addition_set,
            custom_index: self.custom_index,
            sample_volume: self.sample_volume,
            filename: self.filename@,
        }
    }
}

/// A hit object that is hit at one time in one place.
#[derive(Debug, Clone, PartialEq)]
pub struct HitCircle {
    pub x: i32,
    pub y: i32,
    pub new_combo: bool,
    pub color_skip: i32,
    pub time: i32,
    pub hitsound: i32,
    pub extras: HitObjectExtras,
}

/// A `HitCircle` as the contracts see it.
pub struct HitCircleView {
    pub x: i32,
    pub y: i32,
    pub new_combo: bool,
    pub color_skip: i32,
    pub time: i32,
    pub hitsound: i32,
    pub extras: HitObjectExtrasView,
}

impl View for HitCircle {
    type V = HitCircleView;

    open spec fn view(&self) -> HitCircleView {
        HitCircleView {
            x: self.x,
            y: self.y,
            new_combo: self.new_combo,
            color_skip: self.color_skip,
            time: self.time,
            hitsound: self.hitsound,
            extras: self.extras@,
        }
    }
}

/// The shape of a slider's curve.
#[derive(Debug, Clone, Copy, PartialEq, Eq, Structural)]
pub enum SliderType {
    Linear,
    Bezier,
    Perfect,
    Catmull,
}

impl View for SliderType {
    type V = SliderType;

    open spec fn view(&self) -> SliderType {
        *self
    }
}

/// A hit object that is followed along a curve.
#[derive(Debug, Clone, PartialEq)]
pub struct Slider {
    pub x: i32,
    pub y: i32,
    pub new_combo: bool,
    pub color_skip: i32,
    pub time: i32,
    pub slider_type: SliderType,
    pub curve_points: Vec<(i32, i32)>,
    pub repeat: i32,
    pub pixel_length: Decimal,
    pub edge_hitsounds: Vec<i32>,
    pub edge_additions: Vec<(i32, i32)>,
    pub hitsound: i32,
    pub extras: HitObjectExtras,
}

/// A `Slider` as sequences.
pub struct SliderView {
    pub x: i32,
    pub y: i32,
    pub new_combo: bool,
    pub color_skip: i32,
    pub time: i32,
    pub slider_type: SliderType,
    pub curve_points: Seq<(i32, i32)>,
    pub repeat: i32,
    pub pixel_length: Seq<char>,
    pub edge_hitsounds: Seq<i32>,
    pub edge_additions: Seq<(i32, i32)>,
    pub hitsound: i32,
    pub extras: HitObjectExtrasView,
}

impl View for Slider {
    type V = SliderView;

    open spec fn view(&self) -> SliderView {
        SliderView {
            x: self.x,
            y: self.y,
            new_combo: self.new_combo,
            color_skip: self.color_skip,
            time: self.time,
            slider_type: self.slider_type,
            curve_points: self.curve_points@,
            repeat: self.repeat,
            pixel_length: self.pixel_length@,
            edge_hitsounds: self.edge_hitsounds@,
            edge_additions: self.edge_additions@,
            hitsound: self.hitsound,
            extras: self.extras@,
        }
    }
}

/// A hit object that is spun until the time at which it ends.
#[derive(Debug, Clone, PartialEq)]
pub struct Spinner {
    pub x: i32,
    pub y: i32,
    pub new_combo: bool,
    pub color_skip: i32,
    pub time: i32,
    pub hitsound: i32,
    pub end_time: i32,
    pub extras: HitObjectExtras,
}

/// A `Spinner` as the contracts see it.
pub struct SpinnerView {
    pub x: i32,
    pub y: i32,
    pub new_combo: bool,
    pub color_skip: i32,
    pub time: i32,
    pub hitsound: i32,
    pub end_time: i32,
    pub extras: HitObjectExtrasView,
}

impl View for Spinner {
    type V = SpinnerView;

    open spec fn view(&self) -> SpinnerView {
        SpinnerView {
            x: self.x,
            y: self.y,
            new_combo: self.new_combo,
            color_skip: self.color_skip,
            time: self.time,
            hitsound: self.hitsound,
            end_time: self.end_time,
            extras: self.extras@,
        }
    }
}

/// A hit object that is held until the time at which it ends.
#[derive(Debug, Clone, PartialEq)]
pub struct HoldNote {
    pub x: i32,
    pub y: i32,
    pub new_combo: bool,
    pub color_skip: i32,
    pub time: i32,
    pub hitsound: i32,
    pub end_time: i32,
    pub extras: HitObjectExtras,
}

/// A `HoldNote` as the contracts see it.
pub struct HoldNoteView {
    pub x: i32,
    pub y: i32,
    pub new_combo: bool,
    pub color_skip: i32,
    pub time: i32,
    pub hitsound: i32,
    pub end_time: i32,
    pub extras: HitObjectExtrasView,
}

impl View for HoldNote {
    type V = HoldNoteView;

    open spec fn view(&self) -> HoldNoteView {
        HoldNoteView {
            x: self.x,
            y: self.y,
            new_combo: self.new_combo,
            color_skip: self.color_skip,
            time: self.time,
            hitsound: self.hitsound,
            end_time: self.end_time,
            extras: self.extras@,
        }
    }
}

/// One of the four kinds of hit object.
#[derive(Debug, Clone, PartialEq)]
pub enum HitObject {
    HitCircle(HitCircle),
    Slider(Slider),
    Spinner(Spinner),
    HoldNote(HoldNote),
}

/// A `HitObject` as the contracts see it.
pub enum HitObjectView {
    HitCircle(HitCircleView),
    Slider(SliderView),
    Spinner(SpinnerView),
    HoldNote(HoldNoteView),
}

impl View for HitObject {
    type V = HitObjectView;

    open spec fn view(&self) -> HitObjectView {
        match self {
            HitObject::HitCircle(c) => HitObjectView::HitCircle(c@),
            HitObject::Slider(s) => HitObjectView::Slider(s@),
            HitObject::Spinner(s) => HitObjectView::Spinner(s@),
            HitObject::HoldNote(n) => HitObjectView::HoldNote(n@),
        }
    }
}

/// A colour: red, green and blue.
#[derive(Debug, Clone, Copy, PartialEq, Eq, Structural, PartialOrd, Ord)]
pub struct Colour(pub i32, pub i32, pub i32);

impl View for Colour {
    type V = Colour;

    open spec fn view(&self) -> Colour {
        *self
    }
}

/// The combo colours of a beatmap and the colours that override a slider's.
#[derive(Debug, Clone, PartialEq)]
pub struct ColoursSection {
    pub colours: Vec<Colour>,
    pub slider_body: Colour,
    pub slider_track_override: Colour,
    pub slider_border: Colour,
}

/// A `ColoursSection` as sequences.
pub struct ColoursSectionView {
    pub colours: Seq<Colour>,
    pub slider_body: Colour,
    pub slider_track_override: Colour,
    pub slider_border: Colour,
}

impl View for ColoursSection {
    type V = ColoursSectionView;

    open spec fn view(&self) -> ColoursSectionView {
        ColoursSectionView {
            colours: self.colours@,
            slider_body: self.slider_body,
            slider_track_override: self.slider_track_override,
            slider_border: self.slider_border,
        }
    }
}

/// The views of the elements of a list.
pub open spec fn views<T: View>(v: Seq<T>) -> Seq<T::V> {
    Seq::new(v.len(), |i: int| v[i]@)
}

/// A beatmap: what one chart file says, but for its events.
#[derive(Debug, Clone, PartialEq)]
pub struct Beatmap {
    /// The version of the file format.
    pub version: i32,
    pub general: GeneralSection,
    pub editor: EditorSection,
    pub metadata: MetadataSection,
    pub timing_points: Vec<TimingPoint>,
    pub hit_objects: Vec<HitObject>,
    pub difficulty: DifficultySection,
    pub colours: ColoursSection,
}

/// A `Beatmap` as sequences.
pub struct BeatmapView {
    pub version: i32,
    pub general: GeneralSectionView,
    pub editor: EditorSectionView,
    pub metadata: MetadataSectionView,
    pub timing_points: Seq<TimingPointView>,
    pub hit_objects: Seq<HitObjectView>,
    pub difficulty: DifficultySectionView,
    pub colours: ColoursSectionView,
}

impl View for Beatmap {
    type V = BeatmapView;

    open spec fn view(&self) -> BeatmapView {
        BeatmapView {
            version: self.version,
            general: self.general@,
            editor: self.editor@,
            metadata: self.metadata@,
            timing_points: views(self.timing_points@),
            hit_objects: views(self.hit_objects@),
            difficulty: self.difficulty@,
            colours: self.colours@,
        }
    }
}

/// Whether a hit object skips a number of combo colours that its type can hold.
pub open spec fn is_colour_skip(n: i32) -> bool {
    0 <= n <= 7
}

impl GeneralSectionView {
    /// Whether the real number of the section is written as such.
    pub open spec fn wf(self) -> bool {
        is_decimal_text(self.stack_leniency)
    }
}

impl EditorSectionView {
    /// Whether the real numbers of the section are written as such.
    pub open spec fn wf(self) -> bool {
        is_decimal_text(self.distance_spacing) && is_decimal_text(self.timeline_zoom)
    }
}

impl DifficultySectionView {
    /// Whether the real numbers of the section are written as such.
    pub open spec fn wf(self) -> bool {
        &&& is_decimal_text(self.hp_drain_rate)
        &&& is_decimal_text(self.circle_size)
        &&& is_decimal_text(self.overall_difficulty)
        &&& is_decimal_text(self.approach_rate)
        &&& is_decimal_text(self.slider_multiplier)
        &&& is_decimal_text(self.slider_tick_rate)
    }
}

impl TimingPointView {
    /// Whether the real numbers of the timing point are written as such.
    pub open spec fn wf(self) -> bool {
        is_decimal_text(self.offset) && is_decimal_text(self.ms_per_beat)
    }
}

impl HitCircleView {
    /// Whether the hit circle skips a number of combo colours that its type can hold.
    pub open spec fn wf(self) -> bool {
        is_colour_skip(self.color_skip)
    }
}

impl SliderView {
    /// Whether the slider skips a number of combo colours that its type can hold, and its
    /// length is written as a real number.
    pub open spec fn wf(self) -> bool {
        is_colour_skip(self.color_skip) && is_decimal_text(self.pixel_length)
    }
}

impl SpinnerView {
    /// Whether the spinner skips a number of combo colours that its type can hold.
    pub open spec fn wf(self) -> bool {
        is_colour_skip(self.color_skip)
    }
}

impl HoldNoteView {
    /// Whether the hold note skips a number of combo colours that its type can hold.
    pub open spec fn wf(self) -> bool {
        is_colour_skip(self.color_skip)
    }
}

impl HitObjectView {
    /// Whether the hit object is well formed, as its kind has it.
    pub open spec fn wf(self) -> bool {
        match self {
            HitObjectView::HitCircle(c) => c.wf(),
            HitObjectView::Slider(s) => s.wf(),
            HitObjectView::Spinner(s) => s.wf(),
            HitObjectView::HoldNote(n) => n.wf(),
        }
    }
}

impl BeatmapView {
    /// What holds of every beatmap that was read: its real numbers are written as such,
    /// and no hit object skips more combo colours than its type can hold.
    pub open spec fn wf(self) -> bool {
        &&& self.general.wf()
        &&& self.editor.wf()
        &&& self.difficulty.wf()
        &&& forall|i: int|
            0 <= i < self.timing_points.len() ==> (#[trigger] self.timing_points[i]).wf()
        &&& forall|i: int|
            0 <= i < self.hit_objects.len() ==> (#[trigger] self.hit_objects[i]).wf()
    }
}

} // verus!
