use crate::caseless::{key_matches, keys_match};
use crate::error::{Error, Outcome, Result, agrees};
use crate::grammar::{bool_of, decimal_of, mode_of, number_list_of, number_of};
use crate::keyed::KeyedSection;
use crate::model::{
    Decimal, DifficultySection, DifficultySectionView, EditorSection, EditorSectionView,
    GameMode, GeneralSection, GeneralSectionView, MetadataSection, MetadataSectionView, texts,
};
use crate::number::{digit_run, is_decimal_text, is_number_text, unsigned_part};
use crate::parse::{numbers_in, parse_bool, parse_decimal, parse_mode, parse_num, parse_string};
use crate::text::{padded_split, padded_split_range, strings_from, to_chars};
use vstd::prelude::*;

verus! {

/// A real number written with one digit.
fn one_digit(s: &str) -> (d: Decimal)
    requires
        s@.len() == 1,
        crate::text::is_digit(s@[0]),
    ensures
        d@ == s@,
        is_decimal_text(d@),
{
    proof {
        reveal_with_fuel(digit_run, 3);
        assert(unsigned_part(s@) == s@);
        assert(is_number_text(s@));
    }
    Decimal::literal(s)
}

/// A real number written with one digit, a point, and one or two digits.
fn with_fraction(s: &str) -> (d: Decimal)
    requires
        3 <= s@.len() <= 4,
        crate::text::is_digit(s@[0]),
        s@[1] == '.',
        forall|i: int| 2 <= i < s@.len() ==> crate::text::is_digit(#[trigger] s@[i]),
    ensures
        d@ == s@,
        is_decimal_text(d@),
{
    proof {
        reveal_with_fuel(digit_run, 4);
        assert(unsigned_part(s@) == s@);
        assert(digit_run(s@, 0) == 1);
        assert(crate::text::is_digit(s@[2]));
        assert(s@.len() == 4 ==> crate::text::is_digit(s@[3]));
        assert(digit_run(s@, 2) == s@.len() - 2);
        assert(is_number_text(s@));
    }
    Decimal::literal(s)
}

/// The general properties of a beatmap that states none.
pub open spec fn default_general() -> GeneralSectionView {
    GeneralSectionView {
        audio_filename: Seq::empty(),
        audio_lead_in: 0,
        preview_time: 0,
        countdown: false,
        sample_set: Seq::empty(),
        stack_leniency: "0"@,
        countdown_offset: 0,
        skin_preference: Seq::empty(),
        game_mode: GameMode::Osu,
        letterbox_in_breaks: false,
        widescreen_storyboard: false,
        story_fire_in_front: false,
        special_style: false,
        epilepsy_warning: false,
        use_skin_sprites: false,
    }
}

impl Default for GeneralSection {
    fn default() -> (r: GeneralSection)
        ensures
            r@ == default_general(),
    {
        proof {
            reveal_strlit("0");
        }
        GeneralSection {
            audio_filename: String::new(),
            audio_lead_in: 0,
            preview_time: 0,
            countdown: false,
            sample_set: String::new(),
            skin_preference: String::new(),
            stack_leniency: one_digit("0"),
            countdown_offset: 0,
            game_mode: GameMode::Osu,
            letterbox_in_breaks: false,
            widescreen_storyboard: false,
            story_fire_in_front: false,
            special_style: false,
            epilepsy_warning: false,
            use_skin_sprites: false,
        }
    }
}

/// The state of an editor that nothing was changed in.
pub open spec fn default_editor() -> EditorSectionView {
    EditorSectionView {
        bookmarks: Seq::empty(),
        distance_spacing: "1.22"@,
        beat_divisor: 4,
        grid_size: 4,
        timeline_zoom: "1"@,
    }
}

impl Default for EditorSection {
    fn default() -> (r: EditorSection)
        ensures
            r@ == default_editor(),
    {
        proof {
            reveal_strlit("1.22");
            reveal_strlit("1");
        }
        EditorSection {
            bookmarks: Vec::new(),
            distance_spacing: with_fraction("1.22"),
            beat_divisor: 4,
            grid_size: 4,
            timeline_zoom: one_digit("1"),
        }
    }
}

/// The metadata of a beatmap that states none.
pub open spec fn default_metadata() -> MetadataSectionView {
    MetadataSectionView {
        title: Seq::empty(),
        title_unicode: Seq::empty(),
        artist: Seq::empty(),
        artist_unicode: Seq::empty(),
        creator: Seq::empty(),
        version: Seq::empty(),
        source: Seq::empty(),
        tags: Seq::empty(),
        beatmap_id: 0,
        beatmap_set_id: 0,
    }
}

impl Default for MetadataSection {
    fn default() -> (r: MetadataSection)
        ensures
            r@ == default_metadata(),
    {
        let r = MetadataSection {
            title: String::new(),
            title_unicode: String::new(),
            artist: String::new(),
            artist_unicode: String::new(),
            creator: String::new(),
            version: String::new(),
            source: String::new(),
            tags: Vec::new(),
            beatmap_id: 0,
            beatmap_set_id: 0,
        };
        assert(r@.tags =~= Seq::empty());
        r
    }
}

/// The difficulty that the editor starts from: every rate is 5, but for the slider
/// multiplier, 1.4, and the slider tick rate, 1.
pub open spec fn default_difficulty() -> DifficultySectionView {
    DifficultySectionView {
        hp_drain_rate: "5"@,
        circle_size: "5"@,
        overall_difficulty: "5"@,
        approach_rate: "5"@,
        slider_multiplier: "1.4"@,
        slider_tick_rate: "1"@,
    }
}

impl Default for DifficultySection {
    fn default() -> (r: DifficultySection)
        ensures
            r@ == default_difficulty(),
    {
        proof {
            reveal_strlit("5");
            reveal_strlit("1.4");
            reveal_strlit("1");
        }
        DifficultySection {
            hp_drain_rate: one_digit("5"),
            circle_size: one_digit("5"),
            overall_difficulty: one_digit("5"),
            approach_rate: one_digit("5"),
            slider_multiplier: with_fraction("1.4"),
            slider_tick_rate: one_digit("1"),
        }
    }
}

/// What storing `value` under `key` makes of the general section: the first key of the
/// section that matches decides, and a key that matches none changes nothing.
#[verifier::opaque]
pub open spec fn general_assigned(
    s: GeneralSectionView,
    key: Seq<char>,
    value: Seq<char>,
) -> Outcome<GeneralSectionView> {
    if key_matches(key, "AudioFilename"@) {
        Ok(GeneralSectionView { audio_filename: value, ..s })
    } else if key_matches(key, "AudioLeadIn"@) {
        match number_of(value) {
            Ok(n) => Ok(GeneralSectionView { audio_lead_in: n, ..s }),
            Err(e) => Err(e),
        }
    } else if key_matches(key, "PreviewTime"@) {
        match number_of(value) {
            Ok(n) => Ok(GeneralSectionView { preview_time: n, ..s }),
            Err(e) => Err(e),
        }
    } else if key_matches(key, "Countdown"@) {
        match bool_of(value) {
            Ok(b) => Ok(GeneralSectionView { countdown: b, ..s }),
            Err(e) => Err(e),
        }
    } else if key_matches(key, "CountdownOffset"@) {
        match number_of(value) {
            Ok(n) => Ok(GeneralSectionView { countdown_offset: n, ..s }),
            Err(e) => Err(e),
        }
    } else if key_matches(key, "SampleSet"@) {
        Ok(GeneralSectionView { sample_set: value, ..s })
    } else if key_matches(key, "SkinPreference"@) {
        Ok(GeneralSectionView { skin_preference: value, ..s })
    } else if key_matches(key, "StackLeniency"@) {
        match decimal_of(value) {
            Ok(d) => Ok(GeneralSectionView { stack_leniency: d, ..s }),
            Err(e) => Err(e),
        }
    } else if key_matches(key, "Mode"@) {
        match mode_of(value) {
            Ok(m) => Ok(GeneralSectionView { game_mode: m, ..s }),
            Err(e) => Err(e),
        }
    } else if key_matches(key, "LetterboxInBreaks"@) {
        match bool_of(value) {
            Ok(b) => Ok(GeneralSectionView { letterbox_in_breaks: b, ..s }),
            Err(e) => Err(e),
        }
    } else if key_matches(key, "WidescreenStoryboard"@) {
        match bool_of(value) {
            Ok(b) => Ok(GeneralSectionView { widescreen_storyboard: b, ..s }),
            Err(e) => Err(e),
        }
    } else if key_matches(key, "EpilepsyWarning"@) {
        match bool_of(value) {
            Ok(b) => Ok(GeneralSectionView { epilepsy_warning: b, ..s }),
            Err(e) => Err(e),
        }
    } else if key_matches(key, "StoryFireInFront"@) {
        match bool_of(value) {
            Ok(b) => Ok(GeneralSectionView { story_fire_in_front: b, ..s }),
            Err(e) => Err(e),
        }
    } else if key_matches(key, "SpecialStyle"@) {
        match bool_of(value) {
            Ok(b) => Ok(GeneralSectionView { special_style: b, ..s }),
            Err(e) => Err(e),
        }
    } else if key_matches(key, "UseSkinSprites"@) {
        match bool_of(value) {
            Ok(b) => Ok(GeneralSectionView { use_skin_sprites: b, ..s }),
            Err(e) => Err(e),
        }
    } else {
        Ok(s)
    }
}

impl KeyedSection for GeneralSection {
    open spec fn assigned(
        s: GeneralSectionView,
        key: Seq<char>,
        value: Seq<char>,
    ) -> Outcome<GeneralSectionView> {
        general_assigned(s, key, value)
    }

    fn assign(&mut self, key: &str, value: &str) -> (r: Result<()>) {
        reveal(general_assigned);
        if keys_match(key, "AudioFilename") {
            self.audio_filename = parse_string(value)?;
        } else if keys_match(key, "AudioLeadIn") {
            self.audio_lead_in = parse_num(value)?;
        } else if keys_match(key, "PreviewTime") {
            self.preview_time = parse_num(value)?;
        } else if keys_match(key, "Countdown") {
            self.countdown = parse_bool(value)?;
        } else if keys_match(key, "CountdownOffset") {
            self.countdown_offset = parse_num(value)?;
        } else if keys_match(key, "SampleSet") {
            self.sample_set = parse_string(value)?;
        } else if keys_match(key, "SkinPreference") {
            self.skin_preference = parse_string(value)?;
        } else if keys_match(key, "StackLeniency") {
            self.stack_leniency = parse_decimal(value)?;
        } else if keys_match(key, "Mode") {
            self.game_mode = parse_mode(value)?;
        } else if keys_match(key, "LetterboxInBreaks") {
            self.letterbox_in_breaks = parse_bool(value)?;
        } else if keys_match(key, "WidescreenStoryboard") {
            self.widescreen_storyboard = parse_bool(value)?;
        } else if keys_match(key, "EpilepsyWarning") {
            self.epilepsy_warning = parse_bool(value)?;
        } else if keys_match(key, "StoryFireInFront") {
            self.story_fire_in_front = parse_bool(value)?;
        } else if keys_match(key, "SpecialStyle") {
            self.special_style = parse_bool(value)?;
        } else if keys_match(key, "UseSkinSprites") {
            self.use_skin_sprites = parse_bool(value)?;
        }
        Ok(())
    }
}

/// Reads a list of numbers with commas between them.
pub fn parse_number_list(s: &str) -> (r: Result<Vec<i32>>)
    ensures
        agrees(r, number_list_of(s@)),
{
    let v = to_chars(s);
    assert(v@.subrange(0, v@.len() as int) == v@);
    let fields = padded_split_range(&v, 0, v.len(), ',');
    match numbers_in(&v, &fields) {
        Some(ns) => Ok(ns),
        None => Err(Error::Message("Unable to parse number")),
    }
}

/// Reads a list of words with one space between each two of them.
pub fn parse_word_list(s: &str) -> (r: Vec<String>)
    ensures
        texts(r@) == padded_split(s@, ' '),
{
    let v = to_chars(s);
    assert(v@.subrange(0, v@.len() as int) == v@);
    let fields = padded_split_range(&v, 0, v.len(), ' ');
    let r = strings_from(&v, &fields);
    assert(texts(r@) =~= padded_split(s@, ' '));
    r
}

/// What storing `value` under `key` makes of the editor section: the first key of the
/// section that matches decides, and a key that matches none changes nothing.
#[verifier::opaque]
pub open spec fn editor_assigned(
    s: EditorSectionView,
    key: Seq<char>,
    value: Seq<char>,
) -> Outcome<EditorSectionView> {
    if key_matches(key, "Bookmarks"@) {
        match number_list_of(value) {
            Ok(ns) => Ok(EditorSectionView { bookmarks: ns, ..s }),
            Err(e) => Err(e),
        }
    } else if key_matches(key, "DistanceSpacing"@) {
        match decimal_of(value) {
            Ok(d) => Ok(EditorSectionView { distance_spacing: d, ..s }),
            Err(e) => Err(e),
        }
    } else if key_matches(key, "BeatDivisor"@) {
        match number_of(value) {
            Ok(n) => Ok(EditorSectionView { beat_divisor: n, ..s }),
            Err(e) => Err(e),
        }
    } else if key_matches(key, "GridSize"@) {
        match number_of(value) {
            Ok(n) => Ok(EditorSectionView { grid_size: n, ..s }),
            Err(e) => Err(e),
        }
    } else if key_matches(key, "TimelineZoom"@) {
        match decimal_of(value) {
            Ok(d) => Ok(EditorSectionView { timeline_zoom: d, ..s }),
            Err(e) => Err(e),
        }
    } else {
        Ok(s)
    }
}

impl KeyedSection for EditorSection {
    open spec fn assigned(
        s: EditorSectionView,
        key: Seq<char>,
        value: Seq<char>,
    ) -> Outcome<EditorSectionView> {
        editor_assigned(s, key, value)
    }

    fn assign(&mut self, key: &str, value: &str) -> (r: Result<()>) {
        reveal(editor_assigned);
        if keys_match(key, "Bookmarks") {
            self.bookmarks = parse_number_list(value)?;
        } else if keys_match(key, "DistanceSpacing") {
            self.distance_spacing = parse_decimal(value)?;
        } else if keys_match(key, "BeatDivisor") {
            self.beat_divisor = parse_num(value)?;
        } else if keys_match(key, "GridSize") {
            self.grid_size = parse_num(value)?;
        } else if keys_match(key, "TimelineZoom") {
            self.timeline_zoom = parse_decimal(value)?;
        }
        Ok(())
    }
}

/// What storing `value` under `key` makes of the metadata section: the first key of the
/// section that matches decides, and a key that matches none changes nothing.
#[verifier::opaque]
pub open spec fn metadata_assigned(
    s: MetadataSectionView,
    key: Seq<char>,
    value: Seq<char>,
) -> Outcome<MetadataSectionView> {
    if key_matches(key, "Title"@) {
        Ok(MetadataSectionView { title: value, ..s })
    } else if key_matches(key, "TitleUnicode"@) {
        Ok(MetadataSectionView { title_unicode: value, ..s })
    } else if key_matches(key, "Artist"@) {
        Ok(MetadataSectionView { artist: value, ..s })
    } else if key_matches(key, "ArtistUnicode"@) {
        Ok(MetadataSectionView { artist_unicode: value, ..s })
    } else if key_matches(key, "Creator"@) {
        Ok(MetadataSectionView { creator: value, ..s })
    } else if key_matches(key, "Version"@) {
        Ok(MetadataSectionView { version: value, ..s })
    } else if key_matches(key, "Source"@) {
        Ok(MetadataSectionView { source: value, ..s })
    } else if key_matches(key, "Tags"@) {
        Ok(MetadataSectionView { tags: padded_split(value, ' '), ..s })
    } else if key_matches(key, "BeatmapID"@) {
        match number_of(value) {
            Ok(n) => Ok(MetadataSectionView { beatmap_id: n, ..s }),
            Err(e) => Err(e),
        }
    } else if key_matches(key, "BeatmapSetID"@) {
        match number_of(value) {
            Ok(n) => Ok(MetadataSectionView { beatmap_set_id: n, ..s }),
            Err(e) => Err(e),
        }
    } else {
        Ok(s)
    }
}

impl KeyedSection for MetadataSection {
    open spec fn assigned(
        s: MetadataSectionView,
        key: Seq<char>,
        value: Seq<char>,
    ) -> Outcome<MetadataSectionView> {
        metadata_assigned(s, key, value)
    }

    fn assign(&mut self, key: &str, value: &str) -> (r: Result<()>) {
        reveal(metadata_assigned);
        if keys_match(key, "Title") {
            self.title = parse_string(value)?;
        } else if keys_match(key, "TitleUnicode") {
            self.title_unicode = parse_string(value)?;
        } else if keys_match(key, "Artist") {
            self.artist = parse_string(value)?;
        } else if keys_match(key, "ArtistUnicode") {
            self.artist_unicode = parse_string(value)?;
        } else if keys_match(key, "Creator") {
            self.creator = parse_string(value)?;
        } else if keys_match(key, "Version") {
            self.version = parse_string(value)?;
        } else if keys_match(key, "Source") {
            self.source = parse_string(value)?;
        } else if keys_match(key, "Tags") {
            self.tags = parse_word_list(value);
        } else if keys_match(key, "BeatmapID") {
            self.beatmap_id = parse_num(value)?;
        } else if keys_match(key, "BeatmapSetID") {
            self.beatmap_set_id = parse_num(value)?;
        }
        Ok(())
    }
}

/// What storing `value` under `key` makes of the difficulty section: the first key of the
/// section that matches decides, and a key that matches none changes nothing.
#[verifier::opaque]
pub open spec fn difficulty_assigned(
    s: DifficultySectionView,
    key: Seq<char>,
    value: Seq<char>,
) -> Outcome<DifficultySectionView> {
    if key_matches(key, "HPDrainRate"@) {
        match decimal_of(value) {
            Ok(d) => Ok(DifficultySectionView { hp_drain_rate: d, ..s }),
            Err(e) => Err(e),
        }
    } else if key_matches(key, "CircleSize"@) {
        match decimal_of(value) {
            Ok(d) => Ok(DifficultySectionView { circle_size: d, ..s }),
            Err(e) => Err(e),
        }
    } else if key_matches(key, "OverallDifficulty"@) {
        match decimal_of(value) {
            Ok(d) => Ok(DifficultySectionView { overall_difficulty: d, ..s }),
            Err(e) => Err(e),
        }
    } else if key_matches(key, "ApproachRate"@) {
        match decimal_of(value) {
            Ok(d) => Ok(DifficultySectionView { approach_rate: d, ..s }),
            Err(e) => Err(e),
        }
    } else if key_matches(key, "SliderMultiplier"@) {
        match decimal_of(value) {
            Ok(d) => Ok(DifficultySectionView { slider_multiplier: d, ..s }),
            Err(e) => Err(e),
        }
    } else if key_matches(key, "SliderTickRate"@) {
        match decimal_of(value) {
            Ok(d) => Ok(DifficultySectionView { slider_tick_rate: d, ..s }),
            Err(e) => Err(e),
        }
    } else {
        Ok(s)
    }
}

impl KeyedSection for DifficultySection {
    open spec fn assigned(
        s: DifficultySectionView,
        key: Seq<char>,
        value: Seq<char>,
    ) -> Outcome<DifficultySectionView> {
        difficulty_assigned(s, key, value)
    }

    fn assign(&mut self, key: &str, value: &str) -> (r: Result<()>) {
        reveal(difficulty_assigned);
        if keys_match(key, "HPDrainRate") {
            self.hp_drain_rate = parse_decimal(value)?;
        } else if keys_match(key, "CircleSize") {
            self.circle_size = parse_decimal(value)?;
        } else if keys_match(key, "OverallDifficulty") {
            self.overall_difficulty = parse_decimal(value)?;
        } else if keys_match(key, "ApproachRate") {
            self.approach_rate = parse_decimal(value)?;
        } else if keys_match(key, "SliderMultiplier") {
            self.slider_multiplier = parse_decimal(value)?;
        } else if keys_match(key, "SliderTickRate") {
            self.slider_tick_rate = parse_decimal(value)?;
        }
        Ok(())
    }
}

} // verus!
