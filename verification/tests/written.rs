use osuparse::{
    parse_beatmap, parse_hit_object, Beatmap, Colour, ColoursSection, Decimal,
    DifficultySection, EditorSection, GameMode, GeneralSection, HitCircle, HitObject,
    HitObjectExtras, HoldNote, MetadataSection, Parsable, Slider, SliderType, Spinner,
    TimingPoint,
};

fn decimal(s: &str) -> Decimal {
    Decimal::parse(s).unwrap()
}

fn extras(name: &str) -> HitObjectExtras {
    HitObjectExtras {
        sample_set: 1,
        addition_set: 0,
        custom_index: 2,
        sample_volume: 80,
        filename: name.to_string(),
    }
}

fn full() -> Beatmap {
    Beatmap {
        version: 12,
        general: GeneralSection {
            audio_filename: "song name.mp3".to_string(),
            audio_lead_in: 1500,
            preview_time: -1,
            countdown: true,
            sample_set: "Normal".to_string(),
            stack_leniency: decimal("0.7"),
            countdown_offset: 3,
            skin_preference: "Default: no".to_string(),
            game_mode: GameMode::Mania,
            letterbox_in_breaks: true,
            widescreen_storyboard: true,
            story_fire_in_front: true,
            special_style: true,
            epilepsy_warning: true,
            use_skin_sprites: false,
        },
        editor: EditorSection {
            bookmarks: vec![100, -5, 2147483647],
            distance_spacing: decimal("1.3"),
            beat_divisor: 8,
            grid_size: 16,
            timeline_zoom: decimal("2"),
        },
        metadata: MetadataSection {
            title: "A: B".to_string(),
            title_unicode: "夜啼く兎は夢を見る".to_string(),
            artist: "x".to_string(),
            artist_unicode: "美里".to_string(),
            creator: "someone".to_string(),
            version: "Hard".to_string(),
            source: "".to_string(),
            tags: vec!["one".to_string(), "".to_string(), "two:2".to_string()],
            beatmap_id: 7,
            beatmap_set_id: -1,
        },
        timing_points: vec![
            TimingPoint {
                offset: decimal("764"),
                ms_per_beat: decimal("363.636363636364"),
                meter: 4,
                sample_set: 2,
                sample_index: 1,
                volume: 50,
                inherited: true,
                kiai_mode: false,
            },
            TimingPoint {
                offset: decimal("-1e3"),
                ms_per_beat: decimal("-inf"),
                meter: 3,
                sample_set: 0,
                sample_index: 0,
                volume: 100,
                inherited: false,
                kiai_mode: true,
            },
        ],
        hit_objects: vec![
            HitObject::HitCircle(HitCircle {
                x: 1,
                y: 2,
                new_combo: true,
                color_skip: 7,
                time: 3,
                hitsound: 4,
                extras: extras("clap.wav"),
            }),
            HitObject::Slider(Slider {
                x: 5,
                y: 6,
                new_combo: false,
                color_skip: 1,
                time: 7,
                slider_type: SliderType::Bezier,
                curve_points: vec![(1, 2), (-3, 4)],
                repeat: 2,
                pixel_length: decimal("63.75"),
                edge_hitsounds: vec![2, 0],
                edge_additions: vec![(0, 0), (1, 2)],
                hitsound: 0,
                extras: extras(""),
            }),
            HitObject::Spinner(Spinner {
                x: 256,
                y: 192,
                new_combo: true,
                color_skip: 0,
                time: 8,
                hitsound: 2,
                end_time: 9,
                extras: extras("a b"),
            }),
            HitObject::HoldNote(HoldNote {
                x: 64,
                y: 192,
                new_combo: false,
                color_skip: 5,
                time: 10,
                hitsound: 0,
                end_time: 11,
                extras: extras("hold.ogg"),
            }),
        ],
        difficulty: DifficultySection {
            hp_drain_rate: decimal("6"),
            circle_size: decimal("4.2"),
            overall_difficulty: decimal("8"),
            approach_rate: decimal("9.3"),
            slider_multiplier: decimal("1.8"),
            slider_tick_rate: decimal("2"),
        },
        colours: ColoursSection {
            colours: vec![Colour(255, 0, 0), Colour(0, 255, 0), Colour(0, 0, 255)],
            slider_body: Colour(1, 2, 3),
            slider_track_override: Colour(4, 5, 6),
            slider_border: Colour(7, 8, 9),
        },
    }
}

#[test]
fn written_beatmap_is_read_back_field_for_field() {
    let map = full();
    let text = map.as_parsed();
    let again = parse_beatmap(&text).unwrap();
    assert_eq!(again, map);
    assert_eq!(again.as_parsed(), text);
}

#[test]
fn written_beatmap_text() {
    let text = full().as_parsed();
    let expected = "osu file format v12\n\
\n\
[General]\n\
AudioFilename: song name.mp3\n\
AudioLeadIn: 1500\n\
Previewtime: -1\n\
Countdown: 1\n\
SampleSet: Normal\n\
StackLeniency: 0.7\n\
Mode: 3\n\
LetterboxInBreaks: 1\n\
WidescreenStoryboard: 1\n\
StoryFireInFront: 1\n\
SpecialStyle: 1\n\
EpilepsyWarning: 1\n\
UseSkinSprites: 0\n\
CountdownOffset: 3\n\
SkinPreference: Default: no\n\
\n\
[Editor]\n\
Bookmarks: 100,-5,2147483647\n\
DistanceSpacing: 1.3\n\
BeatDivisor: 8\n\
GridSize: 16\n\
TimelineZoom: 2\n\
\n\
[Metadata]\n\
Title: A: B\n\
TitleUnicode: 夜啼く兎は夢を見る\n\
Artist: x\n\
ArtistUnicode: 美里\n\
Creator: someone\n\
Version: Hard\n\
Source: \n\
Tags: one  two:2\n\
BeatmapID: 7\n\
BeatmapSetID: -1\n\
\n\
[Difficulty]\n\
HPDrainRate: 6\n\
CircleSize: 4.2\n\
OverallDifficulty: 8\n\
ApproachRate: 9.3\n\
SliderMultiplier: 1.8\n\
SliderTickRate: 2\n\
\n\
[TimingPoints]\n\
764,363.636363636364,4,2,1,50,1,0\n\
-1e3,-inf,3,0,0,100,0,1\n\
\n\
[Colours]\n\
Combo1 : 255,0,0\n\
Combo2 : 0,255,0\n\
Combo3 : 0,0,255\n\
SliderBody : 1,2,3\n\
SliderTrackOverride : 4,5,6\n\
SliderBorder : 7,8,9\n\
\n\
[HitObjects]\n\
1,2,3,117,4,1:0:2:80:clap.wav\n\
5,6,7,18,0,B|1:2|-3:4,2,63.75,2|0,0:0|1:2,1:0:2:80:\n\
256,192,8,12,2,9,1:0:2:80:a b\n\
64,192,10,208,0,11:1:0:2:80:hold.ogg\n";
    assert_eq!(text, expected);
}

#[test]
fn written_sections() {
    let map = full();
    assert!(map.general.as_parsed().starts_with("[General]\nAudioFilename: song name.mp3\n"));
    assert!(map.general.as_parsed().ends_with("\nSkinPreference: Default: no"));
    assert_eq!(
        map.editor.as_parsed(),
        "[Editor]\nBookmarks: 100,-5,2147483647\nDistanceSpacing: 1.3\nBeatDivisor: 8\nGridSize: 16\nTimelineZoom: 2"
    );
    assert!(map.metadata.as_parsed().contains("\nTags: one  two:2\n"));
    assert_eq!(
        map.difficulty.as_parsed(),
        "[Difficulty]\nHPDrainRate: 6\nCircleSize: 4.2\nOverallDifficulty: 8\nApproachRate: 9.3\nSliderMultiplier: 1.8\nSliderTickRate: 2"
    );
    assert_eq!(
        map.colours.as_parsed(),
        "[Colours]\nCombo1 : 255,0,0\nCombo2 : 0,255,0\nCombo3 : 0,0,255\nSliderBody : 1,2,3\nSliderTrackOverride : 4,5,6\nSliderBorder : 7,8,9"
    );
    assert_eq!(map.timing_points[0].as_parsed(), "764,363.636363636364,4,2,1,50,1,0");
    assert_eq!(map.hit_objects[3].as_parsed(), "64,192,10,208,0,11:1:0:2:80:hold.ogg");
    assert_eq!(map.hit_objects[1].as_parsed().split(',').count(), 11);
    assert_eq!(extras("").as_parsed(), "1:0:2:80:");
}

#[test]
fn section_without_bookmarks_or_tags_has_a_blank_line_in_their_place() {
    let editor = EditorSection::default();
    assert_eq!(
        editor.as_parsed(),
        "[Editor]\n\nDistanceSpacing: 1.22\nBeatDivisor: 4\nGridSize: 4\nTimelineZoom: 1"
    );
    let metadata = MetadataSection::default();
    assert!(metadata.as_parsed().contains("\nSource: \n\nBeatmapID: 0\n"));
}

#[test]
fn defaults() {
    let map = Beatmap::default();
    assert_eq!(map.version, 0);
    assert_eq!(map.general, GeneralSection::default());
    assert_eq!(map.general.game_mode, GameMode::Osu);
    assert_eq!(map.general.stack_leniency.as_str().parse::<f32>().unwrap(), 0.0);
    assert_eq!(map.editor.distance_spacing.as_str().parse::<f32>().unwrap(), 1.22);
    assert_eq!(map.editor.timeline_zoom.as_str().parse::<f32>().unwrap(), 1.0);
    assert_eq!(map.editor.beat_divisor, 4);
    assert_eq!(map.editor.grid_size, 4);
    for rate in [
        &map.difficulty.hp_drain_rate,
        &map.difficulty.circle_size,
        &map.difficulty.overall_difficulty,
        &map.difficulty.approach_rate,
    ] {
        assert_eq!(rate.as_str().parse::<f32>().unwrap(), 5.0);
    }
    assert_eq!(map.difficulty.slider_multiplier.as_str().parse::<f32>().unwrap(), 1.4);
    assert_eq!(map.difficulty.slider_tick_rate.as_str().parse::<f32>().unwrap(), 1.0);
    assert_eq!(map.colours, ColoursSection::default());
    assert_eq!(Colour::default(), Colour(0, 0, 0));
    assert_eq!(HitObjectExtras::default().filename, "");
    assert_eq!(HoldNote::default().end_time, 0);
    assert!(map.timing_points.is_empty() && map.hit_objects.is_empty());
}

#[test]
fn sprites_of_the_skin_are_written_and_read() {
    let mut map = full();
    map.general.use_skin_sprites = true;
    let text = map.as_parsed();
    assert!(text.contains("\nUseSkinSprites: 1\n"));
    let again = parse_beatmap(&text).unwrap();
    assert!(again.general.use_skin_sprites);
    assert_eq!(again, map);
    let read = parse_beatmap("osu file format v14\n[General]\nuseskinsprites:1\n").unwrap();
    assert!(read.general.use_skin_sprites);
    assert!(parse_beatmap("osu file format v14\n[General]\nUseSkinSprites: yes\n").is_err());
}

#[test]
fn every_type_of_hit_object_is_read_back() {
    for base in [1u8, 2, 8, 128] {
        for new_combo in [false, true] {
            for skip in 0..8 {
                let kind = osuparse::get_type(base, new_combo, skip);
                let tail = match base {
                    1 => "",
                    2 => ",L|1:1,1,10",
                    8 => ",99",
                    _ => ",99:0:0:0:0:",
                };
                let line = format!("1,2,3,{},0{}", kind, tail);
                let object = parse_hit_object(&line).unwrap();
                let (b, n, s) = match &object {
                    HitObject::HitCircle(c) => (1, c.new_combo, c.color_skip),
                    HitObject::Slider(c) => (2, c.new_combo, c.color_skip),
                    HitObject::Spinner(c) => (8, c.new_combo, c.color_skip),
                    HitObject::HoldNote(c) => (128, c.new_combo, c.color_skip),
                };
                assert_eq!((b, n, s), (base, new_combo, skip));
                assert_eq!(parse_hit_object(&object.as_parsed()).unwrap(), object);
            }
        }
    }
}
