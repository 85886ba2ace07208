use osuparse::{parse_beatmap, Colour, Error, GameMode, HitObject, Parsable, SliderType};

fn sample() -> &'static str {
    r"osu file format v14

[General]
AudioFilename: Bakemonogatari_-_Kimi_no_Shiranai_Monogatari.mp3
AudioLeadIn: 0
PreviewTime: 239594
Countdown: 0
SampleSet: Soft
StackLeniency: 0.7
Mode: 0
LetterboxInBreaks: 1
WidescreenStoryboard: 0

[Editor]
Bookmarks: 5,6
DistanceSpacing: 1
BeatDivisor: 4
GridSize: 4
TimelineZoom: 5.100003

[Metadata]
Title:Kimi no Shiranai Monogatari
TitleUnicode:君の知らない物語
Artist:supercell
ArtistUnicode:supercell
Creator:monstrata
Version:Celestial
Source:化物語
Tags:ed ending Bakemonogatari shaft nagi yanagi ryo araragi senjougahara hanekawa sengoku kanbaru hachikuji shinobu tsukihi karen senjou gahara hitagi koyomi oshino nadeko tsubasa surug
BeatmapID:651744
BeatmapSetID:289074

[TimingPoints]
764,363.636363636364,4,2,1,50,1,0
764,-133.333333333333,4,2,1,50,0,0
3480,363.636363636364,4,2,1,50,1,8
3661,363.636363636364,4,2,1,50,1,0
3661,-133.333333333333,4,2,1,50,0,0
9479,-133.333333333333,4,1,0,50,0,0
12388,-100,4,1,0,50,0,0
17466,363.636363636364,4,1,0,50,1,8
18180,363.636363636364,4,1,0,50,1,0
19651,363.636363636364,4,1,0,50,1,0
24023,363.636363636364,4,1,0,50,1,0
25474,363.636363636364,4,1,1,50,1,0
29837,-142.857142857143,4,2,1,50,0,0
32775,363.636363636364,4,2,1,50,1,0
32775,-142.857142857143,4,2,1,50,0,0

[HitObjects]
47,196,764,6,0,L|38:127,2,63.7500024318696,2|0|0,0:0|0:0|0:0,0:0:0:0:
60,277,1309,2,0,L|196:333,1,127.500004863739,2|0,0:2|0:0,0:0:0:0:
254,357,1854,1,0,0:0:0:0:
319,306,2036,6,0,L|387:334,2,63.7500024318696,0|2|0,0:0|0:0|0:0,0:0:0:0:
242,275,2582,1,0,0:0:0:0:
230,192,2764,2,0,L|207:41,1,127.500004863739,2|0,0:0|0:0,0:0:0:0:
307,223,3480,1,0,0:0:0:0:
242,275,3661,6,0,L|179:325,2,63.7500024318696,2|0|0,0:0|0:0|0:0,0:0:0:0:
307,223,4206,1,0,0:0:0:0:
295,140,4388,2,0,L|357:89,2,63.7500024318696,2|0|0,0:0|0:0|0:0,0:0:0:0:
230,192,4933,1,0,0:0:0:0:
165,244,5115,54,0,L|94:302,1,63.7500024318696,2|0,0:0|0:0,0:0:0:0:
152,161,5479,2,0,L|66:128,1,63.7500024318696
217,108,5842,2,0,L|204:19,1,63.7500024318696,2|0,0:0|0:0,0:0:0:0:

"
}

#[test]
fn test_parse_map() {
    let map = parse_beatmap(sample()).unwrap();

    assert_eq!(map.version, 14);
    assert_eq!(
        map.general.audio_filename,
        "Bakemonogatari_-_Kimi_no_Shiranai_Monogatari.mp3"
    );
    assert_eq!(map.general.audio_lead_in, 0);
    assert_eq!(map.general.preview_time, 239594);
    assert_eq!(map.general.stack_leniency.as_str().parse::<f32>().unwrap(), 0.7);
    assert_eq!(map.general.sample_set, "Soft");
    assert_eq!(map.editor.bookmarks, vec![5, 6]);
}

#[test]
fn parse_map_reads_every_section() {
    let map = parse_beatmap(sample()).unwrap();

    assert!(!map.general.countdown);
    assert!(map.general.letterbox_in_breaks);
    assert!(!map.general.widescreen_storyboard);
    assert_eq!(map.general.game_mode, GameMode::Osu);
    assert_eq!(map.editor.distance_spacing.as_str(), "1");
    assert_eq!(map.editor.beat_divisor, 4);
    assert_eq!(map.editor.grid_size, 4);
    assert_eq!(map.editor.timeline_zoom.as_str(), "5.100003");
    assert_eq!(map.metadata.title, "Kimi no Shiranai Monogatari");
    assert_eq!(map.metadata.title_unicode, "君の知らない物語");
    assert_eq!(map.metadata.source, "化物語");
    assert_eq!(map.metadata.tags.len(), 24);
    assert_eq!(map.metadata.tags[0], "ed");
    assert_eq!(map.metadata.tags[23], "surug");
    assert_eq!(map.metadata.beatmap_id, 651744);
    assert_eq!(map.metadata.beatmap_set_id, 289074);
    assert_eq!(map.timing_points.len(), 15);
    assert_eq!(map.timing_points[6].offset.as_str(), "12388");
    assert_eq!(map.timing_points[6].ms_per_beat.as_str(), "-100");
    assert!(map.timing_points[2].kiai_mode);
    assert_eq!(map.hit_objects.len(), 14);
    // the sections that the text lacks keep their defaults
    assert_eq!(map.difficulty.hp_drain_rate.as_str(), "5");
    assert_eq!(map.difficulty.slider_multiplier.as_str(), "1.4");
    assert_eq!(map.colours.colours.len(), 0);
    assert_eq!(map.colours.slider_body, Colour(0, 0, 0));
}

#[test]
fn parse_map_keeps_the_order_of_hit_objects() {
    let map = parse_beatmap(sample()).unwrap();
    let times: Vec<i32> = map
        .hit_objects
        .iter()
        .map(|h| match h {
            HitObject::HitCircle(c) => c.time,
            HitObject::Slider(s) => s.time,
            HitObject::Spinner(s) => s.time,
            HitObject::HoldNote(n) => n.time,
        })
        .collect();
    assert_eq!(
        times,
        vec![764, 1309, 1854, 2036, 2582, 2764, 3480, 3661, 4206, 4388, 4933, 5115, 5479, 5842]
    );
    match &map.hit_objects[11] {
        HitObject::Slider(s) => {
            // type 54 = slider | new combo | three colours skipped
            assert!(s.new_combo);
            assert_eq!(s.color_skip, 3);
            assert_eq!(s.slider_type, SliderType::Linear);
        }
        other => panic!("not a slider: {:?}", other),
    }
    match &map.hit_objects[12] {
        HitObject::Slider(s) => {
            assert_eq!(s.edge_hitsounds, Vec::<i32>::new());
            assert_eq!(s.edge_additions, Vec::<(i32, i32)>::new());
            assert_eq!(s.extras.filename, "");
            assert_eq!(s.pixel_length.as_str(), "63.7500024318696");
        }
        other => panic!("not a slider: {:?}", other),
    }
}

#[test]
fn missing_version_header_is_a_syntax_error_at_line_0() {
    match parse_beatmap("[General]\nMode: 1\n") {
        Err(Error::Syntax(Some((n, line)), reason)) => {
            assert_eq!(n, 0);
            assert_eq!(line, "[General]");
            assert_eq!(reason, "Unable to parse version line");
        }
        other => panic!("unexpected: {:?}", other),
    }
}

#[test]
fn empty_text_is_a_syntax_error_without_a_line() {
    match parse_beatmap("") {
        Err(Error::Syntax(None, reason)) => {
            assert_eq!(reason, "Unable to parse version line");
        }
        other => panic!("unexpected: {:?}", other),
    }
    match parse_beatmap("  \n\t\n") {
        Err(Error::Syntax(None, _)) => {}
        other => panic!("unexpected: {:?}", other),
    }
}

#[test]
fn version_line_after_blank_lines_keeps_its_index() {
    match parse_beatmap("\n\n  \nnot a version\n") {
        Err(Error::Syntax(Some((n, line)), _)) => {
            assert_eq!(n, 3);
            assert_eq!(line, "not a version");
        }
        other => panic!("unexpected: {:?}", other),
    }
}

#[test]
fn negative_version_is_refused() {
    assert!(parse_beatmap("osu file format v-3").is_err());
    assert_eq!(parse_beatmap("osu file format v+3").unwrap().version, 3);
    assert_eq!(parse_beatmap("\u{feff}osu file format v7  ").unwrap().version, 7);
    assert!(parse_beatmap("osu file format v").is_err());
    assert!(parse_beatmap("osu file format v14a").is_err());
}

#[test]
fn unknown_section_is_a_syntax_error_that_names_it() {
    match parse_beatmap("osu file format v14\n\n[Bogus]\nFoo: 1\n") {
        Err(Error::Syntax(Some((n, line)), reason)) => {
            assert_eq!(n, 2);
            assert_eq!(line, "[Bogus]");
            assert_eq!(reason, "Unknown section header");
        }
        other => panic!("unexpected: {:?}", other),
    }
}

#[test]
fn line_that_is_no_header_is_a_syntax_error() {
    match parse_beatmap("osu file format v14\nGeneral\n") {
        Err(Error::Syntax(Some((n, line)), reason)) => {
            assert_eq!(n, 1);
            assert_eq!(line, "General");
            assert_eq!(reason, "Malformed section header");
        }
        other => panic!("unexpected: {:?}", other),
    }
}

#[test]
fn unknown_keys_are_ignored() {
    let map = parse_beatmap("osu file format v14\n[General]\nFoo: 1\nMode: 1\n").unwrap();
    assert_eq!(map.general.game_mode, GameMode::Taiko);
    assert_eq!(map.general.audio_lead_in, 0);
}

#[test]
fn keys_are_matched_without_regard_to_case() {
    let map =
        parse_beatmap("osu file format v14\n[General]\nmode: 3\nAUDIOLEADIN : 12\n").unwrap();
    assert_eq!(map.general.game_mode, GameMode::Mania);
    assert_eq!(map.general.audio_lead_in, 12);
}

#[test]
fn keys_are_matched_by_unicode_case_folding() {
    // U+212A, the Kelvin sign, folds to the letter k
    let map = parse_beatmap("osu file format v14\n[Editor]\nBoo\u{212A}marks: 1,2\n").unwrap();
    assert_eq!(map.editor.bookmarks, vec![1, 2]);
    // U+017F, the long s, folds to the letter s
    let map = parse_beatmap("osu file format v14\n[Editor]\nGrid\u{17F}ize: 9\n").unwrap();
    assert_eq!(map.editor.grid_size, 9);
}

#[test]
fn section_names_are_matched_with_regard_to_case() {
    assert!(parse_beatmap("osu file format v14\n[general]\nMode: 1\n").is_err());
}

#[test]
fn malformed_value_is_a_syntax_error_at_its_line() {
    match parse_beatmap("osu file format v14\n\n[General]\nAudioLeadIn: 5\nMode: 7\n") {
        Err(Error::Syntax(Some((n, line)), reason)) => {
            assert_eq!(n, 4);
            assert_eq!(line, "Mode: 7");
            assert_eq!(reason, "Unable to parse gamemode");
        }
        other => panic!("unexpected: {:?}", other),
    }
    match parse_beatmap("osu file format v14\n[Editor]\nBookmarks: 1, x\n") {
        Err(Error::Syntax(Some((2, _)), reason)) => {
            assert_eq!(reason, "Unable to parse number");
        }
        other => panic!("unexpected: {:?}", other),
    }
    match parse_beatmap("osu file format v14\n[General]\nCountdown: yes\n") {
        Err(Error::Syntax(Some((2, _)), reason)) => {
            assert_eq!(reason, "Could not parse bool");
        }
        other => panic!("unexpected: {:?}", other),
    }
}

#[test]
fn last_section_of_a_kind_wins() {
    let map = parse_beatmap(
        "osu file format v14\n[General]\nMode: 1\nAudioLeadIn: 3\n[General]\nMode: 2\n",
    )
    .unwrap();
    assert_eq!(map.general.game_mode, GameMode::CTB);
    assert_eq!(map.general.audio_lead_in, 0);
}

#[test]
fn combo_colours_come_in_the_order_of_their_numbers() {
    let map =
        parse_beatmap("osu file format v14\n[Colours]\nCombo3 : 1,2,3\nCombo1 : 9,8,7\n").unwrap();
    assert_eq!(map.colours.colours, vec![Colour(9, 8, 7), Colour(1, 2, 3)]);
}

#[test]
fn combo_colours_with_one_number_come_in_the_order_of_the_colours() {
    let map = parse_beatmap(
        "osu file format v14\n[Colours]\nCombo2 : 5,0,0\nCombo2 : 1,9,9\nCombo000 : 7,7,7\n",
    )
    .unwrap();
    assert_eq!(
        map.colours.colours,
        vec![Colour(7, 7, 7), Colour(1, 9, 9), Colour(5, 0, 0)]
    );
}

#[test]
fn key_that_starts_with_combo_and_has_no_number_is_passed_over() {
    let map = parse_beatmap(
        "osu file format v14\n[Colours]\nComboBreak : 1,2,3\nCombo1 : 4,5,6\n",
    )
    .unwrap();
    assert_eq!(map.colours.colours, vec![Colour(4, 5, 6)]);
    for key in ["Combo", "Combox", "Combo-1", "Combo+1", "Combo1x", "Combo 1", "Combo１", "ComboBreak"] {
        let text = format!("osu file format v14\n[Colours]\n{} : x\nCombo7 : 1,2,3\n", key);
        let map = parse_beatmap(&text).unwrap();
        assert_eq!(map.colours.colours, vec![Colour(1, 2, 3)], "on {:?}", key);
    }
}

#[test]
fn combo_number_that_does_not_fit_is_a_syntax_error() {
    match parse_beatmap("osu file format v14\n[Colours]\nCombo2147483648 : 1,2,3\n") {
        Err(Error::Syntax(Some((2, line)), reason)) => {
            assert_eq!(line, "Combo2147483648 : 1,2,3");
            assert_eq!(reason, "Unable to parse number");
        }
        other => panic!("unexpected: {:?}", other),
    }
    let map =
        parse_beatmap("osu file format v14\n[Colours]\nCombo2147483647 : 1,2,3\n").unwrap();
    assert_eq!(map.colours.colours, vec![Colour(1, 2, 3)]);
}

#[test]
fn slider_colours_are_read() {
    let map = parse_beatmap(
        "osu file format v14\n[Colours]\nSliderBody : 1,2,3\nsliderborder: 4,5,6\nSliderTrackOverride:7,8,9\nOther : 1\n",
    )
    .unwrap();
    assert_eq!(map.colours.slider_body, Colour(1, 2, 3));
    assert_eq!(map.colours.slider_border, Colour(4, 5, 6));
    assert_eq!(map.colours.slider_track_override, Colour(7, 8, 9));
}

#[test]
fn combo_key_is_matched_with_regard_to_case() {
    // a key that does not start with Combo, written so, is not a combo colour
    let map = parse_beatmap("osu file format v14\n[Colours]\ncombo1 : 1,2,3\n").unwrap();
    assert_eq!(map.colours.colours.len(), 0);
    match parse_beatmap("osu file format v14\n[Colours]\nCombo1 : 1,x,3\n") {
        Err(Error::Syntax(Some((2, _)), reason)) => assert_eq!(reason, "Unable to parse number"),
        other => panic!("unexpected: {:?}", other),
    }
    match parse_beatmap("osu file format v14\n[Colours]\nCombo1 : 1,2\n") {
        Err(Error::Parse) => {}
        other => panic!("unexpected: {:?}", other),
    }
}

#[test]
fn events_are_passed_over() {
    let text = "osu file format v14\n[Events]\n//Background and Video events\n0,0,\"bg.jpg\",0,0\nKey: value\n: : :\n]broken[\n[General]\nMode: 2\n";
    let map = parse_beatmap(text).unwrap();
    assert_eq!(map.general.game_mode, GameMode::CTB);
    let without = parse_beatmap("osu file format v14\n[Events]\n[General]\nMode: 2\n").unwrap();
    assert_eq!(map, without);
}

#[test]
fn timing_point_line_in_a_section() {
    let map =
        parse_beatmap("osu file format v14\n[TimingPoints]\n764,363.636363636364,4,2,1,50,1,0\n")
            .unwrap();
    assert_eq!(map.timing_points.len(), 1);
    let t = &map.timing_points[0];
    assert_eq!(t.offset.as_str().parse::<f32>().unwrap(), 764.0);
    assert!((t.ms_per_beat.as_str().parse::<f64>().unwrap() - 363.636).abs() < 0.001);
    assert_eq!(t.meter, 4);
    assert_eq!(t.sample_set, 2);
    assert_eq!(t.sample_index, 1);
    assert_eq!(t.volume, 50);
    assert!(t.inherited);
    assert!(!t.kiai_mode);
}

#[test]
fn timing_point_with_too_few_fields_is_a_syntax_error() {
    match parse_beatmap("osu file format v14\n[TimingPoints]\n1,2,3,4,5,6,7,8\n764,363.6\n") {
        Err(Error::Syntax(Some((n, line)), reason)) => {
            assert_eq!(n, 3);
            assert_eq!(line, "764,363.6");
            assert_eq!(reason, "Unable to parse line");
        }
        other => panic!("unexpected: {:?}", other),
    }
}

#[test]
fn timing_point_fields_may_have_blanks_and_more_may_follow() {
    let map = parse_beatmap("osu file format v14\n[TimingPoints]\n 1 , 2.5 ,3,4,5,6, 0 ,1,9,9\n")
        .unwrap();
    let t = &map.timing_points[0];
    assert_eq!(t.offset.as_str(), "1");
    assert_eq!(t.ms_per_beat.as_str(), "2.5");
    assert!(!t.inherited);
    assert!(t.kiai_mode);
}

#[test]
fn hit_object_with_too_few_fields_is_incomplete() {
    match parse_beatmap("osu file format v14\n[HitObjects]\n1,2,3\n") {
        Err(Error::Parse) => {}
        other => panic!("unexpected: {:?}", other),
    }
    match parse_beatmap("osu file format v14\n[HitObjects]\n1,2,3,3,0\n") {
        Err(Error::Syntax(Some((2, _)), reason)) => assert_eq!(reason, "Invalid hit object type"),
        other => panic!("unexpected: {:?}", other),
    }
}

#[test]
fn carriage_returns_before_line_feeds_are_no_part_of_the_lines() {
    let map = parse_beatmap(
        "osu file format v14\r\n\r\n[General]\r\nMode: 1\r\n[HitObjects]\r\n1,2,3,1,0\r\n",
    )
    .unwrap();
    assert_eq!(map.general.game_mode, GameMode::Taiko);
    assert_eq!(map.hit_objects.len(), 1);
}

#[test]
fn written_map_is_read_back() {
    let map = parse_beatmap(sample()).unwrap();
    let text = map.as_parsed();
    assert!(text.starts_with("osu file format v14\n\n[General]\nAudioFilename: Bake"));
    assert!(text.ends_with(",0:0:0:0:\n"));
    let again = parse_beatmap(&text).unwrap();
    assert_eq!(again, map);
}

#[test]
fn written_default_map_is_read_back() {
    let map = parse_beatmap("osu file format v9").unwrap();
    let text = map.as_parsed();
    let expected = "osu file format v9\n\n[General]\nAudioFilename: \nAudioLeadIn: 0\nPreviewtime: 0\nCountdown: 0\nSampleSet: \nStackLeniency: 0\nMode: 0\nLetterboxInBreaks: 0\nWidescreenStoryboard: 0\nStoryFireInFront: 0\nSpecialStyle: 0\nEpilepsyWarning: 0\nUseSkinSprites: 0\nCountdownOffset: 0\nSkinPreference: \n\n[Editor]\n\nDistanceSpacing: 1.22\nBeatDivisor: 4\nGridSize: 4\nTimelineZoom: 1\n\n[Metadata]\nTitle: \nTitleUnicode: \nArtist: \nArtistUnicode: \nCreator: \nVersion: \nSource: \n\nBeatmapID: 0\nBeatmapSetID: 0\n\n[Difficulty]\nHPDrainRate: 5\nCircleSize: 5\nOverallDifficulty: 5\nApproachRate: 5\nSliderMultiplier: 1.4\nSliderTickRate: 1\n\n[TimingPoints]\n\n\n[Colours]\nSliderBody : 0,0,0\nSliderTrackOverride : 0,0,0\nSliderBorder : 0,0,0\n\n[HitObjects]\n\n";
    assert_eq!(text, expected);
    assert_eq!(parse_beatmap(&text).unwrap(), map);
}

#[test]
fn parsing_twice_gives_the_same() {
    let a = parse_beatmap(sample()).unwrap();
    let b = parse_beatmap(sample()).unwrap();
    assert_eq!(a, b);
    let e = parse_beatmap("osu file format v14\n[Bogus]\n").unwrap_err();
    let f = parse_beatmap("osu file format v14\n[Bogus]\n").unwrap_err();
    assert_eq!(e.message(), f.message());
}

#[test]
fn errors_of_reading_name_their_line_or_say_that_a_field_is_missing() {
    let texts = [
        "",
        "x",
        "osu file format v1\nx",
        "osu file format v1\n[X]",
        "osu file format v1\n[General]\nMode: x",
        "osu file format v1\n[Editor]\nBookmarks: x",
        "osu file format v1\n[Difficulty]\nCircleSize: x",
        "osu file format v1\n[TimingPoints]\n1",
        "osu file format v1\n[TimingPoints]\n1,2,3,4,5,6,7,x",
        "osu file format v1\n[HitObjects]\n1",
        "osu file format v1\n[HitObjects]\nx,1,1,1,1",
        "osu file format v1\n[HitObjects]\n1,1,1,7,1",
        "osu file format v1\n[HitObjects]\n1,1,1,128,1",
        "osu file format v1\n[HitObjects]\n1,1,1,2,1,X",
        "osu file format v1\n[Colours]\nCombo1: 1",
        "osu file format v1\n[Colours]\nCombo99999999999: 1,2,3",
        "osu file format v1\n[Colours]\nSliderBody: 1,x,3",
    ];
    for text in texts {
        match parse_beatmap(text) {
            Err(Error::Syntax(_, _)) | Err(Error::Parse) => {}
            other => panic!("unexpected on {:?}: {:?}", text, other),
        }
    }
}

#[test]
fn events_section_that_is_put_in_changes_nothing() {
    let head = "osu file format v14\n\n";
    let rest = &sample()[head.len()..];
    assert_eq!(format!("{}{}", head, rest), sample());
    let plain = parse_beatmap(sample()).unwrap();
    let bodies = [
        "",
        "//Background and Video events\n0,0,\"bg.jpg\",0,0\n",
        "Mode: 3\nAudioLeadIn: x\n\n1,2,3\n]x[\n: :\n[a]b]\n[[General]]\n",
        "Sprite,Foreground,Centre,\"a.png\",320,240\n F,0,0,100,1\n",
    ];
    for body in bodies {
        let text = format!("{}[Events]\n{}{}", head, body, rest);
        assert_eq!(parse_beatmap(&text).unwrap(), plain, "on {:?}", body);
    }
}
