use osuparse::{
    get_type, match_header_line, parse_bool, parse_colour, parse_coord, parse_curve_points,
    parse_decimal, parse_extras, parse_hit_object, parse_kv_pair, parse_mode, parse_num,
    parse_slider_type, parse_string, skip_section, Colour, Decimal, Error, GameMode, HitCircle,
    HitObject, HitObjectExtras, HoldNote, Parsable, ParseState, Slider, SliderType, Spinner,
};

fn message(r: Result<impl std::fmt::Debug, Error>) -> &'static str {
    match r {
        Err(Error::Message(m)) => m,
        other => panic!("unexpected: {:?}", other),
    }
}

fn no_extras() -> HitObjectExtras {
    HitObjectExtras {
        sample_set: 0,
        addition_set: 0,
        custom_index: 0,
        sample_volume: 0,
        filename: String::new(),
    }
}

#[test]
fn numbers() {
    assert_eq!(parse_num("0").unwrap(), 0);
    assert_eq!(parse_num("-0").unwrap(), 0);
    assert_eq!(parse_num("+17").unwrap(), 17);
    assert_eq!(parse_num("-17").unwrap(), -17);
    assert_eq!(parse_num("0000000000000000000042").unwrap(), 42);
    assert_eq!(parse_num("2147483647").unwrap(), 2147483647);
    assert_eq!(parse_num("-2147483648").unwrap(), -2147483648);
    assert_eq!(message(parse_num("2147483648")), "Unable to parse number");
    assert_eq!(message(parse_num("-2147483649")), "Unable to parse number");
    assert_eq!(message(parse_num("99999999999999999999999999")), "Unable to parse number");
    assert_eq!(message(parse_num("")), "Unable to parse number");
    assert_eq!(message(parse_num("-")), "Unable to parse number");
    assert_eq!(message(parse_num("+")), "Unable to parse number");
    assert_eq!(message(parse_num(" 1")), "Unable to parse number");
    assert_eq!(message(parse_num("1 ")), "Unable to parse number");
    assert_eq!(message(parse_num("1.0")), "Unable to parse number");
    assert_eq!(message(parse_num("--1")), "Unable to parse number");
    assert_eq!(message(parse_num("１")), "Unable to parse number");
}

#[test]
fn numbers_agree_with_the_standard_reading() {
    let samples = [
        "", "0", "7", "-7", "+7", "007", "-", "+", "+-1", "1e3", "12a", "a12", "2147483647",
        "2147483648", "-2147483648", "-2147483649", " 5", "5 ", "٣", "1_000", "0x10",
    ];
    for s in samples {
        assert_eq!(parse_num(s).ok(), s.parse::<i32>().ok(), "on {:?}", s);
    }
}

#[test]
fn decimals_agree_with_the_standard_reading() {
    let samples = [
        "", "0", "1", "-1", "+1", "1.", ".5", ".", "-.", "1.5", "1.5e3", "1.5E-3", "1e", "1e+",
        "e5", "1.e5", ".e5", "inf", "-inf", "+Infinity", "INFINITY", "nan", "NaN", "-nan", "infin",
        "nanx", "1.2.3", "1,5", " 1", "1 ", "0x1p3", "1f", "1_0", "363.636363636364", "--1",
        "1e5.5", "１", "i", "infinit", "e", "+", "-",
    ];
    for s in samples {
        assert_eq!(Decimal::parse(s).is_some(), s.parse::<f64>().is_ok(), "on {:?}", s);
        assert_eq!(parse_decimal(s).is_ok(), s.parse::<f32>().is_ok(), "on {:?}", s);
    }
    assert_eq!(Decimal::parse("1.5e3").unwrap().as_str(), "1.5e3");
    assert_eq!(message(parse_decimal("abc")), "Unable to parse number");
}

#[test]
fn strings_bools_and_modes() {
    assert_eq!(parse_string("a b ").unwrap(), "a b ");
    assert_eq!(parse_bool("0").unwrap(), false);
    assert_eq!(parse_bool("1").unwrap(), true);
    assert_eq!(parse_bool("-5").unwrap(), true);
    assert_eq!(message(parse_bool("true")), "Could not parse bool");
    assert_eq!(parse_mode("0").unwrap(), GameMode::Osu);
    assert_eq!(parse_mode("1").unwrap(), GameMode::Taiko);
    assert_eq!(parse_mode("2").unwrap(), GameMode::CTB);
    assert_eq!(parse_mode("3").unwrap(), GameMode::Mania);
    assert_eq!(message(parse_mode("4")), "Unable to parse gamemode");
    assert_eq!(message(parse_mode("01")), "Unable to parse gamemode");
    assert_eq!(message(parse_mode("")), "Unable to parse gamemode");
}

#[test]
fn slider_types() {
    assert_eq!(parse_slider_type("L").unwrap(), SliderType::Linear);
    assert_eq!(parse_slider_type("B").unwrap(), SliderType::Bezier);
    assert_eq!(parse_slider_type("P").unwrap(), SliderType::Perfect);
    assert_eq!(parse_slider_type("C").unwrap(), SliderType::Catmull);
    assert_eq!(message(parse_slider_type("l")), "Invalid slider type");
    assert_eq!(message(parse_slider_type("LL")), "Invalid slider type");
}

#[test]
fn colours() {
    assert_eq!(parse_colour("1,2,3").unwrap(), Colour(1, 2, 3));
    assert_eq!(parse_colour("255,0,-1,9,x").unwrap(), Colour(255, 0, -1));
    assert!(matches!(parse_colour("1,2"), Err(Error::Parse)));
    assert_eq!(message(parse_colour("1, 2,3")), "Unable to parse number");
    assert_eq!(message(parse_colour("")), "Unable to parse number");
    assert!(Colour(1, 2, 3) < Colour(1, 3, 0));
}

#[test]
fn coords() {
    assert_eq!(parse_coord("38:127").unwrap(), (38, 127));
    assert_eq!(parse_coord("-3:4:5").unwrap(), (-3, 4));
    assert!(matches!(parse_coord("38"), Err(Error::Parse)));
    assert_eq!(message(parse_coord("a:1")), "Unable to parse number");
    assert_eq!(message(parse_coord("1:")), "Unable to parse number");
}

#[test]
fn curves() {
    assert_eq!(
        parse_curve_points("B|1:2|3:4").unwrap(),
        (SliderType::Bezier, vec![(1, 2), (3, 4)])
    );
    assert_eq!(parse_curve_points("L").unwrap(), (SliderType::Linear, vec![]));
    assert_eq!(message(parse_curve_points("X|1:2")), "Invalid slider type");
    assert_eq!(message(parse_curve_points("L|")), "Unable to parse number");
    assert!(matches!(parse_curve_points("L|1:2|3"), Err(Error::Parse)));
    assert_eq!(message(parse_curve_points("L|x:2|3")), "Unable to parse number");
}

#[test]
fn extras() {
    let e = parse_extras("1:2:3:40:hit.wav").unwrap();
    assert_eq!(
        e,
        HitObjectExtras {
            sample_set: 1,
            addition_set: 2,
            custom_index: 3,
            sample_volume: 40,
            filename: "hit.wav".to_string(),
        }
    );
    assert_eq!(parse_extras("0:0:0:0:").unwrap(), no_extras());
    assert_eq!(parse_extras(" 0 : 0:0 :0: a b :rest").unwrap().filename, "a b");
    assert_eq!(message(parse_extras("0:0:0:0")), "Unable to parse line");
    assert_eq!(message(parse_extras("0:0:x:0:")), "Unable to parse number");
    assert_eq!(message(parse_extras("")), "Unable to parse number");
}

#[test]
fn type_byte_1_is_a_hit_circle() {
    match parse_hit_object("10,20,30,1,4").unwrap() {
        HitObject::HitCircle(c) => {
            assert_eq!(
                c,
                HitCircle {
                    x: 10,
                    y: 20,
                    new_combo: false,
                    color_skip: 0,
                    time: 30,
                    hitsound: 4,
                    extras: no_extras(),
                }
            );
        }
        other => panic!("unexpected: {:?}", other),
    }
}

#[test]
fn type_byte_5_is_a_hit_circle_that_starts_a_combo() {
    match parse_hit_object("10,20,30,5,0,1:0:0:0:").unwrap() {
        HitObject::HitCircle(c) => {
            assert!(c.new_combo);
            assert_eq!(c.color_skip, 0);
            assert_eq!(c.extras.sample_set, 1);
        }
        other => panic!("unexpected: {:?}", other),
    }
}

#[test]
fn malformed_extras_of_a_hit_circle_are_the_default_ones() {
    match parse_hit_object("10,20,30,1,0,1:2").unwrap() {
        HitObject::HitCircle(c) => assert_eq!(c.extras, no_extras()),
        other => panic!("unexpected: {:?}", other),
    }
}

#[test]
fn type_byte_2_is_a_slider() {
    assert!(matches!(
        parse_hit_object("1,2,3,2,0,L|1:1,1,10").unwrap(),
        HitObject::Slider(_)
    ));
}

#[test]
fn type_byte_8_is_a_spinner() {
    match parse_hit_object("256,192,1000,12,2,5000,0:0:0:0:").unwrap() {
        HitObject::Spinner(s) => {
            assert_eq!(
                s,
                Spinner {
                    x: 256,
                    y: 192,
                    new_combo: true,
                    color_skip: 0,
                    time: 1000,
                    hitsound: 2,
                    end_time: 5000,
                    extras: no_extras(),
                }
            );
        }
        other => panic!("unexpected: {:?}", other),
    }
    assert!(matches!(parse_hit_object("256,192,1000,8,2"), Err(Error::Parse)));
}

#[test]
fn type_byte_128_is_a_hold_note() {
    match parse_hit_object("64,192,500,128,0,900:1:2:3:4:f.wav").unwrap() {
        HitObject::HoldNote(n) => {
            assert_eq!(
                n,
                HoldNote {
                    x: 64,
                    y: 192,
                    new_combo: false,
                    color_skip: 0,
                    time: 500,
                    hitsound: 0,
                    end_time: 900,
                    extras: HitObjectExtras {
                        sample_set: 1,
                        addition_set: 2,
                        custom_index: 3,
                        sample_volume: 4,
                        filename: "f.wav".to_string(),
                    },
                }
            );
        }
        other => panic!("unexpected: {:?}", other),
    }
    assert_eq!(message(parse_hit_object("64,192,500,128,0")), "Could not read object extras");
    assert_eq!(message(parse_hit_object("64,192,500,128,0,900")), "Could not read object extras");
    assert_eq!(message(parse_hit_object("64,192,500,128,0,x:0:0:0:0:")), "Unable to parse number");
    assert_eq!(message(parse_hit_object("64,192,500,128,0,900:0:0")), "Unable to parse line");
}

#[test]
fn colour_skip_is_read_from_bits_4_to_6() {
    for skip in 0..8 {
        match parse_hit_object(&format!("1,2,3,{},0", 1 + 16 * skip)).unwrap() {
            HitObject::HitCircle(c) => assert_eq!(c.color_skip, skip),
            other => panic!("unexpected: {:?}", other),
        }
    }
}

#[test]
fn two_kinds_at_once_are_refused() {
    for t in [0, 3, 4, 9, 10, 16, 129, 130, 136, 139] {
        assert_eq!(
            message(parse_hit_object(&format!("1,2,3,{},0,5", t))),
            "Invalid hit object type"
        );
    }
}

#[test]
fn slider_line() {
    let line = "47,196,764,6,0,L|38:127,2,63.75,2|0|0,0:0|0:0|0:0,0:0:0:0:";
    match parse_hit_object(line).unwrap() {
        HitObject::Slider(s) => {
            assert_eq!(
                s,
                Slider {
                    x: 47,
                    y: 196,
                    new_combo: true,
                    color_skip: 0,
                    time: 764,
                    slider_type: SliderType::Linear,
                    curve_points: vec![(38, 127)],
                    repeat: 2,
                    pixel_length: Decimal::parse("63.75").unwrap(),
                    edge_hitsounds: vec![2, 0, 0],
                    edge_additions: vec![(0, 0), (0, 0), (0, 0)],
                    hitsound: 0,
                    extras: no_extras(),
                }
            );
            assert_eq!(s.pixel_length.as_str().parse::<f32>().unwrap(), 63.75);
            assert_eq!(s.as_parsed(), line);
        }
        other => panic!("unexpected: {:?}", other),
    }
}

#[test]
fn malformed_edges_of_a_slider_are_left_out() {
    match parse_hit_object("1,2,3,2,0,P|1:1|2:2,1,10.5,1|x,0:0|1,0:0:0:0:").unwrap() {
        HitObject::Slider(s) => {
            assert_eq!(s.slider_type, SliderType::Perfect);
            assert_eq!(s.curve_points, vec![(1, 1), (2, 2)]);
            assert_eq!(s.edge_hitsounds, Vec::<i32>::new());
            assert_eq!(s.edge_additions, Vec::<(i32, i32)>::new());
            assert_eq!(s.extras, no_extras());
        }
        other => panic!("unexpected: {:?}", other),
    }
    assert!(matches!(parse_hit_object("1,2,3,2,0"), Err(Error::Parse)));
    assert!(matches!(parse_hit_object("1,2,3,2,0,L|1:1"), Err(Error::Parse)));
    assert!(matches!(parse_hit_object("1,2,3,2,0,L|1:1,4"), Err(Error::Parse)));
    assert_eq!(message(parse_hit_object("1,2,3,2,0,L|1:1,4,x")), "Unable to parse number");
}

#[test]
fn fields_of_a_hit_object_take_no_blanks() {
    assert_eq!(message(parse_hit_object("47, 196,764,1,0")), "Unable to parse number");
}

#[test]
fn type_bytes() {
    assert_eq!(get_type(1, false, 0), 1);
    assert_eq!(get_type(1, true, 0), 5);
    assert_eq!(get_type(2, true, 0), 6);
    assert_eq!(get_type(2, true, 3), 54);
    assert_eq!(get_type(8, false, 7), 120);
    assert_eq!(get_type(128, true, 7), 244);
}

#[test]
fn written_hit_objects() {
    let circle = HitCircle {
        x: 1,
        y: -2,
        new_combo: true,
        color_skip: 2,
        time: 300,
        hitsound: 8,
        extras: HitObjectExtras {
            sample_set: 1,
            addition_set: 2,
            custom_index: 3,
            sample_volume: 70,
            filename: "a.wav".to_string(),
        },
    };
    assert_eq!(circle.as_parsed(), "1,-2,300,37,8,1:2:3:70:a.wav");
    let spinner = Spinner {
        x: 256,
        y: 192,
        new_combo: false,
        color_skip: 0,
        time: 10,
        hitsound: 0,
        end_time: 20,
        extras: no_extras(),
    };
    assert_eq!(spinner.as_parsed(), "256,192,10,8,0,20,0:0:0:0:");
    let note = HoldNote {
        x: 64,
        y: 192,
        new_combo: false,
        color_skip: 0,
        time: 10,
        hitsound: 0,
        end_time: 20,
        extras: no_extras(),
    };
    assert_eq!(note.as_parsed(), "64,192,10,128,0,20:0:0:0:0:");
    let slider = Slider {
        x: 0,
        y: 0,
        new_combo: false,
        color_skip: 0,
        time: 0,
        slider_type: SliderType::Catmull,
        curve_points: vec![],
        repeat: 1,
        pixel_length: Decimal::parse("1e2").unwrap(),
        edge_hitsounds: vec![],
        edge_additions: vec![],
        hitsound: 0,
        extras: no_extras(),
    };
    assert_eq!(slider.as_parsed(), "0,0,0,2,0,C,1,1e2,,,0:0:0:0:");
    for object in [
        HitObject::HitCircle(circle),
        HitObject::Spinner(spinner),
        HitObject::HoldNote(note),
        HitObject::Slider(slider),
    ] {
        assert_eq!(parse_hit_object(&object.as_parsed()).unwrap(), object);
    }
    assert_eq!(Colour(1, -2, 3).as_parsed(), "1,-2,3");
    assert_eq!(SliderType::Perfect.as_parsed(), "P");
    assert_eq!(i32::MIN.to_string(), Colour(i32::MIN, 0, 0).as_parsed()[..11].to_string());
}

#[test]
fn header_lines() {
    assert_eq!(match_header_line("[General]"), Some("General"));
    assert_eq!(match_header_line("[General]  \t"), Some("General"));
    assert_eq!(match_header_line("[]"), Some(""));
    assert_eq!(match_header_line("[a b]"), Some("a b"));
    assert_eq!(match_header_line("[a]b]"), None);
    assert_eq!(match_header_line("[[a]]"), None);
    assert_eq!(match_header_line("[a[b]"), None);
    assert_eq!(match_header_line("[]]"), None);
    assert_eq!(match_header_line("[日本]"), Some("日本"));
    assert_eq!(match_header_line("["), None);
    assert_eq!(match_header_line("]"), None);
    assert_eq!(match_header_line(" [General]"), None);
    assert_eq!(match_header_line("General"), None);
    assert_eq!(match_header_line(""), None);
}

#[test]
fn cursor_skips_blank_lines() {
    let mut state = ParseState::new("\n a \n\n\t\nb: c : d\n   \n");
    assert_eq!(state.get_current_line(), Some(" a "));
    assert_eq!(state.get_current_line(), Some(" a "));
    assert_eq!(parse_kv_pair(&state), None);
    assert_eq!(state.read_next_line(), Some("b: c : d"));
    assert_eq!(parse_kv_pair(&state), Some(("b", "c : d")));
    match state.syntax_error("why") {
        Error::Syntax(Some((n, line)), reason) => {
            assert_eq!(n, 4);
            assert_eq!(line, "b: c : d");
            assert_eq!(reason, "why");
        }
        other => panic!("unexpected: {:?}", other),
    }
    assert_eq!(state.read_next_line(), None);
    assert_eq!(state.get_current_line(), None);
    assert_eq!(state.read_next_line(), None);
    assert_eq!(parse_kv_pair(&state), None);
    assert!(matches!(state.syntax_error("why"), Error::Syntax(None, _)));
}

#[test]
fn cursor_wraps_messages_only() {
    let state = ParseState::new("first\nsecond");
    match state.wrap_syntax_error::<i32>(Err(Error::Message("bad"))) {
        Err(Error::Syntax(Some((0, line)), reason)) => {
            assert_eq!(line, "first");
            assert_eq!(reason, "bad");
        }
        other => panic!("unexpected: {:?}", other),
    }
    assert!(matches!(state.wrap_syntax_error::<i32>(Err(Error::Parse)), Err(Error::Parse)));
    assert!(matches!(state.wrap_syntax_error(Ok(5)), Ok(5)));
    match state.wrap_syntax_error::<i32>(Err(Error::Syntax(None, "r".to_string()))) {
        Err(Error::Syntax(None, reason)) => assert_eq!(reason, "r"),
        other => panic!("unexpected: {:?}", other),
    }
}

#[test]
fn lines_end_as_the_standard_library_has_it() {
    for text in ["", "\n", "a", "a\n", "a\r\n", "a\r", "a\n\nb", "a\r\n\r\nb\r", "\r\n", "\r", "a\rb\n"] {
        let mut state = ParseState::new(text);
        let mut seen = Vec::new();
        let mut line = state.get_current_line().map(|s| s.to_string());
        while let Some(l) = line {
            seen.push(l);
            line = state.read_next_line().map(|s| s.to_string());
        }
        let expected: Vec<String> = text
            .lines()
            .filter(|l| !l.trim().is_empty())
            .map(|l| l.to_string())
            .collect();
        assert_eq!(seen, expected, "on {:?}", text);
    }
}

#[test]
fn blanks_are_what_the_standard_library_trims() {
    for code in 0..0x11000u32 {
        if let Some(c) = char::from_u32(code) {
            let line = format!("[t]{}", c);
            let got = match_header_line(&line);
            if c.is_whitespace() {
                assert_eq!(got, Some("t"), "on U+{:04X}", code);
            } else if c == ']' {
                assert_eq!(got, None);
            } else {
                assert_eq!(got, None, "on U+{:04X}", code);
            }
        }
    }
}

#[test]
fn skipping_stops_at_the_next_header() {
    let mut state = ParseState::new("[Events]\na\nb: c\n\n[Next] \nd");
    skip_section(&mut state);
    assert_eq!(state.get_current_line(), Some("[Next] "));
    skip_section(&mut state);
    assert_eq!(state.get_current_line(), None);
}

#[test]
fn error_messages() {
    assert_eq!(Error::Parse.message(), "Parsing error");
    assert_eq!(Error::Message("Unable to parse number").message(), "Unable to parse number");
    assert_eq!(Error::Syntax(None, "why".to_string()).message(), "Syntax error: why");
    assert_eq!(
        Error::Syntax(Some((41, "the line".to_string())), "why".to_string()).message(),
        "Syntax error on line 42: why\n the line"
    );
    assert_eq!(
        Error::Syntax(Some((usize::MAX, String::new())), String::new()).message(),
        format!("Syntax error on line {}: \n ", usize::MAX as u128 + 1)
    );
}

#[test]
fn bits_of_the_type_byte() {
    assert_eq!(osuparse::NEW_COMBO, 4);
    assert_eq!(osuparse::COLOUR_SKIP << osuparse::COLOUR_SKIP_SHIFT, 0b0111_0000);
    assert_eq!(osuparse::KIND, 0b1000_1011);
    assert_eq!(
        osuparse::HIT_CIRCLE | osuparse::SLIDER | osuparse::SPINNER | osuparse::HOLD_NOTE,
        osuparse::KIND
    );
    assert_eq!(osuparse::variant_of(1), osuparse::HIT_CIRCLE);
    assert_eq!(osuparse::variant_of(5), osuparse::HIT_CIRCLE);
    assert_eq!(osuparse::variant_of(2), osuparse::SLIDER);
    assert_eq!(osuparse::variant_of(54), osuparse::SLIDER);
    assert_eq!(osuparse::variant_of(12), osuparse::SPINNER);
    assert_eq!(osuparse::variant_of(128), osuparse::HOLD_NOTE);
    assert_eq!(osuparse::variant_of(3), 3);
    assert_eq!(osuparse::variant_of(0x74), 0);
    assert!(!osuparse::new_combo_of(1));
    assert!(osuparse::new_combo_of(5));
    assert!(osuparse::new_combo_of(6));
    assert_eq!(osuparse::colour_skip_of(1), 0);
    assert_eq!(osuparse::colour_skip_of(54), 3);
    assert_eq!(osuparse::colour_skip_of(0x7f), 7);
    assert_eq!(osuparse::colour_skip_of(0xff), 7);
    assert_eq!(osuparse::colour_skip_of(-1), 7);
    for kind in -300..300 {
        assert_eq!(osuparse::variant_of(kind), kind & 139);
        assert_eq!(osuparse::new_combo_of(kind), kind & 4 != 0);
        assert_eq!(osuparse::colour_skip_of(kind), (kind >> 4) & 7);
    }
}
