use crate::error::{ErrorView, Outcome};
use crate::model::{
    Colour, GameMode, HitCircleView, HitObjectExtrasView, HitObjectView, HoldNoteView,
    SliderType, SliderView, SpinnerView, TimingPointView,
};
use crate::number::{i32_of_text, is_decimal_text};
use crate::text::{first_index, padded_split, split, trim};
use vstd::prelude::*;

verus! {

/// The error of a text that writes no number.
pub open spec fn bad_number() -> ErrorView {
    ErrorView::Message("Unable to parse number"@)
}

/// The error of a record that has too few fields.
pub open spec fn bad_line() -> ErrorView {
    ErrorView::Message("Unable to parse line"@)
}

/// A 32-bit integer in decimal notation.
pub open spec fn number_of(s: Seq<char>) -> Outcome<i32> {
    match i32_of_text(s) {
        Some(n) => Ok(n),
        None => Err(bad_number()),
    }
}

/// A real number, kept as the text that writes it.
pub open spec fn decimal_of(s: Seq<char>) -> Outcome<Seq<char>> {
    if is_decimal_text(s) {
        Ok(s)
    } else {
        Err(bad_number())
    }
}

/// A flag: an integer, true unless it is zero.
pub open spec fn bool_of(s: Seq<char>) -> Outcome<bool> {
    match i32_of_text(s) {
        Some(n) => Ok(n != 0),
        None => Err(ErrorView::Message("Could not parse bool"@)),
    }
}

/// A game mode, by its ordinal.
pub open spec fn mode_of(s: Seq<char>) -> Outcome<GameMode> {
    if s == seq!['0'] {
        Ok(GameMode::Osu)
    } else if s == seq!['1'] {
        Ok(GameMode::Taiko)
    } else if s == seq!['2'] {
        Ok(GameMode::CTB)
    } else if s == seq!['3'] {
        Ok(GameMode::Mania)
    } else {
        Err(ErrorView::Message("Unable to parse gamemode"@))
    }
}

/// The shape of a slider's curve, by its letter.
pub open spec fn slider_type_of(s: Seq<char>) -> Outcome<SliderType> {
    if s == seq!['L'] {
        Ok(SliderType::Linear)
    } else if s == seq!['B'] {
        Ok(SliderType::Bezier)
    } else if s == seq!['P'] {
        Ok(SliderType::Perfect)
    } else if s == seq!['C'] {
        Ok(SliderType::Catmull)
    } else {
        Err(ErrorView::Message("Invalid slider type"@))
    }
}

/// The number in field `k`, which is missing where the record has too few fields.
pub open spec fn number_at(fields: Seq<Seq<char>>, k: int) -> Outcome<i32> {
    if k < fields.len() {
        number_of(fields[k])
    } else {
        Err(ErrorView::Parse)
    }
}

/// The number in field `k` of a record whose fields may have blanks around them.
pub open spec fn padded_number_at(fields: Seq<Seq<char>>, k: int) -> Outcome<i32> {
    if k < fields.len() {
        number_of(trim(fields[k]))
    } else {
        Err(bad_line())
    }
}

/// The real number in field `k` of a record whose fields may have blanks around them.
pub open spec fn padded_decimal_at(fields: Seq<Seq<char>>, k: int) -> Outcome<Seq<char>> {
    if k < fields.len() {
        decimal_of(trim(fields[k]))
    } else {
        Err(bad_line())
    }
}

/// The flag in field `k` of a record whose fields may have blanks around them.
pub open spec fn padded_bool_at(fields: Seq<Seq<char>>, k: int) -> Outcome<bool> {
    if k < fields.len() {
        bool_of(trim(fields[k]))
    } else {
        Err(bad_line())
    }
}

/// A colour: three numbers with commas between them; what follows them is not read.
pub open spec fn colour_of(s: Seq<char>) -> Outcome<Colour> {
    let f = split(s, ',');
    match number_at(f, 0) {
        Err(e) => Err(e),
        Ok(r) => match number_at(f, 1) {
            Err(e) => Err(e),
            Ok(g) => match number_at(f, 2) {
                Err(e) => Err(e),
                Ok(b) => Ok(Colour(r, g, b)),
            },
        },
    }
}

/// A pair of numbers with a colon between them; what follows them is not read.
pub open spec fn coord_of(s: Seq<char>) -> Outcome<(i32, i32)> {
    let f = split(s, ':');
    match number_at(f, 0) {
        Err(e) => Err(e),
        Ok(x) => match number_at(f, 1) {
            Err(e) => Err(e),
            Ok(y) => Ok((x, y)),
        },
    }
}

/// The pairs that the fields write, or what is wrong with the first field that writes none.
pub open spec fn coords_of(fields: Seq<Seq<char>>) -> Outcome<Seq<(i32, i32)>>
    decreases fields.len(),
{
    if fields.len() == 0 {
        Ok(Seq::empty())
    } else {
        match coords_of(fields.drop_last()) {
            Err(e) => Err(e),
            Ok(before) => match coord_of(fields.last()) {
                Err(e) => Err(e),
                Ok(p) => Ok(before.push(p)),
            },
        }
    }
}

/// The numbers that the fields write, where each of them writes one.
pub open spec fn numbers_of(fields: Seq<Seq<char>>) -> Option<Seq<i32>>
    decreases fields.len(),
{
    if fields.len() == 0 {
        Some(Seq::empty())
    } else {
        match numbers_of(fields.drop_last()) {
            None => None,
            Some(before) => match i32_of_text(fields.last()) {
                None => None,
                Some(n) => Some(before.push(n)),
            },
        }
    }
}

/// A list of numbers with commas between them, blanks around each set aside.
pub open spec fn number_list_of(s: Seq<char>) -> Outcome<Seq<i32>> {
    match numbers_of(padded_split(s, ',')) {
        Some(ns) => Ok(ns),
        None => Err(bad_number()),
    }
}

/// A slider's curve: the letter of its shape, then its control points, with bars between.
pub open spec fn curve_of(s: Seq<char>) -> Outcome<(SliderType, Seq<(i32, i32)>)> {
    let f = split(s, '|');
    match slider_type_of(f[0]) {
        Err(e) => Err(e),
        Ok(shape) => match coords_of(f.skip(1)) {
            Err(e) => Err(e),
            Ok(points) => Ok((shape, points)),
        },
    }
}

/// The sample overrides of a hit object that names none.
pub open spec fn default_extras() -> HitObjectExtrasView {
    HitObjectExtrasView {
        sample_set: 0,
        addition_set: 0,
        custom_index: 0,
        sample_volume: 0,
        filename: Seq::empty(),
    }
}

/// The sample overrides of a hit object: four numbers and a file name with colons
/// between them, blanks around each set aside; what follows them is not read.
pub open spec fn extras_of(s: Seq<char>) -> Outcome<HitObjectExtrasView> {
    let f = split(s, ':');
    match padded_number_at(f, 0) {
        Err(e) => Err(e),
        Ok(sample_set) => match padded_number_at(f, 1) {
            Err(e) => Err(e),
            Ok(addition_set) => match padded_number_at(f, 2) {
                Err(e) => Err(e),
                Ok(custom_index) => match padded_number_at(f, 3) {
                    Err(e) => Err(e),
                    Ok(sample_volume) => if f.len() > 4 {
                        Ok(
                            HitObjectExtrasView {
                                sample_set,
                                addition_set,
                                custom_index,
                                sample_volume,
                                filename: trim(f[4]),
                            },
                        )
                    } else {
                        Err(bad_line())
                    },
                },
            },
        },
    }
}

/// The overrides in field `k`; the default ones where the field is missing or malformed.
pub open spec fn extras_at(fields: Seq<Seq<char>>, k: int) -> HitObjectExtrasView {
    if k < fields.len() && extras_of(fields[k]) is Ok {
        extras_of(fields[k])->Ok_0
    } else {
        default_extras()
    }
}

/// The numbers in field `k` with bars between them; none where the field is missing or
/// any of them is malformed.
pub open spec fn numbers_at(fields: Seq<Seq<char>>, k: int) -> Seq<i32> {
    if k < fields.len() && numbers_of(split(fields[k], '|')) is Some {
        numbers_of(split(fields[k], '|'))->Some_0
    } else {
        Seq::empty()
    }
}

/// The pairs in field `k` with bars between them; none where the field is missing or any
/// of them is malformed.
pub open spec fn coords_at(fields: Seq<Seq<char>>, k: int) -> Seq<(i32, i32)> {
    if k < fields.len() && coords_of(split(fields[k], '|')) is Ok {
        coords_of(split(fields[k], '|'))->Ok_0
    } else {
        Seq::empty()
    }
}

/// A timing point: eight fields with commas between them, blanks around each set aside;
/// what follows them is not read.
pub open spec fn timing_point_of(s: Seq<char>) -> Outcome<TimingPointView> {
    let f = split(s, ',');
    match padded_decimal_at(f, 0) {
        Err(e) => Err(e),
        Ok(offset) => match padded_decimal_at(f, 1) {
            Err(e) => Err(e),
            Ok(ms_per_beat) => match padded_number_at(f, 2) {
                Err(e) => Err(e),
                Ok(meter) => match padded_number_at(f, 3) {
                    Err(e) => Err(e),
                    Ok(sample_set) => match padded_number_at(f, 4) {
                        Err(e) => Err(e),
                        Ok(sample_index) => match padded_number_at(f, 5) {
                            Err(e) => Err(e),
                            Ok(volume) => match padded_bool_at(f, 6) {
                                Err(e) => Err(e),
                                Ok(inherited) => match padded_bool_at(f, 7) {
                                    Err(e) => Err(e),
                                    Ok(kiai_mode) => Ok(
                                        TimingPointView {
                                            offset,
                                            ms_per_beat,
                                            meter,
                                            sample_set,
                                            sample_index,
                                            volume,
                                            inherited,
                                            kiai_mode,
                                        },
                                    ),
                                },
                            },
                        },
                    },
                },
            },
        },
    }
}

/// Bit 2 of a hit object's type, which says that the object starts a new combo.
pub const NEW_COMBO: i32 = 0b0000_0100;

/// Where the number of combo colours to skip starts in a hit object's type.
pub const COLOUR_SKIP_SHIFT: i32 = 4;

/// The three bits of the number of combo colours to skip, once they are shifted down.
pub const COLOUR_SKIP: i32 = 0b0000_0111;

/// Bits 0, 1, 3 and 7 of a hit object's type, which say which of the four kinds it is.
pub const KIND: i32 = 0b1000_1011;

/// The bit of a hit circle.
pub const HIT_CIRCLE: i32 = 0b0000_0001;

/// The bit of a slider.
pub const SLIDER: i32 = 0b0000_0010;

/// The bit of a spinner.
pub const SPINNER: i32 = 0b0000_1000;

/// The bit of a hold note.
pub const HOLD_NOTE: i32 = 0b1000_0000;

/// Bit 2 of a hit object's type: the object starts a new combo.
pub open spec fn new_combo_bit(kind: i32) -> bool {
    kind & NEW_COMBO != 0
}

/// Bits 4 to 6 of a hit object's type: how many combo colours to skip.
pub open spec fn colour_skip_bits(kind: i32) -> i32 {
    (kind >> COLOUR_SKIP_SHIFT) & COLOUR_SKIP
}

/// Bits 0, 1, 3 and 7 of a hit object's type: which of the four kinds it is.
pub open spec fn variant_bits(kind: i32) -> i32 {
    kind & KIND
}

/// What the four kinds of hit object share: the first five fields of the record.
pub struct HitCommon {
    pub x: i32,
    pub y: i32,
    pub time: i32,
    pub kind: i32,
    pub hitsound: i32,
}

/// The five fields that the four kinds of hit object share, read from the fields of a
/// record.
pub open spec fn common_of(f: Seq<Seq<char>>) -> Outcome<HitCommon> {
    match number_at(f, 0) {
        Err(e) => Err(e),
        Ok(x) => match number_at(f, 1) {
            Err(e) => Err(e),
            Ok(y) => match number_at(f, 2) {
                Err(e) => Err(e),
                Ok(time) => match number_at(f, 3) {
                    Err(e) => Err(e),
                    Ok(kind) => match number_at(f, 4) {
                        Err(e) => Err(e),
                        Ok(hitsound) => Ok(HitCommon { x, y, time, kind, hitsound }),
                    },
                },
            },
        },
    }
}

/// A hit circle: after the shared fields come its sample overrides, which may be missing.
pub open spec fn circle_of(c: HitCommon, f: Seq<Seq<char>>) -> HitCircleView {
    HitCircleView {
        x: c.x,
        y: c.y,
        new_combo: new_combo_bit(c.kind),
        color_skip: colour_skip_bits(c.kind),
        time: c.time,
        hitsound: c.hitsound,
        extras: extras_at(f, 5),
    }
}

/// A slider: after the shared fields come its curve, how often it repeats and its length,
/// then the hit sounds and the sample sets of its edges and its sample overrides, each of
/// which may be missing.
pub open spec fn slider_of(c: HitCommon, f: Seq<Seq<char>>) -> Outcome<SliderView> {
    if f.len() <= 5 {
        Err(ErrorView::Parse)
    } else {
        match curve_of(f[5]) {
            Err(e) => Err(e),
            Ok(curve) => match number_at(f, 6) {
                Err(e) => Err(e),
                Ok(repeat) => if f.len() <= 7 {
                    Err(ErrorView::Parse)
                } else {
                    match decimal_of(f[7]) {
                        Err(e) => Err(e),
                        Ok(pixel_length) => Ok(
                            SliderView {
                                x: c.x,
                                y: c.y,
                                new_combo: new_combo_bit(c.kind),
                                color_skip: colour_skip_bits(c.kind),
                                time: c.time,
                                slider_type: curve.0,
                                curve_points: curve.1,
                                repeat,
                                pixel_length,
                                edge_hitsounds: numbers_at(f, 8),
                                edge_additions: coords_at(f, 9),
                                hitsound: c.hitsound,
                                extras: extras_at(f, 10),
                            },
                        ),
                    }
                },
            },
        }
    }
}

/// A spinner: after the shared fields come the time at which it ends and its sample
/// overrides, which may be missing.
pub open spec fn spinner_of(c: HitCommon, f: Seq<Seq<char>>) -> Outcome<SpinnerView> {
    match number_at(f, 5) {
        Err(e) => Err(e),
        Ok(end_time) => Ok(
            SpinnerView {
                x: c.x,
                y: c.y,
                new_combo: new_combo_bit(c.kind),
                color_skip: colour_skip_bits(c.kind),
                time: c.time,
                hitsound: c.hitsound,
                end_time,
                extras: extras_at(f, 6),
            },
        ),
    }
}

/// A hold note's sixth field holds its end time, a colon, and its sample overrides.
pub open spec fn hold_note_of(c: HitCommon, f: Seq<Seq<char>>) -> Outcome<HoldNoteView> {
    if f.len() <= 5 || first_index(f[5], ':') >= f[5].len() {
        Err(ErrorView::Message("Could not read object extras"@))
    } else {
        let at = first_index(f[5], ':');
        match number_of(f[5].take(at)) {
            Err(e) => Err(e),
            Ok(end_time) => match extras_of(f[5].skip(at + 1)) {
                Err(e) => Err(e),
                Ok(extras) => Ok(
                    HoldNoteView {
                        x: c.x,
                        y: c.y,
                        new_combo: new_combo_bit(c.kind),
                        color_skip: colour_skip_bits(c.kind),
                        time: c.time,
                        hitsound: c.hitsound,
                        end_time,
                        extras,
                    },
                ),
            },
        }
    }
}

/// A hit object: fields with commas between them, the first five shared by the four
/// kinds, the rest as the kind has them.
pub open spec fn hit_object_of(s: Seq<char>) -> Outcome<HitObjectView> {
    let f = split(s, ',');
    match common_of(f) {
        Err(e) => Err(e),
        Ok(c) => if variant_bits(c.kind) == HIT_CIRCLE {
            Ok(HitObjectView::HitCircle(circle_of(c, f)))
        } else if variant_bits(c.kind) == SLIDER {
            match slider_of(c, f) {
                Err(e) => Err(e),
                Ok(s) => Ok(HitObjectView::Slider(s)),
            }
        } else if variant_bits(c.kind) == SPINNER {
            match spinner_of(c, f) {
                Err(e) => Err(e),
                Ok(s) => Ok(HitObjectView::Spinner(s)),
            }
        } else if variant_bits(c.kind) == HOLD_NOTE {
            match hold_note_of(c, f) {
                Err(e) => Err(e),
                Ok(n) => Ok(HitObjectView::HoldNote(n)),
            }
        } else {
            Err(ErrorView::Message("Invalid hit object type"@))
        },
    }
}

} // verus!
