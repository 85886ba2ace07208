use crate::error::{Error, Result, agrees};
use crate::grammar::{
    COLOUR_SKIP, COLOUR_SKIP_SHIFT, HIT_CIRCLE, HOLD_NOTE, HitCommon, KIND, NEW_COMBO, SLIDER,
    SPINNER, bool_of, circle_of, colour_of, colour_skip_bits, common_of, coord_of, coords_at,
    coords_of, curve_of, decimal_of, default_extras, extras_at, extras_of, hit_object_of,
    hold_note_of, mode_of, new_combo_bit, number_at, number_of, numbers_at, numbers_of,
    padded_bool_at, padded_decimal_at, padded_number_at, slider_of, slider_type_of, spinner_of,
    timing_point_of, variant_bits,
};
use crate::model::{
    Colour, Decimal, GameMode, HitCircle, HitObject, HitObjectExtras, HoldNote, HoldNoteView,
    Slider, SliderType, Spinner, TimingPoint,
};
use crate::number::scan_i32;
use crate::text::{bounds_within, cut, find_char, from_chars, split_range, to_chars, trim_range};
use vstd::prelude::*;
use vstd::string::StringExecFns;

verus! {

/// Reads a number from the characters at `lo..hi`.
pub fn number_in(v: &Vec<char>, lo: usize, hi: usize) -> (r: Result<i32>)
    requires
        lo <= hi <= v.len(),
    ensures
        agrees(r, number_of(v@.subrange(lo as int, hi as int))),
{
    match scan_i32(v, lo, hi) {
        Some(n) => Ok(n),
        None => Err(Error::Message("Unable to parse number")),
    }
}

/// Reads a flag from the characters at `lo..hi`.
pub fn bool_in(v: &Vec<char>, lo: usize, hi: usize) -> (r: Result<bool>)
    requires
        lo <= hi <= v.len(),
    ensures
        agrees(r, bool_of(v@.subrange(lo as int, hi as int))),
{
    match scan_i32(v, lo, hi) {
        Some(n) => Ok(n != 0),
        None => Err(Error::Message("Could not parse bool")),
    }
}

/// Reads a real number from the characters at `lo..hi`.
pub fn decimal_in(v: &Vec<char>, lo: usize, hi: usize) -> (r: Result<Decimal>)
    requires
        lo <= hi <= v.len(),
    ensures
        agrees(r, decimal_of(v@.subrange(lo as int, hi as int))),
{
    let s = from_chars(v, lo, hi);
    match Decimal::parse(s.as_str()) {
        Some(d) => Ok(d),
        None => Err(Error::Message("Unable to parse number")),
    }
}

/// Reads a number in decimal notation.
pub fn parse_num(n: &str) -> (r: Result<i32>)
    ensures
        agrees(r, number_of(n@)),
{
    let v = to_chars(n);
    assert(v@.subrange(0, v@.len() as int) == v@);
    number_in(&v, 0, v.len())
}

/// Reads a real number in decimal notation.
pub fn parse_decimal(n: &str) -> (r: Result<Decimal>)
    ensures
        agrees(r, decimal_of(n@)),
{
    match Decimal::parse(n) {
        Some(d) => Ok(d),
        None => Err(Error::Message("Unable to parse number")),
    }
}

/// Takes a text as it stands.
pub fn parse_string(s: &str) -> (r: Result<String>)
    ensures
        r is Ok,
        r->Ok_0@ == s@,
{
    Ok(String::from_str(s))
}

/// Reads a flag: an integer, true unless it is zero.
pub fn parse_bool(s: &str) -> (r: Result<bool>)
    ensures
        agrees(r, bool_of(s@)),
{
    let v = to_chars(s);
    assert(v@.subrange(0, v@.len() as int) == v@);
    bool_in(&v, 0, v.len())
}

/// Whether the characters at `lo..hi` are the one character `c`.
fn is_char(v: &Vec<char>, lo: usize, hi: usize, c: char) -> (r: bool)
    requires
        lo <= hi <= v.len(),
    ensures
        r == (v@.subrange(lo as int, hi as int) == seq![c]),
{
    let ghost s = v@.subrange(lo as int, hi as int);
    if hi - lo == 1 && v[lo] == c {
        assert(s =~= seq![c]);
        true
    } else {
        assert(s.len() == 1 ==> s[0] == v@[lo as int]);
        assert(seq![c].len() == 1 && seq![c][0] == c);
        false
    }
}

/// Reads a game mode from the characters at `lo..hi`.
pub fn mode_in(v: &Vec<char>, lo: usize, hi: usize) -> (r: Result<GameMode>)
    requires
        lo <= hi <= v.len(),
    ensures
        agrees(r, mode_of(v@.subrange(lo as int, hi as int))),
{
    if is_char(v, lo, hi, '0') {
        Ok(GameMode::Osu)
    } else if is_char(v, lo, hi, '1') {
        Ok(GameMode::Taiko)
    } else if is_char(v, lo, hi, '2') {
        Ok(GameMode::CTB)
    } else if is_char(v, lo, hi, '3') {
        Ok(GameMode::Mania)
    } else {
        Err(Error::Message("Unable to parse gamemode"))
    }
}

/// Reads a game mode, which is written as its ordinal.
pub fn parse_mode(s: &str) -> (r: Result<GameMode>)
    ensures
        agrees(r, mode_of(s@)),
{
    let v = to_chars(s);
    assert(v@.subrange(0, v@.len() as int) == v@);
    mode_in(&v, 0, v.len())
}

/// Reads the shape of a slider's curve from the characters at `lo..hi`.
pub fn slider_type_in(v: &Vec<char>, lo: usize, hi: usize) -> (r: Result<SliderType>)
    requires
        lo <= hi <= v.len(),
    ensures
        agrees(r, slider_type_of(v@.subrange(lo as int, hi as int))),
{
    if is_char(v, lo, hi, 'L') {
        Ok(SliderType::Linear)
    } else if is_char(v, lo, hi, 'B') {
        Ok(SliderType::Bezier)
    } else if is_char(v, lo, hi, 'P') {
        Ok(SliderType::Perfect)
    } else if is_char(v, lo, hi, 'C') {
        Ok(SliderType::Catmull)
    } else {
        Err(Error::Message("Invalid slider type"))
    }
}

/// Reads the shape of a slider's curve, which is written as one letter.
pub fn parse_slider_type(s: &str) -> (r: Result<SliderType>)
    ensures
        agrees(r, slider_type_of(s@)),
{
    let v = to_chars(s);
    assert(v@.subrange(0, v@.len() as int) == v@);
    slider_type_in(&v, 0, v.len())
}

/// Reads the number in field `k` of a record.
pub fn number_field(v: &Vec<char>, fields: &Vec<(usize, usize)>, k: usize) -> (r: Result<i32>)
    requires
        bounds_within(fields@, 0, v.len() as int),
    ensures
        agrees(r, number_at(cut(v@, fields@), k as int)),
{
    if k < fields.len() {
        let (lo, hi) = fields[k];
        number_in(v, lo, hi)
    } else {
        Err(Error::Parse)
    }
}

/// Reads the number in field `k` of a record whose fields may have blanks around them.
pub fn padded_number_field(v: &Vec<char>, fields: &Vec<(usize, usize)>, k: usize) -> (r:
    Result<i32>)
    requires
        bounds_within(fields@, 0, v.len() as int),
    ensures
        agrees(r, padded_number_at(cut(v@, fields@), k as int)),
{
    if k < fields.len() {
        let (lo, hi) = fields[k];
        let (a, b) = trim_range(v, lo, hi);
        number_in(v, a, b)
    } else {
        Err(Error::Message("Unable to parse line"))
    }
}

/// Reads the real number in field `k` of a record whose fields may have blanks around
/// them.
pub fn padded_decimal_field(v: &Vec<char>, fields: &Vec<(usize, usize)>, k: usize) -> (r:
    Result<Decimal>)
    requires
        bounds_within(fields@, 0, v.len() as int),
    ensures
        agrees(r, padded_decimal_at(cut(v@, fields@), k as int)),
{
    if k < fields.len() {
        let (lo, hi) = fields[k];
        let (a, b) = trim_range(v, lo, hi);
        decimal_in(v, a, b)
    } else {
        Err(Error::Message("Unable to parse line"))
    }
}

/// Reads the flag in field `k` of a record whose fields may have blanks around them.
pub fn padded_bool_field(v: &Vec<char>, fields: &Vec<(usize, usize)>, k: usize) -> (r: Result<
    bool,
>)
    requires
        bounds_within(fields@, 0, v.len() as int),
    ensures
        agrees(r, padded_bool_at(cut(v@, fields@), k as int)),
{
    if k < fields.len() {
        let (lo, hi) = fields[k];
        let (a, b) = trim_range(v, lo, hi);
        bool_in(v, a, b)
    } else {
        Err(Error::Message("Unable to parse line"))
    }
}

/// Reads a colour from the characters at `lo..hi`.
pub fn colour_in(v: &Vec<char>, lo: usize, hi: usize) -> (r: Result<Colour>)
    requires
        lo <= hi <= v.len(),
    ensures
        agrees(r, colour_of(v@.subrange(lo as int, hi as int))),
{
    let f = split_range(v, lo, hi, ',');
    let r = number_field(v, &f, 0)?;
    let g = number_field(v, &f, 1)?;
    let b = number_field(v, &f, 2)?;
    Ok(Colour(r, g, b))
}

/// Reads a colour: three numbers with commas between them.
pub fn parse_colour(s: &str) -> (r: Result<Colour>)
    ensures
        agrees(r, colour_of(s@)),
{
    let v = to_chars(s);
    assert(v@.subrange(0, v@.len() as int) == v@);
    colour_in(&v, 0, v.len())
}

/// Reads a pair of numbers from the characters at `lo..hi`.
pub fn coord_in(v: &Vec<char>, lo: usize, hi: usize) -> (r: Result<(i32, i32)>)
    requires
        lo <= hi <= v.len(),
    ensures
        agrees(r, coord_of(v@.subrange(lo as int, hi as int))),
{
    let f = split_range(v, lo, hi, ':');
    let x = number_field(v, &f, 0)?;
    let y = number_field(v, &f, 1)?;
    Ok((x, y))
}

/// Reads a pair of numbers with a colon between them.
pub fn parse_coord(s: &str) -> (r: Result<(i32, i32)>)
    ensures
        agrees(r, coord_of(s@)),
{
    let v = to_chars(s);
    assert(v@.subrange(0, v@.len() as int) == v@);
    coord_in(&v, 0, v.len())
}

/// Reads the sample overrides of a hit object from the characters at `lo..hi`.
pub fn extras_in(v: &Vec<char>, lo: usize, hi: usize) -> (r: Result<HitObjectExtras>)
    requires
        lo <= hi <= v.len(),
    ensures
        agrees(r, extras_of(v@.subrange(lo as int, hi as int))),
{
    let f = split_range(v, lo, hi, ':');
    let sample_set = padded_number_field(v, &f, 0)?;
    let addition_set = padded_number_field(v, &f, 1)?;
    let custom_index = padded_number_field(v, &f, 2)?;
    let sample_volume = padded_number_field(v, &f, 3)?;
    if f.len() > 4 {
        let (a, b) = f[4];
        let (a, b) = trim_range(v, a, b);
        let filename = from_chars(v, a, b);
        Ok(HitObjectExtras { sample_set, addition_set, custom_index, sample_volume, filename })
    } else {
        Err(Error::Message("Unable to parse line"))
    }
}

/// Reads the sample overrides of a hit object: four numbers and a file name with colons
/// between them.
pub fn parse_extras(s: &str) -> (r: Result<HitObjectExtras>)
    ensures
        agrees(r, extras_of(s@)),
{
    let v = to_chars(s);
    assert(v@.subrange(0, v@.len() as int) == v@);
    extras_in(&v, 0, v.len())
}

impl Default for HitObjectExtras {
    /// The overrides of a hit object that names none.
    fn default() -> (r: HitObjectExtras)
        ensures
            r@ == default_extras(),
    {
        HitObjectExtras {
            sample_set: 0,
            addition_set: 0,
            custom_index: 0,
            sample_volume: 0,
            filename: String::new(),
        }
    }
}

impl Default for HoldNote {
    /// A hold note at the origin, with the overrides of a hit object that names none.
    fn default() -> (r: HoldNote)
        ensures
            r@ == (HoldNoteView {
                x: 0,
                y: 0,
                new_combo: false,
                color_skip: 0,
                time: 0,
                hitsound: 0,
                end_time: 0,
                extras: default_extras(),
            }),
    {
        HoldNote {
            x: 0,
            y: 0,
            new_combo: false,
            color_skip: 0,
            time: 0,
            hitsound: 0,
            end_time: 0,
            extras: HitObjectExtras::default(),
        }
    }
}

/// Reads the sample overrides in field `k`, and takes the default ones where the field is
/// missing or malformed.
fn extras_field(v: &Vec<char>, fields: &Vec<(usize, usize)>, k: usize) -> (r: HitObjectExtras)
    requires
        bounds_within(fields@, 0, v.len() as int),
    ensures
        r@ == extras_at(cut(v@, fields@), k as int),
{
    if k < fields.len() {
        let (lo, hi) = fields[k];
        match extras_in(v, lo, hi) {
            Ok(e) => e,
            Err(_) => HitObjectExtras::default(),
        }
    } else {
        HitObjectExtras::default()
    }
}

/// Reads a pair from each of the fields from `from` on.
fn coords_in(v: &Vec<char>, fields: &Vec<(usize, usize)>, from: usize) -> (r: Result<
    Vec<(i32, i32)>,
>)
    requires
        bounds_within(fields@, 0, v.len() as int),
        from <= fields.len(),
    ensures
        agrees(r, coords_of(cut(v@, fields@).skip(from as int))),
{
    let ghost all = cut(v@, fields@).skip(from as int);
    let mut points: Vec<(i32, i32)> = Vec::new();
    let mut i: usize = from;
    assert(all.take(0) =~= Seq::empty());
    while i < fields.len()
        invariant
            from <= i <= fields.len(),
            bounds_within(fields@, 0, v.len() as int),
            all == cut(v@, fields@).skip(from as int),
            coords_of(all.take(i - from)) == Ok::<Seq<(i32, i32)>, crate::error::ErrorView>(
                points@,
            ),
        decreases fields.len() - i,
    {
        let (lo, hi) = fields[i];
        let ghost next = all.take(i - from + 1);
        assert(next.drop_last() =~= all.take(i - from));
        assert(next.last() == v@.subrange(lo as int, hi as int));
        match coord_in(v, lo, hi) {
            Ok(p) => {
                points.push(p);
            },
            Err(e) => {
                proof {
                    lemma_coords_error_stays(all, i - from + 1);
                }
                return Err(e);
            },
        }
        i += 1;
    }
    assert(all.take(fields.len() - from) == all);
    Ok(points)
}

/// Once a field is malformed, the error stays the same however many fields follow.
pub proof fn lemma_coords_error_stays(fields: Seq<Seq<char>>, k: int)
    requires
        0 <= k <= fields.len(),
        coords_of(fields.take(k)) is Err,
    ensures
        coords_of(fields) == coords_of(fields.take(k)),
    decreases fields.len() - k,
{
    if k < fields.len() {
        let next = fields.take(k + 1);
        assert(next.drop_last() =~= fields.take(k));
        lemma_coords_error_stays(fields, k + 1);
    } else {
        assert(fields.take(k) == fields);
    }
}

/// Once a field writes no number, none of the longer lists of fields is a list of numbers.
pub proof fn lemma_numbers_none_stays(fields: Seq<Seq<char>>, k: int)
    requires
        0 <= k <= fields.len(),
        numbers_of(fields.take(k)) is None,
    ensures
        numbers_of(fields) is None,
    decreases fields.len() - k,
{
    if k < fields.len() {
        let next = fields.take(k + 1);
        assert(next.drop_last() =~= fields.take(k));
        lemma_numbers_none_stays(fields, k + 1);
    } else {
        assert(fields.take(k) == fields);
    }
}

/// Reads a number from each of the fields.
pub fn numbers_in(v: &Vec<char>, fields: &Vec<(usize, usize)>) -> (r: Option<Vec<i32>>)
    requires
        bounds_within(fields@, 0, v.len() as int),
    ensures
        match r {
            Some(ns) => numbers_of(cut(v@, fields@)) == Some(ns@),
            None => numbers_of(cut(v@, fields@)) is None,
        },
{
    let ghost all = cut(v@, fields@);
    let mut numbers: Vec<i32> = Vec::new();
    let mut i: usize = 0;
    assert(all.take(0) =~= Seq::empty());
    while i < fields.len()
        invariant
            0 <= i <= fields.len(),
            bounds_within(fields@, 0, v.len() as int),
            all == cut(v@, fields@),
            numbers_of(all.take(i as int)) == Some(numbers@),
        decreases fields.len() - i,
    {
        let (lo, hi) = fields[i];
        let ghost next = all.take(i + 1);
        assert(next.drop_last() =~= all.take(i as int));
        assert(next.last() == v@.subrange(lo as int, hi as int));
        match scan_i32(v, lo, hi) {
            Some(n) => {
                numbers.push(n);
            },
            None => {
                proof {
                    lemma_numbers_none_stays(all, i + 1);
                }
                return None;
            },
        }
        i += 1;
    }
    assert(all.take(fields.len() as int) == all);
    Some(numbers)
}

/// Reads the numbers in field `k`, with bars between them; none where the field is missing
/// or malformed.
fn numbers_field(v: &Vec<char>, fields: &Vec<(usize, usize)>, k: usize) -> (r: Vec<i32>)
    requires
        bounds_within(fields@, 0, v.len() as int),
    ensures
        r@ == numbers_at(cut(v@, fields@), k as int),
{
    if k < fields.len() {
        let (lo, hi) = fields[k];
        let parts = split_range(v, lo, hi, '|');
        match numbers_in(v, &parts) {
            Some(ns) => ns,
            None => Vec::new(),
        }
    } else {
        Vec::new()
    }
}

/// Reads the pairs in field `k`, with bars between them; none where the field is missing
/// or malformed.
fn coords_field(v: &Vec<char>, fields: &Vec<(usize, usize)>, k: usize) -> (r: Vec<(i32, i32)>)
    requires
        bounds_within(fields@, 0, v.len() as int),
    ensures
        r@ == coords_at(cut(v@, fields@), k as int),
{
    if k < fields.len() {
        let (lo, hi) = fields[k];
        let parts = split_range(v, lo, hi, '|');
        assert(cut(v@, parts@).skip(0) == cut(v@, parts@));
        match coords_in(v, &parts, 0) {
            Ok(ps) => ps,
            Err(_) => Vec::new(),
        }
    } else {
        Vec::new()
    }
}

/// Reads a slider's curve from the characters at `lo..hi`.
pub fn curve_in(v: &Vec<char>, lo: usize, hi: usize) -> (r: Result<(SliderType, Vec<(i32, i32)>)>)
    requires
        lo <= hi <= v.len(),
    ensures
        agrees(r, curve_of(v@.subrange(lo as int, hi as int))),
{
    let f = split_range(v, lo, hi, '|');
    let (a, b) = f[0];
    let shape = slider_type_in(v, a, b)?;
    let points = coords_in(v, &f, 1)?;
    Ok((shape, points))
}

/// Reads a slider's curve: the letter of its shape, then its control points, with bars
/// between them.
pub fn parse_curve_points(s: &str) -> (r: Result<(SliderType, Vec<(i32, i32)>)>)
    ensures
        agrees(r, curve_of(s@)),
{
    let v = to_chars(s);
    assert(v@.subrange(0, v@.len() as int) == v@);
    curve_in(&v, 0, v.len())
}

/// Reads the five fields that the four kinds of hit object share.
fn common_in(v: &Vec<char>, f: &Vec<(usize, usize)>) -> (r: Result<(i32, i32, i32, i32, i32)>)
    requires
        bounds_within(f@, 0, v.len() as int),
    ensures
        match r {
            Ok(c) => common_of(cut(v@, f@)) == Ok::<HitCommon, crate::error::ErrorView>(
                HitCommon { x: c.0, y: c.1, time: c.2, kind: c.3, hitsound: c.4 },
            ),
            Err(e) => common_of(cut(v@, f@)) == Err::<HitCommon, crate::error::ErrorView>(e@),
        },
{
    let x = number_field(v, f, 0)?;
    let y = number_field(v, f, 1)?;
    let time = number_field(v, f, 2)?;
    let kind = number_field(v, f, 3)?;
    let hitsound = number_field(v, f, 4)?;
    Ok((x, y, time, kind, hitsound))
}

/// Whether a hit object of this type starts a new combo.
pub fn new_combo_of(kind: i32) -> (r: bool)
    ensures
        r == new_combo_bit(kind),
{
    kind & NEW_COMBO != 0
}

/// The bits of a hit object's type that say which of the four kinds it is.
pub fn variant_of(kind: i32) -> (r: i32)
    ensures
        r == variant_bits(kind),
{
    kind & KIND
}

/// How many combo colours a hit object of this type skips.
pub fn colour_skip_of(kind: i32) -> (r: i32)
    ensures
        r == colour_skip_bits(kind),
        0 <= r <= 7,
{
    assert(0 <= ((kind >> 4) & 7) <= 7) by (bit_vector);
    (kind >> COLOUR_SKIP_SHIFT) & COLOUR_SKIP
}

/// Reads what follows the shared fields of a slider.
fn slider_in(v: &Vec<char>, f: &Vec<(usize, usize)>, c: (i32, i32, i32, i32, i32)) -> (r:
    Result<Slider>)
    requires
        bounds_within(f@, 0, v.len() as int),
    ensures
        agrees(
            r,
            slider_of(
                HitCommon { x: c.0, y: c.1, time: c.2, kind: c.3, hitsound: c.4 },
                cut(v@, f@),
            ),
        ),
{
    if f.len() <= 5 {
        return Err(Error::Parse);
    }
    let (lo, hi) = f[5];
    let (slider_type, curve_points) = curve_in(v, lo, hi)?;
    let repeat = number_field(v, f, 6)?;
    if f.len() <= 7 {
        return Err(Error::Parse);
    }
    let (lo, hi) = f[7];
    let pixel_length = decimal_in(v, lo, hi)?;
    let edge_hitsounds = numbers_field(v, f, 8);
    let edge_additions = coords_field(v, f, 9);
    let extras = extras_field(v, f, 10);
    Ok(
        Slider {
            x: c.0,
            y: c.1,
            new_combo: new_combo_of(c.3),
            color_skip: colour_skip_of(c.3),
            time: c.2,
            slider_type,
            curve_points,
            repeat,
            pixel_length,
            edge_hitsounds,
            edge_additions,
            hitsound: c.4,
            extras,
        },
    )
}

/// Reads what follows the shared fields of a hold note.
fn hold_note_in(v: &Vec<char>, f: &Vec<(usize, usize)>, c: (i32, i32, i32, i32, i32)) -> (r:
    Result<HoldNote>)
    requires
        bounds_within(f@, 0, v.len() as int),
    ensures
        agrees(
            r,
            hold_note_of(
                HitCommon { x: c.0, y: c.1, time: c.2, kind: c.3, hitsound: c.4 },
                cut(v@, f@),
            ),
        ),
{
    if f.len() <= 5 {
        return Err(Error::Message("Could not read object extras"));
    }
    let (lo, hi) = f[5];
    let at = find_char(v, lo, hi, ':');
    if at >= hi {
        return Err(Error::Message("Could not read object extras"));
    }
    let ghost field = v@.subrange(lo as int, hi as int);
    assert(field.take(at - lo) == v@.subrange(lo as int, at as int));
    assert(field.skip(at - lo + 1) == v@.subrange(at + 1, hi as int));
    let end_time = number_in(v, lo, at)?;
    let extras = extras_in(v, at + 1, hi)?;
    Ok(
        HoldNote {
            x: c.0,
            y: c.1,
            new_combo: new_combo_of(c.3),
            color_skip: colour_skip_of(c.3),
            time: c.2,
            hitsound: c.4,
            end_time,
            extras,
        },
    )
}

/// Reads a hit object from the characters at `lo..hi`.
pub fn hit_object_in(v: &Vec<char>, lo: usize, hi: usize) -> (r: Result<HitObject>)
    requires
        lo <= hi <= v.len(),
    ensures
        agrees(r, hit_object_of(v@.subrange(lo as int, hi as int))),
        r matches Ok(h) ==> h@.wf(),
{
    proof {
        crate::wellformed::lemma_hit_object_wf(v@.subrange(lo as int, hi as int));
    }
    let f = split_range(v, lo, hi, ',');
    let c = common_in(v, &f)?;
    let ghost common = HitCommon { x: c.0, y: c.1, time: c.2, kind: c.3, hitsound: c.4 };
    let variant: i32 = variant_of(c.3);
    if variant == HIT_CIRCLE {
        let circle = HitCircle {
            x: c.0,
            y: c.1,
            new_combo: new_combo_of(c.3),
            color_skip: colour_skip_of(c.3),
            time: c.2,
            hitsound: c.4,
            extras: extras_field(v, &f, 5),
        };
        assert(circle@ == circle_of(common, cut(v@, f@)));
        Ok(HitObject::HitCircle(circle))
    } else if variant == SLIDER {
        match slider_in(v, &f, c) {
            Ok(s) => Ok(HitObject::Slider(s)),
            Err(e) => Err(e),
        }
    } else if variant == SPINNER {
        let end_time = number_field(v, &f, 5)?;
        let spinner = Spinner {
            x: c.0,
            y: c.1,
            new_combo: new_combo_of(c.3),
            color_skip: colour_skip_of(c.3),
            time: c.2,
            hitsound: c.4,
            end_time,
            extras: extras_field(v, &f, 6),
        };
        assert(spinner_of(common, cut(v@, f@)) == Ok::<
            crate::model::SpinnerView,
            crate::error::ErrorView,
        >(spinner@));
        Ok(HitObject::Spinner(spinner))
    } else if variant == HOLD_NOTE {
        match hold_note_in(v, &f, c) {
            Ok(n) => Ok(HitObject::HoldNote(n)),
            Err(e) => Err(e),
        }
    } else {
        Err(Error::Message("Invalid hit object type"))
    }
}

/// Reads a hit object: fields with commas between them, the first five shared by the four
/// kinds, the rest as the kind has them.
pub fn parse_hit_object(s: &str) -> (r: Result<HitObject>)
    ensures
        agrees(r, hit_object_of(s@)),
        r matches Ok(h) ==> h@.wf(),
{
    let v = to_chars(s);
    assert(v@.subrange(0, v@.len() as int) == v@);
    hit_object_in(&v, 0, v.len())
}

/// Reads a timing point from the characters at `lo..hi`.
pub fn timing_point_in(v: &Vec<char>, lo: usize, hi: usize) -> (r: Result<TimingPoint>)
    requires
        lo <= hi <= v.len(),
    ensures
        agrees(r, timing_point_of(v@.subrange(lo as int, hi as int))),
        r matches Ok(t) ==> t@.wf(),
{
    let f = split_range(v, lo, hi, ',');
    let offset = padded_decimal_field(v, &f, 0)?;
    let ms_per_beat = padded_decimal_field(v, &f, 1)?;
    let meter = padded_number_field(v, &f, 2)?;
    let sample_set = padded_number_field(v, &f, 3)?;
    let sample_index = padded_number_field(v, &f, 4)?;
    let volume = padded_number_field(v, &f, 5)?;
    let inherited = padded_bool_field(v, &f, 6)?;
    let kiai_mode = padded_bool_field(v, &f, 7)?;
    Ok(
        TimingPoint {
            offset,
            ms_per_beat,
            meter,
            sample_set,
            sample_index,
            volume,
            inherited,
            kiai_mode,
        },
    )
}

} // verus!
