use crate::error::ErrorView;
use crate::grammar::{
    HitCommon, bool_of, circle_of, colour_of, colour_skip_bits, common_of, coord_of, coords_at,
    coords_of, curve_of, decimal_of, extras_at, extras_of, hit_object_of, hold_note_of, mode_of,
    new_combo_bit, number_of, numbers_at, numbers_of, slider_of, slider_type_of, spinner_of,
    timing_point_of, variant_bits,
};
use crate::model::{
    Colour, GameMode, HitCircleView, HitObjectExtrasView, HitObjectView, HoldNoteView,
    SliderType, SliderView, SpinnerView, TimingPointView,
};
use crate::number::{int_text, is_decimal_text};
use crate::readback::joining::{
    all_lack, is_trimmed, lacks, lemma_join_first, lemma_join_lacks, lemma_split_join,
    lemma_split_one, lemma_trim_of_trimmed,
};
use crate::readback::plain::{
    is_number_char, is_plain, lemma_decimal_plain, lemma_i32_text_reads_back,
    lemma_int_text_plain, lemma_plain_lacks, lemma_plain_trimmed,
};
use crate::serialize::{
    circle_text, colour_text, curve_text, extras_text, flag_text, hit_object_text,
    hold_note_text, is_kind_bit, join, mode_text, number_texts, pair_text, pair_texts,
    shape_text, slider_text, spinner_text, timing_point_text, type_byte,
};
use crate::text::{first_index, is_space, split, trim};
use vstd::prelude::*;

verus! {

/// A number that is written is read back, with or without blanks set aside.
pub proof fn lemma_number_reads_back(n: i32)
    ensures
        number_of(int_text(n as int)) == Ok::<i32, ErrorView>(n),
        number_of(trim(int_text(n as int))) == Ok::<i32, ErrorView>(n),
        is_plain(int_text(n as int)),
{
    lemma_i32_text_reads_back(n);
    lemma_int_text_plain(n as int);
    lemma_plain_trimmed(int_text(n as int));
    lemma_trim_of_trimmed(int_text(n as int));
}

/// A flag that is written is read back.
pub proof fn lemma_flag_reads_back(b: bool)
    ensures
        bool_of(flag_text(b)) == Ok::<bool, ErrorView>(b),
        bool_of(trim(flag_text(b))) == Ok::<bool, ErrorView>(b),
        is_plain(flag_text(b)),
{
    let n: i32 = if b {
        1
    } else {
        0
    };
    assert(flag_text(b) =~= int_text(n as int));
    lemma_number_reads_back(n);
}

/// A game mode that is written is read back.
pub proof fn lemma_mode_reads_back(m: GameMode)
    ensures
        mode_of(mode_text(m)) == Ok::<GameMode, ErrorView>(m),
        is_plain(mode_text(m)),
{
    assert(seq!['0'] != seq!['1']) by {
        assert(seq!['0'][0] != seq!['1'][0]);
    }
    assert(seq!['0'] != seq!['2']) by {
        assert(seq!['0'][0] != seq!['2'][0]);
    }
    assert(seq!['0'] != seq!['3']) by {
        assert(seq!['0'][0] != seq!['3'][0]);
    }
    assert(seq!['1'] != seq!['2']) by {
        assert(seq!['1'][0] != seq!['2'][0]);
    }
    assert(seq!['1'] != seq!['3']) by {
        assert(seq!['1'][0] != seq!['3'][0]);
    }
    assert(seq!['2'] != seq!['3']) by {
        assert(seq!['2'][0] != seq!['3'][0]);
    }
}

/// The shape of a curve that is written is read back.
pub proof fn lemma_shape_reads_back(t: SliderType)
    ensures
        slider_type_of(shape_text(t)) == Ok::<SliderType, ErrorView>(t),
        is_plain(shape_text(t)),
{
    assert(seq!['L'] != seq!['B']) by {
        assert(seq!['L'][0] != seq!['B'][0]);
    }
    assert(seq!['L'] != seq!['P']) by {
        assert(seq!['L'][0] != seq!['P'][0]);
    }
    assert(seq!['L'] != seq!['C']) by {
        assert(seq!['L'][0] != seq!['C'][0]);
    }
    assert(seq!['B'] != seq!['P']) by {
        assert(seq!['B'][0] != seq!['P'][0]);
    }
    assert(seq!['B'] != seq!['C']) by {
        assert(seq!['B'][0] != seq!['C'][0]);
    }
    assert(seq!['P'] != seq!['C']) by {
        assert(seq!['P'][0] != seq!['C'][0]);
    }
}

/// A real number that is written is read back, with or without blanks set aside.
pub proof fn lemma_decimal_reads_back(s: Seq<char>)
    requires
        is_decimal_text(s),
    ensures
        decimal_of(s) == Ok::<Seq<char>, ErrorView>(s),
        decimal_of(trim(s)) == Ok::<Seq<char>, ErrorView>(s),
        is_plain(s),
{
    lemma_decimal_plain(s);
    lemma_plain_trimmed(s);
    lemma_trim_of_trimmed(s);
}

/// Plain texts hold no character that numbers are not written with.
pub proof fn lemma_plain_parts_lack(parts: Seq<Seq<char>>, c: char)
    requires
        forall|i: int| 0 <= i < parts.len() ==> is_plain(#[trigger] parts[i]),
        !is_number_char(c),
    ensures
        all_lack(parts, c),
{
    assert forall|i: int| 0 <= i < parts.len() implies lacks(#[trigger] parts[i], c) by {
        lemma_plain_lacks(parts[i], c);
    }
}

/// A colour as it is written: three numbers.
pub open spec fn colour_parts(c: Colour) -> Seq<Seq<char>> {
    seq![int_text(c.0 as int), int_text(c.1 as int), int_text(c.2 as int)]
}

/// A colour that is written holds digits, signs and commas, and starts with none of the
/// commas.
pub proof fn lemma_colour_text_shape(c: Colour, other: char)
    requires
        !is_number_char(other),
        other != ',',
    ensures
        lacks(colour_text(c), other),
        colour_text(c).len() > 0,
        is_number_char(colour_text(c)[0]),
{
    let parts = colour_parts(c);
    lemma_number_reads_back(c.0);
    lemma_number_reads_back(c.1);
    lemma_number_reads_back(c.2);
    lemma_plain_parts_lack(parts, other);
    lemma_join_lacks(parts, ',', other);
    lemma_join_first(parts, ',');
}

/// A colour that is written is read back.
pub proof fn lemma_colour_reads_back(c: Colour)
    ensures
        colour_of(colour_text(c)) == Ok::<Colour, ErrorView>(c),
{
    let parts = colour_parts(c);
    lemma_number_reads_back(c.0);
    lemma_number_reads_back(c.1);
    lemma_number_reads_back(c.2);
    lemma_plain_parts_lack(parts, ',');
    lemma_split_join(parts, ',');
}

/// A pair as it is written: two numbers.
pub open spec fn pair_parts(p: (i32, i32)) -> Seq<Seq<char>> {
    seq![int_text(p.0 as int), int_text(p.1 as int)]
}

/// A pair that is written holds digits, signs and a colon.
pub proof fn lemma_pair_text_shape(p: (i32, i32), other: char)
    requires
        !is_number_char(other),
        other != ':',
    ensures
        lacks(pair_text(p), other),
{
    let parts = pair_parts(p);
    lemma_number_reads_back(p.0);
    lemma_number_reads_back(p.1);
    lemma_plain_parts_lack(parts, other);
    lemma_join_lacks(parts, ':', other);
}

/// A pair that is written is read back.
pub proof fn lemma_pair_reads_back(p: (i32, i32))
    ensures
        coord_of(pair_text(p)) == Ok::<(i32, i32), ErrorView>(p),
{
    let parts = pair_parts(p);
    lemma_number_reads_back(p.0);
    lemma_number_reads_back(p.1);
    lemma_plain_parts_lack(parts, ':');
    lemma_split_join(parts, ':');
}

/// Pairs that are written are read back.
pub proof fn lemma_pairs_read_back(ps: Seq<(i32, i32)>)
    ensures
        coords_of(pair_texts(ps)) == Ok::<Seq<(i32, i32)>, ErrorView>(ps),
    decreases ps.len(),
{
    if ps.len() == 0 {
        assert(ps =~= Seq::empty());
    } else {
        lemma_pairs_read_back(ps.drop_last());
        assert(pair_texts(ps).drop_last() =~= pair_texts(ps.drop_last()));
        lemma_pair_reads_back(ps.last());
        assert(ps.drop_last().push(ps.last()) =~= ps);
    }
}

/// Numbers that are written are read back.
pub proof fn lemma_numbers_read_back(ns: Seq<i32>)
    ensures
        numbers_of(number_texts(ns)) == Some(ns),
    decreases ns.len(),
{
    if ns.len() == 0 {
        assert(ns =~= Seq::empty());
    } else {
        lemma_numbers_read_back(ns.drop_last());
        assert(number_texts(ns).drop_last() =~= number_texts(ns.drop_last()));
        lemma_number_reads_back(ns.last());
        assert(ns.drop_last().push(ns.last()) =~= ns);
    }
}

/// The texts of numbers hold no character that numbers are not written with.
pub proof fn lemma_number_texts_lack(ns: Seq<i32>, c: char)
    requires
        !is_number_char(c),
    ensures
        all_lack(number_texts(ns), c),
{
    assert forall|i: int| 0 <= i < ns.len() implies lacks(#[trigger] number_texts(ns)[i], c) by {
        lemma_number_reads_back(ns[i]);
        lemma_plain_lacks(int_text(ns[i] as int), c);
    }
}

/// The texts of pairs hold digits, signs and colons.
pub proof fn lemma_pair_texts_lack(ps: Seq<(i32, i32)>, c: char)
    requires
        !is_number_char(c),
        c != ':',
    ensures
        all_lack(pair_texts(ps), c),
{
    assert forall|i: int| 0 <= i < ps.len() implies lacks(#[trigger] pair_texts(ps)[i], c) by {
        lemma_pair_text_shape(ps[i], c);
    }
}

/// The numbers of a field that are written with bars between them are read back; where
/// there are none the field is empty, and none are read.
pub proof fn lemma_number_list_reads_back(ns: Seq<i32>)
    ensures
        ns.len() > 0 ==> numbers_of(split(join(number_texts(ns), '|'), '|')) == Some(ns),
        ns.len() == 0 ==> numbers_of(split(join(number_texts(ns), '|'), '|')) is None,
{
    if ns.len() > 0 {
        lemma_number_texts_lack(ns, '|');
        lemma_split_join(number_texts(ns), '|');
        lemma_numbers_read_back(ns);
    } else {
        let empty = Seq::<char>::empty();
        assert(join(number_texts(ns), '|') =~= empty);
        lemma_split_one(empty, '|');
        let fields = seq![empty];
        assert(fields.drop_last() =~= Seq::<Seq<char>>::empty());
        assert(numbers_of(fields.drop_last()) == Some(Seq::<i32>::empty()));
        assert(crate::number::i32_of_text(empty) is None);
    }
}

/// The pairs of a field that are written with bars between them are read back; where
/// there are none the field is empty, and none are read.
pub proof fn lemma_pair_list_reads_back(ps: Seq<(i32, i32)>)
    ensures
        ps.len() > 0 ==> coords_of(split(join(pair_texts(ps), '|'), '|')) == Ok::<
            Seq<(i32, i32)>,
            ErrorView,
        >(ps),
        ps.len() == 0 ==> coords_of(split(join(pair_texts(ps), '|'), '|')) is Err,
{
    if ps.len() > 0 {
        lemma_pair_texts_lack(ps, '|');
        lemma_split_join(pair_texts(ps), '|');
        lemma_pairs_read_back(ps);
    } else {
        let empty = Seq::<char>::empty();
        assert(join(pair_texts(ps), '|') =~= empty);
        lemma_split_one(empty, '|');
        lemma_split_one(empty, ':');
        let fields = seq![empty];
        assert(fields.drop_last() =~= Seq::<Seq<char>>::empty());
        assert(crate::number::i32_of_text(empty) is None);
        assert(coord_of(empty) is Err);
    }
}

/// A text that can stand as a value on a line of its own: it holds no line feed and has
/// no blank at either end.
pub open spec fn is_value(s: Seq<char>) -> bool {
    lacks(s, '\n') && is_trimmed(s)
}

/// A text that can stand as the file name of a sample: a value without comma or colon.
pub open spec fn is_file_name(s: Seq<char>) -> bool {
    is_value(s) && lacks(s, ',') && lacks(s, ':')
}

/// Sample overrides as they are written: four numbers and a file name.
pub open spec fn extras_parts(e: HitObjectExtrasView) -> Seq<Seq<char>> {
    seq![
        int_text(e.sample_set as int),
        int_text(e.addition_set as int),
        int_text(e.custom_index as int),
        int_text(e.sample_volume as int),
        e.filename,
    ]
}

/// Sample overrides that are written hold no comma and no line feed, and start with a
/// digit or a sign.
pub proof fn lemma_extras_text_shape(e: HitObjectExtrasView)
    requires
        is_file_name(e.filename),
    ensures
        lacks(extras_text(e), ','),
        lacks(extras_text(e), '\n'),
        extras_text(e).len() > 0,
        is_number_char(extras_text(e)[0]),
        !is_space(extras_text(e).last()),
{
    let parts = extras_parts(e);
    lemma_number_reads_back(e.sample_set);
    lemma_number_reads_back(e.addition_set);
    lemma_number_reads_back(e.custom_index);
    lemma_number_reads_back(e.sample_volume);
    assert(all_lack(parts, ',')) by {
        lemma_plain_lacks(parts[0], ',');
        lemma_plain_lacks(parts[1], ',');
        lemma_plain_lacks(parts[2], ',');
        lemma_plain_lacks(parts[3], ',');
    }
    assert(all_lack(parts, '\n')) by {
        lemma_plain_lacks(parts[0], '\n');
        lemma_plain_lacks(parts[1], '\n');
        lemma_plain_lacks(parts[2], '\n');
        lemma_plain_lacks(parts[3], '\n');
    }
    lemma_join_lacks(parts, ':', ',');
    lemma_join_lacks(parts, ':', '\n');
    lemma_join_first(parts, ':');
    assert(parts.drop_last().len() == 4);
}

/// Sample overrides that are written are read back.
pub proof fn lemma_extras_read_back(e: HitObjectExtrasView)
    requires
        is_file_name(e.filename),
    ensures
        extras_of(extras_text(e)) == Ok::<HitObjectExtrasView, ErrorView>(e),
{
    let parts = extras_parts(e);
    lemma_number_reads_back(e.sample_set);
    lemma_number_reads_back(e.addition_set);
    lemma_number_reads_back(e.custom_index);
    lemma_number_reads_back(e.sample_volume);
    assert(all_lack(parts, ':')) by {
        lemma_plain_lacks(parts[0], ':');
        lemma_plain_lacks(parts[1], ':');
        lemma_plain_lacks(parts[2], ':');
        lemma_plain_lacks(parts[3], ':');
    }
    lemma_split_join(parts, ':');
    lemma_trim_of_trimmed(e.filename);
}

/// The curve of a slider as it is written: its shape, then its control points.
pub open spec fn curve_parts(shape: SliderType, points: Seq<(i32, i32)>) -> Seq<Seq<char>> {
    seq![shape_text(shape)] + pair_texts(points)
}

/// A curve that is written holds no comma and no line feed.
pub proof fn lemma_curve_text_shape(shape: SliderType, points: Seq<(i32, i32)>, c: char)
    requires
        !is_number_char(c),
        c != ':',
        c != '|',
    ensures
        lacks(curve_text(shape, points), c),
{
    let parts = curve_parts(shape, points);
    lemma_shape_reads_back(shape);
    lemma_pair_texts_lack(points, c);
    assert forall|i: int| 0 <= i < parts.len() implies lacks(#[trigger] parts[i], c) by {
        if i == 0 {
            lemma_plain_lacks(parts[0], c);
        } else {
            assert(parts[i] == pair_texts(points)[i - 1]);
        }
    }
    lemma_join_lacks(parts, '|', c);
}

/// A curve that is written is read back.
pub proof fn lemma_curve_reads_back(shape: SliderType, points: Seq<(i32, i32)>)
    ensures
        curve_of(curve_text(shape, points)) == Ok::<(SliderType, Seq<(i32, i32)>), ErrorView>(
            (shape, points),
        ),
{
    let parts = curve_parts(shape, points);
    lemma_shape_reads_back(shape);
    lemma_pair_texts_lack(points, '|');
    assert forall|i: int| 0 <= i < parts.len() implies lacks(#[trigger] parts[i], '|') by {
        if i == 0 {
            lemma_plain_lacks(parts[0], '|');
        } else {
            assert(parts[i] == pair_texts(points)[i - 1]);
        }
    }
    lemma_split_join(parts, '|');
    assert(parts.skip(1) =~= pair_texts(points));
    lemma_pairs_read_back(points);
}

/// A timing point as it is written: eight fields.
pub open spec fn timing_point_parts(t: TimingPointView) -> Seq<Seq<char>> {
    seq![
        t.offset,
        t.ms_per_beat,
        int_text(t.meter as int),
        int_text(t.sample_set as int),
        int_text(t.sample_index as int),
        int_text(t.volume as int),
        flag_text(t.inherited),
        flag_text(t.kiai_mode),
    ]
}

/// The fields of a timing point that is written are plain texts.
proof fn lemma_timing_point_parts_plain(t: TimingPointView)
    requires
        t.wf(),
    ensures
        forall|i: int| 0 <= i < 8 ==> is_plain(#[trigger] timing_point_parts(t)[i]),
{
    lemma_decimal_reads_back(t.offset);
    lemma_decimal_reads_back(t.ms_per_beat);
    lemma_number_reads_back(t.meter);
    lemma_number_reads_back(t.sample_set);
    lemma_number_reads_back(t.sample_index);
    lemma_number_reads_back(t.volume);
    lemma_flag_reads_back(t.inherited);
    lemma_flag_reads_back(t.kiai_mode);
}

/// A timing point that is written is one line, which starts with a character that
/// numbers are written with.
pub proof fn lemma_timing_point_text_shape(t: TimingPointView)
    requires
        t.wf(),
    ensures
        lacks(timing_point_text(t), '\n'),
        timing_point_text(t).len() > 0,
        is_number_char(timing_point_text(t)[0]),
        is_number_char(timing_point_text(t).last()),
{
    let parts = timing_point_parts(t);
    lemma_timing_point_parts_plain(t);
    lemma_plain_parts_lack(parts, '\n');
    lemma_join_lacks(parts, ',', '\n');
    lemma_join_first(parts, ',');
    assert(is_plain(parts[0]));
    assert(is_plain(parts[7]));
    assert(is_number_char(parts[7].last()));
    assert(parts.drop_last().len() == 7);
}

/// A timing point that is written is read back.
pub proof fn lemma_timing_point_reads_back(t: TimingPointView)
    requires
        t.wf(),
    ensures
        timing_point_of(timing_point_text(t)) == Ok::<TimingPointView, ErrorView>(t),
{
    let parts = timing_point_parts(t);
    lemma_timing_point_parts_plain(t);
    lemma_plain_parts_lack(parts, ',');
    lemma_split_join(parts, ',');
    lemma_decimal_reads_back(t.offset);
    lemma_decimal_reads_back(t.ms_per_beat);
    lemma_number_reads_back(t.meter);
    lemma_number_reads_back(t.sample_set);
    lemma_number_reads_back(t.sample_index);
    lemma_number_reads_back(t.volume);
    lemma_flag_reads_back(t.inherited);
    lemma_flag_reads_back(t.kiai_mode);
}

/// The type of a hit object holds its kind, whether it starts a combo, and how many combo
/// colours it skips, each in bits of its own.
pub proof fn lemma_type_bits(base: i32, new_combo: bool, skip: i32)
    requires
        is_kind_bit(base as int),
        0 <= skip <= 7,
    ensures
        0 <= type_byte(base as int, new_combo, skip as int) <= 255,
        variant_bits(type_byte(base as int, new_combo, skip as int) as i32) == base,
        new_combo_bit(type_byte(base as int, new_combo, skip as int) as i32) == new_combo,
        colour_skip_bits(type_byte(base as int, new_combo, skip as int) as i32) == skip,
{
    let flag: i32 = if new_combo {
        4
    } else {
        0
    };
    let t: i32 = (base + flag + 16 * skip) as i32;
    assert(t == type_byte(base as int, new_combo, skip as int));
    assert(t & 139 == base && ((t & 4 != 0) <==> flag == 4) && (t >> 4) & 7 == skip)
        by (bit_vector)
        requires
            base == 1 || base == 2 || base == 8 || base == 128,
            flag == 0 || flag == 4,
            0 <= skip <= 7,
            t == base + flag + 16 * skip,
    ;
}

impl HitObjectExtrasView {
    /// Whether the overrides are read back once they are written.
    pub open spec fn valid(self) -> bool {
        is_file_name(self.filename)
    }
}

impl HitCircleView {
    /// Whether the hit circle is read back once it is written.
    pub open spec fn valid(self) -> bool {
        self.wf() && self.extras.valid()
    }
}

impl SliderView {
    /// Whether the slider is read back once it is written.
    pub open spec fn valid(self) -> bool {
        self.wf() && self.extras.valid()
    }
}

impl SpinnerView {
    /// Whether the spinner is read back once it is written.
    pub open spec fn valid(self) -> bool {
        self.wf() && self.extras.valid()
    }
}

impl HoldNoteView {
    /// Whether the hold note is read back once it is written.
    pub open spec fn valid(self) -> bool {
        self.wf() && self.extras.valid()
    }
}

impl HitObjectView {
    /// Whether the hit object is read back once it is written.
    pub open spec fn valid(self) -> bool {
        match self {
            HitObjectView::HitCircle(c) => c.valid(),
            HitObjectView::Slider(s) => s.valid(),
            HitObjectView::Spinner(s) => s.valid(),
            HitObjectView::HoldNote(n) => n.valid(),
        }
    }
}

/// The five fields that the four kinds of hit object share, as they are written.
pub open spec fn common_parts(x: i32, y: i32, time: i32, kind: int, hitsound: i32) -> Seq<
    Seq<char>,
> {
    seq![
        int_text(x as int),
        int_text(y as int),
        int_text(time as int),
        int_text(kind),
        int_text(hitsound as int),
    ]
}

/// The fields that the four kinds of hit object share are plain texts.
proof fn lemma_common_parts_plain(x: i32, y: i32, time: i32, kind: i32, hitsound: i32)
    ensures
        common_parts(x, y, time, kind as int, hitsound).len() == 5,
        forall|i: int|
            0 <= i < 5 ==> is_plain(#[trigger] common_parts(x, y, time, kind as int, hitsound)[i]),
{
    lemma_number_reads_back(x);
    lemma_number_reads_back(y);
    lemma_number_reads_back(time);
    lemma_number_reads_back(kind);
    lemma_number_reads_back(hitsound);
}

/// The fields that the four kinds of hit object share are read back from a record that
/// starts with them.
proof fn lemma_common_reads_back(
    x: i32,
    y: i32,
    time: i32,
    kind: i32,
    hitsound: i32,
    rest: Seq<Seq<char>>,
)
    ensures
        common_of(common_parts(x, y, time, kind as int, hitsound) + rest) == Ok::<
            HitCommon,
            ErrorView,
        >(HitCommon { x, y, time, kind, hitsound }),
{
    lemma_number_reads_back(x);
    lemma_number_reads_back(y);
    lemma_number_reads_back(time);
    lemma_number_reads_back(kind);
    lemma_number_reads_back(hitsound);
}

/// Whether fields can follow the shared fields of a hit object that is written: they
/// hold neither comma nor line feed, and the last of them does not end with a blank.
pub open spec fn are_rest_fields(rest: Seq<Seq<char>>) -> bool {
    &&& rest.len() > 0
    &&& forall|i: int| 0 <= i < rest.len() ==> lacks(#[trigger] rest[i], ',')
    &&& forall|i: int| 0 <= i < rest.len() ==> lacks(#[trigger] rest[i], '\n')
    &&& rest.last().len() > 0
    &&& !is_space(rest.last().last())
}

/// The fields of a record, of which the first five are plain and the others hold neither
/// `c`, hold no `c`.
proof fn lemma_fields_lack(parts: Seq<Seq<char>>, c: char)
    requires
        parts.len() >= 5,
        !is_number_char(c),
        forall|i: int| 0 <= i < 5 ==> is_plain(#[trigger] parts[i]),
        forall|i: int| 5 <= i < parts.len() ==> lacks(#[trigger] parts[i], c),
    ensures
        all_lack(parts, c),
{
    assert forall|i: int| 0 <= i < parts.len() implies lacks(#[trigger] parts[i], c) by {
        if i < 5 {
            lemma_plain_lacks(parts[i], c);
        }
    }
}

/// A record whose fields hold neither comma nor line feed is one line, and its fields
/// are read back from it.
proof fn lemma_record_fields(parts: Seq<Seq<char>>)
    requires
        parts.len() >= 5,
        forall|i: int| 0 <= i < 5 ==> is_plain(#[trigger] parts[i]),
        forall|i: int| 5 <= i < parts.len() ==> lacks(#[trigger] parts[i], ','),
        forall|i: int| 5 <= i < parts.len() ==> lacks(#[trigger] parts[i], '\n'),
    ensures
        split(join(parts, ','), ',') == parts,
        lacks(join(parts, ','), '\n'),
{
    lemma_fields_lack(parts, ',');
    lemma_fields_lack(parts, '\n');
    lemma_join_lacks(parts, ',', '\n');
    lemma_split_join(parts, ',');
}

/// A record starts as its first field does and ends as its last field does.
proof fn lemma_record_ends(parts: Seq<Seq<char>>)
    requires
        parts.len() >= 5,
        forall|i: int| 0 <= i < 5 ==> is_plain(#[trigger] parts[i]),
        parts.last().len() > 0,
        !is_space(parts.last().last()),
    ensures
        join(parts, ',').len() > 0,
        is_number_char(join(parts, ',')[0]),
        !is_space(join(parts, ',').last()),
{
    assert(is_plain(parts[0]));
    assert(is_number_char(parts[0][0]));
    lemma_join_first(parts, ',');
    crate::readback::joining::lemma_join_last(parts, ',');
}

/// What a hit object is read as follows from its fields.
proof fn lemma_hit_object_of_fields(text: Seq<char>, c: HitCommon, h: HitObjectView)
    requires
        common_of(split(text, ',')) == Ok::<HitCommon, ErrorView>(c),
        match h {
            HitObjectView::HitCircle(x) => variant_bits(c.kind) == 1 && circle_of(
                c,
                split(text, ','),
            ) == x,
            HitObjectView::Slider(x) => variant_bits(c.kind) == 2 && slider_of(
                c,
                split(text, ','),
            ) == Ok::<SliderView, ErrorView>(x),
            HitObjectView::Spinner(x) => variant_bits(c.kind) == 8 && spinner_of(
                c,
                split(text, ','),
            ) == Ok::<SpinnerView, ErrorView>(x),
            HitObjectView::HoldNote(x) => variant_bits(c.kind) == 128 && hold_note_of(
                c,
                split(text, ','),
            ) == Ok::<HoldNoteView, ErrorView>(x),
        },
    ensures
        hit_object_of(text) == Ok::<HitObjectView, ErrorView>(h),
{
}

/// Whether the fields of a record are those of a hit object that is written: the five
/// shared fields are plain, the others hold neither comma nor line feed, and the last of
/// them does not end with a blank.
pub open spec fn are_record_fields(parts: Seq<Seq<char>>) -> bool {
    &&& parts.len() >= 5
    &&& forall|i: int| 0 <= i < 5 ==> is_plain(#[trigger] parts[i])
    &&& forall|i: int| 5 <= i < parts.len() ==> lacks(#[trigger] parts[i], ',')
    &&& forall|i: int| 5 <= i < parts.len() ==> lacks(#[trigger] parts[i], '\n')
    &&& parts.last().len() > 0
    &&& !is_space(parts.last().last())
}

/// Five plain fields and the fields that can follow them are the fields of a record.
proof fn lemma_fields_ok(head: Seq<Seq<char>>, rest: Seq<Seq<char>>)
    requires
        head.len() == 5,
        forall|i: int| 0 <= i < 5 ==> is_plain(#[trigger] head[i]),
        are_rest_fields(rest),
    ensures
        are_record_fields(head + rest),
{
    let parts = head + rest;
    assert forall|i: int| 0 <= i < 5 implies is_plain(#[trigger] parts[i]) by {
        assert(parts[i] == head[i]);
    }
    assert forall|i: int| 5 <= i < parts.len() implies lacks(#[trigger] parts[i], ',') by {
        assert(parts[i] == rest[i - 5]);
    }
    assert forall|i: int| 5 <= i < parts.len() implies lacks(#[trigger] parts[i], '\n') by {
        assert(parts[i] == rest[i - 5]);
    }
    assert(parts.last() == rest.last());
}

/// Whether `c` holds the shared fields of a hit object of the kind with bit `base`.
pub open spec fn is_common(
    c: HitCommon,
    base: i32,
    x: i32,
    y: i32,
    time: i32,
    new_combo: bool,
    color_skip: i32,
    hitsound: i32,
) -> bool {
    &&& c.x == x
    &&& c.y == y
    &&& c.time == time
    &&& c.hitsound == hitsound
    &&& variant_bits(c.kind) == base
    &&& new_combo_bit(c.kind) == new_combo
    &&& colour_skip_bits(c.kind) == color_skip
}

/// A hit object whose fields are read back is read back from the line that joins them,
/// which is one line that starts with a character that numbers are written with.
proof fn lemma_record_reads_back(
    text: Seq<char>,
    parts: Seq<Seq<char>>,
    c: HitCommon,
    h: HitObjectView,
)
    requires
        text == join(parts, ','),
        are_record_fields(parts),
        common_of(parts) == Ok::<HitCommon, ErrorView>(c),
        match h {
            HitObjectView::HitCircle(x) => variant_bits(c.kind) == 1 && circle_of(c, parts) == x,
            HitObjectView::Slider(x) => variant_bits(c.kind) == 2 && slider_of(c, parts) == Ok::<
                SliderView,
                ErrorView,
            >(x),
            HitObjectView::Spinner(x) => variant_bits(c.kind) == 8 && spinner_of(c, parts) == Ok::<
                SpinnerView,
                ErrorView,
            >(x),
            HitObjectView::HoldNote(x) => variant_bits(c.kind) == 128 && hold_note_of(c, parts)
                == Ok::<HoldNoteView, ErrorView>(x),
        },
    ensures
        hit_object_of(text) == Ok::<HitObjectView, ErrorView>(h),
        lacks(text, '\n'),
        text.len() > 0,
        is_number_char(text[0]),
        !is_space(text.last()),
{
    lemma_record_fields(parts);
    lemma_record_ends(parts);
    lemma_hit_object_of_fields(text, c, h);
}

/// The shared fields of a hit object are read back from the fields that are written,
/// which are the fields of a record where those that follow the shared ones can follow
/// them.
proof fn lemma_common_of_parts(
    base: i32,
    x: i32,
    y: i32,
    time: i32,
    new_combo: bool,
    color_skip: i32,
    hitsound: i32,
    rest: Seq<Seq<char>>,
) -> (c: HitCommon)
    requires
        is_kind_bit(base as int),
        0 <= color_skip <= 7,
        are_rest_fields(rest),
    ensures
        is_common(c, base, x, y, time, new_combo, color_skip, hitsound),
        common_of(
            common_parts(x, y, time, type_byte(base as int, new_combo, color_skip as int), hitsound)
                + rest,
        ) == Ok::<HitCommon, ErrorView>(c),
        are_record_fields(
            common_parts(x, y, time, type_byte(base as int, new_combo, color_skip as int), hitsound)
                + rest,
        ),
{
    let kind = type_byte(base as int, new_combo, color_skip as int);
    lemma_type_bits(base, new_combo, color_skip);
    lemma_common_reads_back(x, y, time, kind as i32, hitsound, rest);
    lemma_common_parts_plain(x, y, time, kind as i32, hitsound);
    lemma_fields_ok(common_parts(x, y, time, kind, hitsound), rest);
    HitCommon { x, y, time, kind: kind as i32, hitsound }
}

/// The fields of a hit circle as they are written.
pub open spec fn circle_parts(c: HitCircleView) -> Seq<Seq<char>> {
    common_parts(c.x, c.y, c.time, type_byte(1, c.new_combo, c.color_skip as int), c.hitsound)
        + seq![extras_text(c.extras)]
}

/// A hit circle is written as its fields with commas between them.
proof fn lemma_circle_text_is_joined(c: HitCircleView)
    ensures
        circle_text(c) == join(circle_parts(c), ','),
{
    assert(circle_parts(c) =~= seq![
        int_text(c.x as int),
        int_text(c.y as int),
        int_text(c.time as int),
        int_text(type_byte(1, c.new_combo, c.color_skip as int)),
        int_text(c.hitsound as int),
        extras_text(c.extras),
    ]);
}

/// The fields of a hit circle that is written are read back.
proof fn lemma_circle_parts(c: HitCircleView) -> (common: HitCommon)
    requires
        c.valid(),
    ensures
        are_record_fields(circle_parts(c)),
        common_of(circle_parts(c)) == Ok::<HitCommon, ErrorView>(common),
        variant_bits(common.kind) == 1,
        circle_of(common, circle_parts(c)) == c,
{
    let parts = circle_parts(c);
    let rest = seq![extras_text(c.extras)];
    assert(are_rest_fields(rest)) by {
        lemma_extras_text_shape(c.extras);
    }
    let common = lemma_common_of_parts(
        1,
        c.x,
        c.y,
        c.time,
        c.new_combo,
        c.color_skip,
        c.hitsound,
        rest,
    );
    assert(parts.len() == 6 && parts[5] == extras_text(c.extras));
    assert(circle_of(common, parts) == c) by {
        lemma_extras_read_back(c.extras);
    }
    common
}

/// A hit circle that is written is read back.
pub proof fn lemma_circle_reads_back(c: HitCircleView)
    requires
        c.valid(),
    ensures
        hit_object_of(circle_text(c)) == Ok::<HitObjectView, ErrorView>(
            HitObjectView::HitCircle(c),
        ),
        lacks(circle_text(c), '\n'),
        circle_text(c).len() > 0,
        is_number_char(circle_text(c)[0]),
        !is_space(circle_text(c).last()),
{
    lemma_circle_text_is_joined(c);
    let common = lemma_circle_parts(c);
    lemma_record_reads_back(circle_text(c), circle_parts(c), common, HitObjectView::HitCircle(c));
}

/// The fields of a spinner as they are written.
pub open spec fn spinner_parts(s: SpinnerView) -> Seq<Seq<char>> {
    common_parts(s.x, s.y, s.time, type_byte(8, s.new_combo, s.color_skip as int), s.hitsound)
        + seq![int_text(s.end_time as int), extras_text(s.extras)]
}

/// A spinner is written as its fields with commas between them.
proof fn lemma_spinner_text_is_joined(s: SpinnerView)
    ensures
        spinner_text(s) == join(spinner_parts(s), ','),
{
    assert(spinner_parts(s) =~= seq![
        int_text(s.x as int),
        int_text(s.y as int),
        int_text(s.time as int),
        int_text(type_byte(8, s.new_combo, s.color_skip as int)),
        int_text(s.hitsound as int),
        int_text(s.end_time as int),
        extras_text(s.extras),
    ]);
}

/// What follows the shared fields of a spinner is read back.
proof fn lemma_spinner_rest_reads_back(s: SpinnerView, c: HitCommon, parts: Seq<Seq<char>>)
    requires
        s.valid(),
        is_common(c, 8, s.x, s.y, s.time, s.new_combo, s.color_skip, s.hitsound),
        parts.len() == 7,
        parts[5] == int_text(s.end_time as int),
        parts[6] == extras_text(s.extras),
    ensures
        spinner_of(c, parts) == Ok::<SpinnerView, ErrorView>(s),
{
    lemma_extras_read_back(s.extras);
    lemma_number_reads_back(s.end_time);
}

/// The fields of a spinner that is written are read back.
proof fn lemma_spinner_parts(s: SpinnerView) -> (common: HitCommon)
    requires
        s.valid(),
    ensures
        are_record_fields(spinner_parts(s)),
        common_of(spinner_parts(s)) == Ok::<HitCommon, ErrorView>(common),
        variant_bits(common.kind) == 8,
        spinner_of(common, spinner_parts(s)) == Ok::<SpinnerView, ErrorView>(s),
{
    let parts = spinner_parts(s);
    let rest = seq![int_text(s.end_time as int), extras_text(s.extras)];
    assert(are_rest_fields(rest)) by {
        lemma_number_reads_back(s.end_time);
        lemma_plain_lacks(int_text(s.end_time as int), ',');
        lemma_plain_lacks(int_text(s.end_time as int), '\n');
        lemma_extras_text_shape(s.extras);
    }
    let common = lemma_common_of_parts(
        8,
        s.x,
        s.y,
        s.time,
        s.new_combo,
        s.color_skip,
        s.hitsound,
        rest,
    );
    assert(parts.len() == 7 && parts[5] == int_text(s.end_time as int) && parts[6]
        == extras_text(s.extras));
    lemma_spinner_rest_reads_back(s, common, parts);
    common
}

/// A spinner that is written is read back.
pub proof fn lemma_spinner_reads_back(s: SpinnerView)
    requires
        s.valid(),
    ensures
        hit_object_of(spinner_text(s)) == Ok::<HitObjectView, ErrorView>(
            HitObjectView::Spinner(s),
        ),
        lacks(spinner_text(s), '\n'),
        spinner_text(s).len() > 0,
        is_number_char(spinner_text(s)[0]),
        !is_space(spinner_text(s).last()),
{
    lemma_spinner_text_is_joined(s);
    let common = lemma_spinner_parts(s);
    lemma_record_reads_back(spinner_text(s), spinner_parts(s), common, HitObjectView::Spinner(s));
}

/// The last field of a hold note: the time at which it ends, a colon, and its sample
/// overrides.
pub open spec fn hold_field(n: HoldNoteView) -> Seq<char> {
    int_text(n.end_time as int).push(':') + extras_text(n.extras)
}

/// The fields of a hold note as they are written.
pub open spec fn hold_note_parts(n: HoldNoteView) -> Seq<Seq<char>> {
    common_parts(n.x, n.y, n.time, type_byte(128, n.new_combo, n.color_skip as int), n.hitsound)
        + seq![hold_field(n)]
}

/// The last field of a hold note holds no comma and no line feed, and its first colon
/// stands after the time at which the note ends.
proof fn lemma_hold_field_shape(n: HoldNoteView)
    requires
        n.valid(),
    ensures
        lacks(hold_field(n), ','),
        lacks(hold_field(n), '\n'),
        hold_field(n).len() > 0,
        !is_space(hold_field(n).last()),
        first_index(hold_field(n), ':') == int_text(n.end_time as int).len(),
        first_index(hold_field(n), ':') < hold_field(n).len(),
        hold_field(n).take(first_index(hold_field(n), ':')) == int_text(n.end_time as int),
        hold_field(n).skip(first_index(hold_field(n), ':') + 1) == extras_text(n.extras),
{
    let end = int_text(n.end_time as int);
    let field = hold_field(n);
    lemma_extras_text_shape(n.extras);
    lemma_number_reads_back(n.end_time);
    lemma_plain_lacks(end, ',');
    lemma_plain_lacks(end, '\n');
    lemma_plain_lacks(end, ':');
    assert forall|i: int| 0 <= i < field.len() implies field[i] != ',' && field[i] != '\n' by {
        if i < end.len() {
            assert(field[i] == end[i]);
        } else if i > end.len() {
            assert(field[i] == extras_text(n.extras)[i - end.len() - 1]);
        }
    }
    assert(field.last() == extras_text(n.extras).last());
    crate::readback::joining::lemma_first_index_after(end, ':', extras_text(n.extras));
}

/// What follows the shared fields of a hold note is read back.
proof fn lemma_hold_rest_reads_back(n: HoldNoteView, c: HitCommon, parts: Seq<Seq<char>>)
    requires
        n.valid(),
        is_common(c, 128, n.x, n.y, n.time, n.new_combo, n.color_skip, n.hitsound),
        parts.len() == 6,
        parts[5] == hold_field(n),
    ensures
        hold_note_of(c, parts) == Ok::<HoldNoteView, ErrorView>(n),
{
    lemma_hold_field_shape(n);
    lemma_extras_read_back(n.extras);
    lemma_number_reads_back(n.end_time);
}

/// A hold note is written as its fields with commas between them.
proof fn lemma_hold_note_text_is_joined(n: HoldNoteView)
    ensures
        hold_note_text(n) == join(hold_note_parts(n), ','),
{
    assert(hold_note_parts(n) =~= seq![
        int_text(n.x as int),
        int_text(n.y as int),
        int_text(n.time as int),
        int_text(type_byte(128, n.new_combo, n.color_skip as int)),
        int_text(n.hitsound as int),
        hold_field(n),
    ]);
}

/// The fields of a hold note that is written are read back.
proof fn lemma_hold_note_parts(n: HoldNoteView) -> (common: HitCommon)
    requires
        n.valid(),
    ensures
        are_record_fields(hold_note_parts(n)),
        common_of(hold_note_parts(n)) == Ok::<HitCommon, ErrorView>(common),
        variant_bits(common.kind) == 128,
        hold_note_of(common, hold_note_parts(n)) == Ok::<HoldNoteView, ErrorView>(n),
{
    let parts = hold_note_parts(n);
    let rest = seq![hold_field(n)];
    assert(are_rest_fields(rest)) by {
        lemma_hold_field_shape(n);
    }
    let common = lemma_common_of_parts(
        128,
        n.x,
        n.y,
        n.time,
        n.new_combo,
        n.color_skip,
        n.hitsound,
        rest,
    );
    assert(parts.len() == 6 && parts[5] == hold_field(n));
    lemma_hold_rest_reads_back(n, common, parts);
    common
}

/// A hold note that is written is read back.
pub proof fn lemma_hold_note_reads_back(n: HoldNoteView)
    requires
        n.valid(),
    ensures
        hit_object_of(hold_note_text(n)) == Ok::<HitObjectView, ErrorView>(
            HitObjectView::HoldNote(n),
        ),
        lacks(hold_note_text(n), '\n'),
        hold_note_text(n).len() > 0,
        is_number_char(hold_note_text(n)[0]),
        !is_space(hold_note_text(n).last()),
{
    lemma_hold_note_text_is_joined(n);
    let common = lemma_hold_note_parts(n);
    lemma_record_reads_back(
        hold_note_text(n),
        hold_note_parts(n),
        common,
        HitObjectView::HoldNote(n),
    );
}

/// The fields of a slider as they are written.
pub open spec fn slider_parts(s: SliderView) -> Seq<Seq<char>> {
    common_parts(s.x, s.y, s.time, type_byte(2, s.new_combo, s.color_skip as int), s.hitsound)
        + slider_rest(s)
}

/// The fields of a slider that follow the shared ones.
pub open spec fn slider_rest(s: SliderView) -> Seq<Seq<char>> {
    seq![
        curve_text(s.slider_type, s.curve_points),
        int_text(s.repeat as int),
        s.pixel_length,
        join(number_texts(s.edge_hitsounds), '|'),
        join(pair_texts(s.edge_additions), '|'),
        extras_text(s.extras),
    ]
}

/// The fields of a slider that follow the shared ones hold no `c`, where `c` is a comma
/// or a line feed.
proof fn lemma_slider_rest_lacks(s: SliderView, c: char)
    requires
        s.valid(),
        c == ',' || c == '\n',
    ensures
        forall|i: int| 0 <= i < 6 ==> lacks(#[trigger] slider_rest(s)[i], c),
{
    lemma_curve_text_shape(s.slider_type, s.curve_points, c);
    lemma_number_reads_back(s.repeat);
    lemma_plain_lacks(int_text(s.repeat as int), c);
    lemma_decimal_reads_back(s.pixel_length);
    lemma_plain_lacks(s.pixel_length, c);
    lemma_number_texts_lack(s.edge_hitsounds, c);
    lemma_join_lacks(number_texts(s.edge_hitsounds), '|', c);
    lemma_pair_texts_lack(s.edge_additions, c);
    lemma_join_lacks(pair_texts(s.edge_additions), '|', c);
    lemma_extras_text_shape(s.extras);
}

/// The fields of a slider that follow the shared ones can follow them.
proof fn lemma_slider_rest_fields(s: SliderView)
    requires
        s.valid(),
    ensures
        are_rest_fields(slider_rest(s)),
{
    lemma_slider_rest_lacks(s, ',');
    lemma_slider_rest_lacks(s, '\n');
    lemma_extras_text_shape(s.extras);
    assert(slider_rest(s).last() == extras_text(s.extras));
}

/// What follows the shared fields of a slider is read back.
proof fn lemma_slider_rest_reads_back(s: SliderView, c: HitCommon)
    requires
        s.valid(),
        is_common(c, 2, s.x, s.y, s.time, s.new_combo, s.color_skip, s.hitsound),
    ensures
        slider_of(c, slider_parts(s)) == Ok::<SliderView, ErrorView>(s),
{
    let parts = slider_parts(s);
    assert(parts.len() == 11);
    assert(parts[5] == curve_text(s.slider_type, s.curve_points));
    assert(parts[6] == int_text(s.repeat as int));
    assert(parts[7] == s.pixel_length);
    assert(parts[8] == join(number_texts(s.edge_hitsounds), '|'));
    assert(parts[9] == join(pair_texts(s.edge_additions), '|'));
    assert(parts[10] == extras_text(s.extras));
    lemma_curve_reads_back(s.slider_type, s.curve_points);
    lemma_number_reads_back(s.repeat);
    lemma_decimal_reads_back(s.pixel_length);
    lemma_number_list_reads_back(s.edge_hitsounds);
    lemma_pair_list_reads_back(s.edge_additions);
    lemma_extras_read_back(s.extras);
    assert(numbers_at(parts, 8) =~= s.edge_hitsounds);
    assert(coords_at(parts, 9) =~= s.edge_additions);
    assert(extras_at(parts, 10) == s.extras);
}

/// A slider is written as its fields with commas between them.
proof fn lemma_slider_text_is_joined(s: SliderView)
    ensures
        slider_text(s) == join(slider_parts(s), ','),
{
    assert(slider_parts(s) =~= seq![
        int_text(s.x as int),
        int_text(s.y as int),
        int_text(s.time as int),
        int_text(type_byte(2, s.new_combo, s.color_skip as int)),
        int_text(s.hitsound as int),
        curve_text(s.slider_type, s.curve_points),
        int_text(s.repeat as int),
        s.pixel_length,
        join(number_texts(s.edge_hitsounds), '|'),
        join(pair_texts(s.edge_additions), '|'),
        extras_text(s.extras),
    ]);
}

/// The fields of a slider that is written are read back.
proof fn lemma_slider_parts(s: SliderView) -> (common: HitCommon)
    requires
        s.valid(),
    ensures
        are_record_fields(slider_parts(s)),
        common_of(slider_parts(s)) == Ok::<HitCommon, ErrorView>(common),
        variant_bits(common.kind) == 2,
        slider_of(common, slider_parts(s)) == Ok::<SliderView, ErrorView>(s),
{
    lemma_slider_rest_fields(s);
    let common = lemma_common_of_parts(
        2,
        s.x,
        s.y,
        s.time,
        s.new_combo,
        s.color_skip,
        s.hitsound,
        slider_rest(s),
    );
    lemma_slider_rest_reads_back(s, common);
    common
}

/// A slider that is written is read back.
pub proof fn lemma_slider_reads_back(s: SliderView)
    requires
        s.valid(),
    ensures
        hit_object_of(slider_text(s)) == Ok::<HitObjectView, ErrorView>(HitObjectView::Slider(s)),
        lacks(slider_text(s), '\n'),
        slider_text(s).len() > 0,
        is_number_char(slider_text(s)[0]),
        !is_space(slider_text(s).last()),
{
    lemma_slider_text_is_joined(s);
    let common = lemma_slider_parts(s);
    lemma_record_reads_back(slider_text(s), slider_parts(s), common, HitObjectView::Slider(s));
}

/// A hit object that is written is one line, which is read back as the hit object.
pub proof fn lemma_hit_object_reads_back(h: HitObjectView)
    requires
        h.valid(),
    ensures
        hit_object_of(hit_object_text(h)) == Ok::<HitObjectView, ErrorView>(h),
        lacks(hit_object_text(h), '\n'),
        hit_object_text(h).len() > 0,
        is_number_char(hit_object_text(h)[0]),
        !is_space(hit_object_text(h).last()),
{
    match h {
        HitObjectView::HitCircle(c) => lemma_circle_reads_back(c),
        HitObjectView::Slider(s) => lemma_slider_reads_back(s),
        HitObjectView::Spinner(s) => lemma_spinner_reads_back(s),
        HitObjectView::HoldNote(n) => lemma_hold_note_reads_back(n),
    }
}

} // verus!
