use crate::beatmap::{SectionView, header_title, section_at};
use crate::colours::{
    ColourScan, ColourScanView, colours_from, colours_of, default_colours, entry_le,
    is_combo_key, sort_entries,
};
use crate::error::ErrorView;
use crate::grammar::number_of;
use crate::keyed::{KeyedSection, pair_of, scan_pairs};
use crate::model::{Colour, ColoursSectionView};
use crate::number::{int_text, nat_text};
use crate::readback::joining::{
    is_trimmed, lacks, lemma_first_index_after, lemma_join_last, lemma_not_blank,
    lemma_trim_after_blank, lemma_trim_of_trimmed,
};
use crate::readback::keys::{
    block_at, header, is_key, is_key_char, is_line, lemma_block_line, lemma_header_reads_back,
    lemma_key_matches_itself, lemma_key_shape, lemma_keys_differ, lemma_scan_stop,
    lemma_trim_before_blank, pairs_stop_at,
};
use crate::readback::lines::{are_lines, lemma_unblank_all, unblank};
use crate::readback::plain::lemma_nat_text_plain;
use crate::readback::records::{
    lemma_colour_reads_back, lemma_colour_text_shape, lemma_number_reads_back,
};
use crate::serialize::{colour_entry, colour_text, colours_lines, combo_line};
use vstd::prelude::*;

verus! {

impl ColoursSectionView {
    /// Whether the section is read back once it is written: the places of its combo
    /// colours can be written as 32-bit numbers.
    pub open spec fn valid(self) -> bool {
        self.colours.len() <= i32::MAX
    }
}

/// A colour that is written has no blank at either end.
proof fn lemma_colour_text_trimmed(c: Colour)
    ensures
        is_trimmed(colour_text(c)),
        colour_text(c).len() > 0,
        lacks(colour_text(c), '\n'),
        colour_text(c).last() != '\r',
{
    lemma_colour_text_shape(c, '\n');
    let parts = crate::readback::records::colour_parts(c);
    lemma_number_reads_back(c.2);
    lemma_join_last(parts, ',');
    let last = int_text(c.2 as int);
    assert(crate::readback::plain::is_number_char(last.last()));
}

/// A line that stores a colour under a key is one line that is not blank and is no
/// header, and the key and the colour are read back from it.
proof fn lemma_colour_entry_reads_back(key: Seq<char>, c: Colour)
    requires
        is_key(key),
    ensures
        pair_of(colour_entry(key, c)) == Some((key, colour_text(c))),
        is_line(colour_entry(key, c)),
        header_title(colour_entry(key, c)) is None,
{
    let line = colour_entry(key, c);
    let value = colour_text(c);
    let before = key.push(' ');
    let rest = seq![' '] + value;
    lemma_key_shape(key);
    lemma_colour_text_trimmed(c);
    assert(line =~= before.push(':') + rest);
    assert(lacks(before, ':')) by {
        assert forall|i: int| 0 <= i < before.len() implies before[i] != ':' by {
            if i < key.len() {
                assert(before[i] == key[i]);
            }
        }
    }
    lemma_first_index_after(before, ':', rest);
    lemma_trim_before_blank(key, ' ');
    lemma_trim_after_blank(' ', value);
    lemma_trim_of_trimmed(value);
    assert(line[0] == key[0]);
    lemma_not_blank(line);
    assert(line.last() == value.last());
    assert forall|i: int| 0 <= i < line.len() implies line[i] != '\n' by {
        if i < key.len() {
            assert(line[i] == key[i]);
        } else if i >= key.len() + 3 {
            assert(line[i] == value[i - key.len() - 3]);
        }
    }
}

/// The key of the combo colour at place `i`, which is counted from zero.
pub open spec fn combo_key(i: int) -> Seq<char> {
    "Combo"@ + nat_text((i + 1) as nat)
}

/// The key of a combo colour is a key that names a combo colour, and the number in it is
/// read back.
proof fn lemma_combo_key(i: int)
    requires
        0 <= i < i32::MAX,
    ensures
        is_key(combo_key(i)),
        is_combo_key(combo_key(i)),
        number_of(combo_key(i).skip(5)) == Ok::<i32, ErrorView>((i + 1) as i32),
{
    reveal_strlit("Combo");
    let digits = nat_text((i + 1) as nat);
    let key = combo_key(i);
    lemma_nat_text_plain((i + 1) as nat);
    crate::number::lemma_nat_text_reads_back((i + 1) as nat);
    assert forall|k: int| 0 <= k < key.len() implies is_key_char(#[trigger] key[k]) by {
        if k >= 5 {
            assert(key[k] == digits[k - 5]);
            assert(crate::text::is_digit(digits[k - 5]));
        }
    }
    assert(key.take(5) =~= "Combo"@);
    assert(key.skip(5) =~= digits);
    assert(digits == int_text(i + 1));
    lemma_number_reads_back((i + 1) as i32);
}

/// The combo colours as a scan gathers them: each with its place, counted from one.
pub open spec fn numbered(colours: Seq<Colour>) -> Seq<(i32, Colour)> {
    Seq::new(colours.len(), |i: int| ((i + 1) as i32, colours[i]))
}

/// Entries whose numbers grow are in order already.
proof fn lemma_sort_keeps_growing(s: Seq<(i32, Colour)>)
    requires
        forall|i: int, j: int| 0 <= i < j < s.len() ==> s[i].0 < s[j].0,
    ensures
        sort_entries(s) == s,
    decreases s.len(),
{
    if s.len() > 0 {
        let init = s.drop_last();
        assert forall|i: int, j: int| 0 <= i < j < init.len() implies init[i].0 < init[j].0 by {
            assert(init[i] == s[i] && init[j] == s[j]);
        }
        lemma_sort_keeps_growing(init);
        if init.len() > 0 {
            assert(init.last() == s[s.len() - 2]);
            assert(entry_le(init.last(), s.last()));
        }
        assert(init.push(s.last()) =~= s);
    }
}

/// The state of a scan that has read the first `k` combo colours.
pub open spec fn scanned(colours: Seq<Colour>, k: int) -> ColourScanView {
    ColourScanView { combos: numbered(colours.take(k)), section: default_colours() }
}

/// The lines of the combo colours are read one after the other.
proof fn lemma_combo_scan(
    lines: Seq<(nat, Seq<char>)>,
    p: nat,
    c: ColoursSectionView,
    k: int,
)
    requires
        c.valid(),
        block_at(lines, p, colours_lines(c)),
        0 <= k <= c.colours.len(),
    ensures
        scan_pairs::<ColourScan>(lines, p + 1, scanned(c.colours, 0)) == scan_pairs::<ColourScan>(
            lines,
            (p + 1 + k) as nat,
            scanned(c.colours, k),
        ),
    decreases k,
{
    if k > 0 {
        lemma_combo_scan(lines, p, c, k - 1);
        let i = k - 1;
        let at = (p + 1 + i) as nat;
        let before = scanned(c.colours, i);
        let after = scanned(c.colours, k);
        lemma_block_line(lines, p, colours_lines(c), 1 + i);
        assert(colours_lines(c)[1 + i] == combo_line(i, c.colours[i]));
        lemma_combo_key(i);
        lemma_colour_entry_reads_back(combo_key(i), c.colours[i]);
        lemma_colour_reads_back(c.colours[i]);
        assert(before.combos.push(((i + 1) as i32, c.colours[i])) =~= after.combos) by {
            assert(c.colours.take(k).drop_last() =~= c.colours.take(i));
        }
        assert(ColourScan::assigned(before, combo_key(i), colour_text(c.colours[i])) == Ok::<
            ColourScanView,
            ErrorView,
        >(after));
    }
}

/// The three lines of the colours of sliders are read back.
proof fn lemma_slider_colours_scan(
    lines: Seq<(nat, Seq<char>)>,
    at: nat,
    s: ColourScanView,
    c: ColoursSectionView,
)
    requires
        at + 3 <= lines.len(),
        lines[at as int].1 == colour_entry("SliderBody"@, c.slider_body),
        lines[at as int + 1].1 == colour_entry("SliderTrackOverride"@, c.slider_track_override),
        lines[at as int + 2].1 == colour_entry("SliderBorder"@, c.slider_border),
        pairs_stop_at(lines, at + 3),
    ensures
        scan_pairs::<ColourScan>(lines, at, s) == (
            Ok::<ColourScanView, ErrorView>(
                ColourScanView {
                    section: ColoursSectionView {
                        slider_body: c.slider_body,
                        slider_track_override: c.slider_track_override,
                        slider_border: c.slider_border,
                        ..s.section
                    },
                    ..s
                },
            ),
            at + 3,
        ),
{
    reveal_strlit("SliderBody");
    reveal_strlit("SliderTrackOverride");
    reveal_strlit("SliderBorder");
    reveal_strlit("Combo");
    let body = "SliderBody"@;
    let track = "SliderTrackOverride"@;
    let border = "SliderBorder"@;
    assert(is_key(body) && is_key(track) && is_key(border));
    assert(!is_combo_key(body)) by {
        assert(body.take(5)[0] != "Combo"@[0]);
    }
    assert(!is_combo_key(track)) by {
        assert(track.take(5)[0] != "Combo"@[0]);
    }
    assert(!is_combo_key(border)) by {
        assert(border.take(5)[0] != "Combo"@[0]);
    }
    lemma_key_matches_itself(body);
    lemma_key_matches_itself(track);
    lemma_key_matches_itself(border);
    lemma_keys_differ(body, track);
    lemma_keys_differ(body, border);
    lemma_keys_differ(track, border);
    let s1 = ColourScanView {
        section: ColoursSectionView { slider_body: c.slider_body, ..s.section },
        ..s
    };
    let s2 = ColourScanView {
        section: ColoursSectionView {
            slider_track_override: c.slider_track_override,
            ..s1.section
        },
        ..s1
    };
    let s3 = ColourScanView {
        section: ColoursSectionView { slider_border: c.slider_border, ..s2.section },
        ..s2
    };
    assert(scan_pairs::<ColourScan>(lines, at, s) == scan_pairs::<ColourScan>(lines, at + 1, s1))
        by {
        lemma_colour_entry_reads_back(body, c.slider_body);
        lemma_colour_reads_back(c.slider_body);
    }
    assert(scan_pairs::<ColourScan>(lines, at + 1, s1) == scan_pairs::<ColourScan>(
        lines,
        at + 2,
        s2,
    )) by {
        lemma_colour_entry_reads_back(track, c.slider_track_override);
        lemma_colour_reads_back(c.slider_track_override);
    }
    assert(scan_pairs::<ColourScan>(lines, at + 2, s2) == scan_pairs::<ColourScan>(
        lines,
        at + 3,
        s3,
    )) by {
        lemma_colour_entry_reads_back(border, c.slider_border);
        lemma_colour_reads_back(c.slider_border);
    }
    lemma_scan_stop::<ColourScan>(lines, at + 3, s3);
}

/// The lines of the colours section can each stand on a line of its own, and none of
/// them is blank.
pub proof fn lemma_colours_lines_shape(c: ColoursSectionView)
    requires
        c.valid(),
    ensures
        are_lines(colours_lines(c)),
        colours_lines(c).len() == c.colours.len() + 4,
        unblank(colours_lines(c)) == colours_lines(c),
{
    let lines = colours_lines(c);
    let n = c.colours.len() as int;
    assert forall|i: int| 0 <= i < lines.len() implies is_line(#[trigger] lines[i]) by {
        reveal_strlit("SliderBody");
        reveal_strlit("SliderTrackOverride");
        reveal_strlit("SliderBorder");
        reveal_strlit("Colours");
        reveal_strlit("[Colours]");
        if i == 0 {
            assert("[Colours]"@ =~= header("Colours"@));
            lemma_header_reads_back("Colours"@);
        } else if i <= n {
            assert(lines[i] == combo_line(i - 1, c.colours[i - 1]));
            lemma_combo_key(i - 1);
            lemma_colour_entry_reads_back(combo_key(i - 1), c.colours[i - 1]);
        } else if i == n + 1 {
            lemma_colour_entry_reads_back("SliderBody"@, c.slider_body);
        } else if i == n + 2 {
            lemma_colour_entry_reads_back("SliderTrackOverride"@, c.slider_track_override);
        } else {
            lemma_colour_entry_reads_back("SliderBorder"@, c.slider_border);
        }
    }
    lemma_unblank_all(lines);
}

/// The colours section that is written is read back, up to the line that follows it.
pub proof fn lemma_colours_section(lines: Seq<(nat, Seq<char>)>, p: nat, c: ColoursSectionView)
    requires
        c.valid(),
        block_at(lines, p, colours_lines(c)),
        pairs_stop_at(lines, p + colours_lines(c).len()),
    ensures
        section_at(lines, p) == (
            Ok::<SectionView, ErrorView>(SectionView::Colours(c)),
            p + colours_lines(c).len(),
        ),
{
    let n = c.colours.len();
    let block = colours_lines(c);
    assert(block.len() == n + 4);
    lemma_combo_scan(lines, p, c, n as int);
    let gathered = scanned(c.colours, n as int);
    let at = (p + 1 + n) as nat;
    lemma_block_line(lines, p, block, 1 + n as int);
    lemma_block_line(lines, p, block, 2 + n as int);
    lemma_block_line(lines, p, block, 3 + n as int);
    lemma_slider_colours_scan(lines, at, gathered, c);
    assert(c.colours.take(n as int) =~= c.colours);
    assert(sort_entries(numbered(c.colours)) == numbered(c.colours)) by {
        lemma_sort_keeps_growing(numbered(c.colours));
    }
    assert(colours_of(numbered(c.colours)) =~= c.colours);
    assert(scanned(c.colours, 0).combos =~= Seq::<(i32, Colour)>::empty());
    assert(colours_from(lines, p + 1) == (
        Ok::<ColoursSectionView, ErrorView>(c),
        p + colours_lines(c).len(),
    ));
    assert(section_at(lines, p) == (
        Ok::<SectionView, ErrorView>(SectionView::Colours(c)),
        p + colours_lines(c).len(),
    )) by {
        reveal(section_at);
        lemma_block_line(lines, p, block, 0);
        reveal_strlit("Colours");
        reveal_strlit("[Colours]");
        reveal_strlit("General");
        reveal_strlit("Editor");
        reveal_strlit("Metadata");
        reveal_strlit("Difficulty");
        reveal_strlit("Events");
        reveal_strlit("TimingPoints");
        reveal_strlit("HitObjects");
        assert("[Colours]"@ =~= header("Colours"@));
        lemma_header_reads_back("Colours"@);
        assert("Colours"@[0] != "General"@[0]);
    }
}

} // verus!
