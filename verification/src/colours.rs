use crate::caseless::{key_matches, keys_match};
use crate::cursor::ParseState;
use crate::error::{Outcome, Result};
use crate::grammar::{colour_of, number_of};
use crate::keyed::{KeyedSection, read_pairs, scan_pairs};
use crate::model::{Colour, ColoursSection, ColoursSectionView};
use crate::number::{all_digits, digits_only};
use crate::parse::{number_in, parse_colour};
use crate::text::{starts_at, to_chars};
use vstd::prelude::*;

verus! {

/// Black, and no combo colours: the colours of a beatmap that states none.
pub open spec fn default_colours() -> ColoursSectionView {
    ColoursSectionView {
        colours: Seq::empty(),
        slider_body: Colour(0, 0, 0),
        slider_track_override: Colour(0, 0, 0),
        slider_border: Colour(0, 0, 0),
    }
}

impl Default for Colour {
    fn default() -> (r: Colour)
        ensures
            r == Colour(0, 0, 0),
    {
        Colour(0, 0, 0)
    }
}

impl Default for ColoursSection {
    fn default() -> (r: ColoursSection)
        ensures
            r@ == default_colours(),
    {
        ColoursSection {
            colours: Vec::new(),
            slider_body: Colour(0, 0, 0),
            slider_track_override: Colour(0, 0, 0),
            slider_border: Colour(0, 0, 0),
        }
    }
}

/// Whether a combo colour comes before another or is the same: by the number in its key
/// first, then by red, green and blue.
pub open spec fn entry_le(a: (i32, Colour), b: (i32, Colour)) -> bool {
    a.0 < b.0 || (a.0 == b.0 && (a.1.0 < b.1.0 || (a.1.0 == b.1.0 && (a.1.1 < b.1.1 || (a.1.1
        == b.1.1 && a.1.2 <= b.1.2)))))
}

/// Whether the entries are in ascending order.
pub open spec fn is_sorted(s: Seq<(i32, Colour)>) -> bool {
    forall|i: int, j: int| 0 <= i <= j < s.len() ==> entry_le(s[i], s[j])
}

/// A sorted list with one more entry, put after the last entry that does not come after it.
pub open spec fn insert_entry(sorted: Seq<(i32, Colour)>, e: (i32, Colour)) -> Seq<
    (i32, Colour),
>
    decreases sorted.len(),
{
    if sorted.len() == 0 || entry_le(sorted.last(), e) {
        sorted.push(e)
    } else {
        insert_entry(sorted.drop_last(), e).push(sorted.last())
    }
}

/// The entries in ascending order.
pub open spec fn sort_entries(s: Seq<(i32, Colour)>) -> Seq<(i32, Colour)>
    decreases s.len(),
{
    if s.len() == 0 {
        s
    } else {
        insert_entry(sort_entries(s.drop_last()), s.last())
    }
}

/// The colours of the entries, in the order of the entries.
pub open spec fn colours_of(entries: Seq<(i32, Colour)>) -> Seq<Colour> {
    Seq::new(entries.len(), |i: int| entries[i].1)
}

/// Whether a combo colour comes before another or is the same.
pub fn entry_before(a: (i32, Colour), b: (i32, Colour)) -> (r: bool)
    ensures
        r == entry_le(a, b),
{
    a.0 < b.0 || (a.0 == b.0 && (a.1.0 < b.1.0 || (a.1.0 == b.1.0 && (a.1.1 < b.1.1 || (a.1.1
        == b.1.1 && a.1.2 <= b.1.2)))))
}

/// One more entry in a sorted list stands at the place after the last entry that does not
/// come after it.
proof fn lemma_insert_at(sorted: Seq<(i32, Colour)>, e: (i32, Colour), p: int)
    requires
        0 <= p <= sorted.len(),
        p > 0 ==> entry_le(sorted[p - 1], e),
        forall|j: int| p <= j < sorted.len() ==> !entry_le(sorted[j], e),
    ensures
        insert_entry(sorted, e) == sorted.insert(p, e),
    decreases sorted.len() - p,
{
    if p == sorted.len() {
        assert(sorted.insert(p, e) =~= sorted.push(e));
    } else {
        lemma_insert_at(sorted.drop_last(), e, p);
        assert(sorted.insert(p, e) =~= sorted.drop_last().insert(p, e).push(sorted.last()));
    }
}

/// One more entry in a sorted list of entries that are no greater than `top` leaves them
/// no greater than `top`, where the entry is no greater either.
proof fn lemma_insert_entry_bound(sorted: Seq<(i32, Colour)>, e: (i32, Colour), top: (i32, Colour))
    requires
        forall|i: int| 0 <= i < sorted.len() ==> entry_le(#[trigger] sorted[i], top),
        entry_le(e, top),
    ensures
        insert_entry(sorted, e).len() == sorted.len() + 1,
        forall|i: int|
            0 <= i < insert_entry(sorted, e).len() ==> entry_le(
                #[trigger] insert_entry(sorted, e)[i],
                top,
            ),
    decreases sorted.len(),
{
    if !(sorted.len() == 0 || entry_le(sorted.last(), e)) {
        let init = sorted.drop_last();
        assert forall|i: int| 0 <= i < init.len() implies entry_le(#[trigger] init[i], top) by {
            assert(init[i] == sorted[i]);
        }
        lemma_insert_entry_bound(init, e, top);
    }
}

/// One more entry in a sorted list leaves it sorted, and adds the entry to what it holds.
pub proof fn lemma_insert_entry(sorted: Seq<(i32, Colour)>, e: (i32, Colour))
    requires
        is_sorted(sorted),
    ensures
        is_sorted(insert_entry(sorted, e)),
        insert_entry(sorted, e).to_multiset() == sorted.to_multiset().insert(e),
    decreases sorted.len(),
{
    broadcast use vstd::seq_lib::to_multiset_build;

    let r = insert_entry(sorted, e);
    if sorted.len() == 0 || entry_le(sorted.last(), e) {
        assert forall|i: int, j: int| 0 <= i <= j < r.len() implies entry_le(r[i], r[j]) by {
            if j == sorted.len() && i < j {
                assert(entry_le(sorted[i], sorted.last()));
            }
        }
    } else {
        let init = sorted.drop_last();
        let last = sorted.last();
        assert(is_sorted(init)) by {
            assert forall|i: int, j: int| 0 <= i <= j < init.len() implies entry_le(
                init[i],
                init[j],
            ) by {
                assert(init[i] == sorted[i] && init[j] == sorted[j]);
            }
        }
        lemma_insert_entry(init, e);
        assert forall|i: int| 0 <= i < init.len() implies entry_le(#[trigger] init[i], last) by {
            assert(init[i] == sorted[i]);
        }
        lemma_insert_entry_bound(init, e, last);
        let before = insert_entry(init, e);
        assert forall|i: int, j: int| 0 <= i <= j < r.len() implies entry_le(r[i], r[j]) by {
            if j < before.len() {
                assert(r[i] == before[i] && r[j] == before[j]);
            } else if i < before.len() {
                assert(r[i] == before[i]);
            }
        }
        assert(init.push(last) =~= sorted);
        assert(r.to_multiset() =~= sorted.to_multiset().insert(e));
    }
}

/// The entries in ascending order are in ascending order, and are what was there: each
/// entry as often as before.
pub proof fn lemma_sort_entries(s: Seq<(i32, Colour)>)
    ensures
        is_sorted(sort_entries(s)),
        sort_entries(s).to_multiset() == s.to_multiset(),
    decreases s.len(),
{
    broadcast use vstd::seq_lib::to_multiset_build;

    if s.len() > 0 {
        lemma_sort_entries(s.drop_last());
        lemma_insert_entry(sort_entries(s.drop_last()), s.last());
        assert(s.drop_last().push(s.last()) =~= s);
    }
}

/// Sorts combo colours by the number in their key, then by red, green and blue.
pub fn sort_combos(combos: &Vec<(i32, Colour)>) -> (r: Vec<(i32, Colour)>)
    ensures
        r@ == sort_entries(combos@),
        is_sorted(r@),
        r@.to_multiset() == combos@.to_multiset(),
{
    proof {
        lemma_sort_entries(combos@);
    }
    let mut out: Vec<(i32, Colour)> = Vec::new();
    let mut i: usize = 0;
    assert(combos@.take(0) =~= Seq::empty());
    while i < combos.len()
        invariant
            0 <= i <= combos.len(),
            out@ == sort_entries(combos@.take(i as int)),
        decreases combos.len() - i,
    {
        let e = combos[i];
        let ghost sorted = out@;
        let mut p: usize = out.len();
        while p > 0 && !entry_before(out[p - 1], e)
            invariant
                0 <= p <= out.len(),
                out@ == sorted,
                forall|j: int| p <= j < out.len() ==> !entry_le(out@[j], e),
            decreases p,
        {
            p -= 1;
        }
        proof {
            lemma_insert_at(sorted, e, p as int);
            assert(combos@.take(i + 1).drop_last() =~= combos@.take(i as int));
        }
        out.insert(p, e);
        i += 1;
    }
    assert(combos@.take(combos.len() as int) == combos@);
    out
}

/// The colours section while it is read: the combo colours in the order of the lines,
/// each with the number in its key.
pub struct ColourScan {
    pub combos: Vec<(i32, Colour)>,
    pub section: ColoursSection,
}

/// A `ColourScan` as sequences.
pub struct ColourScanView {
    pub combos: Seq<(i32, Colour)>,
    pub section: ColoursSectionView,
}

impl View for ColourScan {
    type V = ColourScanView;

    open spec fn view(&self) -> ColourScanView {
        ColourScanView { combos: self.combos@, section: self.section@ }
    }
}

/// Whether a key names a combo colour: the word Combo, written so, then one decimal
/// digit or more, and nothing else.
pub open spec fn is_combo_key(key: Seq<char>) -> bool {
    key.len() > 5 && key.take(5) == "Combo"@ && all_digits(key.skip(5))
}

/// Whether a key names a combo colour.
pub fn names_combo(key: &Vec<char>) -> (r: bool)
    ensures
        r == is_combo_key(key@),
{
    let word = to_chars("Combo");
    proof {
        reveal_strlit("Combo");
        assert(key@.len() >= 5 ==> key@.take(5) == key@.subrange(0, 5));
        assert(key@.len() >= 5 ==> key@.skip(5) == key@.subrange(5, key@.len() as int));
    }
    key.len() > 5 && starts_at(key, 0, &word) && digits_only(key, 5, key.len())
}

impl KeyedSection for ColourScan {
    open spec fn assigned(
        s: ColourScanView,
        key: Seq<char>,
        value: Seq<char>,
    ) -> Outcome<ColourScanView> {
        if is_combo_key(key) {
            match number_of(key.skip(5)) {
                Err(e) => Err(e),
                Ok(n) => match colour_of(value) {
                    Err(e) => Err(e),
                    Ok(c) => Ok(ColourScanView { combos: s.combos.push((n, c)), ..s }),
                },
            }
        } else if key_matches("SliderBody"@, key) {
            match colour_of(value) {
                Err(e) => Err(e),
                Ok(c) => Ok(
                    ColourScanView {
                        section: ColoursSectionView { slider_body: c, ..s.section },
                        ..s
                    },
                ),
            }
        } else if key_matches("SliderTrackOverride"@, key) {
            match colour_of(value) {
                Err(e) => Err(e),
                Ok(c) => Ok(
                    ColourScanView {
                        section: ColoursSectionView { slider_track_override: c, ..s.section },
                        ..s
                    },
                ),
            }
        } else if key_matches("SliderBorder"@, key) {
            match colour_of(value) {
                Err(e) => Err(e),
                Ok(c) => Ok(
                    ColourScanView {
                        section: ColoursSectionView { slider_border: c, ..s.section },
                        ..s
                    },
                ),
            }
        } else {
            Ok(s)
        }
    }

    fn assign(&mut self, key: &str, value: &str) -> (r: Result<()>) {
        let k = to_chars(key);
        if names_combo(&k) {
            assert(k@.skip(5) == k@.subrange(5, k@.len() as int));
            let n = number_in(&k, 5, k.len())?;
            let c = parse_colour(value)?;
            self.combos.push((n, c));
        } else if keys_match("SliderBody", key) {
            self.section.slider_body = parse_colour(value)?;
        } else if keys_match("SliderTrackOverride", key) {
            self.section.slider_track_override = parse_colour(value)?;
        } else if keys_match("SliderBorder", key) {
            self.section.slider_border = parse_colour(value)?;
        }
        Ok(())
    }
}

/// The colours section that a scan ends in: the combo colours in the order of the numbers
/// in their keys.
pub open spec fn finished(s: ColourScanView) -> ColoursSectionView {
    ColoursSectionView { colours: colours_of(sort_entries(s.combos)), ..s.section }
}

/// What the lines from `from` on write as a colours section, and where the reading stops.
pub open spec fn colours_from(lines: Seq<(nat, Seq<char>)>, from: nat) -> (
    Outcome<ColoursSectionView>,
    nat,
) {
    let scan = scan_pairs::<ColourScan>(
        lines,
        from,
        ColourScanView { combos: Seq::empty(), section: default_colours() },
    );
    match scan.0 {
        Ok(s) => (Ok(finished(s)), scan.1),
        Err(e) => (Err(e), scan.1),
    }
}

/// Reads a colours section from the line after the current one on.
pub fn parse_colours(state: &mut ParseState) -> (r: Result<ColoursSection>)
    ensures
        final(state)@.lines == old(state)@.lines,
        final(state)@.position == colours_from(
            old(state)@.lines,
            old(state)@.advanced().position,
        ).1,
        crate::error::agrees(
            r,
            colours_from(old(state)@.lines, old(state)@.advanced().position).0,
        ),
{
    let start = ColourScan { combos: Vec::new(), section: ColoursSection::default() };
    let scan = read_pairs(state, start)?;
    let sorted = sort_combos(&scan.combos);
    let mut colours: Vec<Colour> = Vec::new();
    let mut i: usize = 0;
    while i < sorted.len()
        invariant
            0 <= i <= sorted.len(),
            colours@ == colours_of(sorted@.take(i as int)),
        decreases sorted.len() - i,
    {
        colours.push(sorted[i].1);
        assert(colours@ =~= colours_of(sorted@.take(i + 1)));
        i += 1;
    }
    assert(sorted@.take(sorted.len() as int) == sorted@);
    let mut section = scan.section;
    section.colours = colours;
    Ok(section)
}

} // verus!
