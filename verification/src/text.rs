use vstd::prelude::*;

verus! {

/// `String::push` of the standard library: appends one character to the end of the
/// string.
pub assume_specification[ String::push ](s: &mut String, c: char)
    ensures
        final(s)@ == old(s)@.push(c),
;

/// The characters that count as blank space around a field or on an otherwise empty line:
/// those with the Unicode property White_Space.
pub open spec fn is_space(c: char) -> bool {
    ('\u{9}' <= c <= '\u{D}') || c == ' ' || c == '\u{85}' || c == '\u{A0}' || c == '\u{1680}' || (
    '\u{2000}' <= c <= '\u{200A}') || c == '\u{2028}' || c == '\u{2029}' || c == '\u{202F}' || c
        == '\u{205F}' || c == '\u{3000}'
}

/// A decimal digit.
pub open spec fn is_digit(c: char) -> bool {
    '0' <= c <= '9'
}

/// The number that a decimal digit writes.
pub open spec fn digit_value(c: char) -> nat {
    (c as int - 0x30) as nat
}

/// The text without its leading blank characters.
pub open spec fn trim_start(s: Seq<char>) -> Seq<char>
    decreases s.len(),
{
    if s.len() > 0 && is_space(s[0]) {
        trim_start(s.drop_first())
    } else {
        s
    }
}

/// The text without its trailing blank characters.
pub open spec fn trim_end(s: Seq<char>) -> Seq<char>
    decreases s.len(),
{
    if s.len() > 0 && is_space(s.last()) {
        trim_end(s.drop_last())
    } else {
        s
    }
}

/// The text without the blank characters at its ends.
pub open spec fn trim(s: Seq<char>) -> Seq<char> {
    trim_end(trim_start(s))
}

/// A line is blank when nothing but blank characters stand on it.
pub open spec fn is_blank(s: Seq<char>) -> bool {
    trim(s).len() == 0
}

/// The position of the first `c` in `s`, or the length of `s` where it holds none.
pub open spec fn first_index(s: Seq<char>, c: char) -> int
    decreases s.len(),
{
    if s.len() == 0 || s[0] == c {
        0
    } else {
        1 + first_index(s.drop_first(), c)
    }
}

/// The fields of `s` between occurrences of `sep`: always at least one, possibly empty.
pub open spec fn split(s: Seq<char>, sep: char) -> Seq<Seq<char>>
    decreases s.len(),
{
    if s.len() == 0 {
        seq![Seq::<char>::empty()]
    } else {
        let before = split(s.drop_last(), sep);
        if s.last() == sep {
            before.push(Seq::<char>::empty())
        } else {
            before.update(before.len() - 1, before.last().push(s.last()))
        }
    }
}

/// A position before which no `c` stands, and at which one stands or the text ends, is
/// the position of the first `c`.
pub proof fn lemma_first_index_is(s: Seq<char>, c: char, i: int)
    requires
        0 <= i <= s.len(),
        forall|j: int| 0 <= j < i ==> s[j] != c,
        i < s.len() ==> s[i] == c,
    ensures
        first_index(s, c) == i,
    decreases s.len(),
{
    if s.len() == 0 || s[0] == c {
    } else {
        let t = s.drop_first();
        assert forall|j: int| 0 <= j < i - 1 implies t[j] != c by {
            assert(t[j] == s[j + 1]);
        }
        lemma_first_index_is(t, c, i - 1);
    }
}

/// Whether a character counts as blank space.
pub fn char_is_space(c: char) -> (r: bool)
    ensures
        r == is_space(c),
{
    let n: u32 = c as u32;
    (0x09 <= n && n <= 0x0D) || n == 0x20 || n == 0x85 || n == 0xA0 || n == 0x1680 || (0x2000
        <= n && n <= 0x200A) || n == 0x2028 || n == 0x2029 || n == 0x202F || n == 0x205F || n
        == 0x3000
}

/// Whether a character is a decimal digit.
pub fn char_is_digit(c: char) -> (r: bool)
    ensures
        r == is_digit(c),
{
    let n: u32 = c as u32;
    0x30 <= n && n <= 0x39
}

/// The characters of a string slice, one element each.
pub fn to_chars(s: &str) -> (v: Vec<char>)
    ensures
        v@ == s@,
{
    let mut v: Vec<char> = Vec::new();
    for c in it: s.chars()
        invariant
            v@ == it.seq().take(it.index() as int),
            it.seq() == s@,
    {
        v.push(c);
    }
    v
}

/// A string made of the characters at `lo..hi`.
pub fn from_chars(v: &Vec<char>, lo: usize, hi: usize) -> (s: String)
    requires
        lo <= hi <= v.len(),
    ensures
        s@ == v@.subrange(lo as int, hi as int),
{
    let mut s = String::new();
    let mut i: usize = lo;
    while i < hi
        invariant
            lo <= i <= hi <= v.len(),
            s@ == v@.subrange(lo as int, i as int),
        decreases hi - i,
    {
        s.push(v[i]);
        i += 1;
    }
    s
}

/// The bounds of `lo..hi` once blank characters are taken off both ends.
pub fn trim_range(v: &Vec<char>, lo: usize, hi: usize) -> (r: (usize, usize))
    requires
        lo <= hi <= v.len(),
    ensures
        lo <= r.0 <= r.1 <= hi,
        v@.subrange(r.0 as int, r.1 as int) == trim(v@.subrange(lo as int, hi as int)),
{
    let mut a: usize = lo;
    while a < hi && char_is_space(v[a])
        invariant
            lo <= a <= hi <= v.len(),
            trim_start(v@.subrange(lo as int, hi as int)) == trim_start(
                v@.subrange(a as int, hi as int),
            ),
        decreases hi - a,
    {
        assert(v@.subrange(a as int, hi as int).drop_first() == v@.subrange(a + 1, hi as int));
        a += 1;
    }
    assert(trim_start(v@.subrange(a as int, hi as int)) == v@.subrange(a as int, hi as int));
    let mut b: usize = hi;
    while a < b && char_is_space(v[b - 1])
        invariant
            lo <= a <= b <= hi <= v.len(),
            trim_end(v@.subrange(a as int, hi as int)) == trim_end(
                v@.subrange(a as int, b as int),
            ),
        decreases b - a,
    {
        assert(v@.subrange(a as int, b as int).drop_last() == v@.subrange(a as int, b - 1));
        b -= 1;
    }
    assert(trim_end(v@.subrange(a as int, b as int)) == v@.subrange(a as int, b as int));
    (a, b)
}

/// The position of the first `c` in `lo..hi`, or `hi` where there is none.
pub fn find_char(v: &Vec<char>, lo: usize, hi: usize, c: char) -> (r: usize)
    requires
        lo <= hi <= v.len(),
    ensures
        lo <= r <= hi,
        r - lo == first_index(v@.subrange(lo as int, hi as int), c),
{
    let mut i: usize = lo;
    while i < hi && v[i] != c
        invariant
            lo <= i <= hi <= v.len(),
            forall|j: int| lo <= j < i ==> v@[j] != c,
        decreases hi - i,
    {
        i += 1;
    }
    proof {
        lemma_first_index_is(v@.subrange(lo as int, hi as int), c, i - lo);
    }
    i
}

/// The texts that a list of bounds cuts out of `s`.
pub open spec fn cut(s: Seq<char>, bounds: Seq<(usize, usize)>) -> Seq<Seq<char>> {
    Seq::new(bounds.len(), |k: int| s.subrange(bounds[k].0 as int, bounds[k].1 as int))
}

/// Whether each of the bounds lies within `lo..hi`.
pub open spec fn bounds_within(bounds: Seq<(usize, usize)>, lo: int, hi: int) -> bool {
    forall|k: int| 0 <= k < bounds.len() ==> lo <= (#[trigger] bounds[k]).0 <= bounds[k].1 <= hi
}

/// The bounds of the fields of `lo..hi` between occurrences of `sep`.
pub fn split_range(v: &Vec<char>, lo: usize, hi: usize, sep: char) -> (r: Vec<(usize, usize)>)
    requires
        lo <= hi <= v.len(),
    ensures
        r.len() >= 1,
        bounds_within(r@, lo as int, hi as int),
        cut(v@, r@) == split(v@.subrange(lo as int, hi as int), sep),
{
    let mut r: Vec<(usize, usize)> = Vec::new();
    let mut start: usize = lo;
    let mut i: usize = lo;
    assert(v@.subrange(lo as int, lo as int) =~= Seq::<char>::empty());
    assert(cut(v@, r@.push((start, i))) =~= seq![Seq::<char>::empty()]);
    while i < hi
        invariant
            lo <= start <= i <= hi <= v.len(),
            bounds_within(r@, lo as int, i as int),
            cut(v@, r@.push((start, i))) == split(v@.subrange(lo as int, i as int), sep),
        decreases hi - i,
    {
        let ghost before = split(v@.subrange(lo as int, i as int), sep);
        let ghost now = v@.subrange(lo as int, i + 1);
        assert(now.drop_last() == v@.subrange(lo as int, i as int));
        assert(now.last() == v@[i as int]);
        if v[i] == sep {
            r.push((start, i));
            start = i + 1;
            assert(cut(v@, r@.push((start, (i + 1) as usize))) =~= before.push(
                Seq::<char>::empty(),
            )) by {
                let lhs = cut(v@, r@.push((start, (i + 1) as usize)));
                let old_r = r@.drop_last();
                assert(r@ == old_r.push(r@.last()));
                assert forall|k: int| 0 <= k < lhs.len() implies lhs[k] == before.push(
                    Seq::<char>::empty(),
                )[k] by {
                    if k < r@.len() {
                        assert(lhs[k] == cut(v@, r@)[k]);
                        assert(before[k] == cut(v@, r@)[k]);
                    }
                }
            }
        } else {
            assert(cut(v@, r@.push((start, (i + 1) as usize))) =~= before.update(
                before.len() - 1,
                before.last().push(v@[i as int]),
            )) by {
                let lhs = cut(v@, r@.push((start, (i + 1) as usize)));
                let rhs = before.update(before.len() - 1, before.last().push(v@[i as int]));
                let prev = cut(v@, r@.push((start, i)));
                assert(prev == before);
                assert forall|k: int| 0 <= k < lhs.len() implies lhs[k] == rhs[k] by {
                    if k < r@.len() {
                        assert(lhs[k] == prev[k]);
                    } else {
                        assert(prev[k] == v@.subrange(start as int, i as int));
                        assert(lhs[k] =~= v@.subrange(start as int, i as int).push(v@[i as int]));
                    }
                }
            }
        }
        i += 1;
    }
    r.push((start, hi));
    r
}

/// The end of `lo..hi` once blank characters are taken off its end.
pub fn trim_end_range(v: &Vec<char>, lo: usize, hi: usize) -> (r: usize)
    requires
        lo <= hi <= v.len(),
    ensures
        lo <= r <= hi,
        v@.subrange(lo as int, r as int) == trim_end(v@.subrange(lo as int, hi as int)),
{
    let mut b: usize = hi;
    while lo < b && char_is_space(v[b - 1])
        invariant
            lo <= b <= hi <= v.len(),
            trim_end(v@.subrange(lo as int, hi as int)) == trim_end(
                v@.subrange(lo as int, b as int),
            ),
        decreases b - lo,
    {
        assert(v@.subrange(lo as int, b as int).drop_last() == v@.subrange(lo as int, b - 1));
        b -= 1;
    }
    assert(trim_end(v@.subrange(lo as int, b as int)) == v@.subrange(lo as int, b as int));
    b
}

/// Whether `word` stands in `v` from position `at` on.
pub fn starts_at(v: &Vec<char>, at: usize, word: &Vec<char>) -> (r: bool)
    requires
        at <= v.len(),
    ensures
        r == (at + word.len() <= v.len() && v@.subrange(at as int, at + word.len()) == word@),
{
    if word.len() > v.len() - at {
        return false;
    }
    let mut i: usize = 0;
    while i < word.len()
        invariant
            at + word.len() <= v.len(),
            0 <= i <= word.len(),
            forall|j: int| 0 <= j < i ==> v@[at + j] == word@[j],
        decreases word.len() - i,
    {
        if v[at + i] != word[i] {
            assert(v@.subrange(at as int, at + word.len())[i as int] != word@[i as int]);
            return false;
        }
        i += 1;
    }
    assert(v@.subrange(at as int, at + word.len()) =~= word@);
    true
}

/// Whether two string slices hold the same text.
pub fn same_text(a: &str, b: &str) -> (r: bool)
    ensures
        r == (a@ == b@),
{
    let x = to_chars(a);
    let y = to_chars(b);
    if x.len() != y.len() {
        return false;
    }
    assert(x@.subrange(0, 0 + y.len()) == x@);
    starts_at(&x, 0, &y)
}

/// The first position at or after `from` where `word` stands in `s`.
pub open spec fn find_from(s: Seq<char>, word: Seq<char>, from: int) -> Option<int>
    decreases s.len() + 1 - from,
{
    if from < 0 || from + word.len() > s.len() {
        None
    } else if s.subrange(from, from + word.len()) == word {
        Some(from)
    } else {
        find_from(s, word, from + 1)
    }
}

/// The first position where `word` stands in `v`.
pub fn find_text(v: &Vec<char>, word: &Vec<char>) -> (r: Option<usize>)
    ensures
        match r {
            Some(at) => find_from(v@, word@, 0) == Some(at as int) && at + word.len() <= v.len(),
            None => find_from(v@, word@, 0) is None,
        },
{
    let mut i: usize = 0;
    while i <= v.len()
        invariant
            0 <= i <= v.len() + 1,
            find_from(v@, word@, 0) == find_from(v@, word@, i as int),
        decreases v.len() + 1 - i,
    {
        if starts_at(v, i, word) {
            return Some(i);
        }
        if i == v.len() {
            assert(find_from(v@, word@, i + 1) is None);
            return None;
        }
        i += 1;
    }
    None
}

/// The fields of `s` between occurrences of `sep`, each without the blanks around it.
pub open spec fn padded_split(s: Seq<char>, sep: char) -> Seq<Seq<char>> {
    Seq::new(split(s, sep).len(), |k: int| trim(split(s, sep)[k]))
}

/// The bounds of the fields of `lo..hi` between occurrences of `sep`, each without the
/// blanks around it.
pub fn padded_split_range(v: &Vec<char>, lo: usize, hi: usize, sep: char) -> (r: Vec<
    (usize, usize),
>)
    requires
        lo <= hi <= v.len(),
    ensures
        r.len() >= 1,
        bounds_within(r@, lo as int, hi as int),
        cut(v@, r@) == padded_split(v@.subrange(lo as int, hi as int), sep),
{
    let fields = split_range(v, lo, hi, sep);
    let ghost whole = split(v@.subrange(lo as int, hi as int), sep);
    let mut r: Vec<(usize, usize)> = Vec::new();
    let mut i: usize = 0;
    while i < fields.len()
        invariant
            0 <= i <= fields.len(),
            lo <= hi <= v.len(),
            bounds_within(fields@, lo as int, hi as int),
            bounds_within(r@, lo as int, hi as int),
            cut(v@, fields@) == whole,
            r.len() == i,
            forall|k: int| 0 <= k < i ==> #[trigger] cut(v@, r@)[k] == trim(whole[k]),
        decreases fields.len() - i,
    {
        let (a, b) = fields[i];
        assert(whole[i as int] == v@.subrange(a as int, b as int));
        let t = trim_range(v, a, b);
        let ghost before = cut(v@, r@);
        r.push(t);
        assert forall|k: int| 0 <= k < i + 1 implies #[trigger] cut(v@, r@)[k] == trim(
            whole[k],
        ) by {
            if k < i {
                assert(cut(v@, r@)[k] == before[k]);
            }
        }
        i += 1;
    }
    assert(cut(v@, r@) =~= padded_split(v@.subrange(lo as int, hi as int), sep));
    r
}

/// A string for each of the texts that the bounds cut out of `v`.
pub fn strings_from(v: &Vec<char>, bounds: &Vec<(usize, usize)>) -> (r: Vec<String>)
    requires
        bounds_within(bounds@, 0, v.len() as int),
    ensures
        r.len() == bounds.len(),
        forall|k: int| 0 <= k < r.len() ==> (#[trigger] r[k])@ == cut(v@, bounds@)[k],
{
    let mut r: Vec<String> = Vec::new();
    let mut i: usize = 0;
    while i < bounds.len()
        invariant
            0 <= i <= bounds.len(),
            bounds_within(bounds@, 0, v.len() as int),
            r.len() == i,
            forall|k: int| 0 <= k < i ==> (#[trigger] r[k])@ == cut(v@, bounds@)[k],
        decreases bounds.len() - i,
    {
        let (a, b) = bounds[i];
        r.push(from_chars(v, a, b));
        i += 1;
    }
    r
}

} // verus!
