use crate::text::{char_is_digit, digit_value, is_digit};
use vstd::prelude::*;

verus! {

/// Whether the text is made of decimal digits.
pub open spec fn all_digits(s: Seq<char>) -> bool {
    forall|i: int| 0 <= i < s.len() ==> is_digit(#[trigger] s[i])
}

/// The number that a run of decimal digits writes.
pub open spec fn digits_value(s: Seq<char>) -> nat
    decreases s.len(),
{
    if s.len() == 0 {
        0
    } else {
        digits_value(s.drop_last()) * 10 + digit_value(s.last())
    }
}

/// A plus or a minus sign.
pub open spec fn is_sign(c: char) -> bool {
    c == '+' || c == '-'
}

/// The text once a leading sign, if there is one, is taken off.
pub open spec fn unsigned_part(s: Seq<char>) -> Seq<char> {
    if s.len() > 0 && is_sign(s[0]) {
        s.skip(1)
    } else {
        s
    }
}

/// The integer that `s` writes: an optional sign, then one decimal digit or more, and
/// nothing else.
pub open spec fn int_of_text(s: Seq<char>) -> Option<int> {
    let body = unsigned_part(s);
    if body.len() == 0 || !all_digits(body) {
        None
    } else if s[0] == '-' {
        Some(-(digits_value(body) as int))
    } else {
        Some(digits_value(body) as int)
    }
}

/// The integer that `s` writes, where it fits in 32 bits.
pub open spec fn i32_of_text(s: Seq<char>) -> Option<i32> {
    match int_of_text(s) {
        Some(v) => if i32::MIN <= v <= i32::MAX {
            Some(v as i32)
        } else {
            None
        },
        None => None,
    }
}

/// Reads an optionally signed decimal integer that fits in 32 bits.
pub fn scan_i32(v: &Vec<char>, lo: usize, hi: usize) -> (r: Option<i32>)
    requires
        lo <= hi <= v.len(),
    ensures
        r == i32_of_text(v@.subrange(lo as int, hi as int)),
{
    let ghost s = v@.subrange(lo as int, hi as int);
    if lo == hi {
        return None;
    }
    let first = v[lo];
    assert(first == s[0]);
    let negative = first == '-';
    let start: usize = if first == '-' || first == '+' {
        lo + 1
    } else {
        lo
    };
    let ghost body = unsigned_part(s);
    assert(body == v@.subrange(start as int, hi as int));
    if start == hi {
        return None;
    }
    let mut acc: i64 = 0;
    let mut too_big = false;
    let mut i: usize = start;
    while i < hi
        invariant
            lo <= start <= i <= hi <= v.len(),
            start < hi,
            s == v@.subrange(lo as int, hi as int),
            body == unsigned_part(s),
            body == v@.subrange(start as int, hi as int),
            all_digits(body.take(i - start)),
            0 <= acc <= 0x8000_0000,
            !too_big ==> acc == digits_value(body.take(i - start)),
            too_big ==> digits_value(body.take(i - start)) > 0x8000_0000,
        decreases hi - i,
    {
        let c = v[i];
        let ghost prev = body.take(i - start);
        let ghost next = body.take(i - start + 1);
        assert(next.drop_last() == prev);
        assert(next.last() == c);
        if !char_is_digit(c) {
            assert(!is_digit(body[i - start]));
            return None;
        }
        assert forall|j: int| 0 <= j < next.len() implies is_digit(#[trigger] next[j]) by {
            if j < prev.len() {
                assert(next[j] == prev[j]);
            }
        }
        let d: i64 = (c as u32 - 0x30) as i64;
        if !too_big {
            let wide: i64 = acc * 10 + d;
            if wide > 0x8000_0000 {
                too_big = true;
            } else {
                acc = wide;
            }
        }
        i += 1;
    }
    assert(body.take(hi - start) == body);
    if too_big {
        return None;
    }
    if negative {
        Some((-acc) as i32)
    } else if acc > 0x7fff_ffff {
        None
    } else {
        Some(acc as i32)
    }
}

/// Whether the characters at `lo..hi` are decimal digits, all of them.
pub fn digits_only(v: &Vec<char>, lo: usize, hi: usize) -> (r: bool)
    requires
        lo <= hi <= v.len(),
    ensures
        r == all_digits(v@.subrange(lo as int, hi as int)),
{
    let ghost s = v@.subrange(lo as int, hi as int);
    let mut i: usize = lo;
    while i < hi
        invariant
            lo <= i <= hi <= v.len(),
            s == v@.subrange(lo as int, hi as int),
            forall|j: int| 0 <= j < i - lo ==> is_digit(#[trigger] s[j]),
        decreases hi - i,
    {
        if !char_is_digit(v[i]) {
            assert(!is_digit(s[i - lo]));
            return false;
        }
        i += 1;
    }
    true
}

/// The number of decimal digits that stand in a row from position `from` on.
pub open spec fn digit_run(s: Seq<char>, from: int) -> int
    decreases s.len() - from,
{
    if 0 <= from < s.len() && is_digit(s[from]) {
        1 + digit_run(s, from + 1)
    } else {
        0
    }
}

/// The code of a character, with the letters A to Z taken as a to z.
pub open spec fn lower(c: char) -> int {
    if 'A' <= c <= 'Z' {
        c as int + 0x20
    } else {
        c as int
    }
}

/// Whether two texts are equal once the letters A to Z are taken as a to z.
pub open spec fn same_letters(a: Seq<char>, b: Seq<char>) -> bool {
    a.len() == b.len() && forall|i: int| 0 <= i < a.len() ==> lower(#[trigger] a[i]) == lower(b[i])
}

/// An exponent: the letter e, an optional sign, then one digit or more, up to the end.
pub open spec fn is_exponent_at(s: Seq<char>, at: int) -> bool {
    let digits = if at + 1 < s.len() && is_sign(s[at + 1]) {
        at + 2
    } else {
        at + 1
    };
    0 <= at < s.len() && (s[at] == 'e' || s[at] == 'E') && digit_run(s, digits) >= 1 && digits
        + digit_run(s, digits) == s.len()
}

/// An unsigned number: digits with at most one point among them and at least one digit in
/// all, then an optional exponent.
pub open spec fn is_number_text(s: Seq<char>) -> bool {
    let whole = digit_run(s, 0);
    let point = whole < s.len() && s[whole] == '.';
    let fraction = if point {
        digit_run(s, whole + 1)
    } else {
        0
    };
    let end = whole + (if point {
        1int
    } else {
        0int
    }) + fraction;
    whole + fraction >= 1 && (end == s.len() || is_exponent_at(s, end))
}

/// One of the words inf, infinity and nan, in any case.
pub open spec fn is_special_text(s: Seq<char>) -> bool {
    same_letters(s, seq!['i', 'n', 'f']) || same_letters(s, seq!['n', 'a', 'n']) || same_letters(
        s,
        seq!['i', 'n', 'f', 'i', 'n', 'i', 't', 'y'],
    )
}

/// Whether `s` writes a real number: an optional sign, then a number in decimal notation
/// or one of the words inf, infinity and nan in any case.
pub open spec fn is_decimal_text(s: Seq<char>) -> bool {
    let body = unsigned_part(s);
    is_special_text(body) || is_number_text(body)
}

/// The code of a character, with the letters A to Z taken as a to z.
pub fn char_lower(c: char) -> (r: u32)
    ensures
        r == lower(c),
{
    let n: u32 = c as u32;
    if 0x41 <= n && n <= 0x5A {
        n + 0x20
    } else {
        n
    }
}

/// The end of the run of digits that starts at `from`, within the text at `lo..hi`.
fn digits_end(v: &Vec<char>, lo: usize, hi: usize, from: usize) -> (r: usize)
    requires
        lo <= from <= hi <= v.len(),
    ensures
        from <= r <= hi,
        r - from == digit_run(v@.subrange(lo as int, hi as int), from - lo),
{
    let ghost s = v@.subrange(lo as int, hi as int);
    let mut i: usize = from;
    while i < hi && char_is_digit(v[i])
        invariant
            lo <= from <= i <= hi <= v.len(),
            s == v@.subrange(lo as int, hi as int),
            digit_run(s, from - lo) == (i - from) + digit_run(s, i - lo),
        decreases hi - i,
    {
        assert(s[i - lo] == v@[i as int]);
        i += 1;
    }
    assert(i < hi ==> s[i - lo] == v@[i as int]);
    i
}

/// Whether the text at `lo..hi` is `word`, the letters A to Z taken as a to z.
fn is_word(v: &Vec<char>, lo: usize, hi: usize, word: &Vec<char>) -> (r: bool)
    requires
        lo <= hi <= v.len(),
    ensures
        r == same_letters(v@.subrange(lo as int, hi as int), word@),
{
    let ghost s = v@.subrange(lo as int, hi as int);
    if hi - lo != word.len() {
        return false;
    }
    let mut i: usize = 0;
    while i < word.len()
        invariant
            lo <= hi <= v.len(),
            hi - lo == word.len(),
            0 <= i <= word.len(),
            s == v@.subrange(lo as int, hi as int),
            forall|j: int| 0 <= j < i ==> lower(#[trigger] s[j]) == lower(word@[j]),
        decreases word.len() - i,
    {
        if char_lower(v[lo + i]) != char_lower(word[i]) {
            assert(lower(s[i as int]) != lower(word@[i as int]));
            return false;
        }
        i += 1;
    }
    true
}

/// Whether the text at `lo..hi` is one of the words for a number that is no number.
fn scan_special(v: &Vec<char>, lo: usize, hi: usize) -> (r: bool)
    requires
        lo <= hi <= v.len(),
    ensures
        r == is_special_text(v@.subrange(lo as int, hi as int)),
{
    let inf: Vec<char> = vec!['i', 'n', 'f'];
    let nan: Vec<char> = vec!['n', 'a', 'n'];
    let infinity: Vec<char> = vec!['i', 'n', 'f', 'i', 'n', 'i', 't', 'y'];
    assert(inf@ =~= seq!['i', 'n', 'f']);
    assert(nan@ =~= seq!['n', 'a', 'n']);
    assert(infinity@ =~= seq!['i', 'n', 'f', 'i', 'n', 'i', 't', 'y']);
    is_word(v, lo, hi, &inf) || is_word(v, lo, hi, &nan) || is_word(v, lo, hi, &infinity)
}

/// Whether an exponent stands at `at` and ends the text at `lo..hi`.
fn scan_exponent(v: &Vec<char>, lo: usize, hi: usize, at: usize) -> (r: bool)
    requires
        lo <= at < hi <= v.len(),
    ensures
        r == is_exponent_at(v@.subrange(lo as int, hi as int), at - lo),
{
    let ghost s = v@.subrange(lo as int, hi as int);
    assert(s[at - lo] == v@[at as int]);
    if !(v[at] == 'e' || v[at] == 'E') {
        return false;
    }
    let digits: usize = if at + 1 < hi && (v[at + 1] == '+' || v[at + 1] == '-') {
        at + 2
    } else {
        at + 1
    };
    assert(at + 1 < hi ==> s[at + 1 - lo] == v@[at + 1]);
    let end = digits_end(v, lo, hi, digits);
    end > digits && end == hi
}

/// Whether the text at `lo..hi` writes an unsigned number.
fn scan_number(v: &Vec<char>, lo: usize, hi: usize) -> (r: bool)
    requires
        lo <= hi <= v.len(),
    ensures
        r == is_number_text(v@.subrange(lo as int, hi as int)),
{
    let ghost s = v@.subrange(lo as int, hi as int);
    let whole_end = digits_end(v, lo, hi, lo);
    assert(whole_end < hi ==> s[whole_end - lo] == v@[whole_end as int]);
    let point = whole_end < hi && v[whole_end] == '.';
    let end: usize = if point {
        digits_end(v, lo, hi, whole_end + 1)
    } else {
        whole_end
    };
    let digits: usize = if point {
        end - lo - 1
    } else {
        end - lo
    };
    if digits < 1 {
        return false;
    }
    if end == hi {
        return true;
    }
    scan_exponent(v, lo, hi, end)
}

/// Whether the text at `lo..hi` writes a real number.
pub fn scan_decimal(v: &Vec<char>, lo: usize, hi: usize) -> (r: bool)
    requires
        lo <= hi <= v.len(),
    ensures
        r == is_decimal_text(v@.subrange(lo as int, hi as int)),
{
    let ghost s = v@.subrange(lo as int, hi as int);
    let start: usize = if lo < hi && (v[lo] == '+' || v[lo] == '-') {
        lo + 1
    } else {
        lo
    };
    assert(lo < hi ==> s[0] == v@[lo as int]);
    assert(unsigned_part(s) == v@.subrange(start as int, hi as int));
    scan_special(v, start, hi) || scan_number(v, start, hi)
}

/// The character that writes a digit.
pub open spec fn digit_char(d: nat) -> char {
    ((d + 0x30) as u8) as char
}

/// The decimal digits of `n`, without leading zeros.
pub open spec fn nat_text(n: nat) -> Seq<char>
    decreases n,
{
    if n < 10 {
        seq![digit_char(n)]
    } else {
        nat_text(n / 10).push(digit_char(n % 10))
    }
}

/// The decimal notation of `n`: a minus sign where it is negative, then its digits.
pub open spec fn int_text(n: int) -> Seq<char> {
    if n < 0 {
        seq!['-'] + nat_text((-n) as nat)
    } else {
        nat_text(n as nat)
    }
}

/// Appends the decimal digits of `n`.
pub fn push_nat(out: &mut String, n: u128)
    ensures
        final(out)@ == old(out)@ + nat_text(n as nat),
    decreases n,
{
    if n >= 10 {
        push_nat(out, n / 10);
    }
    let d: u8 = (n % 10) as u8;
    out.push((d + 0x30) as char);
    assert(final(out)@ =~= old(out)@ + nat_text(n as nat));
}

/// Appends the decimal notation of `n`.
pub fn push_int(out: &mut String, n: i64)
    ensures
        final(out)@ == old(out)@ + int_text(n as int),
{
    if n < 0 {
        out.push('-');
        let m: u128 = (-(n as i128)) as u128;
        push_nat(out, m);
        assert(final(out)@ =~= old(out)@ + int_text(n as int));
    } else {
        push_nat(out, n as u128);
    }
}

/// The digits that `nat_text` writes are read back as the number they were written for.
pub proof fn lemma_nat_text_reads_back(n: nat)
    ensures
        nat_text(n).len() >= 1,
        all_digits(nat_text(n)),
        digits_value(nat_text(n)) == n,
        !is_sign(nat_text(n)[0]),
    decreases n,
{
    if n < 10 {
        let t = nat_text(n);
        assert(t.drop_last() =~= Seq::<char>::empty());
        assert(digits_value(t.drop_last()) == 0);
    } else {
        lemma_nat_text_reads_back(n / 10);
        let t = nat_text(n);
        assert(t.drop_last() =~= nat_text(n / 10));
        assert(t[0] == nat_text(n / 10)[0]);
    }
}

/// What `int_text` writes is read back as the integer it was written for.
pub proof fn lemma_int_text_reads_back(n: int)
    ensures
        int_of_text(int_text(n)) == Some(n),
{
    if n < 0 {
        let m = (-n) as nat;
        lemma_nat_text_reads_back(m);
        let t = int_text(n);
        assert(t[0] == '-');
        assert(t.skip(1) =~= nat_text(m));
    } else {
        lemma_nat_text_reads_back(n as nat);
    }
}

} // verus!
