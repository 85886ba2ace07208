use crate::number::{
    digit_run, i32_of_text, int_text, is_decimal_text, is_exponent_at, is_number_text, is_sign,
    is_special_text, lemma_int_text_reads_back, lemma_nat_text_reads_back, lower, nat_text,
    same_letters, unsigned_part,
};
use crate::readback::joining::{is_trimmed, lacks};
use crate::text::{is_digit, is_space};
use vstd::prelude::*;

verus! {

/// A character that numbers are written with: a digit, a letter, a sign or a point.
pub open spec fn is_number_char(c: char) -> bool {
    is_digit(c) || ('a' <= c <= 'z') || ('A' <= c <= 'Z') || c == '+' || c == '-' || c == '.'
}

/// A text that is not empty and is made of the characters that numbers are written with.
pub open spec fn is_plain(s: Seq<char>) -> bool {
    s.len() > 0 && forall|i: int| 0 <= i < s.len() ==> is_number_char(#[trigger] s[i])
}

/// A plain text holds no character that numbers are not written with.
pub proof fn lemma_plain_lacks(s: Seq<char>, c: char)
    requires
        is_plain(s),
        !is_number_char(c),
    ensures
        lacks(s, c),
{
}

/// A plain text has no blank at either end, and is not blank.
pub proof fn lemma_plain_trimmed(s: Seq<char>)
    requires
        is_plain(s),
    ensures
        is_trimmed(s),
        !is_space(s[0]),
{
    assert(is_number_char(s[0]));
    assert(is_number_char(s.last()));
}

/// The digits of a number are a plain text.
pub proof fn lemma_nat_text_plain(n: nat)
    ensures
        is_plain(nat_text(n)),
        is_digit(nat_text(n)[0]),
{
    lemma_nat_text_reads_back(n);
    let t = nat_text(n);
    assert forall|i: int| 0 <= i < t.len() implies is_number_char(#[trigger] t[i]) by {
        assert(is_digit(t[i]));
    }
}

/// The decimal notation of an integer is a plain text, which starts with a digit or a
/// minus sign.
pub proof fn lemma_int_text_plain(n: int)
    ensures
        is_plain(int_text(n)),
        is_digit(int_text(n)[0]) || int_text(n)[0] == '-',
{
    if n < 0 {
        let d = nat_text((-n) as nat);
        lemma_nat_text_plain((-n) as nat);
        let t = int_text(n);
        assert forall|i: int| 0 <= i < t.len() implies is_number_char(#[trigger] t[i]) by {
            if i > 0 {
                assert(t[i] == d[i - 1]);
            }
        }
    } else {
        lemma_nat_text_plain(n as nat);
    }
}

/// The decimal notation of a 32-bit integer is read back as that integer.
pub proof fn lemma_i32_text_reads_back(n: i32)
    ensures
        i32_of_text(int_text(n as int)) == Some(n),
{
    lemma_int_text_reads_back(n as int);
}

/// A run of digits holds digits, and ends within the text.
pub proof fn lemma_digit_run(s: Seq<char>, from: int)
    requires
        0 <= from,
    ensures
        0 <= digit_run(s, from),
        digit_run(s, from) > 0 ==> from + digit_run(s, from) <= s.len(),
        forall|j: int| from <= j < from + digit_run(s, from) ==> is_digit(#[trigger] s[j]),
    decreases s.len() - from,
{
    if from < s.len() && is_digit(s[from]) {
        lemma_digit_run(s, from + 1);
    }
}

/// A text with the letters of a word is a plain text.
proof fn lemma_letters_plain(s: Seq<char>, word: Seq<char>)
    requires
        same_letters(s, word),
        word.len() > 0,
        forall|i: int| 0 <= i < word.len() ==> 'a' <= #[trigger] word[i] <= 'z',
    ensures
        is_plain(s),
{
    assert forall|i: int| 0 <= i < s.len() implies is_number_char(#[trigger] s[i]) by {
        assert(lower(s[i]) == lower(word[i]));
        assert('a' <= word[i] <= 'z');
    }
}

/// An unsigned number is a plain text.
proof fn lemma_number_text_plain(s: Seq<char>)
    requires
        is_number_text(s),
    ensures
        is_plain(s),
{
    let whole = digit_run(s, 0);
    lemma_digit_run(s, 0);
    let point = whole < s.len() && s[whole] == '.';
    let fraction = if point {
        digit_run(s, whole + 1)
    } else {
        0
    };
    if point {
        lemma_digit_run(s, whole + 1);
    }
    let end = whole + (if point {
        1int
    } else {
        0int
    }) + fraction;
    if end == s.len() {
        assert forall|i: int| 0 <= i < s.len() implies is_number_char(#[trigger] s[i]) by {
            if i < whole {
                assert(is_digit(s[i]));
            } else if i == whole {
            } else {
                assert(is_digit(s[i]));
            }
        }
    } else {
        assert(is_exponent_at(s, end));
        let digits = if end + 1 < s.len() && is_sign(s[end + 1]) {
            end + 2
        } else {
            end + 1
        };
        lemma_digit_run(s, digits);
        assert forall|i: int| 0 <= i < s.len() implies is_number_char(#[trigger] s[i]) by {
            if i < whole {
                assert(is_digit(s[i]));
            } else if i < end {
                if i > whole {
                    assert(is_digit(s[i]));
                }
            } else if i == end {
            } else if i < digits {
            } else {
                assert(is_digit(s[i]));
            }
        }
    }
}

/// The text of a real number is a plain text.
pub proof fn lemma_decimal_plain(s: Seq<char>)
    requires
        is_decimal_text(s),
    ensures
        is_plain(s),
{
    let body = unsigned_part(s);
    if is_special_text(body) {
        if same_letters(body, seq!['i', 'n', 'f']) {
            lemma_letters_plain(body, seq!['i', 'n', 'f']);
        } else if same_letters(body, seq!['n', 'a', 'n']) {
            lemma_letters_plain(body, seq!['n', 'a', 'n']);
        } else {
            lemma_letters_plain(body, seq!['i', 'n', 'f', 'i', 'n', 'i', 't', 'y']);
        }
    } else {
        lemma_number_text_plain(body);
    }
    assert forall|i: int| 0 <= i < s.len() implies is_number_char(#[trigger] s[i]) by {
        if body.len() < s.len() {
            if i > 0 {
                assert(s[i] == body[i - 1]);
            }
        }
    }
}

} // verus!
