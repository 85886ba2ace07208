use crate::beatmap::header_title;
use crate::caseless::key_matches;
use crate::error::ErrorView;
use crate::grammar::number_list_of;
use crate::keyed::{KeyedSection, pair_of, scan_pairs};
use crate::number::{int_text, lower, same_letters};
use crate::readback::joining::{
    all_lack, is_trimmed, lacks, lemma_first_index_after, lemma_join_first, lemma_join_lacks,
    lemma_join_last, lemma_not_blank, lemma_split_join, lemma_trim_after_blank,
    lemma_trim_of_trimmed,
};
use crate::readback::lines::line_texts;
use crate::readback::plain::{is_plain, lemma_plain_lacks, lemma_plain_trimmed};
use crate::readback::records::{
    is_value, lemma_number_reads_back, lemma_number_texts_lack, lemma_numbers_read_back,
};
use crate::serialize::{entry, flag_text, join, mode_text, number_texts};
use crate::text::{is_blank, is_space, padded_split, trim, trim_end, trim_start};
use vstd::prelude::*;
use vstd::utf8::is_ascii_chars;

verus! {

/// A character that the keys of sections are written with: a letter or a digit.
pub open spec fn is_key_char(c: char) -> bool {
    ('a' <= c <= 'z') || ('A' <= c <= 'Z') || ('0' <= c <= '9')
}

/// A text that is not empty and is made of letters and digits.
pub open spec fn is_key(k: Seq<char>) -> bool {
    k.len() > 0 && forall|i: int| 0 <= i < k.len() ==> is_key_char(#[trigger] k[i])
}

/// A key is ASCII, holds no colon and no line feed, and has no blank at either end.
pub proof fn lemma_key_shape(k: Seq<char>)
    requires
        is_key(k),
    ensures
        is_ascii_chars(k),
        lacks(k, ':'),
        lacks(k, '\n'),
        is_trimmed(k),
        !is_space(k[0]),
        !is_space(k.last()),
        k[0] != '[',
{
    assert(is_key_char(k[0]));
    assert(is_key_char(k.last()));
    assert forall|i: int| 0 <= i < k.len() implies '\0' <= #[trigger] k[i] <= '\u{7f}' by {
        assert(is_key_char(k[i]));
    }
    assert forall|i: int| 0 <= i < k.len() implies k[i] != ':' && k[i] != '\n' by {
        assert(is_key_char(k[i]));
    }
}

/// A key matches itself.
pub proof fn lemma_key_matches_itself(k: Seq<char>)
    requires
        is_key(k),
    ensures
        key_matches(k, k),
{
    lemma_key_shape(k);
}

/// Keys with the same letters match, whatever the case of the letters.
pub proof fn lemma_keys_match(a: Seq<char>, b: Seq<char>)
    requires
        is_key(a),
        is_key(b),
        same_letters(a, b),
    ensures
        key_matches(a, b),
{
    lemma_key_shape(a);
    lemma_key_shape(b);
}

/// Keys of different lengths, or with different first letters, do not match.
pub proof fn lemma_keys_differ(a: Seq<char>, b: Seq<char>)
    requires
        is_key(a),
        is_key(b),
        a.len() != b.len() || lower(a[0]) != lower(b[0]),
    ensures
        !key_matches(a, b),
{
    lemma_key_shape(a);
    lemma_key_shape(b);
}

/// A blank after a text with no blank at its ends is trimmed away.
pub proof fn lemma_trim_before_blank(s: Seq<char>, c: char)
    requires
        s.len() > 0,
        is_trimmed(s),
        is_space(c),
    ensures
        trim(s.push(c)) == s,
{
    let t = s.push(c);
    assert(t[0] == s[0]);
    assert(trim_start(t) == t);
    assert(t.drop_last() =~= s);
    assert(trim_end(s) == s);
}

/// A line that stores a value under a key is one line that is not blank and is no
/// header, and the key and the value are read back from it.
pub proof fn lemma_entry_reads_back(key: Seq<char>, value: Seq<char>)
    requires
        is_key(key),
        is_value(value),
    ensures
        pair_of(entry(key, value)) == Some((key, value)),
        lacks(entry(key, value), '\n'),
        !is_blank(entry(key, value)),
        header_title(entry(key, value)) is None,
        !(entry(key, value).last() == '\r'),
        entry(key, value).len() > 0,
{
    let line = entry(key, value);
    let rest = seq![' '] + value;
    lemma_key_shape(key);
    assert(line =~= key.push(':') + rest);
    lemma_first_index_after(key, ':', rest);
    lemma_trim_of_trimmed(key);
    lemma_trim_after_blank(' ', value);
    lemma_trim_of_trimmed(value);
    assert(line[0] == key[0]);
    lemma_not_blank(line);
    assert forall|i: int| 0 <= i < line.len() implies line[i] != '\n' by {
        if i < key.len() {
            assert(line[i] == key[i]);
        } else if i >= key.len() + 2 {
            assert(line[i] == value[i - key.len() - 2]);
        }
    }
    if value.len() > 0 {
        assert(line.last() == value.last());
    } else {
        assert(line.last() == ' ');
    }
}

/// A plain text can stand as a value on a line.
pub proof fn lemma_plain_is_value(s: Seq<char>)
    requires
        is_plain(s),
    ensures
        is_value(s),
{
    lemma_plain_trimmed(s);
    lemma_plain_lacks(s, '\n');
}

/// A line of a key and a value is read into the section, and the reading goes on with
/// the next line.
pub proof fn lemma_scan_step<S: KeyedSection>(
    lines: Seq<(nat, Seq<char>)>,
    from: nat,
    section: S::V,
    key: Seq<char>,
    value: Seq<char>,
    next: S::V,
)
    requires
        from < lines.len(),
        lines[from as int].1 == entry(key, value),
        is_key(key),
        is_value(value),
        S::assigned(section, key, value) == Ok::<S::V, ErrorView>(next),
    ensures
        scan_pairs::<S>(lines, from, section) == scan_pairs::<S>(lines, from + 1, next),
{
    lemma_entry_reads_back(key, value);
}

/// Whether the reading of keys and values stops at place `at`: no line is left there,
/// or one that writes no key and value.
pub open spec fn pairs_stop_at(lines: Seq<(nat, Seq<char>)>, at: nat) -> bool {
    at >= lines.len() || pair_of(lines[at as int].1) is None
}

/// The reading of keys and values stops at the end and at a line that writes none.
pub proof fn lemma_scan_stop<S: KeyedSection>(
    lines: Seq<(nat, Seq<char>)>,
    from: nat,
    section: S::V,
)
    requires
        pairs_stop_at(lines, from),
    ensures
        scan_pairs::<S>(lines, from, section) == (Ok::<S::V, ErrorView>(section), from),
{
}

/// The header of a section: its name in brackets.
pub open spec fn header(title: Seq<char>) -> Seq<char> {
    seq!['['] + title + seq![']']
}

/// The header of a section whose name is a key is one line that is not blank, its name
/// is read back from it, and it writes no key and value.
pub proof fn lemma_header_reads_back(title: Seq<char>)
    requires
        is_key(title),
    ensures
        header_title(header(title)) == Some(title),
        pair_of(header(title)) is None,
        !is_blank(header(title)),
        lacks(header(title), '\n'),
        header(title).len() > 0,
        header(title).last() != '\r',
{
    let line = header(title);
    lemma_key_shape(title);
    assert(line[0] == '[');
    assert(line.last() == ']');
    assert(trim_end(line) == line);
    assert(line.subrange(1, line.len() - 1) =~= title);
    assert(crate::beatmap::is_name(title)) by {
        assert forall|i: int| 0 <= i < title.len() implies title[i] != '[' && title[i] != ']' by {
            assert(is_key_char(title[i]));
        }
    }
    lemma_not_blank(line);
    assert forall|i: int| 0 <= i < line.len() implies line[i] != ':' && line[i] != '\n' by {
        if 1 <= i <= title.len() {
            assert(line[i] == title[i - 1]);
        }
    }
    crate::text::lemma_first_index_is(line, ':', line.len() as int);
}

/// The numbered lines from `p` on start with the lines of `block`.
pub open spec fn block_at(lines: Seq<(nat, Seq<char>)>, p: nat, block: Seq<Seq<char>>) -> bool {
    p + block.len() <= lines.len() && line_texts(lines).subrange(p as int, p as int + block.len())
        == block
}

/// The line at place `i` of a block that starts at `p`.
pub proof fn lemma_block_line(
    lines: Seq<(nat, Seq<char>)>,
    p: nat,
    block: Seq<Seq<char>>,
    i: int,
)
    requires
        block_at(lines, p, block),
        0 <= i < block.len(),
    ensures
        lines[p + i].1 == block[i],
{
    assert(line_texts(lines).subrange(p as int, p as int + block.len())[i] == lines[p + i].1);
}

/// Numbers that are written with commas between them, as bookmarks are, can stand as a
/// value and are read back.
pub proof fn lemma_bookmarks_read_back(ns: Seq<i32>)
    requires
        ns.len() > 0,
    ensures
        is_value(join(number_texts(ns), ',')),
        number_list_of(join(number_texts(ns), ',')) == Ok::<Seq<i32>, ErrorView>(ns),
{
    let parts = number_texts(ns);
    let text = join(parts, ',');
    lemma_number_texts_lack(ns, ',');
    lemma_number_texts_lack(ns, '\n');
    lemma_split_join(parts, ',');
    lemma_join_lacks(parts, ',', '\n');
    assert forall|i: int| 0 <= i < ns.len() implies is_plain(#[trigger] parts[i]) && trim(
        parts[i],
    ) == parts[i] by {
        lemma_number_reads_back(ns[i]);
        lemma_plain_trimmed(parts[i]);
        lemma_trim_of_trimmed(parts[i]);
    }
    assert(padded_split(text, ',') =~= parts);
    lemma_numbers_read_back(ns);
    assert(is_plain(parts[0]));
    assert(is_plain(parts.last()));
    lemma_plain_trimmed(parts[0]);
    lemma_plain_trimmed(parts.last());
    lemma_join_first(parts, ',');
    lemma_join_last(parts, ',');
}

/// A text that can stand as a tag: a value that holds no space.
pub open spec fn is_tag(s: Seq<char>) -> bool {
    is_value(s) && lacks(s, ' ')
}

/// Tags that are read back once they are written: one at least, each of them a tag, and
/// where there are two or more, neither the first nor the last is empty.
pub open spec fn are_tags(tags: Seq<Seq<char>>) -> bool {
    &&& tags.len() > 0
    &&& forall|i: int| 0 <= i < tags.len() ==> is_tag(#[trigger] tags[i])
    &&& tags.len() >= 2 ==> tags[0].len() > 0 && tags.last().len() > 0
}

/// Tags that are written with spaces between them can stand as a value and are read
/// back.
pub proof fn lemma_tags_read_back(tags: Seq<Seq<char>>)
    requires
        are_tags(tags),
    ensures
        is_value(join(tags, ' ')),
        padded_split(join(tags, ' '), ' ') == tags,
{
    let text = join(tags, ' ');
    assert(all_lack(tags, ' ')) by {
        assert forall|i: int| 0 <= i < tags.len() implies lacks(#[trigger] tags[i], ' ') by {
            assert(is_tag(tags[i]));
        }
    }
    assert(all_lack(tags, '\n')) by {
        assert forall|i: int| 0 <= i < tags.len() implies lacks(#[trigger] tags[i], '\n') by {
            assert(is_tag(tags[i]));
        }
    }
    lemma_split_join(tags, ' ');
    lemma_join_lacks(tags, ' ', '\n');
    assert forall|i: int| 0 <= i < tags.len() implies trim(#[trigger] tags[i]) == tags[i] by {
        assert(is_tag(tags[i]));
        lemma_trim_of_trimmed(tags[i]);
    }
    assert(padded_split(text, ' ') =~= tags);
    assert(is_tag(tags[0]));
    assert(is_tag(tags.last()));
    if tags.len() >= 2 {
        lemma_join_first(tags, ' ');
        lemma_join_last(tags, ' ');
    }
}

/// Whether a text can stand on a line of its own and is seen by a cursor: it holds no
/// line feed, does not end with a carriage return, and is not blank.
pub open spec fn is_line(s: Seq<char>) -> bool {
    lacks(s, '\n') && !is_blank(s) && s.len() > 0 && s.last() != '\r'
}

/// A line that stores a value under a key can stand on a line of its own.
pub proof fn lemma_entry_is_line(key: Seq<char>, value: Seq<char>)
    requires
        is_key(key),
        is_value(value),
    ensures
        is_line(entry(key, value)),
{
    lemma_entry_reads_back(key, value);
}

/// The decimal notation of a number can stand as a value.
pub proof fn lemma_number_is_value(n: i32)
    ensures
        is_value(int_text(n as int)),
{
    lemma_number_reads_back(n);
    lemma_plain_is_value(int_text(n as int));
}

/// A flag that is written can stand as a value.
pub proof fn lemma_flag_is_value(b: bool)
    ensures
        is_value(flag_text(b)),
{
    crate::readback::records::lemma_flag_reads_back(b);
    lemma_plain_is_value(flag_text(b));
}

/// A game mode that is written can stand as a value.
pub proof fn lemma_mode_is_value(m: crate::model::GameMode)
    ensures
        is_value(mode_text(m)),
{
    crate::readback::records::lemma_mode_reads_back(m);
    lemma_plain_is_value(mode_text(m));
}

/// The text of a real number can stand as a value.
pub proof fn lemma_decimal_is_value(s: Seq<char>)
    requires
        crate::number::is_decimal_text(s),
    ensures
        is_value(s),
{
    crate::readback::records::lemma_decimal_reads_back(s);
    lemma_plain_is_value(s);
}

} // verus!
