//! What lines, words, trimming and numbers are, in terms of how a text is put
//! together.
use crate::text::{
    decimal, digit_char, digits_value, is_digit, is_whitespace, lemma_find_is, lemma_trim_padded,
    lemma_trim_start, lemma_word_len, lines, parse_decimal, split_once, strip_last, trim,
    trim_start, unsigned_digits, word_len, words,
};
use vstd::prelude::*;

verus! {

/// Whether a text is nothing but whitespace.
pub open spec fn is_blank(s: Seq<char>) -> bool {
    forall|i: int| 0 <= i < s.len() ==> is_whitespace(#[trigger] s[i])
}

/// Whether a text is one word: not empty, and without whitespace.
pub open spec fn is_word(s: Seq<char>) -> bool {
    s.len() > 0 && forall|i: int| 0 <= i < s.len() ==> !is_whitespace(#[trigger] s[i])
}

/// Whether a text does not go on with the word before it.
pub open spec fn ends_word(s: Seq<char>) -> bool {
    s.len() > 0 ==> is_whitespace(s[0])
}

/// The whitespace of ASCII is the space and the controls from the tab to the
/// carriage return; a letter, a digit or a mark is none. Beyond ASCII it is what
/// Unicode calls white space.
pub proof fn law_whitespace(c: char)
    ensures
        (c as u32) < 0x80 ==> (is_whitespace(c) <==> c == ' ' || c == '\t' || c == '\n' || c
            == '\u{b}' || c == '\u{c}' || c == '\r'),
        (c as u32) >= 0x80 ==> (is_whitespace(c) <==> c == '\u{85}' || c == '\u{a0}' || c
            == '\u{1680}' || ('\u{2000}' <= c <= '\u{200a}') || c == '\u{2028}' || c == '\u{2029}'
            || c == '\u{202f}' || c == '\u{205f}' || c == '\u{3000}'),
{
}

/// A line ends at the first line feed, which is not part of it, and what follows
/// makes the other lines. One carriage return before the line feed belongs to
/// the line end. The last line needs no end, and no text makes no lines.
pub proof fn law_lines(line: Seq<char>, rest: Seq<char>)
    requires
        !line.contains('\n'),
    ensures
        lines(Seq::<char>::empty()) == Seq::<Seq<char>>::empty(),
        line.len() > 0 ==> lines(line) == seq![line],
        line.len() == 0 || line.last() != '\r' ==> lines(line + seq!['\n'] + rest) == seq![line]
            + lines(rest),
        lines(line + seq!['\r', '\n'] + rest) == seq![line] + lines(rest),
{
    assert forall|i: int| 0 <= i < line.len() implies line[i] != '\n' by {
        assert(line.contains(line[i]));
    }
    lemma_find_is(line, '\n', line.len() as int);
    let plain = line + seq!['\n'] + rest;
    lemma_find_is(plain, '\n', line.len() as int);
    assert(plain.take(line.len() as int) =~= line);
    assert(plain.skip(line.len() as int + 1) =~= rest);
    let n = line.len() as int + 1;
    let carried = line + seq!['\r', '\n'] + rest;
    assert forall|i: int| 0 <= i < n implies carried[i] != '\n' by {
        if i < line.len() {
            assert(carried[i] == line[i]);
        }
    }
    lemma_find_is(carried, '\n', n);
    assert(carried.take(n) =~= line.push('\r'));
    assert(line.push('\r').drop_last() =~= line);
    assert(carried.skip(n + 1) =~= rest);
}

/// Whitespace makes no words.
pub proof fn law_blank_has_no_words(s: Seq<char>)
    requires
        is_blank(s),
    ensures
        words(s) == Seq::<Seq<char>>::empty(),
{
    lemma_trim_start(s);
    if trim_start(s).len() > 0 {
        assert(trim_start(s)[0] == s[s.len() - trim_start(s).len()]);
    }
}

/// The first word of a text is what stands between the whitespace that the text
/// starts with and the next one, and what follows makes the other words.
pub proof fn law_words(pad: Seq<char>, word: Seq<char>, rest: Seq<char>)
    requires
        is_blank(pad),
        is_word(word),
        ends_word(rest),
    ensures
        words(pad + word + rest) == seq![word] + words(rest),
{
    let s = pad + word + rest;
    let t = word + rest;
    assert(s =~= pad + t);
    lemma_skips_blank(pad, t);
    lemma_word_len(t);
    if word_len(t) < word.len() {
        assert(t[word_len(t)] == word[word_len(t)]);
    } else if word_len(t) > word.len() {
        assert(t[word.len() as int] == rest[0]);
    }
    assert(t.take(word.len() as int) =~= word);
    assert(t.skip(word.len() as int) =~= rest);
}

/// Whitespace at the start is trimmed, and nothing else.
proof fn lemma_skips_blank(pad: Seq<char>, t: Seq<char>)
    requires
        is_blank(pad),
        t.len() > 0 ==> !is_whitespace(t[0]),
    ensures
        trim_start(pad + t) == t,
    decreases pad.len(),
{
    if pad.len() > 0 {
        let rest = pad.drop_first();
        assert forall|i: int| 0 <= i < rest.len() implies is_whitespace(#[trigger] rest[i]) by {
            assert(rest[i] == pad[i + 1]);
        }
        lemma_skips_blank(rest, t);
        assert(is_whitespace(pad[0]));
        assert((pad + t).drop_first() =~= rest + t);
    } else {
        assert(pad + t =~= t);
    }
}

/// Trimming takes away the whitespace that stands before a text, or on both
/// sides of it, and nothing of a text that starts and ends without any.
pub proof fn law_trim(before: Seq<char>, s: Seq<char>, after: Seq<char>)
    requires
        is_blank(before),
        is_blank(after),
    ensures
        s.len() > 0 && !is_whitespace(s[0]) ==> trim_start(before + s) == s,
        s.len() > 0 && !is_whitespace(s[0]) && !is_whitespace(s.last()) ==> trim(before + s + after)
            == s,
        trim_start(before) == Seq::<char>::empty(),
        trim(before) == Seq::<char>::empty(),
{
    if s.len() > 0 && !is_whitespace(s[0]) {
        lemma_skips_blank(before, s);
        if !is_whitespace(s.last()) {
            lemma_trim_padded(before, s, after);
        }
    }
    lemma_skips_blank(before, Seq::empty());
    assert(before + Seq::<char>::empty() =~= before);
}

/// Splitting finds the first of the marks: the part before it has none, and the
/// parts and the mark make the text again. Only a text without a mark is not
/// split.
pub proof fn law_split_once(before: Seq<char>, mark: char, after: Seq<char>)
    requires
        !before.contains(mark),
    ensures
        split_once(before + seq![mark] + after, mark) == Some((before, after)),
        split_once(before, mark) is None,
{
    assert forall|i: int| 0 <= i < before.len() implies before[i] != mark by {
        assert(before.contains(before[i]));
    }
    let s = before + seq![mark] + after;
    lemma_find_is(s, mark, before.len() as int);
    lemma_find_is(before, mark, before.len() as int);
    assert(s.take(before.len() as int) =~= before);
    assert(s.skip(before.len() as int + 1) =~= after);
}

/// One trailing mark is dropped, and only one.
pub proof fn law_strip_last(s: Seq<char>, mark: char)
    ensures
        strip_last(s.push(mark), mark) == s,
        s.len() == 0 || s.last() != mark ==> strip_last(s, mark) == s,
{
    assert(s.push(mark).drop_last() =~= s);
}

/// The numbers below ten are the ten digits, and a digit written after a number
/// makes ten times the number and the digit.
pub proof fn law_decimal(n: nat, d: nat)
    requires
        d < 10,
    ensures
        digit_char(d) as int == '0' as int + d,
        decimal(d) == seq![digit_char(d)],
        n > 0 ==> decimal(n * 10 + d) == decimal(n).push(digit_char(d)),
{
    if n > 0 {
        let m = n * 10 + d;
        assert(m / 10 == n && m % 10 == d);
    }
}

/// What a text spells, digit by digit. Nothing, a sign alone and anything that
/// ends in something other than a digit spell no number. One digit spells its
/// value, and a digit after a number spells ten times the number and the digit,
/// as long as that is not too large. A plus sign before a number changes
/// nothing.
pub proof fn law_parse_decimal(s: Seq<char>, c: char, max: nat)
    ensures
        parse_decimal(Seq::<char>::empty(), max) is None,
        !('0' <= c <= '9') ==> parse_decimal(s.push(c), max) is None,
        '0' <= c <= '9' ==> {
            let d = (c as int - '0' as int) as nat;
            &&& s.len() == 0 ==> parse_decimal(s.push(c), max) == if d <= max {
                Some(d)
            } else {
                None
            }
            &&& s.len() > 0 && s[0] != '+' ==> parse_decimal(s.push(c), max) == match parse_decimal(
                s,
                max,
            ) {
                Some(n) => if n * 10 + d <= max {
                    Some(n * 10 + d)
                } else {
                    None
                },
                None => None,
            }
        },
        s.len() > 0 && s[0] != '+' ==> parse_decimal(seq!['+'] + s, max) == parse_decimal(s, max),
{
    let t = s.push(c);
    assert(t.drop_last() =~= s);
    assert(t[t.len() - 1] == c);
    assert(unsigned_digits(Seq::<char>::empty()) =~= Seq::<char>::empty());
    if !('0' <= c <= '9') {
        let digits = unsigned_digits(t);
        if digits.len() > 0 {
            assert(!is_digit(digits[digits.len() - 1]));
        }
    } else {
        assert(s.len() == 0 ==> digits_value(s) == 0);
        if s.len() == 0 || s[0] != '+' {
            assert(unsigned_digits(t) == t);
            assert(unsigned_digits(s) == s);
            if forall|i: int| 0 <= i < t.len() ==> is_digit(#[trigger] t[i]) {
                assert forall|i: int| 0 <= i < s.len() implies is_digit(#[trigger] s[i]) by {
                    assert(s[i] == t[i]);
                }
            } else {
                let i = choose|i: int| 0 <= i < t.len() && !is_digit(#[trigger] t[i]);
                assert(i < s.len() && !is_digit(s[i]));
            }
        }
    }
    assert((seq!['+'] + s).skip(1) =~= s);
}

} // verus!
