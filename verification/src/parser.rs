//! Reading the work-package tag at the head of an entry's description.
//!
//! A tagged description starts with `[OP#`, in either case of the two
//! letters, then one or more decimal digits, then `]`. What follows the tag is
//! kept as the residual description only where whitespace separates it from
//! the tag; the separating whitespace itself is dropped.

use vstd::prelude::*;
use vstd::string::*;

verus! {

/// Whether `c` is a decimal digit: a character of the Unicode category
/// `Nd`, the ten ASCII digits among them.
pub open spec fn is_decimal_digit(c: char) -> bool {
    ||| ('\u{30}' <= c && c <= '\u{39}')
    ||| ('\u{660}' <= c && c <= '\u{669}')
    ||| ('\u{6f0}' <= c && c <= '\u{6f9}')
    ||| ('\u{7c0}' <= c && c <= '\u{7c9}')
    ||| ('\u{966}' <= c && c <= '\u{96f}')
    ||| ('\u{9e6}' <= c && c <= '\u{9ef}')
    ||| ('\u{a66}' <= c && c <= '\u{a6f}')
    ||| ('\u{ae6}' <= c && c <= '\u{aef}')
    ||| ('\u{b66}' <= c && c <= '\u{b6f}')
    ||| ('\u{be6}' <= c && c <= '\u{bef}')
    ||| ('\u{c66}' <= c && c <= '\u{c6f}')
    ||| ('\u{ce6}' <= c && c <= '\u{cef}')
    ||| ('\u{d66}' <= c && c <= '\u{d6f}')
    ||| ('\u{de6}' <= c && c <= '\u{def}')
    ||| ('\u{e50}' <= c && c <= '\u{e59}')
    ||| ('\u{ed0}' <= c && c <= '\u{ed9}')
    ||| ('\u{f20}' <= c && c <= '\u{f29}')
    ||| ('\u{1040}' <= c && c <= '\u{1049}')
    ||| ('\u{1090}' <= c && c <= '\u{1099}')
    ||| ('\u{17e0}' <= c && c <= '\u{17e9}')
    ||| ('\u{1810}' <= c && c <= '\u{1819}')
    ||| ('\u{1946}' <= c && c <= '\u{194f}')
    ||| ('\u{19d0}' <= c && c <= '\u{19d9}')
    ||| ('\u{1a80}' <= c && c <= '\u{1a89}')
    ||| ('\u{1a90}' <= c && c <= '\u{1a99}')
    ||| ('\u{1b50}' <= c && c <= '\u{1b59}')
    ||| ('\u{1bb0}' <= c && c <= '\u{1bb9}')
    ||| ('\u{1c40}' <= c && c <= '\u{1c49}')
    ||| ('\u{1c50}' <= c && c <= '\u{1c59}')
    ||| ('\u{a620}' <= c && c <= '\u{a629}')
    ||| ('\u{a8d0}' <= c && c <= '\u{a8d9}')
    ||| ('\u{a900}' <= c && c <= '\u{a909}')
    ||| ('\u{a9d0}' <= c && c <= '\u{a9d9}')
    ||| ('\u{a9f0}' <= c && c <= '\u{a9f9}')
    ||| ('\u{aa50}' <= c && c <= '\u{aa59}')
    ||| ('\u{abf0}' <= c && c <= '\u{abf9}')
    ||| ('\u{ff10}' <= c && c <= '\u{ff19}')
    ||| ('\u{104a0}' <= c && c <= '\u{104a9}')
    ||| ('\u{10d30}' <= c && c <= '\u{10d39}')
    ||| ('\u{10d40}' <= c && c <= '\u{10d49}')
    ||| ('\u{11066}' <= c && c <= '\u{1106f}')
    ||| ('\u{110f0}' <= c && c <= '\u{110f9}')
    ||| ('\u{11136}' <= c && c <= '\u{1113f}')
    ||| ('\u{111d0}' <= c && c <= '\u{111d9}')
    ||| ('\u{112f0}' <= c && c <= '\u{112f9}')
    ||| ('\u{11450}' <= c && c <= '\u{11459}')
    ||| ('\u{114d0}' <= c && c <= '\u{114d9}')
    ||| ('\u{11650}' <= c && c <= '\u{11659}')
    ||| ('\u{116c0}' <= c && c <= '\u{116c9}')
    ||| ('\u{116d0}' <= c && c <= '\u{116e3}')
    ||| ('\u{11730}' <= c && c <= '\u{11739}')
    ||| ('\u{118e0}' <= c && c <= '\u{118e9}')
    ||| ('\u{11950}' <= c && c <= '\u{11959}')
    ||| ('\u{11bf0}' <= c && c <= '\u{11bf9}')
    ||| ('\u{11c50}' <= c && c <= '\u{11c59}')
    ||| ('\u{11d50}' <= c && c <= '\u{11d59}')
    ||| ('\u{11da0}' <= c && c <= '\u{11da9}')
    ||| ('\u{11f50}' <= c && c <= '\u{11f59}')
    ||| ('\u{16130}' <= c && c <= '\u{16139}')
    ||| ('\u{16a60}' <= c && c <= '\u{16a69}')
    ||| ('\u{16ac0}' <= c && c <= '\u{16ac9}')
    ||| ('\u{16b50}' <= c && c <= '\u{16b59}')
    ||| ('\u{16d70}' <= c && c <= '\u{16d79}')
    ||| ('\u{1ccf0}' <= c && c <= '\u{1ccf9}')
    ||| ('\u{1d7ce}' <= c && c <= '\u{1d7ff}')
    ||| ('\u{1e140}' <= c && c <= '\u{1e149}')
    ||| ('\u{1e2f0}' <= c && c <= '\u{1e2f9}')
    ||| ('\u{1e4f0}' <= c && c <= '\u{1e4f9}')
    ||| ('\u{1e5f1}' <= c && c <= '\u{1e5fa}')
    ||| ('\u{1e950}' <= c && c <= '\u{1e959}')
    ||| ('\u{1fbf0}' <= c && c <= '\u{1fbf9}')
}

/// The index of the first character at or after `from` that is no digit,
/// or the length of `s` where only digits follow.
pub open spec fn digits_end(s: Seq<char>, from: int) -> int
    decreases s.len() - from,
{
    if 0 <= from < s.len() && is_decimal_digit(s[from]) {
        digits_end(s, from + 1)
    } else {
        from
    }
}

/// Whether `c` is whitespace: a character with the Unicode property
/// `White_Space`, among them space, tab, line feed and carriage return.
pub open spec fn is_whitespace(c: char) -> bool {
    ||| c == ' '
    ||| ('\u{9}' <= c && c <= '\u{d}')
    ||| c == '\u{85}'
    ||| c == '\u{a0}'
    ||| c == '\u{1680}'
    ||| ('\u{2000}' <= c && c <= '\u{200a}')
    ||| c == '\u{2028}'
    ||| c == '\u{2029}'
    ||| c == '\u{202f}'
    ||| c == '\u{205f}'
    ||| c == '\u{3000}'
}

/// The index of the first character at or after `from` that is no
/// whitespace, or the length of `s` where only whitespace follows.
pub open spec fn whitespace_end(s: Seq<char>, from: int) -> int
    decreases s.len() - from,
{
    if 0 <= from < s.len() && is_whitespace(s[from]) {
        whitespace_end(s, from + 1)
    } else {
        from
    }
}

/// Whether `s` starts with the four characters that open a tag.
pub open spec fn has_tag_opening(s: Seq<char>) -> bool {
    &&& s.len() >= 4
    &&& s[0] == '['
    &&& (s[1] == 'O' || s[1] == 'o')
    &&& (s[2] == 'P' || s[2] == 'p')
    &&& s[3] == '#'
}

/// Whether `s` starts with a complete tag.
pub open spec fn has_tag(s: Seq<char>) -> bool {
    &&& has_tag_opening(s)
    &&& 4 < digits_end(s, 4) < s.len()
    &&& s[digits_end(s, 4)] == ']'
}

/// The digits of the tag that `s` starts with.
pub open spec fn tag_digits(s: Seq<char>) -> Seq<char>
    recommends
        has_tag(s),
{
    s.subrange(4, digits_end(s, 4))
}

/// What follows the tag and its separating whitespace; empty where no
/// whitespace follows the tag.
pub open spec fn tag_residual(s: Seq<char>) -> Seq<char>
    recommends
        has_tag(s),
{
    let after = digits_end(s, 4) + 1;
    if after < s.len() && is_whitespace(s[after]) {
        s.subrange(whitespace_end(s, after), s.len() as int)
    } else {
        Seq::empty()
    }
}

/// The work-package identifier and the residual description of `s`, or
/// `None` where `s` does not start with a tag.
pub open spec fn parse_spec(s: Seq<char>) -> Option<(Seq<char>, Seq<char>)> {
    if has_tag(s) {
        Some((tag_digits(s), tag_residual(s)))
    } else {
        None
    }
}

/// Whether every character of `s` is whitespace.
pub open spec fn all_whitespace(s: Seq<char>) -> bool {
    forall|i: int| 0 <= i < s.len() ==> is_whitespace(#[trigger] s[i])
}

/// The text of a tag with the given letters and digits.
pub open spec fn tag_text(o: char, p: char, digits: Seq<char>) -> Seq<char> {
    seq!['[', o, p, '#'] + digits + seq![']']
}

/// Whether every character of `s` is a decimal digit.
pub open spec fn all_digits(s: Seq<char>) -> bool {
    forall|i: int| 0 <= i < s.len() ==> is_decimal_digit(#[trigger] s[i])
}

/// Digits from `from` up to `to`, and none at `to`, put the end of the run at `to`.
pub proof fn lemma_digits_end(s: Seq<char>, from: int, to: int)
    requires
        0 <= from <= to <= s.len(),
        forall|i: int| from <= i < to ==> is_decimal_digit(#[trigger] s[i]),
        to == s.len() || !is_decimal_digit(s[to]),
    ensures
        digits_end(s, from) == to,
    decreases to - from,
{
    if from < to {
        lemma_digits_end(s, from + 1, to);
    }
}

/// Whitespace from `from` up to `to`, and none at `to`, put the end of the run at `to`.
pub proof fn lemma_whitespace_end(s: Seq<char>, from: int, to: int)
    requires
        0 <= from <= to <= s.len(),
        forall|i: int| from <= i < to ==> is_whitespace(#[trigger] s[i]),
        to == s.len() || !is_whitespace(s[to]),
    ensures
        whitespace_end(s, from) == to,
    decreases to - from,
{
    if from < to {
        lemma_whitespace_end(s, from + 1, to);
    }
}

/// The run of digits that starts at `from` holds digits only and ends
/// before a character that is none.
pub proof fn lemma_digits_end_is_run(s: Seq<char>, from: int)
    requires
        0 <= from <= s.len(),
    ensures
        from <= digits_end(s, from) <= s.len(),
        forall|i: int| from <= i < digits_end(s, from) ==> is_decimal_digit(#[trigger] s[i]),
        digits_end(s, from) == s.len() || !is_decimal_digit(s[digits_end(s, from)]),
    decreases s.len() - from,
{
    if from < s.len() && is_decimal_digit(s[from]) {
        lemma_digits_end_is_run(s, from + 1);
    }
}

/// A tag followed by whitespace and a text that does not itself start with
/// whitespace is read as the tag's digits and that text, whatever the case
/// of the two letters and whichever whitespace separates.
pub proof fn lemma_parse_tagged(o: char, p: char, digits: Seq<char>, gap: Seq<char>, rest: Seq<char>)
    requires
        o == 'O' || o == 'o',
        p == 'P' || p == 'p',
        digits.len() > 0,
        all_digits(digits),
        gap.len() > 0,
        all_whitespace(gap),
        rest.len() == 0 || !is_whitespace(rest[0]),
    ensures
        parse_spec(tag_text(o, p, digits) + gap + rest) == Some((digits, rest)),
{
    let s = tag_text(o, p, digits) + gap + rest;
    let close = 4 + digits.len() as int;
    assert(s[close] == ']');
    assert forall|i: int| 4 <= i < close implies is_decimal_digit(#[trigger] s[i]) by {
        assert(s[i] == digits[i - 4]);
    }
    lemma_digits_end(s, 4, close);
    let after = close + 1;
    let text = after + gap.len() as int;
    assert forall|i: int| after <= i < text implies is_whitespace(#[trigger] s[i]) by {
        assert(s[i] == gap[i - after]);
    }
    if rest.len() > 0 {
        assert(s[text] == rest[0]);
    }
    lemma_whitespace_end(s, after, text);
    assert(s[after] == gap[0]);
    assert(tag_digits(s) =~= digits);
    assert(tag_residual(s) =~= rest);
}

/// A tag with nothing behind it is read as its digits and an empty residual.
pub proof fn lemma_parse_bare_tag(o: char, p: char, digits: Seq<char>)
    requires
        o == 'O' || o == 'o',
        p == 'P' || p == 'p',
        digits.len() > 0,
        all_digits(digits),
    ensures
        parse_spec(tag_text(o, p, digits)) == Some((digits, Seq::<char>::empty())),
{
    let s = tag_text(o, p, digits);
    let close = 4 + digits.len() as int;
    assert(s[close] == ']');
    assert forall|i: int| 4 <= i < close implies is_decimal_digit(#[trigger] s[i]) by {
        assert(s[i] == digits[i - 4]);
    }
    lemma_digits_end(s, 4, close);
    assert(tag_digits(s) =~= digits);
}

/// The identifier that is read is never empty, holds digits only, and is
/// what stands between `#` and `]` at the head of the description; the
/// residual is an end of the description.
pub proof fn lemma_parsed_parts(s: Seq<char>)
    requires
        parse_spec(s) is Some,
    ensures
        ({
            let (id, residual) = parse_spec(s).unwrap();
            &&& id.len() > 0
            &&& all_digits(id)
            &&& tag_text(s[1], s[2], id).is_prefix_of(s)
            &&& residual.is_suffix_of(s)
        }),
{
    let end = digits_end(s, 4);
    lemma_digits_end_is_run(s, 4);
    let (id, residual) = parse_spec(s).unwrap();
    assert(tag_text(s[1], s[2], id) =~= s.subrange(0, end + 1));
    let after = end + 1;
    if after < s.len() && is_whitespace(s[after]) {
        lemma_whitespace_end_in_range(s, after);
        assert(residual =~= s.subrange(s.len() - residual.len(), s.len() as int));
    } else {
        assert(residual =~= s.subrange(s.len() - residual.len(), s.len() as int));
    }
}

/// The run of whitespace that starts at `from` ends within `s`.
proof fn lemma_whitespace_end_in_range(s: Seq<char>, from: int)
    requires
        0 <= from <= s.len(),
    ensures
        from <= whitespace_end(s, from) <= s.len(),
    decreases s.len() - from,
{
    if from < s.len() && is_whitespace(s[from]) {
        lemma_whitespace_end_in_range(s, from + 1);
    }
}

/// A description is read if and only if it starts with the text of a tag:
/// every other string gives `None`.
pub proof fn lemma_parse_some_iff_tagged(s: Seq<char>)
    ensures
        parse_spec(s) is Some <==> exists|o: char, p: char, digits: Seq<char>|
            {
                &&& (o == 'O' || o == 'o')
                &&& (p == 'P' || p == 'p')
                &&& digits.len() > 0
                &&& all_digits(digits)
                &&& #[trigger] tag_text(o, p, digits).is_prefix_of(s)
            },
{
    if parse_spec(s) is Some {
        let end = digits_end(s, 4);
        lemma_digits_end_is_run(s, 4);
        let digits = s.subrange(4, end);
        assert(all_digits(digits));
        assert(tag_text(s[1], s[2], digits) =~= s.subrange(0, end + 1));
        assert(tag_text(s[1], s[2], digits).is_prefix_of(s));
    }
    if exists|o: char, p: char, digits: Seq<char>|
        {
            &&& (o == 'O' || o == 'o')
            &&& (p == 'P' || p == 'p')
            &&& digits.len() > 0
            &&& all_digits(digits)
            &&& #[trigger] tag_text(o, p, digits).is_prefix_of(s)
        } {
        let (o, p, digits) = choose|o: char, p: char, digits: Seq<char>|
            {
                &&& (o == 'O' || o == 'o')
                &&& (p == 'P' || p == 'p')
                &&& digits.len() > 0
                &&& all_digits(digits)
                &&& #[trigger] tag_text(o, p, digits).is_prefix_of(s)
            };
        let t = tag_text(o, p, digits);
        let close = 4 + digits.len() as int;
        assert(t.len() == close + 1);
        assert forall|i: int| 0 <= i <= close implies s[i] == t[i] by {
            assert(s.subrange(0, t.len() as int)[i] == t[i]);
        }
        assert(t[0] == '[' && t[1] == o && t[2] == p && t[3] == '#' && t[close] == ']');
        assert forall|i: int| 4 <= i < close implies is_decimal_digit(#[trigger] s[i]) by {
            assert(s[i] == t[i]);
            assert(t[i] == digits[i - 4]);
        }
        lemma_digits_end(s, 4, close);
    }
}

/// Reads the work-package identifier and the residual description from a
/// description, or gives `None` where it does not start with a tag.
pub fn parse(description: &str) -> (r: Option<(String, String)>)
    ensures
        match r {
            Some((id, residual)) => parse_spec(description@) == Some((id@, residual@)),
            None => parse_spec(description@) is None,
        },
{
    let len = description.unicode_len();
    if len < 4 {
        return None;
    }
    let c0 = description.get_char(0);
    let c1 = description.get_char(1);
    let c2 = description.get_char(2);
    let c3 = description.get_char(3);
    if !(c0 == '[' && (c1 == 'O' || c1 == 'o') && (c2 == 'P' || c2 == 'p') && c3 == '#') {
        return None;
    }
    let mut end: usize = 4;
    while end < len && is_decimal_digit_char(description.get_char(end))
        invariant
            4 <= end <= len,
            len == description@.len(),
            forall|i: int| 4 <= i < end ==> is_decimal_digit(#[trigger] description@[i]),
        decreases len - end,
    {
        end += 1;
    }
    proof {
        lemma_digits_end(description@, 4, end as int);
    }
    if end == 4 || end >= len {
        return None;
    }
    if description.get_char(end) != ']' {
        return None;
    }
    let id = String::from_str(description.substring_char(4, end));
    let after = end + 1;
    if after < len && is_whitespace_char(description.get_char(after)) {
        let mut text = after;
        while text < len && is_whitespace_char(description.get_char(text))
            invariant
                after <= text <= len,
                len == description@.len(),
                forall|i: int| after <= i < text ==> is_whitespace(#[trigger] description@[i]),
            decreases len - text,
        {
            text += 1;
        }
        proof {
            lemma_whitespace_end(description@, after as int, text as int);
        }
        let residual = String::from_str(description.substring_char(text, len));
        Some((id, residual))
    } else {
        Some((id, String::new()))
    }
}

/// Whether `c` is whitespace.
pub fn is_whitespace_char(c: char) -> (r: bool)
    ensures
        r == is_whitespace(c),
{
    c == ' ' || ('\u{9}' <= c && c <= '\u{d}') || c == '\u{85}' || c == '\u{a0}' || c == '\u{1680}'
        || ('\u{2000}' <= c && c <= '\u{200a}') || c == '\u{2028}' || c == '\u{2029}' || c
        == '\u{202f}' || c == '\u{205f}' || c == '\u{3000}'
}

/// Whether `c` is a decimal digit.
pub fn is_decimal_digit_char(c: char) -> (r: bool)
    ensures
        r == is_decimal_digit(c),
{
    ('\u{30}' <= c && c <= '\u{39}')
        || ('\u{660}' <= c && c <= '\u{669}')
        || ('\u{6f0}' <= c && c <= '\u{6f9}')
        || ('\u{7c0}' <= c && c <= '\u{7c9}')
        || ('\u{966}' <= c && c <= '\u{96f}')
        || ('\u{9e6}' <= c && c <= '\u{9ef}')
        || ('\u{a66}' <= c && c <= '\u{a6f}')
        || ('\u{ae6}' <= c && c <= '\u{aef}')
        || ('\u{b66}' <= c && c <= '\u{b6f}')
        || ('\u{be6}' <= c && c <= '\u{bef}')
        || ('\u{c66}' <= c && c <= '\u{c6f}')
        || ('\u{ce6}' <= c && c <= '\u{cef}')
        || ('\u{d66}' <= c && c <= '\u{d6f}')
        || ('\u{de6}' <= c && c <= '\u{def}')
        || ('\u{e50}' <= c && c <= '\u{e59}')
        || ('\u{ed0}' <= c && c <= '\u{ed9}')
        || ('\u{f20}' <= c && c <= '\u{f29}')
        || ('\u{1040}' <= c && c <= '\u{1049}')
        || ('\u{1090}' <= c && c <= '\u{1099}')
        || ('\u{17e0}' <= c && c <= '\u{17e9}')
        || ('\u{1810}' <= c && c <= '\u{1819}')
        || ('\u{1946}' <= c && c <= '\u{194f}')
        || ('\u{19d0}' <= c && c <= '\u{19d9}')
        || ('\u{1a80}' <= c && c <= '\u{1a89}')
        || ('\u{1a90}' <= c && c <= '\u{1a99}')
        || ('\u{1b50}' <= c && c <= '\u{1b59}')
        || ('\u{1bb0}' <= c && c <= '\u{1bb9}')
        || ('\u{1c40}' <= c && c <= '\u{1c49}')
        || ('\u{1c50}' <= c && c <= '\u{1c59}')
        || ('\u{a620}' <= c && c <= '\u{a629}')
        || ('\u{a8d0}' <= c && c <= '\u{a8d9}')
        || ('\u{a900}' <= c && c <= '\u{a909}')
        || ('\u{a9d0}' <= c && c <= '\u{a9d9}')
        || ('\u{a9f0}' <= c && c <= '\u{a9f9}')
        || ('\u{aa50}' <= c && c <= '\u{aa59}')
        || ('\u{abf0}' <= c && c <= '\u{abf9}')
        || ('\u{ff10}' <= c && c <= '\u{ff19}')
        || ('\u{104a0}' <= c && c <= '\u{104a9}')
        || ('\u{10d30}' <= c && c <= '\u{10d39}')
        || ('\u{10d40}' <= c && c <= '\u{10d49}')
        || ('\u{11066}' <= c && c <= '\u{1106f}')
        || ('\u{110f0}' <= c && c <= '\u{110f9}')
        || ('\u{11136}' <= c && c <= '\u{1113f}')
        || ('\u{111d0}' <= c && c <= '\u{111d9}')
        || ('\u{112f0}' <= c && c <= '\u{112f9}')
        || ('\u{11450}' <= c && c <= '\u{11459}')
        || ('\u{114d0}' <= c && c <= '\u{114d9}')
        || ('\u{11650}' <= c && c <= '\u{11659}')
        || ('\u{116c0}' <= c && c <= '\u{116c9}')
        || ('\u{116d0}' <= c && c <= '\u{116e3}')
        || ('\u{11730}' <= c && c <= '\u{11739}')
        || ('\u{118e0}' <= c && c <= '\u{118e9}')
        || ('\u{11950}' <= c && c <= '\u{11959}')
        || ('\u{11bf0}' <= c && c <= '\u{11bf9}')
        || ('\u{11c50}' <= c && c <= '\u{11c59}')
        || ('\u{11d50}' <= c && c <= '\u{11d59}')
        || ('\u{11da0}' <= c && c <= '\u{11da9}')
        || ('\u{11f50}' <= c && c <= '\u{11f59}')
        || ('\u{16130}' <= c && c <= '\u{16139}')
        || ('\u{16a60}' <= c && c <= '\u{16a69}')
        || ('\u{16ac0}' <= c && c <= '\u{16ac9}')
        || ('\u{16b50}' <= c && c <= '\u{16b59}')
        || ('\u{16d70}' <= c && c <= '\u{16d79}')
        || ('\u{1ccf0}' <= c && c <= '\u{1ccf9}')
        || ('\u{1d7ce}' <= c && c <= '\u{1d7ff}')
        || ('\u{1e140}' <= c && c <= '\u{1e149}')
        || ('\u{1e2f0}' <= c && c <= '\u{1e2f9}')
        || ('\u{1e4f0}' <= c && c <= '\u{1e4f9}')
        || ('\u{1e5f1}' <= c && c <= '\u{1e5fa}')
        || ('\u{1e950}' <= c && c <= '\u{1e959}')
        || ('\u{1fbf0}' <= c && c <= '\u{1fbf9}')
}

} // verus!
