//! Text: what the library relies on of `str` and `String`, and what it adds.

use vstd::prelude::*;
use vstd::utf8::{char_is_scalar, char_u32_cast, decode_utf8, is_ascii_chars, valid_utf8};

verus! {

/// The Unicode lowercase form of a text that is not all ASCII.
pub uninterp spec fn unicode_lowercase(text: Seq<char>) -> Seq<char>;

/// The text that bytes which are not all well-formed UTF-8 decode to, with
/// replacements.
pub uninterp spec fn utf8_repaired(bytes: Seq<u8>) -> Seq<char>;

/// A text with the letters A to Z replaced by a to z.
pub open spec fn ascii_lowercase(text: Seq<char>) -> Seq<char> {
    text.map_values(
        |c: char|
            if 'A' <= c <= 'Z' {
                (c as u32 + 32) as char
            } else {
                c
            },
    )
}

/// The lowercase form of a text.
pub open spec fn lowercase(text: Seq<char>) -> Seq<char> {
    if is_ascii_chars(text) {
        ascii_lowercase(text)
    } else {
        unicode_lowercase(text)
    }
}

/// Whether `part` stands somewhere in `text`.
pub open spec fn occurs_in(part: Seq<char>, text: Seq<char>) -> bool {
    exists|i: int|
        0 <= i <= text.len() - part.len() && #[trigger] text.subrange(i, i + part.len()) == part
}

/// Whether at least one of `words` stands somewhere in `text`.
pub open spec fn holds_any(words: Seq<&str>, text: Seq<char>) -> bool {
    exists|i: int| 0 <= i < words.len() && occurs_in((#[trigger] words[i])@, text)
}

/// Whether a character has the Unicode property White_Space.
pub open spec fn is_space(c: char) -> bool {
    let n = c as u32;
    ||| 0x09 <= n <= 0x0d
    ||| n == 0x20
    ||| n == 0x85
    ||| n == 0xa0
    ||| n == 0x1680
    ||| 0x2000 <= n <= 0x200a
    ||| n == 0x2028
    ||| n == 0x2029
    ||| n == 0x202f
    ||| n == 0x205f
    ||| n == 0x3000
}

/// A text without white space at either end.
pub open spec fn trimmed(text: Seq<char>) -> Seq<char>
    decreases text.len(),
{
    if text.len() > 0 && is_space(text.first()) {
        trimmed(text.drop_first())
    } else if text.len() > 0 && is_space(text.last()) {
        trimmed(text.drop_last())
    } else {
        text
    }
}

/// The UTF-16 units of one character.
pub open spec fn utf16_units(c: char) -> Seq<u16> {
    let n = c as u32;
    if n < 0x1_0000 {
        seq![n as u16]
    } else {
        seq![
            (0xd800 + (n - 0x1_0000) / 0x400) as u16,
            (0xdc00 + (n - 0x1_0000) % 0x400) as u16,
        ]
    }
}

/// The UTF-16 encoding of a text.
pub open spec fn utf16(text: Seq<char>) -> Seq<u16>
    decreases text.len(),
{
    if text.len() == 0 {
        seq![]
    } else {
        utf16_units(text.first()) + utf16(text.drop_first())
    }
}

/// Whether a UTF-16 unit is the first of a pair.
pub open spec fn is_high_surrogate(unit: u16) -> bool {
    0xd800 <= unit <= 0xdbff
}

/// Whether a UTF-16 unit is the second of a pair.
pub open spec fn is_low_surrogate(unit: u16) -> bool {
    0xdc00 <= unit <= 0xdfff
}

/// The text that UTF-16 units decode to, with U+FFFD for each surrogate that is not
/// part of a pair.
pub open spec fn utf16_lossy(units: Seq<u16>) -> Seq<char>
    decreases units.len(),
{
    if units.len() == 0 {
        seq![]
    } else if !is_high_surrogate(units[0]) && !is_low_surrogate(units[0]) {
        seq![units[0] as char] + utf16_lossy(units.skip(1))
    } else if units.len() > 1 && is_high_surrogate(units[0]) && is_low_surrogate(units[1]) {
        seq![(0x1_0000 + (units[0] - 0xd800) * 0x400 + (units[1] - 0xdc00)) as char]
            + utf16_lossy(units.skip(2))
    } else {
        seq!['\u{fffd}'] + utf16_lossy(units.skip(1))
    }
}

/// The text that UTF-8 bytes decode to, ill-formed parts replaced.
pub open spec fn utf8_lossy(bytes: Seq<u8>) -> Seq<char> {
    if valid_utf8(bytes) {
        decode_utf8(bytes)
    } else {
        utf8_repaired(bytes)
    }
}

/// The decimal digit of a number below ten.
pub open spec fn digit(n: int) -> char {
    ('0' as u32 + n) as char
}

/// A number in decimal, without leading zeros.
pub open spec fn decimal_text(n: nat) -> Seq<char>
    decreases n,
{
    if n < 10 {
        seq![digit(n as int)]
    } else {
        decimal_text(n / 10).push(digit((n % 10) as int))
    }
}

/// The number that a sequence of decimal digits stands for.
pub open spec fn number_of(digits: Seq<char>) -> nat
    decreases digits.len(),
{
    if digits.len() == 0 {
        0
    } else {
        10 * number_of(digits.drop_last()) + (digits.last() as u32 - '0' as u32) as nat
    }
}

/// A text without a plus sign before it.
pub open spec fn unsigned_part(text: Seq<char>) -> Seq<char> {
    if text.len() > 0 && text[0] == '+' {
        text.skip(1)
    } else {
        text
    }
}

/// Whether a text consists of decimal digits that stand for a number in the range of
/// `u32`.
pub open spec fn digits_fit(digits: Seq<char>) -> bool {
    &&& forall|i: int| 0 <= i < digits.len() ==> '0' <= #[trigger] digits[i] <= '9'
    &&& number_of(digits) <= u32::MAX
}

/// The `u32` that a text names: decimal digits, one plus sign before them allowed.
pub open spec fn parsed_u32(text: Seq<char>) -> Option<u32> {
    let digits = unsigned_part(text);
    if digits.len() > 0 && digits_fit(digits) {
        Some(number_of(digits) as u32)
    } else {
        None
    }
}

/// `str::to_lowercase`: an ASCII text has A to Z replaced by a to z. Of any other text
/// the result depends on the text alone; which it is, is left to the Unicode tables of
/// the standard library.
pub assume_specification[ str::to_lowercase ](text: &str) -> (lower: String)
    ensures
        is_ascii_chars(text@) ==> lower@ == ascii_lowercase(text@),
        !is_ascii_chars(text@) ==> lower@ == unicode_lowercase(text@),
;

/// `str::trim`: the text without leading and trailing white space.
pub assume_specification[ str::trim ](text: &str) -> (inner: &str)
    ensures
        inner@ == trimmed(text@),
;

/// `String::push`: appends one character.
pub assume_specification[ String::push ](text: &mut String, c: char)
    ensures
        final(text)@ == old(text)@.push(c),
;

/// `String::from_utf16_lossy`: the text that the units decode to, with U+FFFD for each
/// surrogate that is not part of a pair.
pub assume_specification[ String::from_utf16_lossy ](units: &[u16]) -> (text: String)
    ensures
        text@ == utf16_lossy(units@),
;

/// `String::from_utf8_lossy`: the text whose UTF-8 encoding the bytes are. Of bytes that
/// are no such encoding the result depends on the bytes alone; which parts are replaced
/// is left to the standard library.
#[verifier::external_body]
pub(crate) fn text_from_utf8(bytes: &[u8]) -> (text: String)
    ensures
        valid_utf8(bytes@) ==> text@ == decode_utf8(bytes@),
        !valid_utf8(bytes@) ==> text@ == utf8_repaired(bytes@),
{
    String::from_utf8_lossy(bytes).into_owned()
}

/// `str::contains` with a text as its pattern: whether `part` stands somewhere in `text`.
#[verifier::external_body]
pub(crate) fn contains(text: &str, part: &str) -> (b: bool)
    ensures
        b == occurs_in(part@, text@),
{
    text.contains(part)
}

/// The UTF-16 units of a text.
pub(crate) fn units_of(text: &str) -> (units: Vec<u16>)
    ensures
        units@ == utf16(text@),
{
    let mut units: Vec<u16> = Vec::new();
    assert(text@.skip(0) =~= text@);
    for c in it: text.chars()
        invariant
            it.seq() == text@,
            units@ + utf16(text@.skip(it.index() as int)) == utf16(text@),
    {
        let ghost done = units@;
        let ghost rest = text@.skip(it.index() as int);
        proof {
            char_is_scalar(c);
            assert(rest.first() == c);
            assert(rest.drop_first() =~= text@.skip(it.index() + 1));
        }
        let n: u32 = c as u32;
        if n < 0x1_0000 {
            units.push(n as u16);
        } else {
            units.push((0xd800 + (n - 0x1_0000) / 0x400) as u16);
            units.push((0xdc00 + (n - 0x1_0000) % 0x400) as u16);
        }
        assert(units@ =~= done + utf16_units(c));
        assert(units@ + utf16(rest.drop_first()) =~= done + utf16(rest));
    }
    assert(units@ =~= utf16(text@));
    units
}

/// A number in decimal, without leading zeros.
pub(crate) fn decimal(n: u32) -> (text: String)
    ensures
        text@ == decimal_text(n as nat),
    decreases n,
{
    let mut text = if n < 10 {
        String::new()
    } else {
        decimal(n / 10)
    };
    let last: u8 = (n % 10) as u8;
    text.push((48 + last) as char);
    assert(text@ =~= decimal_text(n as nat));
    text
}

/// The number that a text names: decimal digits, one plus sign before them allowed;
/// nothing where the text is anything else or the number is too great.
pub(crate) fn parse_u32(text: &str) -> (n: Option<u32>)
    ensures
        n == parsed_u32(text@),
{
    let ghost digits = unsigned_part(text@);
    let ghost sign = text@.len() - digits.len();
    let ghost mut read: int = 0;
    let mut n: u64 = 0;
    let mut at_start = true;
    let mut any = false;
    let mut fits = true;
    for c in it: text.chars()
        invariant
            it.seq() == text@,
            digits == unsigned_part(text@),
            sign == text@.len() - digits.len(),
            at_start == (it.index() == 0),
            read == if it.index() <= sign {
                0
            } else {
                it.index() - sign
            },
            any == (read > 0),
            fits == digits_fit(digits.take(read)),
            fits ==> n == number_of(digits.take(read)),
    {
        if at_start && c == '+' {
            assert(sign == 1);
        } else {
            proof {
                assert(digits[read] == c);
                assert(digits.take(read + 1).drop_last() =~= digits.take(read));
                assert(digits.take(read + 1).last() == c);
                assert(forall|i: int|
                    0 <= i < read ==> #[trigger] digits.take(read)[i] == digits.take(read + 1)[i]);
                read = read + 1;
            }
            any = true;
            if fits && '0' <= c && c <= '9' {
                n = 10 * n + (c as u64 - 48);
                fits = n <= u32::MAX as u64;
            } else {
                fits = false;
            }
        }
        at_start = false;
    }
    assert(digits.take(read) =~= digits);
    if any && fits {
        Some(n as u32)
    } else {
        None
    }
}

/// Decoding gives back what was encoded.
pub proof fn law_utf16_reads_back(text: Seq<char>)
    ensures
        utf16_lossy(utf16(text)) == text,
    decreases text.len(),
{
    if text.len() > 0 {
        let c = text.first();
        let rest = text.drop_first();
        let all = utf16(text);
        char_is_scalar(c);
        law_utf16_reads_back(rest);
        assert(all.skip(utf16_units(c).len() as int) =~= utf16(rest));
        let n = c as u32;
        if n >= 0x1_0000 {
            assert(0x1_0000 + (all[0] - 0xd800) * 0x400 + (all[1] - 0xdc00) == n);
        }
        char_u32_cast(c, n);
        assert(utf16_lossy(all) =~= seq![c] + rest);
        assert(text =~= seq![c] + rest);
    } else {
        assert(text =~= seq![]);
    }
}

/// Decoding gives U+FFFD for a surrogate that stands alone, and goes on behind it.
pub proof fn law_lone_surrogates(units: Seq<u16>)
    requires
        units.len() > 0,
        0xd800 <= units[0] <= 0xdfff,
        units[0] >= 0xdc00 || units.len() == 1 || !(0xdc00 <= units[1] <= 0xdfff),
    ensures
        utf16_lossy(units) == seq!['\u{fffd}'] + utf16_lossy(units.skip(1)),
{
}

/// Lower case of an ASCII text: each of the letters A to Z, codes 65 to 90, becomes the
/// letter 32 codes on, and every other character stays.
pub proof fn law_ascii_lowercase(text: Seq<char>, i: int)
    requires
        is_ascii_chars(text),
        0 <= i < text.len(),
    ensures
        lowercase(text).len() == text.len(),
        65 <= text[i] as u32 <= 90 ==> lowercase(text)[i] as u32 == text[i] as u32 + 32,
        !(65 <= text[i] as u32 <= 90) ==> lowercase(text)[i] == text[i],
{
}

/// A text stands in every text that it is put into, and where it stands in a text, that
/// text is something before it, the text itself and something behind it.
pub proof fn law_occurrence(part: Seq<char>, before: Seq<char>, after: Seq<char>, text: Seq<char>)
    ensures
        occurs_in(part, before + part + after),
        occurs_in(part, text) ==> exists|a: Seq<char>, b: Seq<char>|
            text == #[trigger] (a + part + b),
{
    let whole = before + part + after;
    let n = before.len() as int;
    assert(whole.subrange(n, n + part.len()) =~= part);
    if occurs_in(part, text) {
        let i = choose|i: int|
            0 <= i <= text.len() - part.len() && #[trigger] text.subrange(i, i + part.len())
                == part;
        assert(text =~= text.take(i) + part + text.skip(i + part.len()));
    }
}

/// White space at the ends goes and nothing else does: what starts and ends with other
/// characters is what is left of itself between any white space.
pub proof fn law_trim(left: Seq<char>, body: Seq<char>, right: Seq<char>)
    requires
        forall|i: int| 0 <= i < left.len() ==> is_space(#[trigger] left[i]),
        forall|i: int| 0 <= i < right.len() ==> is_space(#[trigger] right[i]),
        body.len() > 0,
        !is_space(body.first()),
        !is_space(body.last()),
    ensures
        trimmed(left + body + right) == body,
    decreases left.len() + right.len(),
{
    let text = left + body + right;
    if left.len() > 0 {
        assert(is_space(left[0]));
        assert(text.first() == left[0]);
        let rest = left.drop_first();
        assert(forall|i: int| 0 <= i < rest.len() ==> rest[i] == left[i + 1]);
        law_trim(rest, body, right);
        assert(text.drop_first() =~= rest + body + right);
    } else if right.len() > 0 {
        let n = right.len() - 1;
        assert(is_space(right[n]));
        assert(text.first() == body.first());
        assert(text.last() == right[n]);
        let rest = right.drop_last();
        assert(forall|i: int| 0 <= i < rest.len() ==> rest[i] == right[i]);
        law_trim(left, body, rest);
        assert(text.drop_last() =~= left + body + rest);
    } else {
        assert(text =~= body);
    }
}

/// A number in decimal consists of the ten digits, starts with a zero only where it is
/// zero, and stands for the number.
pub proof fn law_decimal(n: nat)
    ensures
        decimal_text(n).len() > 0,
        forall|i: int|
            0 <= i < decimal_text(n).len() ==> '0' <= #[trigger] decimal_text(n)[i] <= '9',
        decimal_text(n)[0] == '0' ==> n == 0,
        number_of(decimal_text(n)) == n,
    decreases n,
{
    if n >= 10 {
        law_decimal(n / 10);
        let text = decimal_text(n);
        assert(text.drop_last() =~= decimal_text(n / 10));
        assert(text.last() == digit((n % 10) as int));
        assert(text[0] == decimal_text(n / 10)[0]);
    } else {
        assert(decimal_text(n).drop_last() =~= Seq::empty());
        assert(number_of(Seq::empty()) == 0);
    }
}

/// A number in decimal, with a plus sign before it or not, is read back; one above the
/// range of `u32` is not read.
pub proof fn law_decimal_reads_back(n: nat)
    ensures
        n <= u32::MAX ==> parsed_u32(decimal_text(n)) == Some(n as u32),
        n <= u32::MAX ==> parsed_u32(seq!['+'] + decimal_text(n)) == Some(n as u32),
        n > u32::MAX ==> parsed_u32(decimal_text(n)) is None,
{
    law_decimal(n);
    assert((seq!['+'] + decimal_text(n)).skip(1) =~= decimal_text(n));
    assert('0' <= decimal_text(n)[0]);
}

/// A text with any character that is no digit, but for a plus sign at its start, names no
/// number, and neither does one without digits.
pub proof fn law_other_texts_are_no_numbers(text: Seq<char>, i: int)
    requires
        text.len() == 0 || text == seq!['+'] || (0 <= i < text.len() && !('0' <= text[i] <= '9')
            && (i > 0 || text[i] != '+')),
    ensures
        parsed_u32(text) is None,
{
    let digits = unsigned_part(text);
    if text.len() > 0 && text != seq!['+'] {
        if text[0] == '+' {
            assert(digits[i - 1] == text[i]);
        } else {
            assert(digits[i] == text[i]);
        }
    }
}

/// A text of digits names the number that they stand for, leading zeros or not, where it
/// is in range: none stands for zero, and one digit more for ten times as much and the
/// digit.
pub proof fn law_digits(digits: Seq<char>, d: int)
    requires
        digits.len() > 0,
        forall|i: int| 0 <= i < digits.len() ==> '0' <= #[trigger] digits[i] <= '9',
        0 <= d <= 9,
    ensures
        number_of(digits) <= u32::MAX ==> parsed_u32(digits) == Some(number_of(digits) as u32),
        number_of(digits) > u32::MAX ==> parsed_u32(digits) is None,
        number_of(digits.push(digit(d))) == 10 * number_of(digits) + d,
        number_of(seq![digit(d)]) == d,
{
    assert(digits[0] != '+');
    assert(digits.push(digit(d)).drop_last() =~= digits);
    assert(seq![digit(d)].drop_last() =~= Seq::empty());
    assert(number_of(Seq::empty()) == 0);
}

/// The digits of zero to nine are the ten characters from code 48 on.
pub proof fn law_digit(d: int)
    requires
        0 <= d <= 9,
    ensures
        digit(d) as u32 == 48 + d,
{
}

} // verus!
