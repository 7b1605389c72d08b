//! Numbers and texts in blocks of bytes.

use vstd::prelude::*;
use vstd::utf8::{
    char_is_scalar, encode_utf8, encode_utf8_decode_utf8, encode_utf8_valid_utf8,
};
use crate::sequences::{before, law_before, lemma_before};
use crate::text::{
    is_high_surrogate, is_low_surrogate, law_utf16_reads_back, text_from_utf8, utf16, utf16_lossy, utf16_units, utf8_lossy,
};

verus! {

/// The little-endian 16-bit number at `at`.
pub open spec fn u16_at(bytes: Seq<u8>, at: int) -> u16 {
    (bytes[at] + 0x100 * bytes[at + 1]) as u16
}

/// The little-endian 32-bit number at `at`.
pub open spec fn u32_at(bytes: Seq<u8>, at: int) -> u32 {
    (bytes[at] + 0x100 * bytes[at + 1] + 0x1_0000 * bytes[at + 2] + 0x100_0000 * bytes[at
        + 3]) as u32
}

/// The first `count` little-endian 16-bit numbers.
pub open spec fn words(bytes: Seq<u8>, count: nat) -> Seq<u16> {
    Seq::new(count, |i: int| u16_at(bytes, 2 * i))
}

/// The smaller of two numbers.
pub open spec fn min(a: int, b: int) -> int {
    if a < b {
        a
    } else {
        b
    }
}

/// The UTF-16 units of a text field: at most `max_chars`, and those before the
/// first zero.
pub open spec fn wide_field(bytes: Seq<u8>, max_chars: int) -> Seq<u16> {
    before(words(bytes, min(max_chars, bytes.len() as int / 2) as nat), 0u16)
}

/// The bytes of a text field: at most `max_len`, and those before the first zero.
pub open spec fn narrow_field(bytes: Seq<u8>, max_len: int) -> Seq<u8> {
    before(bytes.take(min(max_len, bytes.len() as int)), 0u8)
}

/// Reads the little-endian 16-bit number at `at`.
pub(crate) fn read_u16(bytes: &[u8], at: usize) -> (n: u16)
    requires
        at + 2 <= bytes@.len(),
    ensures
        n == u16_at(bytes@, at as int),
{
    bytes[at] as u16 + 0x100 * (bytes[at + 1] as u16)
}

/// Reads the little-endian 32-bit number at `at`.
pub(crate) fn read_u32(bytes: &[u8], at: usize) -> (n: u32)
    requires
        at + 4 <= bytes@.len(),
    ensures
        n == u32_at(bytes@, at as int),
{
    bytes[at] as u32 + 0x100 * (bytes[at + 1] as u32) + 0x1_0000 * (bytes[at + 2] as u32)
        + 0x100_0000 * (bytes[at + 3] as u32)
}

/// The text in a field of little-endian UTF-16 units: at most `max_chars` units,
/// and those before the first zero.
pub fn decode_utf16(bytes: &[u8], max_chars: usize) -> (text: String)
    ensures
        text@ == utf16_lossy(wide_field(bytes@, max_chars as int)),
{
    let pairs: usize = if max_chars < bytes.len() / 2 {
        max_chars
    } else {
        bytes.len() / 2
    };
    let ghost all = words(bytes@, pairs as nat);
    let mut units: Vec<u16> = Vec::new();
    let mut i: usize = 0;
    while i < pairs
        invariant
            i <= pairs <= bytes.len() / 2,
            all == words(bytes@, pairs as nat),
            units@ == all.take(i as int),
            forall|j: int| 0 <= j < i ==> all[j] != 0,
        ensures
            i == pairs || all[i as int] == 0,
        decreases pairs - i,
    {
        let unit: u16 = read_u16(bytes, 2 * i);
        assert(unit == all[i as int]);
        if unit == 0 {
            break;
        }
        units.push(unit);
        assert(units@ =~= all.take(i + 1));
        i += 1;
    }
    proof {
        lemma_before(all, 0u16, i as int);
    }
    String::from_utf16_lossy(&units)
}

/// The text in a field of bytes: at most `max_len` bytes, and those before the
/// first zero.
pub fn decode_ansi(bytes: &[u8], max_len: usize) -> (text: String)
    ensures
        text@ == utf8_lossy(narrow_field(bytes@, max_len as int)),
{
    let limit: usize = if max_len < bytes.len() {
        max_len
    } else {
        bytes.len()
    };
    let ghost all = bytes@.take(limit as int);
    let mut end: usize = 0;
    while end < limit && bytes[end] != 0
        invariant
            end <= limit <= bytes@.len(),
            all == bytes@.take(limit as int),
            forall|j: int| 0 <= j < end ==> all[j] != 0,
        decreases limit - end,
    {
        end += 1;
    }
    proof {
        lemma_before(all, 0u8, end as int);
        assert(all.take(end as int) =~= bytes@.subrange(0, end as int));
    }
    text_from_utf8(&bytes[0..end])
}

/// A text without zero characters that stands in a field as UTF-16, followed by a zero
/// or filling what is read of the field, is read back.
pub proof fn law_wide_text_reads_back(text: Seq<char>, bytes: Seq<u8>, max_chars: int)
    requires
        forall|i: int| 0 <= i < text.len() ==> #[trigger] text[i] as u32 != 0,
        utf16(text).len() <= min(max_chars, bytes.len() as int / 2),
        forall|i: int| 0 <= i < utf16(text).len() ==> #[trigger] utf16(text)[i] == u16_at(bytes, 2 * i),
        utf16(text).len() == min(max_chars, bytes.len() as int / 2) || u16_at(
            bytes,
            2 * utf16(text).len() as int,
        ) == 0,
    ensures
        utf16_lossy(wide_field(bytes, max_chars)) == text,
{
    let n = utf16(text).len() as int;
    let all = words(bytes, min(max_chars, bytes.len() as int / 2) as nat);
    lemma_units_are_not_zero(text);
    assert forall|i: int| 0 <= i < n implies all[i] != 0 by {
        assert(utf16(text)[i] == u16_at(bytes, 2 * i));
    }
    lemma_before(all, 0u16, n);
    assert(all.take(n) =~= utf16(text));
    law_utf16_reads_back(text);
}

/// A text that stands in a field as UTF-8 without a zero byte, followed by a zero or
/// filling what is read of the field, is read back.
pub proof fn law_narrow_text_reads_back(text: Seq<char>, bytes: Seq<u8>, max_len: int)
    requires
        0 <= max_len,
        !encode_utf8(text).contains(0u8),
        encode_utf8(text).len() <= min(max_len, bytes.len() as int),
        encode_utf8(text) == bytes.take(encode_utf8(text).len() as int),
        encode_utf8(text).len() == min(max_len, bytes.len() as int) || bytes[encode_utf8(
            text,
        ).len() as int] == 0,
    ensures
        utf8_lossy(narrow_field(bytes, max_len)) == text,
{
    let units = encode_utf8(text);
    let n = units.len() as int;
    let all = bytes.take(min(max_len, bytes.len() as int));
    assert forall|i: int| 0 <= i < n implies all[i] != 0 by {
        assert(all[i] == units[i]);
        assert(units.contains(units[i]));
    }
    lemma_before(all, 0u8, n);
    assert(all.take(n) =~= units);
    encode_utf8_valid_utf8(text);
    encode_utf8_decode_utf8(text);
}

/// No zero character comes out of a wide text field, whatever its bytes.
pub proof fn law_wide_text_has_no_zero(bytes: Seq<u8>, max_chars: int, i: int)
    requires
        0 <= max_chars,
        0 <= i < utf16_lossy(wide_field(bytes, max_chars)).len(),
    ensures
        utf16_lossy(wide_field(bytes, max_chars))[i] as u32 != 0,
{
    let all = words(bytes, min(max_chars, bytes.len() as int / 2) as nat);
    all.index_of_first_ensures(0u16);
    let units = wide_field(bytes, max_chars);
    assert forall|j: int| 0 <= j < units.len() implies #[trigger] units[j] != 0 by {
        assert(units[j] == all[j]);
        if all[j] == 0 {
            assert(all.contains(0u16));
        }
    }
    lemma_text_has_no_zero(units, i);
}

proof fn lemma_text_has_no_zero(units: Seq<u16>, i: int)
    requires
        forall|j: int| 0 <= j < units.len() ==> #[trigger] units[j] != 0,
        0 <= i < utf16_lossy(units).len(),
    ensures
        utf16_lossy(units)[i] as u32 != 0,
    decreases units.len(),
{
    if i > 0 {
        let n: int = if is_high_surrogate(units[0]) && units.len() > 1 && is_low_surrogate(
            units[1],
        ) {
            2
        } else {
            1
        };
        let rest = units.skip(n);
        assert(forall|j: int| 0 <= j < rest.len() ==> #[trigger] rest[j] == units[j + n]);
        lemma_text_has_no_zero(rest, i - 1);
    }
}

proof fn lemma_units_are_not_zero(text: Seq<char>)
    requires
        forall|i: int| 0 <= i < text.len() ==> #[trigger] text[i] as u32 != 0,
    ensures
        forall|i: int| 0 <= i < utf16(text).len() ==> #[trigger] utf16(text)[i] != 0,
    decreases text.len(),
{
    if text.len() > 0 {
        let rest = text.drop_first();
        assert(forall|i: int| 0 <= i < rest.len() ==> #[trigger] rest[i] == text[i + 1]);
        lemma_units_are_not_zero(rest);
        let c = text[0];
        char_is_scalar(c);
        let units = utf16_units(c);
        assert(forall|i: int| 0 <= i < units.len() ==> #[trigger] units[i] != 0);
        assert(utf16(text) == units + utf16(rest));
    }
}

/// A number that stands in bytes with its lowest byte first is read back.
pub proof fn law_little_endian(bytes: Seq<u8>, at: int, n: u32, h: u16)
    ensures
        n == bytes[at] + 256 * bytes[at + 1] + 65536 * bytes[at + 2] + 16777216 * bytes[at + 3]
            ==> u32_at(bytes, at) == n,
        h == bytes[at] + 256 * bytes[at + 1] ==> u16_at(bytes, at) == h,
{
}

/// A wide field is read up to a zero, to its limit or to the end of the bytes, whichever
/// comes first, and each unit is read from the two bytes at its place.
pub proof fn law_wide_field(bytes: Seq<u8>, max_chars: int)
    requires
        0 <= max_chars,
    ensures
        ({
            let units = wide_field(bytes, max_chars);
            let n = units.len() as int;
            &&& n <= max_chars && 2 * n <= bytes.len()
            &&& n < max_chars && 2 * n + 1 < bytes.len() ==> bytes[2 * n] == 0 && bytes[2 * n + 1]
                == 0
            &&& forall|i: int|
                0 <= i < n ==> #[trigger] units[i] != 0 && units[i] == bytes[2 * i] + 256
                    * bytes[2 * i + 1]
        }),
{
    let all = words(bytes, min(max_chars, bytes.len() as int / 2) as nat);
    let units = wide_field(bytes, max_chars);
    law_before(all, 0u16);
    assert forall|i: int| 0 <= i < units.len() implies #[trigger] units[i] != 0 && units[i]
        == bytes[2 * i] + 256 * bytes[2 * i + 1] by {
        assert(units[i] == all[i]);
        assert(units.contains(units[i]));
    }
    if units.len() < all.len() {
        assert(all[units.len() as int] == 0);
    }
}

/// A narrow field is read up to a zero, to its limit or to the end of the bytes,
/// whichever comes first.
pub proof fn law_narrow_field(bytes: Seq<u8>, max_len: int)
    requires
        0 <= max_len,
    ensures
        ({
            let read = narrow_field(bytes, max_len);
            let n = read.len() as int;
            &&& n <= max_len && n <= bytes.len()
            &&& n < max_len && n < bytes.len() ==> bytes[n] == 0
            &&& forall|i: int| 0 <= i < n ==> #[trigger] read[i] != 0 && read[i] == bytes[i]
        }),
{
    let all = bytes.take(min(max_len, bytes.len() as int));
    let read = narrow_field(bytes, max_len);
    law_before(all, 0u8);
    assert forall|i: int| 0 <= i < read.len() implies #[trigger] read[i] != 0 && read[i]
        == bytes[i] by {
        assert(read[i] == all[i]);
        assert(read.contains(read[i]));
    }
}

} // verus!
