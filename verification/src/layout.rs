//! The block of sensor records that LibreHardwareMonitor shares in memory.
//!
//! A header of 20 bytes, with the number of records at byte 16, is followed by
//! the records. The same header goes with two record layouts, one with UTF-16
//! texts and one with 8-bit texts; which one is in use shows in which of them
//! yields more identifiers.

use vstd::prelude::*;
use vstd::utf8::{encode_utf8, is_ascii_chars, is_ascii_chars_encode_utf8};
use crate::bytes::{
    decode_ansi, decode_utf16, law_narrow_text_reads_back, law_wide_text_reads_back, narrow_field,
    read_u32, u16_at, u32_at, wide_field,
};
use crate::sensors::{views, SensorSnapshot, SensorView};
use crate::sequences::{lemma_filter_ends, lemma_filter_prefix, lemma_filter_step};
use crate::single::Single;
use crate::text::{utf16, utf16_lossy, utf8_lossy};

verus! {

/// Size of the header in bytes.
pub const HEADER_SIZE: usize = 20;

/// Size in bytes of a record with UTF-16 texts.
pub const UNICODE_RECORD: usize = 816;

/// Size in bytes of a record with 8-bit texts.
pub const ANSI_RECORD: usize = 416;

/// The greatest number of records that a header may announce.
pub const MAX_RECORDS: u32 = 8192;

/// What a record with UTF-16 texts holds.
pub open spec fn unicode_record(b: Seq<u8>) -> SensorView {
    SensorView {
        name: utf16_lossy(wide_field(b.subrange(0, 256), 128)),
        identifier: utf16_lossy(wide_field(b.subrange(256, 512), 128)),
        sensor_type: utf16_lossy(wide_field(b.subrange(512, 544), 16)),
        hardware_name: utf16_lossy(wide_field(b.subrange(544, 800), 128)),
        value: Single { bits: u32_at(b, 804) },
    }
}

/// What a record with 8-bit texts holds.
pub open spec fn ansi_record(b: Seq<u8>) -> SensorView {
    SensorView {
        name: utf8_lossy(narrow_field(b.subrange(0, 128), 128)),
        identifier: utf8_lossy(narrow_field(b.subrange(128, 256), 128)),
        sensor_type: utf8_lossy(narrow_field(b.subrange(256, 272), 16)),
        hardware_name: utf8_lossy(narrow_field(b.subrange(272, 400), 128)),
        value: Single { bits: u32_at(b, 404) },
    }
}

/// The bytes of the record at `i`, of records of `size` bytes behind a header.
pub open spec fn record_bytes(view: Seq<u8>, header_size: int, size: int, i: int) -> Seq<u8> {
    view.subrange(header_size + i * size, header_size + i * size + size)
}

/// All records, read with UTF-16 texts.
pub open spec fn unicode_records(view: Seq<u8>, num: nat, header_size: int) -> Seq<SensorView> {
    Seq::new(
        num,
        |i: int| unicode_record(record_bytes(view, header_size, UNICODE_RECORD as int, i)),
    )
}

/// All records, read with 8-bit texts.
pub open spec fn ansi_records(view: Seq<u8>, num: nat, header_size: int) -> Seq<SensorView> {
    Seq::new(num, |i: int| ansi_record(record_bytes(view, header_size, ANSI_RECORD as int, i)))
}

/// The records that count: those with a name and a finite value.
pub open spec fn usable() -> spec_fn(SensorView) -> bool {
    |s: SensorView| s.name.len() > 0 && s.value.finite()
}

/// The records with an identifier of more than three bytes.
pub open spec fn identified() -> spec_fn(SensorView) -> bool {
    |s: SensorView| encode_utf8(s.identifier).len() > 3
}

/// The number of records that a header announces, where it is acceptable.
pub open spec fn announced(view: Seq<u8>) -> Option<u32> {
    let num = u32_at(view, 16);
    if 0 < num <= MAX_RECORDS {
        Some(num)
    } else {
        None
    }
}

/// The readings to take of those that two layouts yield: those of the first where it
/// yields as many identifiers as the second, or more.
pub open spec fn better(first: Seq<SensorView>, second: Seq<SensorView>) -> Seq<SensorView> {
    if first.filter(identified()).len() >= second.filter(identified()).len() {
        first
    } else {
        second
    }
}

/// Whether `num` records of `size` bytes fit behind the header of a block.
pub open spec fn fits(view: Seq<u8>, num: nat, size: usize) -> bool {
    HEADER_SIZE + num * size <= view.len()
}

/// The readings in a shared block by the layout with UTF-16 texts; none where its
/// records do not fit in the block.
pub open spec fn unicode_sensors(view: Seq<u8>, num: nat) -> Seq<SensorView> {
    if fits(view, num, UNICODE_RECORD) {
        unicode_records(view, num, HEADER_SIZE as int).filter(usable())
    } else {
        Seq::empty()
    }
}

/// The readings in a shared block by the layout with 8-bit texts; none where its records
/// do not fit in the block.
pub open spec fn ansi_sensors(view: Seq<u8>, num: nat) -> Seq<SensorView> {
    if fits(view, num, ANSI_RECORD) {
        ansi_records(view, num, HEADER_SIZE as int).filter(usable())
    } else {
        Seq::empty()
    }
}

/// Whether a shared block is read in the layout with UTF-16 texts: where it fits, and
/// yields as many identifiers as the other layout, or more.
pub open spec fn takes_unicode(view: Seq<u8>, num: nat) -> bool {
    &&& fits(view, num, UNICODE_RECORD)
    &&& unicode_sensors(view, num).filter(identified()).len() >= ansi_sensors(
        view,
        num,
    ).filter(identified()).len()
}

/// The readings in a shared block: those of the layout that yields more identifiers, the
/// UTF-16 one where both yield as many; and those of the 8-bit layout where the other
/// does not fit in the block.
pub open spec fn block_sensors(view: Seq<u8>) -> Seq<SensorView> {
    match announced(view) {
        None => Seq::empty(),
        Some(num) => if takes_unicode(view, num as nat) {
            unicode_sensors(view, num as nat)
        } else {
            ansi_sensors(view, num as nat)
        },
    }
}

fn read_unicode(b: &[u8]) -> (s: SensorSnapshot)
    requires
        b@.len() == UNICODE_RECORD,
    ensures
        s@ == unicode_record(b@),
{
    SensorSnapshot {
        name: decode_utf16(&b[0..256], 128),
        identifier: decode_utf16(&b[256..512], 128),
        sensor_type: decode_utf16(&b[512..544], 16),
        hardware_name: decode_utf16(&b[544..800], 128),
        value: Single { bits: read_u32(b, 804) },
    }
}

fn read_ansi(b: &[u8]) -> (s: SensorSnapshot)
    requires
        b@.len() == ANSI_RECORD,
    ensures
        s@ == ansi_record(b@),
{
    SensorSnapshot {
        name: decode_ansi(&b[0..128], 128),
        identifier: decode_ansi(&b[128..256], 128),
        sensor_type: decode_ansi(&b[256..272], 16),
        hardware_name: decode_ansi(&b[272..400], 128),
        value: Single { bits: read_u32(b, 404) },
    }
}

/// Reads `num` records with UTF-16 texts behind a header of `header_size` bytes.
pub fn parse_unicode(view: &[u8], num: usize, header_size: usize) -> (out: Vec<SensorSnapshot>)
    requires
        header_size + num * UNICODE_RECORD <= view.len(),
    ensures
        views(out@) == unicode_records(view@, num as nat, header_size as int).filter(usable()),
{
    let ghost all = unicode_records(view@, num as nat, header_size as int);
    let mut out: Vec<SensorSnapshot> = Vec::new();
    let mut i: usize = 0;
    proof {
        lemma_filter_ends(all, usable());
        assert(views(out@) =~= all.take(0).filter(usable()));
    }
    while i < num
        invariant
            i <= num,
            header_size + num * UNICODE_RECORD <= view.len(),
            all == unicode_records(view@, num as nat, header_size as int),
            views(out@) == all.take(i as int).filter(usable()),
        decreases num - i,
    {
        assert(i * UNICODE_RECORD + UNICODE_RECORD <= num * UNICODE_RECORD) by (nonlinear_arith)
            requires
                i + 1 <= num,
        ;
        let base: usize = header_size + i * UNICODE_RECORD;
        let sensor = read_unicode(&view[base..base + UNICODE_RECORD]);
        proof {
            assert(sensor@ == all[i as int]);
            lemma_filter_step(all, usable(), i as int);
        }
        if !sensor.name.as_str().is_empty() && sensor.value.is_finite() {
            let ghost done = out@;
            out.push(sensor);
            assert(views(out@) =~= views(done).push(all[i as int]));
        }
        i += 1;
    }
    proof {
        lemma_filter_ends(all, usable());
    }
    out
}

/// Reads `num` records with 8-bit texts behind a header of `header_size` bytes.
pub fn parse_ansi(view: &[u8], num: usize, header_size: usize) -> (out: Vec<SensorSnapshot>)
    requires
        header_size + num * ANSI_RECORD <= view.len(),
    ensures
        views(out@) == ansi_records(view@, num as nat, header_size as int).filter(usable()),
{
    let ghost all = ansi_records(view@, num as nat, header_size as int);
    let mut out: Vec<SensorSnapshot> = Vec::new();
    let mut i: usize = 0;
    proof {
        lemma_filter_ends(all, usable());
        assert(views(out@) =~= all.take(0).filter(usable()));
    }
    while i < num
        invariant
            i <= num,
            header_size + num * ANSI_RECORD <= view.len(),
            all == ansi_records(view@, num as nat, header_size as int),
            views(out@) == all.take(i as int).filter(usable()),
        decreases num - i,
    {
        assert(i * ANSI_RECORD + ANSI_RECORD <= num * ANSI_RECORD) by (nonlinear_arith)
            requires
                i + 1 <= num,
        ;
        let base: usize = header_size + i * ANSI_RECORD;
        let sensor = read_ansi(&view[base..base + ANSI_RECORD]);
        proof {
            assert(sensor@ == all[i as int]);
            lemma_filter_step(all, usable(), i as int);
        }
        if !sensor.name.as_str().is_empty() && sensor.value.is_finite() {
            let ghost done = out@;
            out.push(sensor);
            assert(views(out@) =~= views(done).push(all[i as int]));
        }
        i += 1;
    }
    proof {
        lemma_filter_ends(all, usable());
    }
    out
}

/// How many readings have an identifier of more than three bytes.
fn score(sensors: &[SensorSnapshot]) -> (n: usize)
    ensures
        n == views(sensors@).filter(identified()).len(),
{
    let ghost all = views(sensors@);
    let mut n: usize = 0;
    let mut i: usize = 0;
    proof {
        lemma_filter_ends(all, identified());
    }
    while i < sensors.len()
        invariant
            n <= i <= sensors@.len(),
            all == views(sensors@),
            n == all.take(i as int).filter(identified()).len(),
        decreases sensors.len() - i,
    {
        proof {
            lemma_filter_step(all, identified(), i as int);
        }
        if sensors[i].identifier.as_str().as_bytes().len() > 3 {
            n += 1;
        }
        i += 1;
    }
    proof {
        lemma_filter_ends(all, identified());
    }
    n
}

/// Picks the readings of one of two layouts: the first where it yields as many
/// identifiers of more than three bytes as the second, or more; `None` where there are
/// no readings in the one picked.
pub fn pick_layout(first: Vec<SensorSnapshot>, second: Vec<SensorSnapshot>) -> (picked: Option<
    Vec<SensorSnapshot>,
>)
    ensures
        match picked {
            Some(s) => views(s@) == better(views(first@), views(second@)) && s@.len() > 0,
            None => better(views(first@), views(second@)).len() == 0,
        },
{
    let sensors = if score(&first) >= score(&second) {
        first
    } else {
        second
    };
    assert(views(sensors@).len() == sensors@.len());
    if sensors.is_empty() {
        None
    } else {
        Some(sensors)
    }
}

/// The number of records that a header announces, acceptable or not.
pub fn announced_number(header: &[u8]) -> (num: u32)
    requires
        header@.len() >= HEADER_SIZE,
    ensures
        num == u32_at(header@, 16),
{
    read_u32(header, 16)
}

/// The number of records that a header announces, where it is acceptable: not
/// zero, and not above 8192.
pub fn record_count(header: &[u8]) -> (num: Option<usize>)
    requires
        header@.len() >= HEADER_SIZE,
    ensures
        match announced(header@) {
            Some(n) => num == Some(n as usize),
            None => num is None,
        },
{
    let num: u32 = announced_number(header);
    if num == 0 || num > MAX_RECORDS {
        None
    } else {
        Some(num as usize)
    }
}

/// The readings by the layout with UTF-16 texts, where its records fit in the block.
fn try_unicode(view: &[u8], num: usize) -> (read: Option<Vec<SensorSnapshot>>)
    requires
        num <= MAX_RECORDS,
    ensures
        match read {
            Some(s) => fits(view@, num as nat, UNICODE_RECORD) && views(s@) == unicode_sensors(
                view@,
                num as nat,
            ),
            None => !fits(view@, num as nat, UNICODE_RECORD),
        },
{
    if HEADER_SIZE + num * UNICODE_RECORD <= view.len() {
        Some(parse_unicode(view, num, HEADER_SIZE))
    } else {
        None
    }
}

/// The readings by the layout with 8-bit texts; none where its records do not fit in the
/// block.
fn read_ansi_block(view: &[u8], num: usize) -> (read: Vec<SensorSnapshot>)
    requires
        num <= MAX_RECORDS,
    ensures
        views(read@) == ansi_sensors(view@, num as nat),
{
    if HEADER_SIZE + num * ANSI_RECORD <= view.len() {
        parse_ansi(view, num, HEADER_SIZE)
    } else {
        let none: Vec<SensorSnapshot> = Vec::new();
        assert(views(none@) =~= Seq::<SensorView>::empty());
        none
    }
}

/// How the layout of a shared block is told.
#[derive(Clone, Copy, Debug, PartialEq, Eq, Structural)]
pub struct LayoutScores {
    /// The identifiers of more than three bytes by the layout with UTF-16 texts.
    pub unicode: usize,
    /// The identifiers of more than three bytes by the layout with 8-bit texts.
    pub ansi: usize,
    /// Whether the block is read in the layout with UTF-16 texts.
    pub takes_unicode: bool,
}

/// How the layout of a shared block is told; `None` where the header is not acceptable.
pub fn layout_scores(view: &[u8]) -> (scores: Option<LayoutScores>)
    requires
        view@.len() >= HEADER_SIZE,
    ensures
        match (announced(view@), scores) {
            (Some(num), Some(s)) => {
                &&& s.unicode == unicode_sensors(view@, num as nat).filter(identified()).len()
                &&& s.ansi == ansi_sensors(view@, num as nat).filter(identified()).len()
                &&& s.takes_unicode == takes_unicode(view@, num as nat)
            },
            (None, None) => true,
            _ => false,
        },
{
    match record_count(view) {
        Some(num) => {
            let ansi: usize = score(&read_ansi_block(view, num));
            match try_unicode(view, num) {
                Some(sensors) => {
                    let unicode: usize = score(&sensors);
                    Some(LayoutScores { unicode, ansi, takes_unicode: unicode >= ansi })
                },
                None => {
                    proof {
                        reveal(Seq::filter);
                    }
                    Some(LayoutScores { unicode: 0, ansi, takes_unicode: false })
                },
            }
        },
        None => None,
    }
}

/// Reads a shared block of sensor records, in the layout that yields more identifiers
/// among those that fit in the block; `None` where the header is not acceptable or
/// nothing usable is in the layout picked.
pub fn read_impl(view: &[u8]) -> (sensors: Option<Vec<SensorSnapshot>>)
    requires
        view@.len() >= HEADER_SIZE,
    ensures
        match sensors {
            Some(s) => views(s@) == block_sensors(view@) && s@.len() > 0,
            None => block_sensors(view@).len() == 0,
        },
{
    match record_count(view) {
        Some(num) => {
            let ansi = read_ansi_block(view, num);
            match try_unicode(view, num) {
                Some(unicode) => pick_layout(unicode, ansi),
                None => {
                    assert(views(ansi@).len() == ansi@.len());
                    if ansi.is_empty() {
                        None
                    } else {
                        Some(ansi)
                    }
                },
            }
        },
        None => None,
    }
}

/// Whatever a shared block holds, every reading taken from it has a name and a finite
/// value.
pub proof fn law_block_readings_are_usable(view: Seq<u8>, i: int)
    requires
        0 <= i < block_sensors(view).len(),
    ensures
        block_sensors(view)[i].name.len() > 0,
        block_sensors(view)[i].value.finite(),
{
    let num = announced(view).unwrap() as nat;
    unicode_records(view, num, HEADER_SIZE as int).filter_lemma(usable());
    ansi_records(view, num, HEADER_SIZE as int).filter_lemma(usable());
    assert(usable()(block_sensors(view)[i]));
}

/// A block that is large enough for its records with 8-bit texts, and too small for
/// those with UTF-16 texts, is read in the layout with 8-bit texts.
pub proof fn law_short_block_is_ansi(view: Seq<u8>)
    requires
        announced(view) is Some,
        fits(view, announced(view).unwrap() as nat, ANSI_RECORD),
        !fits(view, announced(view).unwrap() as nat, UNICODE_RECORD),
    ensures
        block_sensors(view) == ansi_records(
            view,
            announced(view).unwrap() as nat,
            HEADER_SIZE as int,
        ).filter(usable()),
{
}

/// Every record with a name and a finite value is read, zero values included, between the
/// readings of the records before it and those of the records behind it; in either
/// layout.
pub proof fn law_named_finite_records_are_read(
    view: Seq<u8>,
    num: nat,
    header_size: int,
    i: int,
)
    requires
        0 <= i < num,
    ensures
        ({
            let all = unicode_records(view, num, header_size);
            all[i].name.len() > 0 && all[i].value.bits % 0x8000_0000 < 0x7f80_0000 ==> all.filter(
                usable(),
            ) == all.take(i).filter(usable()).push(all[i]) + all.skip(i + 1).filter(usable())
        }),
        ({
            let all = ansi_records(view, num, header_size);
            all[i].name.len() > 0 && all[i].value.bits % 0x8000_0000 < 0x7f80_0000 ==> all.filter(
                usable(),
            ) == all.take(i).filter(usable()).push(all[i]) + all.skip(i + 1).filter(usable())
        }),
{
    let wide = unicode_records(view, num, header_size);
    let narrow = ansi_records(view, num, header_size);
    lemma_filter_step(wide, usable(), i);
    lemma_filter_prefix(wide, usable(), i + 1);
    lemma_filter_step(narrow, usable(), i);
    lemma_filter_prefix(narrow, usable(), i + 1);
}

/// A record without a name, or without a finite value, is left out, and leaves the other
/// readings as they are.
pub proof fn law_other_records_are_left_out(view: Seq<u8>, num: nat, header_size: int, i: int)
    requires
        0 <= i < num,
    ensures
        ({
            let all = unicode_records(view, num, header_size);
            all[i].name.len() == 0 || all[i].value.bits % 0x8000_0000 >= 0x7f80_0000 ==> all.filter(
                usable(),
            ) == all.take(i).filter(usable()) + all.skip(i + 1).filter(usable())
        }),
        ({
            let all = ansi_records(view, num, header_size);
            all[i].name.len() == 0 || all[i].value.bits % 0x8000_0000 >= 0x7f80_0000 ==> all.filter(
                usable(),
            ) == all.take(i).filter(usable()) + all.skip(i + 1).filter(usable())
        }),
{
    let wide = unicode_records(view, num, header_size);
    let narrow = ansi_records(view, num, header_size);
    lemma_filter_step(wide, usable(), i);
    lemma_filter_prefix(wide, usable(), i + 1);
    lemma_filter_step(narrow, usable(), i);
    lemma_filter_prefix(narrow, usable(), i + 1);
}

/// The records follow a header of 20 bytes one behind the other, 816 bytes each with
/// UTF-16 texts and 416 with 8-bit texts, and a block fits where it holds them all.
pub proof fn law_records_follow_the_header(view: Seq<u8>, num: nat, i: int)
    requires
        0 <= i < num,
    ensures
        fits(view, num, UNICODE_RECORD) <==> 20 + 816 * num <= view.len(),
        fits(view, num, ANSI_RECORD) <==> 20 + 416 * num <= view.len(),
        20 + 816 * num <= view.len() ==> unicode_sensors(view, num) == unicode_records(
            view,
            num,
            20,
        ).filter(usable()),
        20 + 416 * num <= view.len() ==> ansi_sensors(view, num) == ansi_records(
            view,
            num,
            20,
        ).filter(usable()),
        unicode_records(view, num, 20).len() == num,
        ansi_records(view, num, 20).len() == num,
        unicode_records(view, num, 20)[i] == unicode_record(
            view.subrange(20 + 816 * i, 836 + 816 * i),
        ),
        ansi_records(view, num, 20)[i] == ansi_record(view.subrange(20 + 416 * i, 436 + 416 * i)),
{
}

/// Whether a text stands as UTF-16 in the `size` bytes from `at` on, followed by a zero or
/// filling them.
pub open spec fn wide_text_at(b: Seq<u8>, at: int, size: int, text: Seq<char>) -> bool {
    let units = utf16(text);
    &&& forall|i: int| 0 <= i < text.len() ==> #[trigger] text[i] as u32 != 0
    &&& 2 * units.len() <= size
    &&& forall|i: int|
        0 <= i < units.len() ==> #[trigger] units[i] == b[at + 2 * i] + 256 * b[at + 2 * i + 1]
    &&& 2 * units.len() + 1 < size ==> b[at + 2 * units.len()] == 0 && b[at + 2 * units.len() + 1]
        == 0
}

/// A record with UTF-16 texts is read back: the name in its first 256 bytes, the
/// identifier in the next 256, the type in the next 32, the hardware in the next 256, and
/// the value in the four bytes from 804 on.
pub proof fn law_unicode_record_reads_back(
    b: Seq<u8>,
    name: Seq<char>,
    identifier: Seq<char>,
    sensor_type: Seq<char>,
    hardware_name: Seq<char>,
    bits: u32,
)
    requires
        b.len() == 816,
    ensures
        wide_text_at(b, 0, 256, name) ==> unicode_record(b).name == name,
        wide_text_at(b, 256, 256, identifier) ==> unicode_record(b).identifier == identifier,
        wide_text_at(b, 512, 32, sensor_type) ==> unicode_record(b).sensor_type == sensor_type,
        wide_text_at(b, 544, 256, hardware_name) ==> unicode_record(b).hardware_name
            == hardware_name,
        bits == b[804] + 256 * b[805] + 65536 * b[806] + 16777216 * b[807] ==> unicode_record(
            b,
        ).value.bits == bits,
{
    lemma_wide_text(b, 0, 256, name);
    lemma_wide_text(b, 256, 256, identifier);
    lemma_wide_text(b, 512, 32, sensor_type);
    lemma_wide_text(b, 544, 256, hardware_name);
}

proof fn lemma_wide_text(b: Seq<u8>, at: int, size: int, text: Seq<char>)
    requires
        0 <= at,
        0 <= size,
        size % 2 == 0,
        at + size <= b.len(),
    ensures
        wide_text_at(b, at, size, text) ==> utf16_lossy(
            wide_field(b.subrange(at, at + size), size / 2),
        ) == text,
{
    if wide_text_at(b, at, size, text) {
        let field = b.subrange(at, at + size);
        let units = utf16(text);
        assert forall|i: int| 0 <= i < units.len() implies #[trigger] units[i] == u16_at(
            field,
            2 * i,
        ) by {
            assert(field[2 * i] == b[at + 2 * i]);
            assert(field[2 * i + 1] == b[at + 2 * i + 1]);
        }
        law_wide_text_reads_back(text, field, size / 2);
    }
}

/// Whether a text stands as UTF-8 in the `size` bytes from `at` on, followed by a zero or
/// filling them.
pub open spec fn narrow_text_at(b: Seq<u8>, at: int, size: int, text: Seq<char>) -> bool {
    let bytes = encode_utf8(text);
    &&& !bytes.contains(0u8)
    &&& bytes.len() <= size
    &&& bytes == b.subrange(at, at + bytes.len())
    &&& bytes.len() < size ==> b[at + bytes.len()] == 0
}

/// A record with 8-bit texts is read back: the name in its first 128 bytes, the
/// identifier in the next 128, the type in the next 16, the hardware in the next 128, and
/// the value in the four bytes from 404 on.
pub proof fn law_ansi_record_reads_back(
    b: Seq<u8>,
    name: Seq<char>,
    identifier: Seq<char>,
    sensor_type: Seq<char>,
    hardware_name: Seq<char>,
    bits: u32,
)
    requires
        b.len() == 416,
    ensures
        narrow_text_at(b, 0, 128, name) ==> ansi_record(b).name == name,
        narrow_text_at(b, 128, 128, identifier) ==> ansi_record(b).identifier == identifier,
        narrow_text_at(b, 256, 16, sensor_type) ==> ansi_record(b).sensor_type == sensor_type,
        narrow_text_at(b, 272, 128, hardware_name) ==> ansi_record(b).hardware_name
            == hardware_name,
        bits == b[404] + 256 * b[405] + 65536 * b[406] + 16777216 * b[407] ==> ansi_record(
            b,
        ).value.bits == bits,
{
    lemma_narrow_text(b, 0, 128, name);
    lemma_narrow_text(b, 128, 128, identifier);
    lemma_narrow_text(b, 256, 16, sensor_type);
    lemma_narrow_text(b, 272, 128, hardware_name);
}

proof fn lemma_narrow_text(b: Seq<u8>, at: int, size: int, text: Seq<char>)
    requires
        0 <= at,
        0 <= size,
        at + size <= b.len(),
    ensures
        narrow_text_at(b, at, size, text) ==> utf8_lossy(
            narrow_field(b.subrange(at, at + size), size),
        ) == text,
{
    if narrow_text_at(b, at, size, text) {
        let field = b.subrange(at, at + size);
        let n = encode_utf8(text).len() as int;
        assert(field.take(n) =~= b.subrange(at, at + n));
        law_narrow_text_reads_back(text, field, size);
    }
}

/// The parts of a record rest on their own bytes alone: records that agree on the bytes of
/// a part agree on the part.
pub proof fn law_parts_rest_on_their_bytes(a: Seq<u8>, b: Seq<u8>)
    ensures
        a.subrange(0, 256) == b.subrange(0, 256) ==> unicode_record(a).name == unicode_record(
            b,
        ).name,
        a.subrange(256, 512) == b.subrange(256, 512) ==> unicode_record(a).identifier
            == unicode_record(b).identifier,
        a.subrange(512, 544) == b.subrange(512, 544) ==> unicode_record(a).sensor_type
            == unicode_record(b).sensor_type,
        a.subrange(544, 800) == b.subrange(544, 800) ==> unicode_record(a).hardware_name
            == unicode_record(b).hardware_name,
        a.subrange(0, 128) == b.subrange(0, 128) ==> ansi_record(a).name == ansi_record(b).name,
        a.subrange(128, 256) == b.subrange(128, 256) ==> ansi_record(a).identifier == ansi_record(
            b,
        ).identifier,
        a.subrange(256, 272) == b.subrange(256, 272) ==> ansi_record(a).sensor_type == ansi_record(
            b,
        ).sensor_type,
        a.subrange(272, 400) == b.subrange(272, 400) ==> ansi_record(a).hardware_name
            == ansi_record(b).hardware_name,
{
}

/// A header announces the number in its four bytes from 16 on, and 1 to 8192 records are
/// acceptable.
pub proof fn law_announced(view: Seq<u8>, n: u32)
    requires
        n == view[16] + 256 * view[17] + 65536 * view[18] + 16777216 * view[19],
    ensures
        1 <= n <= 8192 ==> announced(view) == Some(n),
        !(1 <= n <= 8192) ==> announced(view) is None,
{
}

/// An identifier counts where its UTF-8 form has more than three bytes, an ASCII one where
/// it has more than three characters.
pub proof fn law_identified(s: SensorView)
    ensures
        identified()(s) <==> encode_utf8(s.identifier).len() >= 4,
        is_ascii_chars(s.identifier) ==> (identified()(s) <==> s.identifier.len() >= 4),
{
    if is_ascii_chars(s.identifier) {
        is_ascii_chars_encode_utf8(s.identifier);
    }
}

/// A block that holds the records of both layouts is read with UTF-16 texts, unless
/// strictly more identifiers count with 8-bit texts; one that holds those with 8-bit texts
/// only is read with them; one that holds neither, or whose header is not acceptable, has
/// no readings.
pub proof fn law_layout_choice(view: Seq<u8>)
    ensures
        ({
            let n = announced(view).unwrap() as nat;
            let wide = unicode_records(view, n, 20).filter(usable());
            let narrow = ansi_records(view, n, 20).filter(usable());
            let more_narrow = narrow.filter(identified()).len() > wide.filter(identified()).len();
            &&& announced(view) is None ==> block_sensors(view).len() == 0
            &&& announced(view) is Some && 20 + 816 * n <= view.len() && !more_narrow
                ==> block_sensors(view) == wide
            &&& announced(view) is Some && 20 + 816 * n <= view.len() && more_narrow
                ==> block_sensors(view) == narrow
            &&& announced(view) is Some && 20 + 416 * n <= view.len() < 20 + 816 * n
                ==> block_sensors(view) == narrow
            &&& announced(view) is Some && view.len() < 20 + 416 * n ==> block_sensors(view).len()
                == 0
        }),
{
}

/// Of two sets of readings the second is taken only where strictly more of its identifiers
/// count.
pub proof fn law_better(first: Seq<SensorView>, second: Seq<SensorView>)
    ensures
        second.filter(identified()).len() > first.filter(identified()).len() ==> better(
            first,
            second,
        ) == second,
        second.filter(identified()).len() <= first.filter(identified()).len() ==> better(
            first,
            second,
        ) == first,
{
}

} // verus!
