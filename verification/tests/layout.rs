use hybrid_gauge::bytes::{decode_ansi, decode_utf16};
use hybrid_gauge::layout::{
    announced_number, layout_scores, parse_ansi, parse_unicode, pick_layout, read_impl, record_count,
    LayoutScores,
};
use hybrid_gauge::nt_scan::to_wide;
use hybrid_gauge::sensors::SensorSnapshot;
use hybrid_gauge::single::Single;

fn wide(text: &str) -> Vec<u8> {
    to_wide(text).iter().flat_map(|u| u.to_le_bytes()).collect()
}

fn put(block: &mut [u8], at: usize, bytes: &[u8]) {
    block[at..at + bytes.len()].copy_from_slice(bytes);
}

fn header(num: u32, size: usize) -> Vec<u8> {
    let mut block = vec![0u8; 20 + num as usize * size];
    put(&mut block, 16, &num.to_le_bytes());
    block
}

fn unicode_block(records: &[(&str, &str, &str, &str, f32)]) -> Vec<u8> {
    let mut block = header(records.len() as u32, 816);
    for (i, r) in records.iter().enumerate() {
        let base = 20 + i * 816;
        put(&mut block, base, &wide(r.0));
        put(&mut block, base + 256, &wide(r.1));
        put(&mut block, base + 512, &wide(r.2));
        put(&mut block, base + 544, &wide(r.3));
        put(&mut block, base + 804, &r.4.to_bits().to_le_bytes());
    }
    block
}

fn ansi_block(records: &[(&str, &str, &str, &str, f32)]) -> Vec<u8> {
    let mut block = header(records.len() as u32, 416);
    for (i, r) in records.iter().enumerate() {
        let base = 20 + i * 416;
        put(&mut block, base, r.0.as_bytes());
        put(&mut block, base + 128, r.1.as_bytes());
        put(&mut block, base + 256, r.2.as_bytes());
        put(&mut block, base + 272, r.3.as_bytes());
        put(&mut block, base + 404, &r.4.to_bits().to_le_bytes());
    }
    block
}

#[test]
fn wide_texts_read_back() {
    for text in ["", "Core #1", "Grüße", "温度", "𝄞 clef"] {
        assert_eq!(decode_utf16(&wide(text), 128), text);
    }
}

#[test]
fn wide_texts_are_cut() {
    let bytes = wide("abcdef");
    assert_eq!(decode_utf16(&bytes, 3), "abc");
    assert_eq!(decode_utf16(&bytes[..5], 128), "ab");
    assert_eq!(decode_utf16(&bytes, 0), "");
    assert_eq!(decode_utf16(&[], 5), "");
    assert_eq!(decode_utf16(&[0x00, 0xd8, 0x41, 0x00], 5), "\u{fffd}A");
}

#[test]
fn narrow_texts_are_cut() {
    assert_eq!(decode_ansi(b"abc\0def", 128), "abc");
    assert_eq!(decode_ansi(b"abcdef", 2), "ab");
    assert_eq!(decode_ansi(b"abc", 128), "abc");
    assert_eq!(decode_ansi("\u{b0}C".as_bytes(), 128), "\u{b0}C");
    assert_eq!(decode_ansi(&[0x41, 0xff, 0x42], 128), "A\u{fffd}B");
}

#[test]
fn unicode_records_are_read() {
    let block = unicode_block(&[
        ("CPU Package", "/intelcpu/0/temperature/26", "Temperature", "Intel Core", 55.25),
        ("", "/no/name", "Load", "x", 1.0),
        ("Broken", "/broken", "Load", "x", f32::NAN),
        ("Fan", "/gpu-amd/0/fan/0", "Fan", "Radeon", 1200.0),
    ]);
    let sensors = parse_unicode(&block, 4, 20);
    assert_eq!(sensors.len(), 2);
    assert_eq!(sensors[0].name, "CPU Package");
    assert_eq!(sensors[0].identifier, "/intelcpu/0/temperature/26");
    assert_eq!(sensors[0].sensor_type, "Temperature");
    assert_eq!(sensors[0].hardware_name, "Intel Core");
    assert_eq!(sensors[0].value, Single { bits: 55.25f32.to_bits() });
    assert_eq!(sensors[1].name, "Fan");
    let all = read_impl(&block).unwrap();
    assert_eq!(all.len(), 2);
    assert_eq!(all[1].identifier, "/gpu-amd/0/fan/0");
}

#[test]
fn ansi_records_are_read() {
    let block = ansi_block(&[
        ("CPU Package", "/intelcpu/0/temperature/26", "Temperature", "Intel Core", 55.25),
        ("Fan", "/gpu-amd/0/fan/0", "Fan", "Radeon", f32::INFINITY),
        ("GPU", "/gpu-amd/0/temperature/0", "Temperature", "Radeon", 44.0),
    ]);
    let sensors = parse_ansi(&block, 3, 20);
    assert_eq!(sensors.len(), 2);
    assert_eq!(sensors[0].identifier, "/intelcpu/0/temperature/26");
    assert_eq!(sensors[1].hardware_name, "Radeon");
    assert_eq!(sensors[1].value, Single { bits: 44.0f32.to_bits() });
}

#[test]
fn record_counts_are_checked() {
    let mut head = vec![0u8; 20];
    assert_eq!(record_count(&head), None);
    assert!(read_impl(&head).is_none());
    put(&mut head, 16, &1u32.to_le_bytes());
    assert_eq!(record_count(&head), Some(1));
    put(&mut head, 16, &8192u32.to_le_bytes());
    assert_eq!(record_count(&head), Some(8192));
    put(&mut head, 16, &8193u32.to_le_bytes());
    assert_eq!(record_count(&head), None);
    assert!(read_impl(&head).is_none());
}

#[test]
fn a_block_without_names_yields_nothing() {
    assert!(read_impl(&unicode_block(&[("", "/a/b/c", "", "", 1.0)])).is_none());
}

#[test]
fn the_layout_with_more_identifiers_is_picked() {
    let one = |id: &str| SensorSnapshot {
        name: "n".to_string(),
        identifier: id.to_string(),
        sensor_type: String::new(),
        hardware_name: String::new(),
        value: Single { bits: 0 },
    };
    let picked = pick_layout(vec![one("/a/b")], vec![one("/c/d"), one("x")]).unwrap();
    assert_eq!(picked[0].identifier, "/a/b");
    let picked = pick_layout(vec![one("abc")], vec![one("/c/d")]).unwrap();
    assert_eq!(picked[0].identifier, "/c/d");
    // The length is that of the bytes.
    let picked = pick_layout(vec![one("\u{b0}\u{b0}")], vec![one("/c/d")]).unwrap();
    assert_eq!(picked[0].identifier, "\u{b0}\u{b0}");
    assert!(pick_layout(vec![], vec![one("abc")]).is_none());
}

#[test]
fn narrow_texts_read_back() {
    for text in ["", "Core #1", "Gr\u{fc}\u{df}e", "\u{6e29}\u{5ea6}"] {
        let mut bytes = text.as_bytes().to_vec();
        assert_eq!(decode_ansi(&bytes, 128), text);
        bytes.extend([0, b'x']);
        assert_eq!(decode_ansi(&bytes, 128), text);
    }
}

#[test]
fn a_block_with_eight_bit_texts_is_read() {
    let records = [
        ("CPU Package", "/intelcpu/0/temperature/26", "Temperature", "Intel Core", 55.25),
        ("Broken", "/gpu-amd/0/fan/0", "Fan", "Radeon", f32::INFINITY),
        ("GPU", "/gpu-amd/0/temperature/0", "Temperature", "Radeon", 44.0),
    ];
    // As large as the records with 8-bit texts, and not a byte more.
    let mut block = ansi_block(&records);
    assert_eq!(block.len(), 20 + 3 * 416);
    for _ in 0..2 {
        let sensors = read_impl(&block).unwrap();
        assert_eq!(sensors.len(), 2);
        assert_eq!(sensors[0].name, "CPU Package");
        assert_eq!(sensors[1].identifier, "/gpu-amd/0/temperature/0");
        assert_eq!(sensors[1].value, Single { bits: 44.0f32.to_bits() });
        assert_eq!(layout_scores(&block).unwrap().ansi, 2);
        assert!(!layout_scores(&block).unwrap().takes_unicode);
        // Large enough for the records with UTF-16 texts too.
        block.resize(20 + 3 * 816, 0);
    }
    // A byte too few for either.
    let block = ansi_block(&records);
    assert!(read_impl(&block[..block.len() - 1]).is_none());
    assert_eq!(
        layout_scores(&block[..block.len() - 1]),
        Some(LayoutScores { unicode: 0, ansi: 0, takes_unicode: false })
    );
}

#[test]
fn scores_count_identifiers() {
    let block = unicode_block(&[
        ("a", "/a/b", "", "", 1.0),
        ("b", "/ab", "", "", 1.0),
        ("c", "/abc/d", "", "", f32::NAN),
    ]);
    assert_eq!(layout_scores(&block).unwrap().unicode, 1);
    assert!(layout_scores(&block).unwrap().takes_unicode);
    let mut head = vec![0u8; 20];
    assert_eq!(layout_scores(&head), None);
    put(&mut head, 16, &9000u32.to_le_bytes());
    assert_eq!(announced_number(&head), 9000);
    assert_eq!(record_count(&head), None);
}

#[test]
fn lone_surrogates_are_replaced() {
    let decode = |units: &[u16]| {
        let bytes: Vec<u8> = units.iter().flat_map(|u| u.to_le_bytes()).collect();
        decode_utf16(&bytes, 128)
    };
    assert_eq!(decode(&[0xd834, 0xdd1e]), "\u{1d11e}");
    assert_eq!(decode(&[0xdd1e, 0xd834]), "\u{fffd}\u{fffd}");
    assert_eq!(decode(&[0xd834, 0xd834, 0xdd1e]), "\u{fffd}\u{1d11e}");
    assert_eq!(decode(&[0x41, 0xdbff]), "A\u{fffd}");
    assert_eq!(decode(&[0xdbff, 0xdfff, 0xffff]), "\u{10ffff}\u{ffff}");
    assert!(!decode(&[0x41, 0, 0x42]).contains('\0'));
}

#[test]
fn a_short_block_is_read_without_long_identifiers() {
    let block = ansi_block(&[("Fan", "/a", "Fan", "Radeon", 5.0)]);
    let sensors = read_impl(&block).unwrap();
    assert_eq!((sensors.len(), sensors[0].identifier.as_str()), (1, "/a"));
}
