use hybrid_gauge::nt_scan::{
    current_session, memory_name, names_monitor_section, open_error_hint, session_dirs, session_path, to_wide,
    was_listed, Listing,
};

const P: usize = std::mem::size_of::<usize>();

/// Lays out entries and texts as the object manager does, at address `base`.
fn listing(base: usize, entries: &[(&str, &str)]) -> Vec<u8> {
    let mut texts = Vec::new();
    let start = (entries.len() + 1) * 4 * P;
    let mut head = vec![0u8; start];
    for (i, (name, kind)) in entries.iter().enumerate() {
        for (k, text) in [name, kind].iter().enumerate() {
            let at = i * 4 * P + k * 2 * P;
            let units: Vec<u16> = text.encode_utf16().collect();
            let address = base + start + texts.len();
            head[at..at + 2].copy_from_slice(&((units.len() * 2) as u16).to_le_bytes());
            head[at + P..at + 2 * P].copy_from_slice(&address.to_le_bytes());
            texts.extend(units.iter().flat_map(|u| u.to_le_bytes()));
        }
    }
    head.extend(texts);
    head
}

#[test]
fn sections_of_monitors_are_found() {
    let data = listing(
        0x10000,
        &[
            ("LibreHardwareMonitor", "Section"),
            ("SomethingElse", "Section"),
            ("OHM_Mutex", "Mutant"),
            ("my LHM map", "Section"),
        ],
    );
    let l = Listing { data: &data, base: 0x10000, filled: data.len() as u32 };
    assert_eq!(l.monitor_sections(), vec!["LibreHardwareMonitor", "my LHM map"]);
}

#[test]
fn texts_outside_the_filled_part_are_skipped() {
    let data = listing(0x10000, &[("LHM", "Section"), ("OHM", "Section")]);
    let cut = Listing { data: &data, base: 0x10000, filled: (data.len() - 2) as u32 };
    assert_eq!(cut.monitor_sections(), vec!["LHM"]);
    let moved = Listing { data: &data, base: 0x20000, filled: data.len() as u32 };
    assert!(moved.monitor_sections().is_empty());
    let beyond = Listing { data: &data, base: 0x10000, filled: u32::MAX };
    assert_eq!(beyond.monitor_sections(), vec!["LHM", "OHM"]);
}

#[test]
fn an_empty_name_ends_the_list() {
    let data = listing(0x10000, &[("1", "Directory"), ("", "Directory"), ("2", "Directory")]);
    let l = Listing { data: &data, base: 0x10000, filled: data.len() as u32 };
    assert_eq!(l.session_ids(), vec![1]);
    let none = Listing { data: &data[..4 * P - 1], base: 0x10000, filled: 0 };
    assert!(none.session_ids().is_empty());
}

#[test]
fn session_names_are_numbers() {
    let data = listing(
        0x10000,
        &[("0", "D"), ("+7", "D"), ("x", "D"), ("-1", "D"), ("4294967295", "D"), ("4294967296", "D"), ("12 ", "D"), ("+", "D")],
    );
    let l = Listing { data: &data, base: 0x10000, filled: data.len() as u32 };
    assert_eq!(l.session_ids(), vec![0, 7, 4294967295]);
    assert_eq!(l.names().len(), 8);
    assert_eq!(l.names()[1], "+7");
}

#[test]
fn the_type_is_compared_as_it_stands() {
    assert!(names_monitor_section("libre", "Section"));
    assert!(names_monitor_section("my hardware", "Section"));
    assert!(!names_monitor_section("libre", "section"));
    assert!(!names_monitor_section("liber", "Section"));
}

#[test]
fn statuses_and_sessions() {
    assert!(was_listed(0));
    assert!(was_listed(0x105));
    assert!(!was_listed(-1));
    assert!(!was_listed(5));
    assert_eq!(current_session(1, 3), 3);
    assert_eq!(current_session(0, 3), 1);
    assert_eq!(session_dirs(Some(vec![2, 9]), 4), vec![2, 9]);
    assert_eq!(session_dirs(Some(vec![]), 4), Vec::<u32>::new());
    assert_eq!(session_dirs(None, 4), vec![0, 1, 2, 3, 4, 5, 4]);
}

#[test]
fn paths_name_the_session() {
    assert_eq!(session_path(0), r"\Sessions\0\BaseNamedObjects");
    assert_eq!(session_path(4294967295), r"\Sessions\4294967295\BaseNamedObjects");
    assert_eq!(session_path(120), r"\Sessions\120\BaseNamedObjects");
}

#[test]
fn wide_texts_end_with_zero() {
    assert_eq!(to_wide("Aß"), vec![0x41, 0xdf, 0]);
    assert_eq!(to_wide("𝄞"), vec![0xd834, 0xdd1e, 0]);
    assert_eq!(to_wide(""), vec![0]);
}

#[test]
fn errors_have_hints() {
    assert_eq!(open_error_hint(2), "ERROR_FILE_NOT_FOUND — LHM not running or name mismatch");
    assert_eq!(open_error_hint(5), "ERROR_ACCESS_DENIED — run HybridGauge as Administrator");
    assert_eq!(open_error_hint(6), "ERROR_INVALID_HANDLE");
    assert_eq!(open_error_hint(231), "ERROR_PIPE_BUSY");
    assert_eq!(open_error_hint(0), "unknown");
}

#[test]
fn memory_names_are_tried_in_order() {
    let mut names = Vec::new();
    while let Some(name) = memory_name(names.len()) {
        names.push(name);
    }
    assert_eq!(
        names,
        vec![
            r"Global\LibreHardwareMonitorSharedMemory",
            r"Global\LibreHardwareMonitor_Window",
            r"Global\LibreHardwareMonitor",
            "LibreHardwareMonitorSharedMemory",
            "LibreHardwareMonitor",
            r"Local\LibreHardwareMonitorSharedMemory",
            r"Local\LibreHardwareMonitor",
        ]
    );
    assert!(memory_name(usize::MAX).is_none());
}

#[test]
fn numbers_are_read_as_std_reads_them() {
    let names = [
        "", "+", "++1", "+-1", "-0", "00", "007", "+0000000000000000000000012", "1a", " 1", "1 ",
        "4294967295", "4294967296", "42949672950", "99999999999999999999999999", "\u{661}", "1+",
    ];
    for name in names {
        let data = listing(0x10000, &[(name, "D")]);
        let l = Listing { data: &data, base: 0x10000, filled: data.len() as u32 };
        let expected: Vec<u32> = name.parse::<u32>().into_iter().collect();
        assert_eq!(l.session_ids(), expected, "{name:?}");
    }
}

#[test]
fn numbers_are_written_as_std_writes_them() {
    for n in [0u32, 9, 10, 19, 100, 101, 12345, 1000000000, 4294967295] {
        assert_eq!(session_path(n), format!(r"\Sessions\{n}\BaseNamedObjects"));
    }
}
