//! Listings of the Windows object manager, searched for the shared memory of
//! LibreHardwareMonitor.
//!
//! A listing is a block of bytes that starts with entries and goes on with the
//! texts that the entries point at. An entry holds the name and the type of an
//! object, each as a 16-bit length in bytes, a 16-bit capacity and the address of
//! its UTF-16 units, aligned to the size of an address. An entry with an empty
//! name ends the list. Addresses are those of the block in memory, so a reader has
//! to know where the block lies.

use vstd::prelude::*;
use vstd::string::StringExecFns;
use crate::bytes::{read_u16, read_u32, u16_at, u32_at, words};
use crate::text::{
    contains, decimal, decimal_text, holds_any, law_decimal_reads_back, law_utf16_reads_back,
    lowercase, occurs_in, parse_u32, parsed_u32, units_of, utf16, utf16_lossy,
};

verus! {

/// The size of an address in bytes.
pub open spec fn address_size() -> int {
    if usize::BITS == 64 {
        8
    } else {
        4
    }
}

/// The size of an entry in bytes.
pub open spec fn entry_size() -> int {
    4 * address_size()
}

/// The address at `at`.
pub open spec fn address_at(data: Seq<u8>, at: int) -> usize {
    if usize::BITS == 64 {
        (u32_at(data, at) + 0x1_0000_0000 * u32_at(data, at + 4)) as usize
    } else {
        u32_at(data, at) as usize
    }
}

/// A listing: its bytes, the address of the first of them, and how many of them
/// the system said it filled.
pub struct Listing<'a> {
    pub data: &'a [u8],
    pub base: usize,
    pub filled: u32,
}

impl<'a> Listing<'a> {
    /// The block lies in the address space.
    pub open spec fn wf(self) -> bool {
        self.base + self.data@.len() < usize::MAX
    }

    /// The address behind the last byte that the system filled.
    pub open spec fn end(self) -> int {
        self.base + if self.filled < self.data@.len() {
            self.filled as int
        } else {
            self.data@.len() as int
        }
    }

    /// Where the entries from `at` on lie, up to the one with an empty name.
    pub open spec fn entries_from(self, at: int) -> Seq<int>
        decreases self.data@.len() - at,
    {
        if at < 0 || at + entry_size() > self.data@.len() || u16_at(self.data@, at) == 0 {
            Seq::empty()
        } else {
            seq![at] + self.entries_from(at + entry_size())
        }
    }

    /// Where the entries lie.
    pub open spec fn entries(self) -> Seq<int> {
        self.entries_from(0)
    }

    /// The text that the length and address at `at` describe, where it lies in
    /// what the system filled.
    pub open spec fn text_at(self, at: int) -> Option<Seq<char>> {
        let len = u16_at(self.data@, at);
        let start = address_at(self.data@, at + address_size());
        if self.base <= start && start + len <= self.end() {
            Some(utf16_lossy(words(self.data@.skip(start - self.base), (len / 2) as nat)))
        } else {
            None
        }
    }

    /// The name of an entry.
    pub open spec fn name_at(self, entry: int) -> Option<Seq<char>> {
        self.text_at(entry)
    }

    /// The type of an entry.
    pub open spec fn type_at(self, entry: int) -> Option<Seq<char>> {
        self.text_at(entry + 2 * address_size())
    }

    /// From an entry to its name, where that lies in what the system filled.
    pub open spec fn name(self) -> spec_fn(int) -> Option<Seq<char>> {
        |entry: int| self.name_at(entry)
    }

    /// From an entry to the name of the section object that it lists, where that
    /// name hints at a hardware monitor.
    pub open spec fn monitor_section(self) -> spec_fn(int) -> Option<Seq<char>> {
        |entry: int|
            if self.name_at(entry) is Some && self.type_at(entry) is Some && monitor_section_names(
                lowercase(self.name_at(entry).unwrap()),
                self.type_at(entry).unwrap(),
            ) {
                self.name_at(entry)
            } else {
                None
            }
    }

    /// From an entry to the number that is its name.
    pub open spec fn session(self) -> spec_fn(int) -> Option<u32> {
        |entry: int|
            match self.name_at(entry) {
                Some(name) => parsed_u32(name),
                None => None,
            }
    }
}

/// Whether a name in lower case and a type are those of a section object whose name
/// hints at a hardware monitor.
pub open spec fn monitor_section_names(name: Seq<char>, kind: Seq<char>) -> bool {
    &&& kind == "Section"@
    &&& {
        ||| occurs_in("libre"@, name)
        ||| occurs_in("hardware"@, name)
        ||| occurs_in("lhm"@, name)
        ||| occurs_in("ohm"@, name)
    }
}

/// Offsets as whole numbers.
pub open spec fn positions(offsets: Seq<usize>) -> Seq<int> {
    offsets.map_values(|o: usize| o as int)
}

/// The contents of a sequence of texts.
pub open spec fn texts(strings: Seq<String>) -> Seq<Seq<char>> {
    strings.map_values(|s: String| s@)
}

/// Whether a name in lower case and a type are those of a section object whose name
/// hints at a hardware monitor.
pub fn names_monitor_section(name: &str, kind: &str) -> (b: bool)
    ensures
        b == monitor_section_names(name@, kind@),
{
    kind.to_owned() == "Section".to_owned() && (contains(name, "libre") || contains(
        name,
        "hardware",
    ) || contains(name, "lhm") || contains(name, "ohm"))
}

impl<'a> Listing<'a> {
    fn size_of_address() -> (n: usize)
        ensures
            n == address_size(),
    {
        if usize::BITS == 64 {
            8
        } else {
            4
        }
    }

    fn read_address(&self, at: usize) -> (address: usize)
        requires
            at + address_size() <= self.data.len(),
        ensures
            address == address_at(self.data@, at as int),
    {
        let low: u32 = read_u32(self.data, at);
        if usize::BITS == 64 {
            let high: u32 = read_u32(self.data, at + 4);
            (low as u64 + 0x1_0000_0000 * (high as u64)) as usize
        } else {
            low as usize
        }
    }

    fn read_text(&self, at: usize) -> (text: Option<String>)
        requires
            self.wf(),
            at + 2 * address_size() <= self.data.len(),
        ensures
            match text {
                Some(t) => self.text_at(at as int) == Some(t@),
                None => self.text_at(at as int) is None,
            },
    {
        let len: usize = read_u16(self.data, at) as usize;
        let start: usize = self.read_address(at + Self::size_of_address());
        let filled: usize = if (self.filled as usize) < self.data.len() {
            self.filled as usize
        } else {
            self.data.len()
        };
        let end: usize = self.base + filled;
        if start < self.base || start.saturating_add(len) > end {
            return None;
        }
        let from: usize = start - self.base;
        let count: usize = len / 2;
        let ghost all = words(self.data@.skip(from as int), count as nat);
        let mut units: Vec<u16> = Vec::new();
        let mut i: usize = 0;
        while i < count
            invariant
                i <= count,
                from + 2 * count <= self.data.len(),
                all == words(self.data@.skip(from as int), count as nat),
                units@ == all.take(i as int),
            decreases count - i,
        {
            let unit: u16 = read_u16(self.data, from + 2 * i);
            assert(unit == all[i as int]);
            units.push(unit);
            assert(units@ =~= all.take(i + 1));
            i += 1;
        }
        assert(units@ =~= all);
        Some(String::from_utf16_lossy(&units))
    }

    /// Where the entries lie.
    fn offsets(&self) -> (offsets: Vec<usize>)
        requires
            self.wf(),
        ensures
            positions(offsets@) == self.entries(),
            forall|i: int|
                0 <= i < offsets@.len() ==> #[trigger] offsets@[i] + entry_size()
                    <= self.data@.len(),
    {
        let step: usize = 4 * Self::size_of_address();
        let mut offsets: Vec<usize> = Vec::new();
        let mut at: usize = 0;
        assert(positions(offsets@) + self.entries_from(0) =~= self.entries());
        while step <= self.data.len() - at && read_u16(self.data, at) != 0
            invariant
                self.wf(),
                step == entry_size(),
                at <= self.data.len(),
                positions(offsets@) + self.entries_from(at as int) == self.entries(),
                forall|i: int|
                    0 <= i < offsets@.len() ==> #[trigger] offsets@[i] + entry_size()
                        <= self.data@.len(),
            decreases self.data.len() - at,
        {
            let ghost done = offsets@;
            offsets.push(at);
            assert(positions(offsets@) + self.entries_from(at + step) =~= positions(done) + (seq![
                at as int,
            ] + self.entries_from(at + step)));
            at += step;
        }
        assert(positions(offsets@) =~= self.entries());
        offsets
    }

    /// The names of the listed section objects that hint at a hardware monitor, in
    /// the order of the list.
    pub fn monitor_sections(&self) -> (names: Vec<String>)
        requires
            self.wf(),
        ensures
            texts(names@) == self.entries().filter_map(self.monitor_section()),
    {
        let offsets = self.offsets();
        let mut names: Vec<String> = Vec::new();
        let mut i: usize = 0;
        while i < offsets.len()
            invariant
                i <= offsets@.len(),
                self.wf(),
                positions(offsets@) == self.entries(),
                forall|j: int|
                    0 <= j < offsets@.len() ==> #[trigger] offsets@[j] + entry_size()
                        <= self.data@.len(),
                texts(names@) == self.entries().take(i as int).filter_map(self.monitor_section()),
            decreases offsets.len() - i,
        {
            let ghost done = names@;
            let at: usize = offsets[i];
            assert(self.entries().take(i + 1).drop_last() =~= self.entries().take(i as int));
            assert(self.entries()[i as int] == at);
            let name = self.read_text(at);
            let kind = self.read_text(at + 2 * Self::size_of_address());
            match (name, kind) {
                (Some(name), Some(kind)) => {
                    if names_monitor_section(&name.to_lowercase(), &kind) {
                        names.push(name);
                        assert(texts(names@) =~= texts(done).push(name@));
                    }
                },
                _ => {},
            }
            i += 1;
        }
        assert(self.entries().take(i as int) =~= self.entries());
        names
    }

    /// The listed names that lie in what the system filled, in the order of the list.
    pub fn names(&self) -> (names: Vec<String>)
        requires
            self.wf(),
        ensures
            texts(names@) == self.entries().filter_map(self.name()),
    {
        let offsets = self.offsets();
        let mut names: Vec<String> = Vec::new();
        let mut i: usize = 0;
        while i < offsets.len()
            invariant
                i <= offsets@.len(),
                self.wf(),
                positions(offsets@) == self.entries(),
                forall|j: int|
                    0 <= j < offsets@.len() ==> #[trigger] offsets@[j] + entry_size()
                        <= self.data@.len(),
                texts(names@) == self.entries().take(i as int).filter_map(self.name()),
            decreases offsets.len() - i,
        {
            let ghost done = names@;
            assert(self.entries().take(i + 1).drop_last() =~= self.entries().take(i as int));
            assert(self.entries()[i as int] == offsets@[i as int]);
            if let Some(name) = self.read_text(offsets[i]) {
                names.push(name);
                assert(texts(names@) =~= texts(done).push(name@));
            }
            i += 1;
        }
        assert(self.entries().take(i as int) =~= self.entries());
        names
    }

    /// The numbers among the listed names, in the order of the list.
    pub fn session_ids(&self) -> (ids: Vec<u32>)
        requires
            self.wf(),
        ensures
            ids@ == self.entries().filter_map(self.session()),
    {
        let offsets = self.offsets();
        let mut ids: Vec<u32> = Vec::new();
        let mut i: usize = 0;
        while i < offsets.len()
            invariant
                i <= offsets@.len(),
                self.wf(),
                positions(offsets@) == self.entries(),
                forall|j: int|
                    0 <= j < offsets@.len() ==> #[trigger] offsets@[j] + entry_size()
                        <= self.data@.len(),
                ids@ == self.entries().take(i as int).filter_map(self.session()),
            decreases offsets.len() - i,
        {
            assert(self.entries().take(i + 1).drop_last() =~= self.entries().take(i as int));
            assert(self.entries()[i as int] == offsets@[i as int]);
            if let Some(name) = self.read_text(offsets[i]) {
                if let Some(id) = parse_u32(&name) {
                    ids.push(id);
                }
            }
            i += 1;
        }
        assert(self.entries().take(i as int) =~= self.entries());
        ids
    }
}

/// Whether a status says that a listing was filled: success, or that there is more.
pub fn was_listed(status: i32) -> (b: bool)
    ensures
        b == (status == 0 || status == 0x105),
{
    status == 0 || status == 0x105
}

/// The session of this process: `session` where the system knew it, else 1.
pub fn current_session(result: i32, session: u32) -> (id: u32)
    ensures
        id == if result != 0 {
            session
        } else {
            1u32
        },
{
    if result != 0 {
        session
    } else {
        1
    }
}

/// The sessions to search: those that were listed, or where none could be, the
/// first six and the current one.
pub fn session_dirs(listed: Option<Vec<u32>>, current: u32) -> (ids: Vec<u32>)
    ensures
        ids@ == match listed {
            Some(l) => l@,
            None => seq![0u32, 1u32, 2u32, 3u32, 4u32, 5u32, current],
        },
{
    match listed {
        Some(ids) => ids,
        None => {
            let mut ids: Vec<u32> = Vec::new();
            ids.push(0);
            ids.push(1);
            ids.push(2);
            ids.push(3);
            ids.push(4);
            ids.push(5);
            ids.push(current);
            assert(ids@ =~= seq![0u32, 1u32, 2u32, 3u32, 4u32, 5u32, current]);
            ids
        },
    }
}

/// The path of the named objects of a session.
pub fn session_path(session: u32) -> (path: String)
    ensures
        path@ == "\\Sessions\\"@ + decimal_text(session as nat) + "\\BaseNamedObjects"@,
{
    let mut path = "\\Sessions\\".to_owned();
    path.append(decimal(session).as_str());
    path.append("\\BaseNamedObjects");
    path
}

/// A text as Windows takes it: UTF-16 units with a zero behind them.
pub fn to_wide(text: &str) -> (units: Vec<u16>)
    ensures
        units@ == utf16(text@).push(0u16),
{
    let mut units = units_of(text);
    units.push(0);
    units
}

/// The name under which shared memory is looked for at an attempt, counted from zero:
/// those that all sessions see first.
pub open spec fn memory_name_of(attempt: int) -> Option<Seq<char>> {
    if attempt == 0 {
        Some("Global\\LibreHardwareMonitorSharedMemory"@)
    } else if attempt == 1 {
        Some("Global\\LibreHardwareMonitor_Window"@)
    } else if attempt == 2 {
        Some("Global\\LibreHardwareMonitor"@)
    } else if attempt == 3 {
        Some("LibreHardwareMonitorSharedMemory"@)
    } else if attempt == 4 {
        Some("LibreHardwareMonitor"@)
    } else if attempt == 5 {
        Some("Local\\LibreHardwareMonitorSharedMemory"@)
    } else if attempt == 6 {
        Some("Local\\LibreHardwareMonitor"@)
    } else {
        None
    }
}

/// The name under which to look for shared memory at an attempt, counted from zero;
/// `None` once all names have been tried.
pub fn memory_name(attempt: usize) -> (name: Option<&'static str>)
    ensures
        match name {
            Some(n) => memory_name_of(attempt as int) == Some(n@),
            None => memory_name_of(attempt as int) is None,
        },
{
    match attempt {
        0 => Some("Global\\LibreHardwareMonitorSharedMemory"),
        1 => Some("Global\\LibreHardwareMonitor_Window"),
        2 => Some("Global\\LibreHardwareMonitor"),
        3 => Some("LibreHardwareMonitorSharedMemory"),
        4 => Some("LibreHardwareMonitor"),
        5 => Some("Local\\LibreHardwareMonitorSharedMemory"),
        6 => Some("Local\\LibreHardwareMonitor"),
        _ => None,
    }
}

/// What the error number of a failed attempt to open shared memory means.
pub fn open_error_hint(error: u32) -> (hint: &'static str)
    ensures
        hint@ == match error {
            2 => "ERROR_FILE_NOT_FOUND — LHM not running or name mismatch"@,
            5 => "ERROR_ACCESS_DENIED — run HybridGauge as Administrator"@,
            6 => "ERROR_INVALID_HANDLE"@,
            231 => "ERROR_PIPE_BUSY"@,
            _ => "unknown"@,
        },
{
    match error {
        2 => "ERROR_FILE_NOT_FOUND — LHM not running or name mismatch",
        5 => "ERROR_ACCESS_DENIED — run HybridGauge as Administrator",
        6 => "ERROR_INVALID_HANDLE",
        231 => "ERROR_PIPE_BUSY",
        _ => "unknown",
    }
}

/// On a machine with 64-bit addresses an address has 8 bytes and an entry 32, and with
/// 32-bit addresses half of that; an address stands with its lowest byte first.
pub proof fn law_sizes(data: Seq<u8>, at: int)
    ensures
        usize::BITS == 64 ==> address_size() == 8 && entry_size() == 32,
        usize::BITS == 32 ==> address_size() == 4 && entry_size() == 16,
        usize::BITS == 64 ==> address_at(data, at) == u32_at(data, at) + 0x1_0000_0000 * u32_at(
            data,
            at + 4,
        ),
        usize::BITS == 32 ==> address_at(data, at) == u32_at(data, at),
{
}

/// The entries lie one behind the other from the start on, each with a name; the list goes
/// on up to an entry without a name or to the end of the block.
pub proof fn law_entries(listing: Listing, k: int)
    requires
        0 <= k < listing.entries().len(),
    ensures
        listing.entries()[k] == k * entry_size(),
        (k + 1) * entry_size() <= listing.data@.len(),
        u16_at(listing.data@, k * entry_size()) != 0,
        ({
            let n = listing.entries().len() as int;
            (n + 1) * entry_size() <= listing.data@.len() ==> u16_at(
                listing.data@,
                n * entry_size(),
            ) == 0
        }),
{
    lemma_entries_from(listing, 0, k);
}

/// The list ends only where an entry without a name follows, or none fits in the block.
pub proof fn law_end_of_entries(listing: Listing)
    ensures
        ({
            let n = listing.entries().len() as int;
            (n + 1) * entry_size() <= listing.data@.len() ==> u16_at(
                listing.data@,
                n * entry_size(),
            ) == 0
        }),
{
    let step = entry_size();
    if listing.entries().len() > 0 {
        law_entries(listing, 0);
    } else {
        assert((0 + 1) * step == step && 0 * step == 0) by (nonlinear_arith);
    }
}

proof fn lemma_entries_from(listing: Listing, at: int, k: int)
    requires
        0 <= at,
        0 <= k < listing.entries_from(at).len(),
    ensures
        listing.entries_from(at)[k] == at + k * entry_size(),
        at + (k + 1) * entry_size() <= listing.data@.len(),
        u16_at(listing.data@, at + k * entry_size()) != 0,
        ({
            let n = listing.entries_from(at).len() as int;
            at + (n + 1) * entry_size() <= listing.data@.len() ==> u16_at(
                listing.data@,
                at + n * entry_size(),
            ) == 0
        }),
    decreases listing.data@.len() - at,
{
    let step = entry_size();
    let rest = listing.entries_from(at + step);
    let n = listing.entries_from(at).len() as int;
    assert(listing.entries_from(at) == seq![at] + rest);
    if k > 0 {
        lemma_entries_from(listing, at + step, k - 1);
        assert(at + step + (k - 1) * step == at + k * step) by (nonlinear_arith);
        assert(at + step + k * step == at + (k + 1) * step) by (nonlinear_arith);
    }
    assert(at + step + (n - 1) * step == at + n * step) by (nonlinear_arith);
    assert(at + step + n * step == at + (n + 1) * step) by (nonlinear_arith);
    if rest.len() > 0 {
        lemma_entries_from(listing, at + step, 0);
    }
}

/// A text that stands as UTF-16 in what the system filled, and whose length in bytes and
/// address are given, is read back; an odd byte at its end does not count.
pub proof fn law_listed_text_reads_back(listing: Listing, at: int, from: int, text: Seq<char>)
    requires
        listing.wf(),
        0 <= from,
        u16_at(listing.data@, at) / 2 == utf16(text).len(),
        address_at(listing.data@, at + address_size()) == listing.base + from,
        from + u16_at(listing.data@, at) <= listing.filled,
        from + u16_at(listing.data@, at) <= listing.data@.len(),
        forall|i: int|
            0 <= i < utf16(text).len() ==> #[trigger] utf16(text)[i] == listing.data@[from + 2 * i]
                + 256 * listing.data@[from + 2 * i + 1],
    ensures
        listing.text_at(at) == Some(text),
{
    let units = words(listing.data@.skip(from), utf16(text).len());
    assert forall|i: int| 0 <= i < units.len() implies units[i] == utf16(text)[i] by {
        assert(listing.data@.skip(from)[2 * i] == listing.data@[from + 2 * i]);
        assert(listing.data@.skip(from)[2 * i + 1] == listing.data@[from + 2 * i + 1]);
    }
    assert(units =~= utf16(text));
    law_utf16_reads_back(text);
}

/// A text that starts before the block, or ends behind what the system filled or behind
/// the block, is not read.
pub proof fn law_texts_outside_are_not_read(listing: Listing, at: int)
    requires
        ({
            let start = address_at(listing.data@, at + address_size());
            let end = start + u16_at(listing.data@, at);
            start < listing.base || end > listing.base + listing.filled || end > listing.base
                + listing.data@.len()
        }),
    ensures
        listing.text_at(at) is None,
{
}

/// The name of an entry is the text described at its start, and its type the one described
/// half an entry on. The entry counts as a section of a monitor where both are read, the
/// type is "Section" and the name, in lower case, is one of a monitor.
pub proof fn law_monitor_entry(listing: Listing, entry: int)
    ensures
        listing.name()(entry) == listing.text_at(entry),
        listing.type_at(entry) == listing.text_at(entry + entry_size() / 2),
        ({
            let name = listing.text_at(entry);
            let kind = listing.text_at(entry + entry_size() / 2);
            if name is Some && kind is Some && kind.unwrap() == "Section"@ && monitor_name(
                lowercase(name.unwrap()),
            ) {
                listing.monitor_section()(entry) == name
            } else {
                listing.monitor_section()(entry) is None
            }
        }),
{
    let name = lowercase(listing.text_at(entry).unwrap());
    law_monitor_names(name, "Section"@);
}

/// Whether a name in lower case holds one of the words that monitors go by.
pub open spec fn monitor_name(name: Seq<char>) -> bool {
    holds_any(seq!["libre", "hardware", "lhm", "ohm"], name)
}

/// A section object is one of a monitor exactly where its name holds one of four words and
/// its type is "Section".
pub proof fn law_monitor_names(name: Seq<char>, kind: Seq<char>)
    ensures
        monitor_section_names(name, kind) <==> kind == "Section"@ && monitor_name(name),
{
    let w = seq!["libre", "hardware", "lhm", "ohm"];
    assert(w[0]@ == "libre"@ && w[1]@ == "hardware"@ && w[2]@ == "lhm"@ && w[3]@ == "ohm"@);
}

/// An entry whose name is a number in decimal is that session.
pub proof fn law_session_entry(listing: Listing, entry: int, n: u32)
    requires
        listing.text_at(entry) == Some(decimal_text(n as nat)),
    ensures
        listing.session()(entry) == Some(n),
{
    law_decimal_reads_back(n as nat);
}

/// An entry is the session that its name is the number of; one whose name is not read, or
/// is no number, is none.
pub proof fn law_sessions_are_numbers(listing: Listing, entry: int)
    ensures
        listing.text_at(entry) is None ==> listing.session()(entry) is None,
        listing.text_at(entry) matches Some(name) ==> listing.session()(entry) == parsed_u32(name),
{
}

/// The content of texts is that of each in its place.
pub proof fn law_texts(strings: Seq<String>, i: int)
    ensures
        texts(strings).len() == strings.len(),
        0 <= i < strings.len() ==> texts(strings)[i] == strings[i]@,
{
}

} // verus!
