//! Rows that Windows Management Instrumentation returns, and what they say about
//! graphics adapters.

use vstd::arithmetic::power2::pow2;
use vstd::prelude::*;
use crate::sequences::{lemma_filter_ends, lemma_filter_prefix, lemma_filter_step, nth_kept};
use crate::single::Single;
use crate::text::{contains, holds_any, lowercase, occurs_in};

verus! {

/// A value in a row: of the types that matter here, and any other.
#[derive(Debug)]
pub enum Variant {
    Text(String),
    UI8(u64),
    UI4(u32),
    UI2(u16),
    UI1(u8),
    I8(i64),
    I4(i32),
    Other,
}

impl Variant {
    /// The text of a value that is one.
    pub open spec fn text(self) -> Option<Seq<char>> {
        match self {
            Variant::Text(s) => Some(s@),
            _ => None,
        }
    }

    /// The number that a value is, where it is a whole number and not negative.
    pub open spec fn number(self) -> Option<u64> {
        match self {
            Variant::UI8(n) => Some(n),
            Variant::UI4(n) => Some(n as u64),
            Variant::UI2(n) => Some(n as u64),
            Variant::UI1(n) => Some(n as u64),
            Variant::I8(n) => if n >= 0 {
                Some(n as u64)
            } else {
                None
            },
            Variant::I4(n) => if n >= 0 {
                Some(n as u64)
            } else {
                None
            },
            _ => None,
        }
    }
}

/// The text in a column.
pub open spec fn text_in(column: Option<Variant>) -> Option<Seq<char>> {
    match column {
        Some(v) => v.text(),
        None => None,
    }
}

/// The number in a column.
pub open spec fn number_in(column: Option<Variant>) -> Option<u64> {
    match column {
        Some(v) => v.number(),
        None => None,
    }
}

/// The text in a column, where it holds one.
pub fn extract_string(column: &Option<Variant>) -> (text: Option<String>)
    ensures
        match text {
            Some(t) => text_in(*column) == Some(t@),
            None => text_in(*column) is None,
        },
{
    match column {
        Some(Variant::Text(s)) => Some(s.clone()),
        _ => None,
    }
}

/// The number in a column, where it holds a whole number that is not negative.
pub fn extract_u64(column: &Option<Variant>) -> (number: Option<u64>)
    ensures
        number == number_in(*column),
{
    match column {
        Some(Variant::UI8(n)) => Some(*n),
        Some(Variant::UI4(n)) => Some(*n as u64),
        Some(Variant::UI2(n)) => Some(*n as u64),
        Some(Variant::UI1(n)) => Some(*n as u64),
        Some(Variant::I8(n)) => if *n >= 0 {
            Some(*n as u64)
        } else {
            None
        },
        Some(Variant::I4(n)) => if *n >= 0 {
            Some(*n as u64)
        } else {
            None
        },
        _ => None,
    }
}

/// The columns Name, AdapterCompatibility and AdapterRAM of a video controller.
pub struct ControllerRow {
    pub name: Option<Variant>,
    pub compatibility: Option<Variant>,
    pub ram: Option<Variant>,
}

/// A video controller: its name, its maker and its memory in bytes.
pub struct VideoController {
    pub name: String,
    pub compatibility: String,
    pub vram_bytes: Option<u64>,
}

/// The mathematical content of a [`VideoController`].
#[verifier::ext_equal]
pub struct ControllerView {
    pub name: Seq<char>,
    pub compatibility: Seq<char>,
    pub vram_bytes: Option<u64>,
}

impl View for VideoController {
    type V = ControllerView;

    open spec fn view(&self) -> ControllerView {
        ControllerView {
            name: self.name@,
            compatibility: self.compatibility@,
            vram_bytes: self.vram_bytes,
        }
    }
}

/// The contents of a sequence of video controllers.
pub open spec fn controller_views(controllers: Seq<VideoController>) -> Seq<ControllerView> {
    controllers.map_values(|c: VideoController| c@)
}

/// From a row to the video controller that it describes; a row without a name
/// describes none.
pub open spec fn controller_in() -> spec_fn(ControllerRow) -> Option<ControllerView> {
    |row: ControllerRow|
        match text_in(row.name) {
            Some(name) => Some(
                ControllerView {
                    name,
                    compatibility: match text_in(row.compatibility) {
                        Some(maker) => maker,
                        None => Seq::empty(),
                    },
                    vram_bytes: number_in(row.ram),
                },
            ),
            None => None,
        }
}

/// Whether a maker and a name, both in lower case, are taken for those of an AMD GPU:
/// neither holds "intel", and the maker holds "amd" or "ati", or the name "radeon" or
/// "amd". A maker that calls itself a corporation holds "ati" and passes too.
pub open spec fn amd_names(maker: Seq<char>, name: Seq<char>) -> bool {
    &&& !occurs_in("intel"@, maker)
    &&& !occurs_in("intel"@, name)
    &&& {
        ||| occurs_in("amd"@, maker)
        ||| occurs_in("ati"@, maker)
        ||| occurs_in("radeon"@, name)
        ||| occurs_in("amd"@, name)
    }
}

/// The video controllers that are taken for AMD GPUs by their maker and name, as
/// [`amd_names`] tells.
pub open spec fn taken_for_amd() -> spec_fn(ControllerView) -> bool {
    |c: ControllerView| amd_names(lowercase(c.compatibility), lowercase(c.name))
}

/// The video controllers that rows describe, in the order of the rows.
pub fn query_video_controllers(rows: &[ControllerRow]) -> (controllers: Vec<VideoController>)
    ensures
        controller_views(controllers@) == rows@.filter_map(controller_in()),
{
    let mut controllers: Vec<VideoController> = Vec::new();
    let mut i: usize = 0;
    while i < rows.len()
        invariant
            i <= rows.len(),
            controller_views(controllers@) == rows@.take(i as int).filter_map(controller_in()),
        decreases rows.len() - i,
    {
        let ghost done = controllers@;
        assert(rows@.take(i + 1).drop_last() =~= rows@.take(i as int));
        if let Some(name) = extract_string(&rows[i].name) {
            let compatibility = match extract_string(&rows[i].compatibility) {
                Some(maker) => maker,
                None => String::new(),
            };
            let vram_bytes = extract_u64(&rows[i].ram);
            let controller = VideoController { name, compatibility, vram_bytes };
            controllers.push(controller);
            assert(controller_views(controllers@) =~= controller_views(done).push(controller@));
        }
        i += 1;
    }
    assert(rows@.take(i as int) =~= rows@);
    controllers
}

/// Whether a maker and a name, both in lower case, are taken for those of an AMD GPU:
/// neither holds "intel", and the maker holds "amd" or "ati", or the name "radeon" or
/// "amd". A maker that calls itself a corporation holds "ati" and passes too.
pub fn names_amd(maker: &str, name: &str) -> (b: bool)
    ensures
        b == amd_names(maker@, name@),
{
    if contains(maker, "intel") || contains(name, "intel") {
        return false;
    }
    contains(maker, "amd") || contains(maker, "ati") || contains(name, "radeon") || contains(
        name,
        "amd",
    )
}

/// The video controllers that are taken for AMD GPUs by their maker and name, in their
/// order.
pub fn amd_adapters(controllers: &[VideoController]) -> (amd: Vec<VideoController>)
    ensures
        controller_views(amd@) == controller_views(controllers@).filter(taken_for_amd()),
{
    let ghost all = controller_views(controllers@);
    let mut amd: Vec<VideoController> = Vec::new();
    let mut i: usize = 0;
    proof {
        lemma_filter_ends(all, taken_for_amd());
        assert(controller_views(amd@) =~= all.take(0).filter(taken_for_amd()));
    }
    while i < controllers.len()
        invariant
            i <= controllers.len(),
            all == controller_views(controllers@),
            controller_views(amd@) == all.take(i as int).filter(taken_for_amd()),
        decreases controllers.len() - i,
    {
        let ghost done = amd@;
        proof {
            lemma_filter_step(all, taken_for_amd(), i as int);
        }
        let maker = controllers[i].compatibility.to_lowercase();
        let name = controllers[i].name.to_lowercase();
        if names_amd(&maker, &name) {
            let controller = VideoController {
                name: controllers[i].name.clone(),
                compatibility: controllers[i].compatibility.clone(),
                vram_bytes: controllers[i].vram_bytes,
            };
            amd.push(controller);
            assert(controller_views(amd@) =~= controller_views(done).push(all[i as int]));
        }
        i += 1;
    }
    proof {
        lemma_filter_ends(all, taken_for_amd());
    }
    amd
}

/// The video controllers that rows describe and that are taken for AMD GPUs by their
/// maker and name, in the order of the rows.
pub fn amd_controllers(rows: &[ControllerRow]) -> (amd: Vec<VideoController>)
    ensures
        controller_views(amd@) == rows@.filter_map(controller_in()).filter(taken_for_amd()),
{
    amd_adapters(&query_video_controllers(rows))
}

/// The mean load of the 3D engines, as a sum of percentages over a number of engines.
#[derive(Clone, Copy, Debug, PartialEq, Eq, Structural)]
pub struct Utilization {
    pub sum: u64,
    pub engines: usize,
}

impl Utilization {
    /// Whether the mean is at most `percent`.
    pub open spec fn at_most(self, percent: int) -> bool {
        self.sum <= percent * self.engines
    }

    /// Whether the mean is at most 20 percent.
    pub fn is_idle(self) -> (b: bool)
        ensures
            b == self.at_most(20),
    {
        self.sum as u128 <= 20 * (self.engines as u128)
    }
}

/// The sum of the numbers in a column.
pub open spec fn column_sum(column: Seq<Option<Variant>>) -> int
    decreases column.len(),
{
    if column.len() == 0 {
        0
    } else {
        column_sum(column.drop_last()) + match number_in(column.last()) {
            Some(n) => n as int,
            None => 0,
        }
    }
}

proof fn lemma_column_sum_prefix(column: Seq<Option<Variant>>, n: int)
    requires
        0 <= n <= column.len(),
    ensures
        0 <= column_sum(column.take(n)) <= column_sum(column),
    decreases column.len(),
{
    if n == column.len() {
        assert(column.take(n) =~= column);
        if n > 0 {
            lemma_column_sum_prefix(column.drop_last(), n - 1);
        }
    } else {
        lemma_column_sum_prefix(column.drop_last(), n);
        assert(column.drop_last().take(n) =~= column.take(n));
    }
}

/// The mean load of the 3D engines, by the percentages in a column; `None` where the
/// column is empty. An entry that is no number counts as zero.
pub fn query_gpu_3d_utilization(column: &[Option<Variant>]) -> (load: Option<Utilization>)
    requires
        column_sum(column@) <= u64::MAX,
    ensures
        match load {
            Some(u) => u.sum == column_sum(column@) && u.engines == column@.len() && column@.len()
                > 0,
            None => column@.len() == 0,
        },
{
    if column.len() == 0 {
        return None;
    }
    let mut sum: u64 = 0;
    let mut i: usize = 0;
    while i < column.len()
        invariant
            i <= column.len(),
            column_sum(column@) <= u64::MAX,
            sum == column_sum(column@.take(i as int)),
        decreases column.len() - i,
    {
        proof {
            assert(column@.take(i + 1).drop_last() =~= column@.take(i as int));
            lemma_column_sum_prefix(column@, i + 1);
        }
        if let Some(n) = extract_u64(&column[i]) {
            sum = sum + n;
        }
        i += 1;
    }
    assert(column@.take(i as int) =~= column@);
    Some(Utilization { sum, engines: column.len() })
}

/// The columns InstanceName and CurrentTemperature of a thermal zone.
pub struct ThermalRow {
    pub instance: Option<Variant>,
    pub temperature: Option<Variant>,
}

/// Whether the name of a thermal zone, in lower case, is that of a GPU.
pub open spec fn gpu_zone_name(name: Seq<char>) -> bool {
    ||| occurs_in("gpu"@, name)
    ||| occurs_in("vga"@, name)
    ||| occurs_in("tgpu"@, name)
    ||| occurs_in("disp"@, name)
    ||| occurs_in("amd"@, name)
    ||| occurs_in("gfx"@, name)
}

/// From a row to the temperature of the GPU zone that it describes, in tenths of a
/// kelvin.
pub open spec fn gpu_zone_reading() -> spec_fn(ThermalRow) -> Option<u64> {
    |row: ThermalRow|
        match text_in(row.instance) {
            Some(name) => if gpu_zone_name(lowercase(name)) {
                number_in(row.temperature)
            } else {
                None
            },
            None => None,
        }
}

/// Whether the name of a thermal zone, in lower case, is that of a GPU.
pub fn names_gpu_zone(name: &str) -> (b: bool)
    ensures
        b == gpu_zone_name(name@),
{
    contains(name, "gpu") || contains(name, "vga") || contains(name, "tgpu") || contains(
        name,
        "disp",
    ) || contains(name, "amd") || contains(name, "gfx")
}

/// The temperatures of the GPU zones, in tenths of a kelvin and in the order of the
/// rows.
pub fn gpu_zone_readings(rows: &[ThermalRow]) -> (readings: Vec<u64>)
    ensures
        readings@ == rows@.filter_map(gpu_zone_reading()),
{
    let mut readings: Vec<u64> = Vec::new();
    let mut i: usize = 0;
    while i < rows.len()
        invariant
            i <= rows.len(),
            readings@ == rows@.take(i as int).filter_map(gpu_zone_reading()),
        decreases rows.len() - i,
    {
        assert(rows@.take(i + 1).drop_last() =~= rows@.take(i as int));
        if let Some(instance) = extract_string(&rows[i].instance) {
            if names_gpu_zone(&instance.to_lowercase()) {
                if let Some(reading) = extract_u64(&rows[i].temperature) {
                    readings.push(reading);
                }
            }
        }
        i += 1;
    }
    assert(rows@.take(i as int) =~= rows@);
    readings
}

/// The readings from zero to 150 degrees Celsius.
pub open spec fn plausible_zone() -> spec_fn(Single) -> bool {
    |celsius: Single| celsius.within(150)
}

/// The first reading from zero to 150 degrees Celsius.
pub fn first_plausible_zone(celsius: &[Single]) -> (reading: Option<Single>)
    ensures
        reading == nth_kept(celsius@, plausible_zone(), 0),
{
    let mut i: usize = 0;
    proof {
        lemma_filter_ends(celsius@, plausible_zone());
    }
    while i < celsius.len()
        invariant
            i <= celsius.len(),
            celsius@.take(i as int).filter(plausible_zone()).len() == 0,
        decreases celsius.len() - i,
    {
        proof {
            lemma_filter_step(celsius@, plausible_zone(), i as int);
            lemma_filter_prefix(celsius@, plausible_zone(), i + 1);
        }
        if celsius[i].is_within(150) {
            return Some(celsius[i]);
        }
        i += 1;
    }
    proof {
        lemma_filter_ends(celsius@, plausible_zone());
    }
    None
}

/// Numbers of every width are read as they are, negative ones and other values not at all;
/// texts are read as they are, and other values not at all.
pub proof fn law_columns(a: u64, b: u32, c: u16, d: u8, e: i64, f: i32, t: String)
    ensures
        number_in(Some(Variant::UI8(a))) == Some(a),
        number_in(Some(Variant::UI4(b))) matches Some(n) && n == b,
        number_in(Some(Variant::UI2(c))) matches Some(n) && n == c,
        number_in(Some(Variant::UI1(d))) matches Some(n) && n == d,
        e >= 0 ==> (number_in(Some(Variant::I8(e))) matches Some(n) && n == e),
        f >= 0 ==> (number_in(Some(Variant::I4(f))) matches Some(n) && n == f),
        e < 0 ==> number_in(Some(Variant::I8(e))) is None,
        f < 0 ==> number_in(Some(Variant::I4(f))) is None,
        number_in(Some(Variant::Text(t))) is None,
        number_in(Some(Variant::Other)) is None,
        number_in(None) is None,
        text_in(Some(Variant::Text(t))) == Some(t@),
        text_in(Some(Variant::UI8(a))) is None,
        text_in(Some(Variant::UI4(b))) is None,
        text_in(Some(Variant::UI2(c))) is None,
        text_in(Some(Variant::UI1(d))) is None,
        text_in(Some(Variant::I8(e))) is None,
        text_in(Some(Variant::I4(f))) is None,
        text_in(Some(Variant::Other)) is None,
        text_in(None) is None,
{
}

/// A row with a name is a controller with that name, the maker of the row or an empty one,
/// and the memory of the row; a row without a name is none.
pub proof fn law_controller_row(row: ControllerRow)
    ensures
        text_in(row.name) is None ==> controller_in()(row) is None,
        text_in(row.name) matches Some(name) ==> {
            &&& controller_in()(row) matches Some(c)
            &&& c.name == name
            &&& c.vram_bytes == number_in(row.ram)
            &&& text_in(row.compatibility) is None ==> c.compatibility.len() == 0
            &&& text_in(row.compatibility) matches Some(maker) ==> c.compatibility == maker
        },
{
}

/// A controller is taken for an AMD GPU exactly where neither its maker nor its name, in
/// lower case, holds "intel", and its maker holds "amd" or "ati" or its name "radeon" or
/// "amd".
pub proof fn law_taken_for_amd(c: ControllerView)
    ensures
        ({
            let maker = lowercase(c.compatibility);
            let name = lowercase(c.name);
            taken_for_amd()(c) <==> !occurs_in("intel"@, maker) && !occurs_in("intel"@, name) && (
            holds_any(seq!["amd", "ati"], maker) || holds_any(seq!["radeon", "amd"], name))
        }),
{
    let m = seq!["amd", "ati"];
    let n = seq!["radeon", "amd"];
    assert(m[0]@ == "amd"@ && m[1]@ == "ati"@);
    assert(n[0]@ == "radeon"@ && n[1]@ == "amd"@);
}

/// The mean of loads is at most a percentage exactly where they add up to at most that for
/// each engine.
pub proof fn law_mean_load(load: Utilization, percent: int)
    ensures
        load.at_most(percent) <==> load.sum <= load.engines * percent,
{
    assert(load.engines * percent == percent * load.engines) by (nonlinear_arith);
}

/// The sum of a column is zero where it is empty, and grows with one entry by its number,
/// and not at all where the entry is no number.
pub proof fn law_column_sum(column: Seq<Option<Variant>>, entry: Option<Variant>)
    ensures
        column_sum(Seq::empty()) == 0,
        number_in(entry) matches Some(n) ==> column_sum(column.push(entry)) == column_sum(column)
            + n,
        number_in(entry) is None ==> column_sum(column.push(entry)) == column_sum(column),
{
    assert(column.push(entry).drop_last() =~= column);
}

/// The name of a thermal zone is that of a GPU exactly where it holds one of six words.
pub proof fn law_gpu_zone(name: Seq<char>)
    ensures
        gpu_zone_name(name) <==> holds_any(
            seq!["gpu", "vga", "tgpu", "disp", "amd", "gfx"],
            name,
        ),
{
    let w = seq!["gpu", "vga", "tgpu", "disp", "amd", "gfx"];
    assert(w[0]@ == "gpu"@ && w[1]@ == "vga"@ && w[2]@ == "tgpu"@ && w[3]@ == "disp"@ && w[4]@
        == "amd"@ && w[5]@ == "gfx"@);
}

/// A row gives the number in its temperature where its name, in lower case, is that of a
/// GPU zone, and nothing otherwise.
pub proof fn law_zone_row(row: ThermalRow)
    ensures
        text_in(row.instance) is None ==> gpu_zone_reading()(row) is None,
        text_in(row.instance) matches Some(name) ==> if gpu_zone_name(lowercase(name)) {
            gpu_zone_reading()(row) == number_in(row.temperature)
        } else {
            gpu_zone_reading()(row) is None
        },
{
}

/// A zone reading is plausible from zero to 150, both included.
pub proof fn law_plausible_zone(celsius: Single)
    ensures
        plausible_zone()(celsius) <==> !celsius.nan() && 0 <= celsius.scaled() <= 150 * pow2(149),
{
}

/// The content of a controller is that of each of its parts, and that of several that of
/// each in its place.
pub proof fn law_controller_contents(c: VideoController, all: Seq<VideoController>, i: int)
    ensures
        c@.name == c.name@,
        c@.compatibility == c.compatibility@,
        c@.vram_bytes == c.vram_bytes,
        controller_views(all).len() == all.len(),
        0 <= i < all.len() ==> controller_views(all)[i] == all[i]@,
{
}

} // verus!
