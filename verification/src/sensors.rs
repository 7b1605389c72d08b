//! Sensor readings, and how the readings of a GPU or CPU are picked among them.

use vstd::arithmetic::power2::{lemma_pow2_pos, pow2};
use vstd::prelude::*;
use vstd::utf8::{char_is_scalar, char_u32_cast, is_ascii_chars};
use crate::sequences::{
    law_kept_in_order, lemma_filter_ends, lemma_filter_prefix, lemma_filter_step, lemma_none_kept,
    nth_kept,
};
use crate::single::{law_whole_part_bounds, Single};
use crate::text::{
    contains, holds_any, law_ascii_lowercase, law_occurrence, lowercase, occurs_in,
};

verus! {

/// One reading of one sensor.
#[derive(Debug, Clone)]
pub struct SensorSnapshot {
    pub name: String,
    pub identifier: String,
    pub sensor_type: String,
    pub hardware_name: String,
    pub value: Single,
}

/// The mathematical content of a [`SensorSnapshot`].
#[verifier::ext_equal]
pub struct SensorView {
    pub name: Seq<char>,
    pub identifier: Seq<char>,
    pub sensor_type: Seq<char>,
    pub hardware_name: Seq<char>,
    pub value: Single,
}

impl View for SensorSnapshot {
    type V = SensorView;

    open spec fn view(&self) -> SensorView {
        SensorView {
            name: self.name@,
            identifier: self.identifier@,
            sensor_type: self.sensor_type@,
            hardware_name: self.hardware_name@,
            value: self.value,
        }
    }
}

/// The contents of a sequence of readings.
pub open spec fn views(sensors: Seq<SensorSnapshot>) -> Seq<SensorView> {
    sensors.map_values(|s: SensorSnapshot| s@)
}

/// The readings behind a sequence of references.
pub open spec fn behind(sensors: Seq<&SensorSnapshot>) -> Seq<SensorSnapshot> {
    sensors.map_values(|s: &SensorSnapshot| *s)
}

/// The sensors whose identifier is `id`, whatever the case of the letters.
pub open spec fn with_id(id: Seq<char>) -> spec_fn(SensorSnapshot) -> bool {
    |s: SensorSnapshot| lowercase(s.identifier@) == lowercase(id)
}

/// Whether an identifier holds a text, as it stands or in lower case.
pub open spec fn id_holds(id: Seq<char>, part: Seq<char>) -> bool {
    occurs_in(part, id) || occurs_in(part, lowercase(id))
}

/// The sensors whose identifier, as it stands or in lower case, holds every text of
/// `must` and none of `exclude`.
pub open spec fn with_parts(must: Seq<&str>, exclude: Seq<&str>) -> spec_fn(SensorSnapshot) -> bool {
    |s: SensorSnapshot|
        {
            &&& forall|i: int|
                0 <= i < must.len() ==> id_holds(s.identifier@, (#[trigger] must[i])@)
            &&& forall|i: int|
                0 <= i < exclude.len() ==> !id_holds(s.identifier@, (#[trigger] exclude[i])@)
        }
}

/// Whether a hardware name, in lower case, is that of an AMD GPU.
pub open spec fn amd_hardware_name(hw: Seq<char>) -> bool {
    ||| occurs_in("radeon"@, hw)
    ||| occurs_in("amd"@, hw)
    ||| occurs_in("rx "@, hw)
    ||| occurs_in("rx9"@, hw)
    ||| occurs_in("rx7"@, hw)
    ||| occurs_in("rx6"@, hw)
    ||| occurs_in("vega"@, hw)
    ||| occurs_in("navi"@, hw)
    ||| occurs_in("rdna"@, hw)
}

/// Whether an identifier and a hardware name, both in lower case, are those of an AMD
/// GPU sensor for `quantity`.
pub open spec fn amd_gpu_names(id: Seq<char>, hw: Seq<char>, quantity: Seq<char>) -> bool {
    &&& occurs_in("/gpu"@, id)
    &&& occurs_in(quantity, id)
    &&& amd_hardware_name(hw)
}

/// The AMD GPU sensors for `quantity`.
pub open spec fn amd_gpu_sensor(quantity: Seq<char>) -> spec_fn(SensorSnapshot) -> bool {
    |s: SensorSnapshot|
        amd_gpu_names(lowercase(s.identifier@), lowercase(s.hardware_name@), quantity)
}

/// Whether an identifier and a name, both in lower case, are those of a sensor for the
/// temperature of a CPU package.
pub open spec fn cpu_package_names(id: Seq<char>, name: Seq<char>) -> bool {
    &&& occurs_in("/cpu"@, id)
    &&& occurs_in("/temperature"@, id)
    &&& {
        ||| occurs_in("package"@, name)
        ||| name == "core max"@
        ||| occurs_in("cpu composite"@, name)
        ||| occurs_in("tdie"@, name)
        ||| occurs_in("tctl"@, name)
    }
}

/// The sensors that show the temperature of a CPU package and whose reading is plausible.
pub open spec fn cpu_package_sensor() -> spec_fn(SensorSnapshot) -> bool {
    |s: SensorSnapshot|
        cpu_package_names(lowercase(s.identifier@), lowercase(s.name@)) && s.value.inside(150)
}

/// The temperature of the AMD GPU at `position`, by the sensors.
pub open spec fn amd_temperature_of(sensors: Seq<SensorSnapshot>, position: int) -> Option<Single> {
    match nth_kept(sensors, amd_gpu_sensor("/temperature"@), position) {
        Some(s) if s.value.inside(150) => Some(s.value),
        _ => None,
    }
}

/// The fan speed in percent of the AMD GPU at `position`, by the sensors.
pub open spec fn amd_fan_of(sensors: Seq<SensorSnapshot>, position: int) -> Option<u32> {
    match nth_kept(sensors, amd_gpu_sensor("/fan"@), position) {
        Some(s) if s.value.within(100) => Some(s.value.whole_part()),
        _ => None,
    }
}

/// The temperature of the CPU package, by the sensors.
pub open spec fn cpu_temperature_of(sensors: Seq<SensorSnapshot>) -> Option<Single> {
    match nth_kept(sensors, cpu_package_sensor(), 0) {
        Some(s) => Some(s.value),
        None => None,
    }
}

/// Finds the first sensor whose identifier is `id`, whatever the case of the letters.
pub fn find_by_id<'a>(sensors: &'a [SensorSnapshot], id: &str) -> (found: Option<
    &'a SensorSnapshot,
>)
    ensures
        match found {
            Some(s) => nth_kept(sensors@, with_id(id@), 0) == Some(*s),
            None => nth_kept(sensors@, with_id(id@), 0) is None,
        },
{
    let id_lower = id.to_lowercase();
    let mut i: usize = 0;
    proof {
        lemma_filter_ends(sensors@, with_id(id@));
    }
    while i < sensors.len()
        invariant
            i <= sensors.len(),
            id_lower@ == lowercase(id@),
            sensors@.take(i as int).filter(with_id(id@)).len() == 0,
        decreases sensors.len() - i,
    {
        proof {
            lemma_filter_step(sensors@, with_id(id@), i as int);
            lemma_filter_prefix(sensors@, with_id(id@), i + 1);
        }
        if sensors[i].identifier.to_lowercase() == id_lower {
            return Some(&sensors[i]);
        }
        i += 1;
    }
    proof {
        lemma_filter_ends(sensors@, with_id(id@));
    }
    None
}

/// Collects the sensors whose identifier, as it stands or in lower case, holds every
/// text of `must` and none of `exclude`.
pub fn filter_by_id<'a>(
    sensors: &'a [SensorSnapshot],
    must: &[&str],
    exclude: &[&str],
) -> (found: Vec<&'a SensorSnapshot>)
    ensures
        behind(found@) == sensors@.filter(with_parts(must@, exclude@)),
{
    let mut found: Vec<&'a SensorSnapshot> = Vec::new();
    let mut i: usize = 0;
    proof {
        lemma_filter_ends(sensors@, with_parts(must@, exclude@));
    }
    while i < sensors.len()
        invariant
            i <= sensors.len(),
            behind(found@) == sensors@.take(i as int).filter(with_parts(must@, exclude@)),
        decreases sensors.len() - i,
    {
        proof {
            lemma_filter_step(sensors@, with_parts(must@, exclude@), i as int);
        }
        let id = sensors[i].identifier.as_str();
        if holds_all(id, must) && holds_none(id, exclude) {
            let ghost before = found@;
            found.push(&sensors[i]);
            assert(behind(found@) =~= behind(before).push(sensors@[i as int]));
        }
        i += 1;
    }
    proof {
        lemma_filter_ends(sensors@, with_parts(must@, exclude@));
    }
    found
}

/// Whether an identifier holds every one of `parts`, as it stands or in lower case.
fn holds_all(id: &str, parts: &[&str]) -> (b: bool)
    ensures
        b == forall|i: int| 0 <= i < parts@.len() ==> id_holds(id@, (#[trigger] parts@[i])@),
{
    let lower = id.to_lowercase();
    let mut i: usize = 0;
    while i < parts.len()
        invariant
            i <= parts.len(),
            lower@ == lowercase(id@),
            forall|j: int| 0 <= j < i ==> id_holds(id@, (#[trigger] parts@[j])@),
        decreases parts.len() - i,
    {
        if !contains(id, parts[i]) && !contains(&lower, parts[i]) {
            return false;
        }
        i += 1;
    }
    true
}

/// Whether an identifier holds none of `parts`, neither as it stands nor in lower case.
fn holds_none(id: &str, parts: &[&str]) -> (b: bool)
    ensures
        b == forall|i: int| 0 <= i < parts@.len() ==> !id_holds(id@, (#[trigger] parts@[i])@),
{
    let lower = id.to_lowercase();
    let mut i: usize = 0;
    while i < parts.len()
        invariant
            i <= parts.len(),
            lower@ == lowercase(id@),
            forall|j: int| 0 <= j < i ==> !id_holds(id@, (#[trigger] parts@[j])@),
        decreases parts.len() - i,
    {
        if contains(id, parts[i]) || contains(&lower, parts[i]) {
            return false;
        }
        i += 1;
    }
    true
}

/// Whether an identifier and a hardware name, both in lower case, are those of an AMD
/// GPU sensor for `quantity`.
pub fn names_amd_gpu(id: &str, hw: &str, quantity: &str) -> (b: bool)
    ensures
        b == amd_gpu_names(id@, hw@, quantity@),
{
    contains(id, "/gpu") && contains(id, quantity) && (contains(hw, "radeon") || contains(hw, "amd")
        || contains(hw, "rx ") || contains(hw, "rx9") || contains(hw, "rx7") || contains(hw, "rx6")
        || contains(hw, "vega") || contains(hw, "navi") || contains(hw, "rdna"))
}

/// Whether an identifier and a name, both in lower case, are those of a sensor for the
/// temperature of a CPU package.
pub fn names_cpu_package(id: &str, name: &str) -> (b: bool)
    ensures
        b == cpu_package_names(id@, name@),
{
    contains(id, "/cpu") && contains(id, "/temperature") && (contains(name, "package")
        || name.to_owned() == "core max".to_owned() || contains(name, "cpu composite") || contains(
        name,
        "tdie",
    ) || contains(name, "tctl"))
}

/// The reading at `position` among the AMD GPU sensors whose identifier holds `quantity`.
fn nth_amd_value(sensors: &[SensorSnapshot], quantity: &str, position: usize) -> (value: Option<
    Single,
>)
    ensures
        match nth_kept(sensors@, amd_gpu_sensor(quantity@), position as int) {
            Some(s) => value == Some(s.value),
            None => value is None,
        },
{
    let mut i: usize = 0;
    let mut seen: usize = 0;
    let ghost keep = amd_gpu_sensor(quantity@);
    proof {
        lemma_filter_ends(sensors@, keep);
    }
    while i < sensors.len()
        invariant
            i <= sensors.len(),
            seen <= i,
            seen <= position,
            keep == amd_gpu_sensor(quantity@),
            seen == sensors@.take(i as int).filter(keep).len(),
        decreases sensors.len() - i,
    {
        proof {
            lemma_filter_step(sensors@, keep, i as int);
            lemma_filter_prefix(sensors@, keep, i + 1);
        }
        let id = sensors[i].identifier.to_lowercase();
        let hw = sensors[i].hardware_name.to_lowercase();
        if names_amd_gpu(&id, &hw, quantity) {
            if seen == position {
                return Some(sensors[i].value);
            }
            seen += 1;
        }
        i += 1;
    }
    proof {
        lemma_filter_ends(sensors@, keep);
    }
    None
}

/// The temperature of the AMD GPU at `position`, by the sensors.
pub fn amd_temperature(sensors: &[SensorSnapshot], position: usize) -> (value: Option<Single>)
    ensures
        value == amd_temperature_of(sensors@, position as int),
{
    match nth_amd_value(sensors, "/temperature", position) {
        Some(v) if v.is_inside(150) => Some(v),
        _ => None,
    }
}

/// The fan speed in percent of the AMD GPU at `position`, by the sensors.
pub fn amd_fan(sensors: &[SensorSnapshot], position: usize) -> (speed: Option<u32>)
    ensures
        speed == amd_fan_of(sensors@, position as int),
{
    match nth_amd_value(sensors, "/fan", position) {
        Some(v) if v.is_within(100) => Some(v.whole()),
        _ => None,
    }
}

/// The temperature of the CPU package, by the sensors.
pub fn cpu_temperature(sensors: &[SensorSnapshot]) -> (value: Option<Single>)
    ensures
        value == cpu_temperature_of(sensors@),
{
    let mut i: usize = 0;
    proof {
        lemma_filter_ends(sensors@, cpu_package_sensor());
    }
    while i < sensors.len()
        invariant
            i <= sensors.len(),
            sensors@.take(i as int).filter(cpu_package_sensor()).len() == 0,
        decreases sensors.len() - i,
    {
        proof {
            lemma_filter_step(sensors@, cpu_package_sensor(), i as int);
            lemma_filter_prefix(sensors@, cpu_package_sensor(), i + 1);
        }
        let id = sensors[i].identifier.to_lowercase();
        let name = sensors[i].name.to_lowercase();
        if names_cpu_package(&id, &name) && sensors[i].value.is_inside(150) {
            return Some(sensors[i].value);
        }
        i += 1;
    }
    proof {
        lemma_filter_ends(sensors@, cpu_package_sensor());
    }
    None
}

/// The sensors of a tick, out of the two ways to read them: those in shared memory where
/// there are any, else those that are served over HTTP.
pub fn read_sensors(
    shared: Option<Vec<SensorSnapshot>>,
    served: Option<Vec<SensorSnapshot>>,
) -> (sensors: Option<Vec<SensorSnapshot>>)
    ensures
        sensors == if shared is Some {
            shared
        } else {
            served
        },
{
    match shared {
        Some(sensors) => Some(sensors),
        None => served,
    }
}

/// The readings that a summary of the sensors shows: the temperature of the first
/// Intel CPU package, and of the first AMD GPU.
pub fn highlights(sensors: &[SensorSnapshot]) -> (shown: (Option<Single>, Option<Single>))
    ensures
        shown.0 == match nth_kept(sensors@, with_id("/intelcpu/0/temperature/26"@), 0) {
            Some(s) => Some(s.value),
            None => None,
        },
        shown.1 == match nth_kept(sensors@, with_id("/gpu-amd/0/temperature/0"@), 0) {
            Some(s) => Some(s.value),
            None => None,
        },
{
    let cpu = match find_by_id(sensors, "/intelcpu/0/temperature/26") {
        Some(s) => Some(s.value),
        None => None,
    };
    let amd = match find_by_id(sensors, "/gpu-amd/0/temperature/0") {
        Some(s) => Some(s.value),
        None => None,
    };
    (cpu, amd)
}

/// Two identifiers that differ in the case of ASCII letters only are the same to a search:
/// character by character they are equal, or one is a letter A to Z and the other the same
/// letter a to z.
pub proof fn law_identifiers_in_any_case(s: SensorSnapshot, id: Seq<char>)
    requires
        is_ascii_chars(s.identifier@),
        is_ascii_chars(id),
    ensures
        with_id(id)(s) <==> s.identifier@.len() == id.len() && forall|i: int|
            0 <= i < id.len() ==> same_letter(s.identifier@[i], #[trigger] id[i]),
{
    let a = lowercase(s.identifier@);
    let b = lowercase(id);
    if a == b {
        lemma_lengths(s.identifier@, id);
        assert forall|i: int| 0 <= i < id.len() implies same_letter(
            s.identifier@[i],
            #[trigger] id[i],
        ) by {
            law_ascii_lowercase(s.identifier@, i);
            law_ascii_lowercase(id, i);
            char_is_scalar(s.identifier@[i]);
            char_is_scalar(id[i]);
            lemma_same_code(s.identifier@[i], id[i]);
        }
    }
    if s.identifier@.len() == id.len() && (forall|i: int|
        0 <= i < id.len() ==> same_letter(s.identifier@[i], #[trigger] id[i])) {
        lemma_lengths(s.identifier@, id);
        assert forall|i: int| 0 <= i < id.len() implies a[i] == b[i] by {
            assert(same_letter(s.identifier@[i], id[i]));
            law_ascii_lowercase(s.identifier@, i);
            law_ascii_lowercase(id, i);
            lemma_same_code(a[i], b[i]);
        }
        assert(a =~= b);
    }
}

proof fn lemma_lengths(a: Seq<char>, b: Seq<char>)
    requires
        is_ascii_chars(a),
        is_ascii_chars(b),
    ensures
        lowercase(a).len() == a.len(),
        lowercase(b).len() == b.len(),
{
}

proof fn lemma_same_code(a: char, b: char)
    ensures
        a as u32 == b as u32 ==> a == b,
{
    char_u32_cast(a, a as u32);
    char_u32_cast(b, b as u32);
}

/// Whether two characters are equal, or the same ASCII letter in upper and lower case.
pub open spec fn same_letter(a: char, b: char) -> bool {
    ||| a == b
    ||| 65 <= a as u32 <= 90 && b as u32 == a as u32 + 32
    ||| 65 <= b as u32 <= 90 && a as u32 == b as u32 + 32
}

/// An identifier holds every text that it is made of, before or after it is lowered, and
/// no other.
pub proof fn law_identifier_parts(
    before: Seq<char>,
    part: Seq<char>,
    after: Seq<char>,
    id: Seq<char>,
)
    ensures
        id_holds(before + part + after, part),
        lowercase(id) == before + part + after ==> id_holds(id, part),
        !occurs_in(part, id) && !occurs_in(part, lowercase(id)) ==> !id_holds(id, part),
{
    law_occurrence(part, before, after, id);
}

/// A sensor is collected exactly where its identifier holds every text asked for and none
/// forbidden: without texts every sensor is, one text more to ask for or to forbid only
/// leaves out those that lack or hold it.
pub proof fn law_collected(s: SensorSnapshot, must: Seq<&str>, exclude: Seq<&str>, text: &str)
    ensures
        with_parts(seq![], seq![])(s),
        with_parts(must.push(text), exclude)(s) <==> with_parts(must, exclude)(s) && id_holds(
            s.identifier@,
            text@,
        ),
        with_parts(must, exclude.push(text))(s) <==> with_parts(must, exclude)(s) && !id_holds(
            s.identifier@,
            text@,
        ),
{
    let more = must.push(text);
    let less = exclude.push(text);
    assert(more[must.len() as int] == text);
    assert(less[exclude.len() as int] == text);
    assert(forall|i: int| 0 <= i < must.len() ==> #[trigger] must[i] == more[i]);
    assert(forall|i: int| 0 <= i < exclude.len() ==> #[trigger] exclude[i] == less[i]);
}

/// The words by which the hardware name of an AMD GPU is told.
pub open spec fn amd_words() -> Seq<&'static str> {
    seq!["radeon", "amd", "rx ", "rx9", "rx7", "rx6", "vega", "navi", "rdna"]
}

/// A hardware name is that of an AMD GPU exactly where it holds one of nine words.
pub proof fn law_amd_hardware(hw: Seq<char>)
    ensures
        amd_hardware_name(hw) <==> holds_any(amd_words(), hw),
{
    let w = amd_words();
    assert(w[0]@ == "radeon"@ && w[1]@ == "amd"@ && w[2]@ == "rx "@ && w[3]@ == "rx9"@ && w[4]@
        == "rx7"@ && w[5]@ == "rx6"@ && w[6]@ == "vega"@ && w[7]@ == "navi"@ && w[8]@ == "rdna"@);
}

/// A sensor is one of an AMD GPU for a quantity exactly where its identifier, in lower
/// case, holds "/gpu" and the quantity, and its hardware name, in lower case, one of the
/// words of AMD.
pub proof fn law_amd_sensor(s: SensorSnapshot, quantity: Seq<char>)
    ensures
        amd_gpu_sensor(quantity)(s) <==> occurs_in("/gpu"@, lowercase(s.identifier@)) && occurs_in(
            quantity,
            lowercase(s.identifier@),
        ) && holds_any(amd_words(), lowercase(s.hardware_name@)),
{
    law_amd_hardware(lowercase(s.hardware_name@));
}

/// A sensor shows the temperature of a CPU package exactly where its identifier, in lower
/// case, holds "/cpu" and "/temperature", its name, in lower case, holds one of four words
/// or is "core max", and its value lies strictly between 0 and 150.
pub proof fn law_cpu_sensor(s: SensorSnapshot)
    ensures
        ({
            let id = lowercase(s.identifier@);
            let name = lowercase(s.name@);
            cpu_package_sensor()(s) <==> occurs_in("/cpu"@, id) && occurs_in("/temperature"@, id)
                && (name == "core max"@ || holds_any(
                seq!["package", "cpu composite", "tdie", "tctl"],
                name,
            )) && !s.value.nan() && 0 < s.value.scaled() < 150 * pow2(149)
        }),
{
    let w = seq!["package", "cpu composite", "tdie", "tctl"];
    assert(w[0]@ == "package"@ && w[1]@ == "cpu composite"@ && w[2]@ == "tdie"@ && w[3]@
        == "tctl"@);
}

/// The temperature of the AMD GPU at a position is that of the AMD temperature sensor that
/// has as many such sensors before it, where it lies strictly between 0 and 150; and none
/// where it does not, or where there are too few such sensors.
pub proof fn law_amd_temperature(sensors: Seq<SensorSnapshot>, k: int, p: int)
    ensures
        ({
            let kept = sensors.filter(amd_gpu_sensor("/temperature"@));
            &&& p >= kept.len() ==> amd_temperature_of(sensors, p) is None
            &&& 0 <= k < sensors.len() && amd_gpu_sensor("/temperature"@)(sensors[k]) && p
                == sensors.take(k).filter(amd_gpu_sensor("/temperature"@)).len() ==> {
                let v = sensors[k].value;
                if !v.nan() && 0 < v.scaled() < 150 * pow2(149) {
                    amd_temperature_of(sensors, p) == Some(v)
                } else {
                    amd_temperature_of(sensors, p) is None
                }
            }
        }),
{
    if 0 <= k < sensors.len() && amd_gpu_sensor("/temperature"@)(sensors[k]) {
        law_kept_in_order(sensors, amd_gpu_sensor("/temperature"@), k);
    }
}

/// The fan speed of the AMD GPU at a position is the whole part of the value of the AMD
/// fan sensor that has as many such sensors before it, where that lies in 0 to 100; and
/// none where it does not, or where there are too few such sensors.
pub proof fn law_amd_fan(sensors: Seq<SensorSnapshot>, k: int, p: int)
    ensures
        ({
            let kept = sensors.filter(amd_gpu_sensor("/fan"@));
            &&& p >= kept.len() ==> amd_fan_of(sensors, p) is None
            &&& 0 <= k < sensors.len() && amd_gpu_sensor("/fan"@)(sensors[k]) && p == sensors.take(
                k,
            ).filter(amd_gpu_sensor("/fan"@)).len() ==> {
                let v = sensors[k].value;
                if !v.nan() && 0 <= v.scaled() <= 100 * pow2(149) {
                    amd_fan_of(sensors, p) matches Some(w) && w * pow2(149) <= v.scaled() < (w + 1)
                        * pow2(149)
                } else {
                    amd_fan_of(sensors, p) is None
                }
            }
        }),
{
    if 0 <= k < sensors.len() && amd_gpu_sensor("/fan"@)(sensors[k]) {
        law_kept_in_order(sensors, amd_gpu_sensor("/fan"@), k);
        let v = sensors[k].value;
        law_whole_part_bounds(v);
        lemma_pow2_pos(149);
        assert(100 * pow2(149) < 0x1_0000_0000 * pow2(149)) by (nonlinear_arith)
            requires
                pow2(149) > 0,
        ;
    }
}

/// The temperature of the CPU package is that of the first sensor that shows one, and none
/// where no sensor does.
pub proof fn law_cpu_temperature(sensors: Seq<SensorSnapshot>, k: int)
    ensures
        0 <= k < sensors.len() && cpu_package_sensor()(sensors[k]) && (forall|i: int|
            0 <= i < k ==> !cpu_package_sensor()(#[trigger] sensors[i])) ==> cpu_temperature_of(
            sensors,
        ) == Some(sensors[k].value),
        (forall|i: int|
            0 <= i < sensors.len() ==> !cpu_package_sensor()(#[trigger] sensors[i]))
            ==> cpu_temperature_of(sensors) is None,
{
    let keep = cpu_package_sensor();
    if 0 <= k < sensors.len() && keep(sensors[k]) && (forall|i: int|
        0 <= i < k ==> !cpu_package_sensor()(#[trigger] sensors[i])) {
        law_kept_in_order(sensors, keep, k);
        lemma_none_kept(sensors.take(k), keep);
    }
    if forall|i: int| 0 <= i < sensors.len() ==> !cpu_package_sensor()(#[trigger] sensors[i]) {
        lemma_none_kept(sensors, keep);
    }
}

/// The content of a reading is that of each of its parts, and that of several readings
/// that of each in its place.
pub proof fn law_sensor_contents(s: SensorSnapshot, all: Seq<SensorSnapshot>, i: int)
    ensures
        s@.name == s.name@,
        s@.identifier == s.identifier@,
        s@.sensor_type == s.sensor_type@,
        s@.hardware_name == s.hardware_name@,
        s@.value == s.value,
        views(all).len() == all.len(),
        0 <= i < all.len() ==> views(all)[i] == all[i]@,
{
}

/// Readings behind references are those referred to, in their order.
pub proof fn law_behind(all: Seq<&SensorSnapshot>, i: int)
    ensures
        behind(all).len() == all.len(),
        0 <= i < all.len() ==> behind(all)[i] == *all[i],
{
}

/// A search compares the lowercase forms of identifiers as wholes.
pub proof fn law_search_is_for_the_whole(s: SensorSnapshot, id: Seq<char>)
    ensures
        with_id(id)(s) <==> lowercase(s.identifier@) == lowercase(id),
{
}

} // verus!
