//! What the gauge shows, and how it comes out of raw readings.

use vstd::prelude::*;
use crate::components::{
    cpu_component, first_temperature, gpu_component, query_amd_temp_from_components,
    query_cpu_temp_from_components, ComponentReading,
};
use crate::sensors::{
    amd_fan, amd_fan_of, amd_temperature, amd_temperature_of, cpu_temperature, cpu_temperature_of,
    SensorSnapshot,
};
use crate::single::Single;
use crate::text::decimal_text;
use crate::wmi::Utilization;

verus! {

/// Everything that the gauge shows.
#[derive(Debug)]
pub struct SystemMetrics {
    pub nvidia_gpus: Vec<NvidiaGpuMetrics>,
    pub amd_gpus: Vec<AmdGpuMetrics>,
    pub cpu: CpuMetrics,
}

/// What the gauge shows of an NVIDIA GPU.
#[derive(Debug)]
pub struct NvidiaGpuMetrics {
    pub index: u32,
    pub name: String,
    pub temperature: Option<u32>,
    pub utilization_gpu: Option<u32>,
    pub utilization_mem: Option<u32>,
    pub fan_speed: Option<u32>,
    pub vram_used_mb: Option<u64>,
    pub vram_total_mb: Option<u64>,
    pub fan_control_available: bool,
    pub safety_override_active: bool,
    pub fan_override: Option<u32>,
    pub cooldown_secs: Option<u32>,
}

/// The mathematical content of [`NvidiaGpuMetrics`].
#[verifier::ext_equal]
pub struct NvidiaView {
    pub index: u32,
    pub name: Seq<char>,
    pub temperature: Option<u32>,
    pub utilization_gpu: Option<u32>,
    pub utilization_mem: Option<u32>,
    pub fan_speed: Option<u32>,
    pub vram_used_mb: Option<u64>,
    pub vram_total_mb: Option<u64>,
    pub fan_control_available: bool,
    pub safety_override_active: bool,
    pub fan_override: Option<u32>,
    pub cooldown_secs: Option<u32>,
}

impl View for NvidiaGpuMetrics {
    type V = NvidiaView;

    open spec fn view(&self) -> NvidiaView {
        NvidiaView {
            index: self.index,
            name: self.name@,
            temperature: self.temperature,
            utilization_gpu: self.utilization_gpu,
            utilization_mem: self.utilization_mem,
            fan_speed: self.fan_speed,
            vram_used_mb: self.vram_used_mb,
            vram_total_mb: self.vram_total_mb,
            fan_control_available: self.fan_control_available,
            safety_override_active: self.safety_override_active,
            fan_override: self.fan_override,
            cooldown_secs: self.cooldown_secs,
        }
    }
}

/// The contents of a sequence of NVIDIA GPUs.
pub open spec fn nvidia_views(gpus: Seq<NvidiaGpuMetrics>) -> Seq<NvidiaView> {
    gpus.map_values(|g: NvidiaGpuMetrics| g@)
}

/// What the gauge shows of an AMD GPU.
#[derive(Debug)]
pub struct AmdGpuMetrics {
    pub index: usize,
    pub name: String,
    pub vram_mb: Option<u64>,
    pub utilization_3d: Option<Utilization>,
    pub temperature: Option<Single>,
    pub fan_speed: Option<u32>,
    pub fan_control_available: bool,
    pub safety_override_active: bool,
    pub fan_override: Option<u32>,
    pub cooldown_secs: Option<u32>,
}

/// The mathematical content of [`AmdGpuMetrics`].
#[verifier::ext_equal]
pub struct AmdView {
    pub index: usize,
    pub name: Seq<char>,
    pub vram_mb: Option<u64>,
    pub utilization_3d: Option<Utilization>,
    pub temperature: Option<Single>,
    pub fan_speed: Option<u32>,
    pub fan_control_available: bool,
    pub safety_override_active: bool,
    pub fan_override: Option<u32>,
    pub cooldown_secs: Option<u32>,
}

impl View for AmdGpuMetrics {
    type V = AmdView;

    open spec fn view(&self) -> AmdView {
        AmdView {
            index: self.index,
            name: self.name@,
            vram_mb: self.vram_mb,
            utilization_3d: self.utilization_3d,
            temperature: self.temperature,
            fan_speed: self.fan_speed,
            fan_control_available: self.fan_control_available,
            safety_override_active: self.safety_override_active,
            fan_override: self.fan_override,
            cooldown_secs: self.cooldown_secs,
        }
    }
}

/// The contents of a sequence of AMD GPUs.
pub open spec fn amd_views(gpus: Seq<AmdGpuMetrics>) -> Seq<AmdView> {
    gpus.map_values(|g: AmdGpuMetrics| g@)
}

/// What the gauge shows of the CPU.
#[derive(Debug)]
pub struct CpuMetrics {
    pub name: String,
    pub overall_usage: Single,
    pub core_usages: Vec<Single>,
    pub package_temp: Option<Single>,
}

/// What the driver said of an NVIDIA GPU, as far as it said anything.
pub struct NvidiaReading {
    pub name: Option<String>,
    pub temperature: Option<u32>,
    pub utilization_gpu: Option<u32>,
    pub utilization_mem: Option<u32>,
    pub fan_speed: Option<u32>,
    pub memory_used: Option<u64>,
    pub memory_total: Option<u64>,
}

/// What the display library said of an AMD GPU, as far as it said anything.
#[derive(Clone, Copy, Debug, PartialEq, Eq, Structural)]
pub struct AdlReading {
    pub temperature: Option<Single>,
    pub fan_speed: Option<u32>,
}

/// Where the readings of AMD GPUs come from: the sensors of a running
/// LibreHardwareMonitor, the display library by position, the components of the
/// operating system, its thermal zones and its load counters.
pub struct AmdSources<'a> {
    pub lhm: Option<&'a [SensorSnapshot]>,
    pub adl: &'a [AdlReading],
    pub components: &'a [ComponentReading],
    pub thermal: Option<Single>,
    pub utilization_3d: Option<Utilization>,
}

/// What the operating system said of the CPU.
pub struct CpuReading<'a> {
    pub brand: Option<String>,
    pub overall_usage: Single,
    pub core_usages: &'a [Single],
}

/// The first of two values that is there.
pub open spec fn either<T>(first: Option<T>, second: Option<T>) -> Option<T> {
    match first {
        Some(_) => first,
        None => second,
    }
}

/// A number of bytes in whole mebibytes.
pub open spec fn mebibytes(bytes: Option<u64>) -> Option<u64> {
    match bytes {
        Some(b) => Some(b / 0x10_0000),
        None => None,
    }
}

/// A number of bytes in whole mebibytes.
pub(crate) fn to_mebibytes(bytes: Option<u64>) -> (mb: Option<u64>)
    ensures
        mb == mebibytes(bytes),
{
    match bytes {
        Some(b) => Some(b / 0x10_0000),
        None => None,
    }
}

/// The name shown for the NVIDIA GPU at `index`.
pub open spec fn nvidia_name(name: Option<String>, index: int) -> Seq<char> {
    match name {
        Some(n) => n@,
        None => "NVIDIA GPU "@ + decimal_text(index as nat),
    }
}

impl<'a> AmdSources<'a> {
    /// The temperature by the sensors of a running LibreHardwareMonitor.
    pub open spec fn lhm_temperature(self, position: int) -> Option<Single> {
        match self.lhm {
            Some(sensors) => amd_temperature_of(sensors@, position),
            None => None,
        }
    }

    /// The fan speed by the sensors of a running LibreHardwareMonitor.
    pub open spec fn lhm_fan(self, position: int) -> Option<u32> {
        match self.lhm {
            Some(sensors) => amd_fan_of(sensors@, position),
            None => None,
        }
    }

    /// What the display library said of the GPU at `position`.
    pub open spec fn adl_at(self, position: int) -> AdlReading {
        if 0 <= position < self.adl@.len() {
            self.adl@[position]
        } else {
            AdlReading { temperature: None, fan_speed: None }
        }
    }

    /// The temperature of the GPU at `position`: by the sensors, else by the display
    /// library, else by the components, else by the thermal zones.
    pub open spec fn temperature_at(self, position: int) -> Option<Single> {
        either(
            self.lhm_temperature(position),
            either(
                self.adl_at(position).temperature,
                either(first_temperature(self.components@, gpu_component()), self.thermal),
            ),
        )
    }

    /// The fan speed of the GPU at `position`: by the display library, else by the
    /// sensors.
    pub open spec fn fan_at(self, position: int) -> Option<u32> {
        either(self.adl_at(position).fan_speed, self.lhm_fan(position))
    }

    /// Whether the temperature of the GPU at `position` can only come from the
    /// thermal zones.
    pub open spec fn lacks_temperature(self, position: int) -> bool {
        &&& self.lhm_temperature(position) is None
        &&& self.adl_at(position).temperature is None
        &&& first_temperature(self.components@, gpu_component()) is None
    }

    fn adl_reading(&self, position: usize) -> (reading: AdlReading)
        ensures
            reading == self.adl_at(position as int),
    {
        if position < self.adl.len() {
            self.adl[position]
        } else {
            AdlReading { temperature: None, fan_speed: None }
        }
    }

    /// The temperature of the GPU at `position`, without the thermal zones.
    fn near_temperature(&self, position: usize) -> (temperature: Option<Single>)
        ensures
            temperature is None <==> self.lacks_temperature(position as int),
            either(temperature, self.thermal) == self.temperature_at(position as int),
    {
        if let Some(sensors) = self.lhm {
            if let Some(t) = amd_temperature(sensors, position) {
                return Some(t);
            }
        }
        if let Some(t) = self.adl_reading(position).temperature {
            return Some(t);
        }
        query_amd_temp_from_components(self.components)
    }

    /// The temperature of the GPU at `position`: by the sensors, else by the display
    /// library, else by the components, else by the thermal zones.
    pub fn temperature(&self, position: usize) -> (temperature: Option<Single>)
        ensures
            temperature == self.temperature_at(position as int),
    {
        match self.near_temperature(position) {
            Some(t) => Some(t),
            None => self.thermal,
        }
    }

    /// The fan speed of the GPU at `position`: by the display library, else by the
    /// sensors.
    pub fn fan_speed(&self, position: usize) -> (speed: Option<u32>)
        ensures
            speed == self.fan_at(position as int),
    {
        match self.adl_reading(position).fan_speed {
            Some(s) => Some(s),
            None => match self.lhm {
                Some(sensors) => amd_fan(sensors, position),
                None => None,
            },
        }
    }

    /// Whether any of the first `gpus` GPUs needs the thermal zones to be asked.
    pub fn needs_thermal(&self, gpus: usize) -> (b: bool)
        ensures
            b == exists|p: int| 0 <= p < gpus && #[trigger] self.lacks_temperature(p),
    {
        let mut p: usize = 0;
        while p < gpus
            invariant
                p <= gpus,
                forall|q: int| 0 <= q < p ==> !#[trigger] self.lacks_temperature(q),
            decreases gpus - p,
        {
            if self.near_temperature(p).is_none() {
                assert(self.lacks_temperature(p as int));
                return true;
            }
            p += 1;
        }
        false
    }
}

/// The temperature of the CPU package: by the sensors, else by the components.
pub open spec fn package_temperature(
    lhm: Option<&[SensorSnapshot]>,
    components: Seq<ComponentReading>,
) -> Option<Single> {
    either(
        match lhm {
            Some(sensors) => cpu_temperature_of(sensors@),
            None => None,
        },
        first_temperature(components, cpu_component()),
    )
}

/// What the gauge shows of the CPU.
pub fn collect_cpu(
    cpu: &CpuReading,
    lhm: Option<&[SensorSnapshot]>,
    components: &[ComponentReading],
) -> (metrics: CpuMetrics)
    ensures
        metrics.name@ == match cpu.brand {
            Some(brand) => brand@,
            None => "CPU"@,
        },
        metrics.overall_usage == cpu.overall_usage,
        metrics.core_usages@ == cpu.core_usages@,
        metrics.package_temp == package_temperature(lhm, components@),
{
    let name = match &cpu.brand {
        Some(brand) => brand.clone(),
        None => "CPU".to_owned(),
    };
    let mut core_usages: Vec<Single> = Vec::new();
    let mut i: usize = 0;
    while i < cpu.core_usages.len()
        invariant
            i <= cpu.core_usages@.len(),
            core_usages@ == cpu.core_usages@.take(i as int),
        decreases cpu.core_usages.len() - i,
    {
        core_usages.push(cpu.core_usages[i]);
        assert(core_usages@ =~= cpu.core_usages@.take(i + 1));
        i += 1;
    }
    assert(core_usages@ =~= cpu.core_usages@);
    let by_sensors = match lhm {
        Some(sensors) => cpu_temperature(sensors),
        None => None,
    };
    let package_temp = match by_sensors {
        Some(t) => Some(t),
        None => query_cpu_temp_from_components(components),
    };
    CpuMetrics { name, overall_usage: cpu.overall_usage, core_usages, package_temp }
}

/// Where the sensors give an AMD GPU a temperature, that is shown, whatever the other
/// sources say; else that of the display library, else that of the components, else that
/// of the thermal zones. The zones are needed only where the first three give none.
pub proof fn law_amd_temperature_sources(sources: AmdSources, p: int)
    requires
        0 <= p,
    ensures
        ({
            let by_sensors = match sources.lhm {
                Some(sensors) => amd_temperature_of(sensors@, p),
                None => None,
            };
            let by_library = if p < sources.adl@.len() {
                sources.adl@[p].temperature
            } else {
                None
            };
            let by_components = first_temperature(sources.components@, gpu_component());
            let shown = sources.temperature_at(p);
            &&& by_sensors is Some ==> shown == by_sensors
            &&& by_sensors is None && by_library is Some ==> shown == by_library
            &&& by_sensors is None && by_library is None && by_components is Some ==> shown
                == by_components
            &&& by_sensors is None && by_library is None && by_components is None ==> shown
                == sources.thermal
            &&& sources.lacks_temperature(p) <==> by_sensors is None && by_library is None
                && by_components is None
        }),
{
}

/// Where the display library gives an AMD GPU a fan speed, that is shown, whatever the
/// sensors say; else that of the sensors.
pub proof fn law_amd_fan_sources(sources: AmdSources, p: int)
    requires
        0 <= p,
    ensures
        ({
            let by_library = if p < sources.adl@.len() {
                sources.adl@[p].fan_speed
            } else {
                None
            };
            &&& by_library is Some ==> sources.fan_at(p) == by_library
            &&& by_library is None && sources.lhm is None ==> sources.fan_at(p) is None
            &&& by_library is None ==> (sources.lhm matches Some(sensors) ==> sources.fan_at(p)
                == amd_fan_of(sensors@, p))
        }),
{
}

/// Where the sensors give the CPU package a temperature, that is shown, whatever the
/// components say; else that of the first component that is a CPU package.
pub proof fn law_package_temperature_sources(
    lhm: Option<&[SensorSnapshot]>,
    components: Seq<ComponentReading>,
)
    ensures
        ({
            let by_sensors = match lhm {
                Some(sensors) => cpu_temperature_of(sensors@),
                None => None,
            };
            &&& by_sensors is Some ==> package_temperature(lhm, components) == by_sensors
            &&& by_sensors is None ==> package_temperature(lhm, components) == first_temperature(
                components,
                cpu_component(),
            )
        }),
{
}

/// A number of bytes is shown in whole mebibytes of 1048576 bytes.
pub proof fn law_mebibytes(bytes: u64)
    ensures
        mebibytes(Some(bytes)) matches Some(mb) && mb * 1048576 <= bytes < (mb + 1) * 1048576,
        mebibytes(None) is None,
{
}

/// A GPU goes by the name that the driver gives, and by one made of its number where the
/// driver gives none.
pub proof fn law_nvidia_name(name: String, index: nat)
    ensures
        nvidia_name(Some(name), index as int) == name@,
        nvidia_name(None, index as int) == "NVIDIA GPU "@ + decimal_text(index),
{
}

/// What is shown of an NVIDIA GPU has the content of each of its parts, and several that of
/// each in its place.
pub proof fn law_nvidia_contents(gpu: NvidiaGpuMetrics, all: Seq<NvidiaGpuMetrics>, i: int)
    ensures
        gpu@.index == gpu.index,
        gpu@.name == gpu.name@,
        gpu@.temperature == gpu.temperature,
        gpu@.utilization_gpu == gpu.utilization_gpu,
        gpu@.utilization_mem == gpu.utilization_mem,
        gpu@.fan_speed == gpu.fan_speed,
        gpu@.vram_used_mb == gpu.vram_used_mb,
        gpu@.vram_total_mb == gpu.vram_total_mb,
        gpu@.fan_control_available == gpu.fan_control_available,
        gpu@.safety_override_active == gpu.safety_override_active,
        gpu@.fan_override == gpu.fan_override,
        gpu@.cooldown_secs == gpu.cooldown_secs,
        nvidia_views(all).len() == all.len(),
        0 <= i < all.len() ==> nvidia_views(all)[i] == all[i]@,
{
}

/// What is shown of an AMD GPU has the content of each of its parts, and several that of
/// each in its place.
pub proof fn law_amd_contents(gpu: AmdGpuMetrics, all: Seq<AmdGpuMetrics>, i: int)
    ensures
        gpu@.index == gpu.index,
        gpu@.name == gpu.name@,
        gpu@.vram_mb == gpu.vram_mb,
        gpu@.utilization_3d == gpu.utilization_3d,
        gpu@.temperature == gpu.temperature,
        gpu@.fan_speed == gpu.fan_speed,
        gpu@.fan_control_available == gpu.fan_control_available,
        gpu@.safety_override_active == gpu.safety_override_active,
        gpu@.fan_override == gpu.fan_override,
        gpu@.cooldown_secs == gpu.cooldown_secs,
        amd_views(all).len() == all.len(),
        0 <= i < all.len() ==> amd_views(all)[i] == all[i]@,
{
}

} // verus!
