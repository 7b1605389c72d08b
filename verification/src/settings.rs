//! The fan speeds that outlive a run of the program.

use vstd::prelude::*;
use crate::fan_bank::{lists, speeds_of};

verus! {

/// The settings of the program.
#[derive(Clone, Debug)]
pub struct AppSettings {
    pub fan_overrides: Vec<FanOverrideSetting>,
    pub amd_fan_overrides: Vec<AmdFanOverrideSetting>,
}

/// The speed in percent asked for on an NVIDIA GPU.
#[derive(Clone, Copy, Debug, PartialEq, Eq)]
pub struct FanOverrideSetting {
    pub gpu_index: u32,
    pub speed: u32,
}

/// The speed in percent asked for on an AMD GPU.
#[derive(Clone, Copy, Debug, PartialEq, Eq)]
pub struct AmdFanOverrideSetting {
    pub gpu_position: usize,
    pub speed: u32,
}

impl AppSettings {
    /// The entries for NVIDIA GPUs.
    pub open spec fn nvidia_entries(self) -> Seq<(u32, u32)> {
        self.fan_overrides@.map_values(|s: FanOverrideSetting| (s.gpu_index, s.speed))
    }

    /// The entries for AMD GPUs.
    pub open spec fn amd_entries(self) -> Seq<(usize, u32)> {
        self.amd_fan_overrides@.map_values(|s: AmdFanOverrideSetting| (s.gpu_position, s.speed))
    }

    /// The speeds for NVIDIA GPUs; of two entries for one GPU the later counts.
    pub open spec fn nvidia_speeds(self) -> Map<u32, u32> {
        speeds_of(self.nvidia_entries())
    }

    /// The speeds for AMD GPUs; of two entries for one GPU the later counts.
    pub open spec fn amd_speeds(self) -> Map<usize, u32> {
        speeds_of(self.amd_entries())
    }

    /// Whether the settings hold these speeds, each GPU once.
    pub open spec fn hold(self, nvidia: Map<u32, u32>, amd: Map<usize, u32>) -> bool {
        lists(self.nvidia_entries(), nvidia) && lists(self.amd_entries(), amd)
    }

    /// The settings with these entries.
    pub fn from_entries(nvidia: &[(u32, u32)], amd: &[(usize, u32)]) -> (settings: Self)
        ensures
            settings.nvidia_entries() == nvidia@,
            settings.amd_entries() == amd@,
    {
        let mut fan_overrides: Vec<FanOverrideSetting> = Vec::new();
        let mut i: usize = 0;
        while i < nvidia.len()
            invariant
                i <= nvidia.len(),
                fan_overrides@.len() == i,
                forall|j: int|
                    0 <= j < i ==> (#[trigger] fan_overrides@[j]) == (FanOverrideSetting {
                        gpu_index: nvidia@[j].0,
                        speed: nvidia@[j].1,
                    }),
            decreases nvidia.len() - i,
        {
            let (gpu_index, speed) = nvidia[i];
            fan_overrides.push(FanOverrideSetting { gpu_index, speed });
            i += 1;
        }
        let mut amd_fan_overrides: Vec<AmdFanOverrideSetting> = Vec::new();
        let mut k: usize = 0;
        while k < amd.len()
            invariant
                k <= amd.len(),
                amd_fan_overrides@.len() == k,
                forall|j: int|
                    0 <= j < k ==> (#[trigger] amd_fan_overrides@[j]) == (AmdFanOverrideSetting {
                        gpu_position: amd@[j].0,
                        speed: amd@[j].1,
                    }),
            decreases amd.len() - k,
        {
            let (gpu_position, speed) = amd[k];
            amd_fan_overrides.push(AmdFanOverrideSetting { gpu_position, speed });
            k += 1;
        }
        let settings = AppSettings { fan_overrides, amd_fan_overrides };
        assert(settings.nvidia_entries() =~= nvidia@);
        assert(settings.amd_entries() =~= amd@);
        settings
    }

    /// The entries for NVIDIA GPUs as pairs.
    pub fn nvidia_pairs(&self) -> (pairs: Vec<(u32, u32)>)
        ensures
            pairs@ == self.nvidia_entries(),
    {
        let mut pairs: Vec<(u32, u32)> = Vec::new();
        let mut i: usize = 0;
        while i < self.fan_overrides.len()
            invariant
                i <= self.fan_overrides@.len(),
                pairs@ == self.nvidia_entries().take(i as int),
            decreases self.fan_overrides.len() - i,
        {
            pairs.push((self.fan_overrides[i].gpu_index, self.fan_overrides[i].speed));
            assert(pairs@ =~= self.nvidia_entries().take(i + 1));
            i += 1;
        }
        assert(pairs@ =~= self.nvidia_entries());
        pairs
    }

    /// The entries for AMD GPUs as pairs.
    pub fn amd_pairs(&self) -> (pairs: Vec<(usize, u32)>)
        ensures
            pairs@ == self.amd_entries(),
    {
        let mut pairs: Vec<(usize, u32)> = Vec::new();
        let mut i: usize = 0;
        while i < self.amd_fan_overrides.len()
            invariant
                i <= self.amd_fan_overrides@.len(),
                pairs@ == self.amd_entries().take(i as int),
            decreases self.amd_fan_overrides.len() - i,
        {
            pairs.push((self.amd_fan_overrides[i].gpu_position, self.amd_fan_overrides[i].speed));
            assert(pairs@ =~= self.amd_entries().take(i + 1));
            i += 1;
        }
        assert(pairs@ =~= self.amd_entries());
        pairs
    }
}

impl Default for AppSettings {
    fn default() -> (settings: Self)
        ensures
            settings.fan_overrides@.len() == 0,
            settings.amd_fan_overrides@.len() == 0,
    {
        AppSettings { fan_overrides: Vec::new(), amd_fan_overrides: Vec::new() }
    }
}

} // verus!
