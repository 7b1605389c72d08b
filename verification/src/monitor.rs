//! The monitor: the fan state of all GPUs, what it orders tick by tick and on
//! request, and what it shows.

use vstd::prelude::*;
use vstd::std_specs::hash::*;
use vstd::string::StringExecFns;
use crate::fan_bank::{distinct_gpus, lists, BankState, FanBank, FanOrder, GpuSample};
use crate::fan_laws::{law_request_keeps_wf, law_tick_keeps_wf, lemma_temperatures_frame};
use crate::metrics::{
    amd_views, collect_cpu, mebibytes, nvidia_name, nvidia_views, package_temperature,
    to_mebibytes, AmdGpuMetrics, AmdSources, AmdView, CpuReading, NvidiaGpuMetrics, NvidiaReading,
    NvidiaView, SystemMetrics,
};
use crate::sequences::numbers;
use crate::settings::AppSettings;
use crate::text::decimal;
use crate::wmi::VideoController;

verus! {

/// The load in percent up to which a GPU counts as idle.
pub const IDLE_LOAD: u32 = 20;

/// A request to run the fans of a GPU at a speed in percent, or to hand them back.
#[allow(inconsistent_fields)]
#[derive(Clone, Copy, Debug, PartialEq, Eq)]
pub enum FanCommand {
    /// For an NVIDIA GPU, by the index that the driver gives it.
    SetNvidia { index: u32, speed: Option<u32> },
    /// For an AMD GPU, by its position among the AMD GPUs.
    SetAmd { index: usize, speed: Option<u32> },
}

/// The request for an NVIDIA GPU.
pub fn set_fan_speed(index: u32, speed: Option<u32>) -> (command: FanCommand)
    ensures
        command == (FanCommand::SetNvidia { index, speed }),
{
    FanCommand::SetNvidia { index, speed }
}

/// The request for an AMD GPU.
pub fn set_amd_fan_speed(index: usize, speed: Option<u32>) -> (command: FanCommand)
    ensures
        command == (FanCommand::SetAmd { index, speed }),
{
    FanCommand::SetAmd { index, speed }
}

/// Whether the fans of AMD GPUs can be controlled.
#[derive(Clone, Copy, Debug, PartialEq, Eq, Structural)]
pub enum AmdFanSupport {
    /// They can.
    Ready,
    /// They cannot, because the display library is missing or too old.
    Missing,
    /// They cannot on this operating system.
    Unsupported,
}

/// What the program around the monitor has to do.
#[derive(Debug)]
pub enum FanAction {
    /// Carry out an order for an NVIDIA GPU.
    Nvidia(FanOrder<u32>),
    /// Carry out an order for an AMD GPU.
    Amd(FanOrder<usize>),
    /// Save the settings.
    Save(AppSettings),
}

/// The mathematical content of a [`FanAction`].
pub enum ActionView {
    Nvidia(FanOrder<u32>),
    Amd(FanOrder<usize>),
    Save(Map<u32, u32>, Map<usize, u32>),
}

/// Whether an action is the one described. Settings list each GPU once, in no
/// particular order.
pub open spec fn shows(action: FanAction, view: ActionView) -> bool {
    match (action, view) {
        (FanAction::Nvidia(a), ActionView::Nvidia(b)) => a == b,
        (FanAction::Amd(a), ActionView::Amd(b)) => a == b,
        (FanAction::Save(settings), ActionView::Save(nvidia, amd)) => settings.hold(nvidia, amd),
        _ => false,
    }
}

/// Whether actions are those described, one by one.
pub open spec fn actions_show(actions: Seq<FanAction>, views: Seq<ActionView>) -> bool {
    &&& actions.len() == views.len()
    &&& forall|i: int| 0 <= i < actions.len() ==> shows(#[trigger] actions[i], views[i])
}

/// Orders for NVIDIA GPUs as actions.
pub open spec fn nvidia_actions(orders: Seq<FanOrder<u32>>) -> Seq<ActionView> {
    orders.map_values(|o: FanOrder<u32>| ActionView::Nvidia(o))
}

/// Orders for AMD GPUs as actions.
pub open spec fn amd_actions(orders: Seq<FanOrder<usize>>) -> Seq<ActionView> {
    orders.map_values(|o: FanOrder<usize>| ActionView::Amd(o))
}

/// The orders that apply the speeds of a list.
pub open spec fn apply_all<K>(entries: Seq<(K, u32)>) -> Seq<FanOrder<K>> {
    entries.map_values(|e: (K, u32)| FanOrder::Apply { gpu: e.0, speed: e.1 })
}

/// What follows from dropping the overrides of the NVIDIA GPUs `due` one by one: each
/// is handed back to the driver, and the settings are saved.
pub open spec fn nvidia_resets(bank: BankState<u32>, due: Seq<u32>, amd: Map<usize, u32>) -> Seq<
    ActionView,
>
    decreases due.len(),
{
    if due.len() == 0 {
        Seq::empty()
    } else {
        nvidia_resets(bank, due.drop_last(), amd).push(
            ActionView::Nvidia(FanOrder::Auto { gpu: due.last() }),
        ).push(ActionView::Save(bank.released_all(due).overrides, amd))
    }
}

/// What follows from dropping the overrides of the AMD GPUs `due` one by one: each is
/// handed back to the driver, and the settings are saved.
pub open spec fn amd_resets(bank: BankState<usize>, due: Seq<usize>, nvidia: Map<u32, u32>) -> Seq<
    ActionView,
>
    decreases due.len(),
{
    if due.len() == 0 {
        Seq::empty()
    } else {
        amd_resets(bank, due.drop_last(), nvidia).push(
            ActionView::Amd(FanOrder::Auto { gpu: due.last() }),
        ).push(ActionView::Save(nvidia, bank.released_all(due).overrides))
    }
}

/// The mathematical content of a [`Monitor`].
#[verifier::ext_equal]
pub struct MonitorState {
    pub nvidia: BankState<u32>,
    pub amd: BankState<usize>,
    /// Whether the fans of NVIDIA GPUs can be controlled.
    pub nvml_fan: bool,
    /// Whether the fans of AMD GPUs can be controlled.
    pub adl_fan: AmdFanSupport,
}

/// What one tick looks at of an NVIDIA GPU.
pub open spec fn nvidia_sample(gpu: NvidiaView) -> GpuSample<u32> {
    GpuSample {
        gpu: gpu.index,
        temperature: gpu.temperature,
        idle: match gpu.utilization_gpu {
            Some(load) => Some(load <= IDLE_LOAD),
            None => None,
        },
    }
}

/// What one tick looks at of an AMD GPU: its temperature without the fraction, and
/// whether the mean load of the 3D engines is at most 20 percent.
pub open spec fn amd_sample(gpu: AmdView) -> GpuSample<usize> {
    GpuSample {
        gpu: gpu.index,
        temperature: match gpu.temperature {
            Some(t) => Some(t.whole_part()),
            None => None,
        },
        idle: match gpu.utilization_3d {
            Some(load) => Some(load.at_most(IDLE_LOAD as int)),
            None => None,
        },
    }
}

impl MonitorState {
    /// What holds of a monitor between ticks.
    pub open spec fn wf(self) -> bool {
        self.nvidia.wf() && self.amd.wf()
    }

    /// What the gauge shows of the NVIDIA GPU at `i`, where the driver knows it.
    pub open spec fn nvidia_metrics(self, readings: Seq<Option<NvidiaReading>>) -> spec_fn(
        int,
    ) -> Option<NvidiaView> {
        |i: int|
            match readings[i] {
                Some(r) => Some(
                    NvidiaView {
                        index: i as u32,
                        name: nvidia_name(r.name, i),
                        temperature: r.temperature,
                        utilization_gpu: r.utilization_gpu,
                        utilization_mem: r.utilization_mem,
                        fan_speed: r.fan_speed,
                        vram_used_mb: mebibytes(r.memory_used),
                        vram_total_mb: mebibytes(r.memory_total),
                        fan_control_available: self.nvml_fan,
                        safety_override_active: self.nvidia.safety.contains(i as u32),
                        fan_override: self.nvidia.overrides.get(i as u32),
                        cooldown_secs: self.nvidia.cooldown.get(i as u32),
                    },
                ),
                None => None,
            }
    }

    /// What the gauge shows of all NVIDIA GPUs.
    pub open spec fn nvidia_gpus(self, readings: Seq<Option<NvidiaReading>>) -> Seq<NvidiaView> {
        numbers(readings.len()).filter_map(self.nvidia_metrics(readings))
    }

    /// What the gauge shows of the AMD GPU at `position`.
    pub open spec fn amd_metrics(
        self,
        adapters: Seq<VideoController>,
        sources: AmdSources,
        position: int,
    ) -> AmdView {
        AmdView {
            index: position as usize,
            name: adapters[position].name@,
            vram_mb: mebibytes(adapters[position].vram_bytes),
            utilization_3d: sources.utilization_3d,
            temperature: sources.temperature_at(position),
            fan_speed: sources.fan_at(position),
            fan_control_available: self.adl_fan == AmdFanSupport::Ready,
            safety_override_active: self.amd.safety.contains(position as usize),
            fan_override: self.amd.overrides.get(position as usize),
            cooldown_secs: self.amd.cooldown.get(position as usize),
        }
    }

    /// What the gauge shows of all AMD GPUs.
    pub open spec fn amd_gpus(self, adapters: Seq<VideoController>, sources: AmdSources) -> Seq<
        AmdView,
    > {
        Seq::new(adapters.len(), |p: int| self.amd_metrics(adapters, sources, p))
    }

    /// What a tick looks at of the NVIDIA GPUs.
    pub open spec fn nvidia_samples(self, readings: Seq<Option<NvidiaReading>>) -> Seq<
        GpuSample<u32>,
    > {
        self.nvidia_gpus(readings).map_values(|g: NvidiaView| nvidia_sample(g))
    }

    /// What a tick looks at of the AMD GPUs.
    pub open spec fn amd_samples(self, adapters: Seq<VideoController>, sources: AmdSources) -> Seq<
        GpuSample<usize>,
    > {
        self.amd_gpus(adapters, sources).map_values(|g: AmdView| amd_sample(g))
    }

    /// The state after a tick.
    pub open spec fn after_tick(
        self,
        nvidia: Seq<GpuSample<u32>>,
        amd: Seq<GpuSample<usize>>,
    ) -> Self {
        MonitorState {
            nvidia: self.nvidia.after_tick(nvidia),
            amd: self.amd.after_tick(amd),
            ..self
        }
    }

    /// What follows from a tick: the orders for safety, first for NVIDIA and then for
    /// AMD GPUs, and then for each override that ends an order and a save.
    pub open spec fn tick_actions(
        self,
        nvidia: Seq<GpuSample<u32>>,
        amd: Seq<GpuSample<usize>>,
    ) -> Seq<ActionView> {
        let nvidia_warned = self.nvidia.after_temperatures(nvidia);
        let amd_warned = self.amd.after_temperatures(amd);
        nvidia_actions(self.nvidia.temperature_orders(nvidia)) + amd_actions(
            self.amd.temperature_orders(amd),
        ) + nvidia_resets(
            nvidia_warned.after_loads(nvidia),
            nvidia_warned.due(nvidia),
            self.amd.overrides,
        ) + amd_resets(
            amd_warned.after_loads(amd),
            amd_warned.due(amd),
            self.nvidia.after_tick(nvidia).overrides,
        )
    }

    /// Whether a request for an NVIDIA GPU is accepted.
    pub open spec fn accepts_nvidia(self) -> bool {
        self.nvml_fan
    }

    /// Whether a request for an AMD GPU is accepted.
    pub open spec fn accepts_amd(self) -> bool {
        self.adl_fan == AmdFanSupport::Ready
    }

    /// The state after a request for an NVIDIA GPU.
    pub open spec fn after_nvidia_request(self, index: u32, speed: Option<u32>) -> Self {
        if self.accepts_nvidia() {
            MonitorState { nvidia: self.nvidia.after_request(index, speed), ..self }
        } else {
            self
        }
    }

    /// The state after a request for an AMD GPU.
    pub open spec fn after_amd_request(self, position: usize, speed: Option<u32>) -> Self {
        if self.accepts_amd() {
            MonitorState { amd: self.amd.after_request(position, speed), ..self }
        } else {
            self
        }
    }

    /// The save that follows from an accepted request.
    pub open spec fn save(self) -> ActionView {
        ActionView::Save(self.nvidia.overrides, self.amd.overrides)
    }

    /// What follows from an accepted request for an NVIDIA GPU: an order, if any, and a
    /// save.
    pub open spec fn nvidia_request_actions(self, index: u32, speed: Option<u32>) -> Seq<
        ActionView,
    > {
        let save = self.after_nvidia_request(index, speed).save();
        match self.nvidia.request_order(index, speed) {
            Some(order) => seq![ActionView::Nvidia(order), save],
            None => seq![save],
        }
    }

    /// What follows from an accepted request for an AMD GPU: an order, if any, and a
    /// save.
    pub open spec fn amd_request_actions(self, position: usize, speed: Option<u32>) -> Seq<
        ActionView,
    > {
        let save = self.after_amd_request(position, speed).save();
        match self.amd.request_order(position, speed) {
            Some(order) => seq![ActionView::Amd(order), save],
            None => seq![save],
        }
    }

    /// The state after a command.
    pub open spec fn after_command(self, command: FanCommand) -> Self {
        match command {
            FanCommand::SetNvidia { index, speed } => self.after_nvidia_request(index, speed),
            FanCommand::SetAmd { index, speed } => self.after_amd_request(index, speed),
        }
    }

    /// What follows from a command; nothing where it is refused.
    pub open spec fn command_actions(self, command: FanCommand) -> Seq<ActionView> {
        match command {
            FanCommand::SetNvidia { index, speed } => if self.accepts_nvidia() {
                self.nvidia_request_actions(index, speed)
            } else {
                Seq::empty()
            },
            FanCommand::SetAmd { index, speed } => if self.accepts_amd() {
                self.amd_request_actions(index, speed)
            } else {
                Seq::empty()
            },
        }
    }
}

/// The fan state of all GPUs.
pub struct Monitor {
    nvidia: FanBank<u32>,
    amd: FanBank<usize>,
    nvml_fan: bool,
    adl_fan: AmdFanSupport,
}

impl View for Monitor {
    type V = MonitorState;

    closed spec fn view(&self) -> MonitorState {
        MonitorState {
            nvidia: self.nvidia@,
            amd: self.amd@,
            nvml_fan: self.nvml_fan,
            adl_fan: self.adl_fan,
        }
    }
}

/// Why a request for an NVIDIA GPU is refused.
pub open spec fn nvidia_refusal() -> Seq<char> {
    "NVML fan control unavailable (requires NVIDIA driver ≥ 520)"@
}

/// Why a request for an AMD GPU is refused.
pub open spec fn amd_refusal(support: AmdFanSupport) -> Seq<char> {
    if support == AmdFanSupport::Unsupported {
        "AMD fan control only available on Windows"@
    } else {
        "AMD fan control unavailable (atiadlxx.dll not found or OverdriveN unsupported)"@
    }
}

impl Monitor {
    /// Starts from saved settings, and returns the orders that apply their speeds: those
    /// of the NVIDIA GPUs first, each GPU once, in no particular order.
    pub fn new(saved: &AppSettings, nvml_fan: bool, adl_fan: AmdFanSupport) -> (started: (
        Monitor,
        Vec<FanAction>,
    ))
        ensures
            started.0@ == (MonitorState {
                nvidia: BankState::fresh(saved.nvidia_speeds()),
                amd: BankState::fresh(saved.amd_speeds()),
                nvml_fan,
                adl_fan,
            }),
            started.0@.wf(),
            exists|nvidia: Seq<(u32, u32)>, amd: Seq<(usize, u32)>|
                {
                    &&& #[trigger] lists(nvidia, saved.nvidia_speeds())
                    &&& #[trigger] lists(amd, saved.amd_speeds())
                    &&& actions_show(
                        started.1@,
                        nvidia_actions(apply_all(nvidia)) + amd_actions(apply_all(amd)),
                    )
                },
    {
        broadcast use group_hash_axioms;

        let nvidia_pairs = saved.nvidia_pairs();
        let amd_pairs = saved.amd_pairs();
        let monitor = Monitor {
            nvidia: FanBank::restore(&nvidia_pairs),
            amd: FanBank::restore(&amd_pairs),
            nvml_fan,
            adl_fan,
        };
        let mut actions: Vec<FanAction> = Vec::new();
        let nvidia = monitor.nvidia.saved();
        let mut i: usize = 0;
        while i < nvidia.len()
            invariant
                i <= nvidia@.len(),
                actions_show(actions@, nvidia_actions(apply_all(nvidia@)).take(i as int)),
            decreases nvidia.len() - i,
        {
            let (gpu, speed) = nvidia[i];
            actions.push(FanAction::Nvidia(FanOrder::Apply { gpu, speed }));
            i += 1;
        }
        let amd = monitor.amd.saved();
        let ghost all = nvidia_actions(apply_all(nvidia@)) + amd_actions(apply_all(amd@));
        let mut k: usize = 0;
        while k < amd.len()
            invariant
                k <= amd@.len(),
                all == nvidia_actions(apply_all(nvidia@)) + amd_actions(apply_all(amd@)),
                actions_show(actions@, all.take(nvidia@.len() + k)),
            decreases amd.len() - k,
        {
            let (gpu, speed) = amd[k];
            actions.push(FanAction::Amd(FanOrder::Apply { gpu, speed }));
            k += 1;
        }
        assert(all.take(nvidia@.len() + k) =~= all);
        assert(lists(nvidia@, saved.nvidia_speeds()));
        assert(lists(amd@, saved.amd_speeds()));
        (monitor, actions)
    }

    /// The settings to save, in which each GPU stands once.
    pub fn settings(&self) -> (settings: AppSettings)
        ensures
            settings.hold(self@.nvidia.overrides, self@.amd.overrides),
    {
        broadcast use group_hash_axioms;

        let nvidia = self.nvidia.saved();
        let amd = self.amd.saved();
        AppSettings::from_entries(&nvidia, &amd)
    }

    /// What the gauge shows of the NVIDIA GPUs, which the driver numbers from zero and
    /// of which `readings` holds what it said, or nothing where it does not know one.
    pub fn collect_nvidia(&self, readings: &[Option<NvidiaReading>]) -> (gpus: Vec<
        NvidiaGpuMetrics,
    >)
        requires
            readings@.len() <= u32::MAX,
        ensures
            nvidia_views(gpus@) == self@.nvidia_gpus(readings@),
    {
        broadcast use group_hash_axioms;

        let ghost f = self@.nvidia_metrics(readings@);
        let mut gpus: Vec<NvidiaGpuMetrics> = Vec::new();
        let mut i: usize = 0;
        assert(nvidia_views(gpus@) =~= numbers(0).filter_map(f));
        while i < readings.len()
            invariant
                i <= readings@.len() <= u32::MAX,
                f == self@.nvidia_metrics(readings@),
                nvidia_views(gpus@) == numbers(i as nat).filter_map(f),
            decreases readings.len() - i,
        {
            let ghost done = gpus@;
            assert(numbers((i + 1) as nat).drop_last() =~= numbers(i as nat));
            if let Some(r) = &readings[i] {
                let index: u32 = i as u32;
                let name = match &r.name {
                    Some(name) => name.clone(),
                    None => {
                        let mut name = "NVIDIA GPU ".to_owned();
                        name.append(decimal(index).as_str());
                        name
                    },
                };
                let gpu = NvidiaGpuMetrics {
                    index,
                    name,
                    temperature: r.temperature,
                    utilization_gpu: r.utilization_gpu,
                    utilization_mem: r.utilization_mem,
                    fan_speed: r.fan_speed,
                    vram_used_mb: to_mebibytes(r.memory_used),
                    vram_total_mb: to_mebibytes(r.memory_total),
                    fan_control_available: self.nvml_fan,
                    safety_override_active: self.nvidia.in_safety(index),
                    fan_override: self.nvidia.override_of(index),
                    cooldown_secs: self.nvidia.cooldown_of(index),
                };
                gpus.push(gpu);
                assert(nvidia_views(gpus@) =~= nvidia_views(done).push(gpu@));
            }
            i += 1;
        }
        gpus
    }

    /// What the gauge shows of the AMD GPUs.
    pub fn collect_amd(&self, adapters: &[VideoController], sources: &AmdSources) -> (gpus: Vec<
        AmdGpuMetrics,
    >)
        ensures
            amd_views(gpus@) == self@.amd_gpus(adapters@, *sources),
    {
        broadcast use group_hash_axioms;

        let ghost all = self@.amd_gpus(adapters@, *sources);
        let mut gpus: Vec<AmdGpuMetrics> = Vec::new();
        let mut p: usize = 0;
        while p < adapters.len()
            invariant
                p <= adapters@.len(),
                all == self@.amd_gpus(adapters@, *sources),
                amd_views(gpus@) == all.take(p as int),
            decreases adapters.len() - p,
        {
            let ghost done = gpus@;
            let gpu = AmdGpuMetrics {
                index: p,
                name: adapters[p].name.clone(),
                vram_mb: to_mebibytes(adapters[p].vram_bytes),
                utilization_3d: sources.utilization_3d,
                temperature: sources.temperature(p),
                fan_speed: sources.fan_speed(p),
                fan_control_available: self.adl_fan == AmdFanSupport::Ready,
                safety_override_active: self.amd.in_safety(p),
                fan_override: self.amd.override_of(p),
                cooldown_secs: self.amd.cooldown_of(p),
            };
            gpus.push(gpu);
            assert(amd_views(gpus@) =~= amd_views(done).push(gpu@));
            assert(amd_views(gpus@) =~= all.take(p + 1));
            p += 1;
        }
        assert(all.take(p as int) =~= all);
        gpus
    }

    /// Runs one tick on what is known of all GPUs, and returns what follows from it:
    /// hot GPUs go to full speed, cooled ones back to what their owner asked for, and
    /// overrides of GPUs that were idle for thirty ticks end.
    pub fn collect(
        &mut self,
        readings: &[Option<NvidiaReading>],
        adapters: &[VideoController],
        sources: &AmdSources,
    ) -> (actions: Vec<FanAction>)
        requires
            old(self)@.wf(),
            readings@.len() <= u32::MAX,
        ensures
            final(self)@.wf(),
            final(self)@ == old(self)@.after_tick(
                old(self)@.nvidia_samples(readings@),
                old(self)@.amd_samples(adapters@, *sources),
            ),
            actions_show(
                actions@,
                old(self)@.tick_actions(
                    old(self)@.nvidia_samples(readings@),
                    old(self)@.amd_samples(adapters@, *sources),
                ),
            ),
    {
        broadcast use group_hash_axioms;

        let ghost start = self@;
        let nvidia_gpus = self.collect_nvidia(readings);
        let amd_gpus = self.collect_amd(adapters, sources);
        let nvidia = sample_nvidia(&nvidia_gpus);
        let amd = sample_amd(&amd_gpus);
        proof {
            lemma_nvidia_distinct(start, readings@);
            lemma_amd_distinct(start, adapters@, *sources);
            assert(nvidia@ =~= start.nvidia_samples(readings@));
            assert(amd@ =~= start.amd_samples(adapters@, *sources));
            law_tick_keeps_wf(start.nvidia, nvidia@);
            law_tick_keeps_wf(start.amd, amd@);
            lemma_temperatures_frame(start.nvidia, nvidia@);
            lemma_temperatures_frame(start.amd, amd@);
        }
        let nvidia_orders = self.nvidia.see_temperatures(&nvidia);
        let amd_orders = self.amd.see_temperatures(&amd);
        let mut actions = order_actions(nvidia_orders, amd_orders);

        let nvidia_due = self.nvidia.see_loads(&nvidia);
        let mut nvidia_ends = self.end_nvidia_overrides(&nvidia_due);
        let amd_due = self.amd.see_loads(&amd);
        let mut amd_ends = self.end_amd_overrides(&amd_due);
        actions.append(&mut nvidia_ends);
        actions.append(&mut amd_ends);
        actions
    }

    /// Drops the overrides of the NVIDIA GPUs `due`, and returns what follows.
    fn end_nvidia_overrides(&mut self, due: &[u32]) -> (actions: Vec<FanAction>)
        ensures
            final(self)@ == (MonitorState {
                nvidia: old(self)@.nvidia.released_all(due@),
                ..old(self)@
            }),
            actions_show(
                actions@,
                nvidia_resets(old(self)@.nvidia, due@, old(self)@.amd.overrides),
            ),
    {
        broadcast use group_hash_axioms;

        let ghost start = self@;
        let mut actions: Vec<FanAction> = Vec::new();
        let mut i: usize = 0;
        while i < due.len()
            invariant
                i <= due@.len(),
                self@ == (MonitorState {
                    nvidia: start.nvidia.released_all(due@.take(i as int)),
                    ..start
                }),
                actions_show(
                    actions@,
                    nvidia_resets(start.nvidia, due@.take(i as int), start.amd.overrides),
                ),
            decreases due.len() - i,
        {
            assert(due@.take(i + 1).drop_last() =~= due@.take(i as int));
            self.nvidia.release(due[i]);
            actions.push(FanAction::Nvidia(FanOrder::Auto { gpu: due[i] }));
            actions.push(FanAction::Save(self.settings()));
            i += 1;
        }
        assert(due@.take(i as int) =~= due@);
        actions
    }

    /// Drops the overrides of the AMD GPUs `due`, and returns what follows.
    fn end_amd_overrides(&mut self, due: &[usize]) -> (actions: Vec<FanAction>)
        ensures
            final(self)@ == (MonitorState {
                amd: old(self)@.amd.released_all(due@),
                ..old(self)@
            }),
            actions_show(
                actions@,
                amd_resets(old(self)@.amd, due@, old(self)@.nvidia.overrides),
            ),
    {
        broadcast use group_hash_axioms;

        let ghost start = self@;
        let mut actions: Vec<FanAction> = Vec::new();
        let mut i: usize = 0;
        while i < due.len()
            invariant
                i <= due@.len(),
                self@ == (MonitorState {
                    amd: start.amd.released_all(due@.take(i as int)),
                    ..start
                }),
                actions_show(
                    actions@,
                    amd_resets(start.amd, due@.take(i as int), start.nvidia.overrides),
                ),
            decreases due.len() - i,
        {
            assert(due@.take(i + 1).drop_last() =~= due@.take(i as int));
            self.amd.release(due[i]);
            actions.push(FanAction::Amd(FanOrder::Auto { gpu: due[i] }));
            actions.push(FanAction::Save(self.settings()));
            i += 1;
        }
        assert(due@.take(i as int) =~= due@);
        actions
    }

    /// What the gauge shows after a tick.
    pub fn report(
        &self,
        readings: &[Option<NvidiaReading>],
        adapters: &[VideoController],
        sources: &AmdSources,
        cpu: &CpuReading,
    ) -> (metrics: SystemMetrics)
        requires
            readings@.len() <= u32::MAX,
        ensures
            nvidia_views(metrics.nvidia_gpus@) == self@.nvidia_gpus(readings@),
            amd_views(metrics.amd_gpus@) == self@.amd_gpus(adapters@, *sources),
            metrics.cpu.name@ == match cpu.brand {
                Some(brand) => brand@,
                None => "CPU"@,
            },
            metrics.cpu.overall_usage == cpu.overall_usage,
            metrics.cpu.core_usages@ == cpu.core_usages@,
            metrics.cpu.package_temp == package_temperature(sources.lhm, sources.components@),
    {
        SystemMetrics {
            nvidia_gpus: self.collect_nvidia(readings),
            amd_gpus: self.collect_amd(adapters, sources),
            cpu: collect_cpu(cpu, sources.lhm, sources.components),
        }
    }

    /// Carries out a command, and returns what follows; a command that is refused does
    /// nothing.
    pub fn handle_fan_command(&mut self, command: FanCommand) -> (actions: Vec<FanAction>)
        requires
            old(self)@.wf(),
        ensures
            final(self)@.wf(),
            final(self)@ == old(self)@.after_command(command),
            actions_show(actions@, old(self)@.command_actions(command)),
    {
        let result = match command {
            FanCommand::SetNvidia { index, speed } => self.set_fan_override(index, speed),
            FanCommand::SetAmd { index, speed } => self.set_amd_fan_override(index, speed),
        };
        match result {
            Ok(actions) => actions,
            Err(_) => Vec::new(),
        }
    }

    /// Carries out a request for `speed` percent on an NVIDIA GPU, where `None` asks for
    /// automatic control, and returns what follows.
    pub fn set_fan_override(&mut self, index: u32, speed: Option<u32>) -> (result: Result<
        Vec<FanAction>,
        String,
    >)
        requires
            old(self)@.wf(),
        ensures
            final(self)@.wf(),
            final(self)@ == old(self)@.after_nvidia_request(index, speed),
            match result {
                Ok(actions) => old(self)@.accepts_nvidia() && actions_show(
                    actions@,
                    old(self)@.nvidia_request_actions(index, speed),
                ),
                Err(message) => !old(self)@.accepts_nvidia() && message@ == nvidia_refusal(),
            },
    {
        broadcast use group_hash_axioms;

        if !self.nvml_fan {
            return Err("NVML fan control unavailable (requires NVIDIA driver ≥ 520)".to_owned());
        }
        proof {
            law_request_keeps_wf(self@.nvidia, index, speed);
        }
        let mut actions: Vec<FanAction> = Vec::new();
        if let Some(order) = self.nvidia.request(index, speed) {
            actions.push(FanAction::Nvidia(order));
        }
        actions.push(FanAction::Save(self.settings()));
        Ok(actions)
    }

    /// Carries out a request for `speed` percent on an AMD GPU, where `None` asks for
    /// automatic control, and returns what follows.
    pub fn set_amd_fan_override(&mut self, position: usize, speed: Option<u32>) -> (result: Result<
        Vec<FanAction>,
        String,
    >)
        requires
            old(self)@.wf(),
        ensures
            final(self)@.wf(),
            final(self)@ == old(self)@.after_amd_request(position, speed),
            match result {
                Ok(actions) => old(self)@.accepts_amd() && actions_show(
                    actions@,
                    old(self)@.amd_request_actions(position, speed),
                ),
                Err(message) => !old(self)@.accepts_amd() && message@ == amd_refusal(
                    old(self)@.adl_fan,
                ),
            },
    {
        broadcast use group_hash_axioms;

        match self.adl_fan {
            AmdFanSupport::Unsupported => {
                return Err("AMD fan control only available on Windows".to_owned());
            },
            AmdFanSupport::Missing => {
                return Err(
                    "AMD fan control unavailable (atiadlxx.dll not found or OverdriveN unsupported)".to_owned(),
                );
            },
            AmdFanSupport::Ready => {},
        }
        proof {
            law_request_keeps_wf(self@.amd, position, speed);
        }
        let mut actions: Vec<FanAction> = Vec::new();
        if let Some(order) = self.amd.request(position, speed) {
            actions.push(FanAction::Amd(order));
        }
        actions.push(FanAction::Save(self.settings()));
        Ok(actions)
    }
}

/// What a tick looks at of NVIDIA GPUs.
fn sample_nvidia(gpus: &[NvidiaGpuMetrics]) -> (samples: Vec<GpuSample<u32>>)
    ensures
        samples@ == nvidia_views(gpus@).map_values(|g: NvidiaView| nvidia_sample(g)),
{
    let mut samples: Vec<GpuSample<u32>> = Vec::new();
    let mut i: usize = 0;
    while i < gpus.len()
        invariant
            i <= gpus@.len(),
            samples@.len() == i,
            forall|j: int| 0 <= j < i ==> #[trigger] samples@[j] == nvidia_sample(gpus@[j]@),
        decreases gpus.len() - i,
    {
        let idle = match gpus[i].utilization_gpu {
            Some(load) => Some(load <= IDLE_LOAD),
            None => None,
        };
        samples.push(GpuSample { gpu: gpus[i].index, temperature: gpus[i].temperature, idle });
        i += 1;
    }
    assert(samples@ =~= nvidia_views(gpus@).map_values(|g: NvidiaView| nvidia_sample(g)));
    samples
}

/// What a tick looks at of AMD GPUs.
fn sample_amd(gpus: &[AmdGpuMetrics]) -> (samples: Vec<GpuSample<usize>>)
    ensures
        samples@ == amd_views(gpus@).map_values(|g: AmdView| amd_sample(g)),
{
    let mut samples: Vec<GpuSample<usize>> = Vec::new();
    let mut i: usize = 0;
    while i < gpus.len()
        invariant
            i <= gpus@.len(),
            samples@.len() == i,
            forall|j: int| 0 <= j < i ==> #[trigger] samples@[j] == amd_sample(gpus@[j]@),
        decreases gpus.len() - i,
    {
        let temperature = match gpus[i].temperature {
            Some(t) => Some(t.whole()),
            None => None,
        };
        let idle = match gpus[i].utilization_3d {
            Some(load) => Some(load.is_idle()),
            None => None,
        };
        samples.push(GpuSample { gpu: gpus[i].index, temperature, idle });
        i += 1;
    }
    assert(samples@ =~= amd_views(gpus@).map_values(|g: AmdView| amd_sample(g)));
    samples
}

/// Orders as actions, those for NVIDIA GPUs first.
fn order_actions(nvidia: Vec<FanOrder<u32>>, amd: Vec<FanOrder<usize>>) -> (actions: Vec<FanAction>)
    ensures
        actions_show(actions@, nvidia_actions(nvidia@) + amd_actions(amd@)),
{
    let ghost all = nvidia_actions(nvidia@) + amd_actions(amd@);
    let mut actions: Vec<FanAction> = Vec::new();
    for order in it: nvidia
        invariant
            it.seq() == nvidia@,
            all == nvidia_actions(nvidia@) + amd_actions(amd@),
            actions_show(actions@, all.take(it.index() as int)),
    {
        actions.push(FanAction::Nvidia(order));
    }
    for order in it: amd
        invariant
            it.seq() == amd@,
            all == nvidia_actions(nvidia@) + amd_actions(amd@),
            actions_show(actions@, all.take(nvidia@.len() + it.index())),
    {
        actions.push(FanAction::Amd(order));
    }
    assert(all.take((nvidia@.len() + amd@.len()) as int) =~= all);
    actions
}

/// The driver numbers each NVIDIA GPU once.
pub proof fn lemma_nvidia_distinct(state: MonitorState, readings: Seq<Option<NvidiaReading>>)
    requires
        readings.len() <= u32::MAX,
    ensures
        distinct_gpus(state.nvidia_samples(readings)),
{
    lemma_indices_increase(state, readings, readings.len());
}

/// NVIDIA GPUs are shown in the order of their numbers.
pub proof fn lemma_indices_increase(
    state: MonitorState,
    readings: Seq<Option<NvidiaReading>>,
    n: nat,
)
    requires
        n <= readings.len() <= u32::MAX,
    ensures
        ({
            let shown = numbers(n).filter_map(state.nvidia_metrics(readings));
            &&& forall|i: int| 0 <= i < shown.len() ==> (#[trigger] shown[i]).index < n
            &&& forall|i: int, j: int|
                0 <= i < j < shown.len() ==> (#[trigger] shown[i]).index < (
                #[trigger] shown[j]).index
        }),
    decreases n,
{
    if n > 0 {
        lemma_indices_increase(state, readings, (n - 1) as nat);
        assert(numbers(n).drop_last() =~= numbers((n - 1) as nat));
    }
}

/// Each AMD GPU has a position of its own.
pub proof fn lemma_amd_distinct(
    state: MonitorState,
    adapters: Seq<VideoController>,
    sources: AmdSources,
)
    requires
        adapters.len() <= usize::MAX,
    ensures
        distinct_gpus(state.amd_samples(adapters, sources)),
{
}

} // verus!
