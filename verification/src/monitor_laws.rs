//! What holds of a monitor over commands, ticks and restarts.

use vstd::prelude::*;
use crate::fan_bank::{
    distinct_gpus, lemma_loads_elsewhere, BankState, FanOrder, GpuSample,
};
use crate::fan_laws::{
    law_fresh_is_wf, law_last_entry_counts, law_list_is_exact, law_orders_are_per_sample, law_released_are_dropped,
    law_request_keeps_wf, law_tick_keeps_wf, law_tick_of_sampled, lemma_loads_frame,
    lemma_temperatures_frame,
};
use crate::metrics::{AmdSources, AmdView, NvidiaReading, NvidiaView};
use crate::monitor::{
    actions_show, amd_actions, amd_resets, amd_sample, apply_all, lemma_amd_distinct,
    lemma_indices_increase, lemma_nvidia_distinct, nvidia_actions, nvidia_resets, nvidia_sample,
    shows, ActionView, AmdFanSupport, FanAction, FanCommand, MonitorState,
};
use crate::sequences::{lemma_mapped, numbers};
use crate::settings::AppSettings;
use crate::text::decimal_text;
use crate::wmi::VideoController;

verus! {

/// A command for fans that cannot be controlled changes nothing and leads to nothing.
pub proof fn law_refused_command_is_ignored(state: MonitorState, command: FanCommand)
    requires
        match command {
            FanCommand::SetNvidia { .. } => !state.accepts_nvidia(),
            FanCommand::SetAmd { .. } => !state.accepts_amd(),
        },
    ensures
        state.after_command(command) == state,
        state.command_actions(command).len() == 0,
{
}

/// A command for one family of GPUs leaves the other alone.
pub proof fn law_families_are_independent(state: MonitorState, command: FanCommand)
    ensures
        command is SetNvidia ==> state.after_command(command).amd == state.amd,
        command is SetAmd ==> state.after_command(command).nvidia == state.nvidia,
{
}

/// Commands and ticks keep a monitor in order, and neither changes which fans can be
/// controlled.
pub proof fn law_monitor_stays_wf(
    state: MonitorState,
    command: FanCommand,
    nvidia: Seq<GpuSample<u32>>,
    amd: Seq<GpuSample<usize>>,
)
    requires
        state.wf(),
        distinct_gpus(nvidia),
        distinct_gpus(amd),
    ensures
        state.after_command(command).wf(),
        state.after_tick(nvidia, amd).wf(),
        state.after_command(command).nvml_fan == state.nvml_fan,
        state.after_command(command).adl_fan == state.adl_fan,
        state.after_tick(nvidia, amd).nvml_fan == state.nvml_fan,
        state.after_tick(nvidia, amd).adl_fan == state.adl_fan,
{
    match command {
        FanCommand::SetNvidia { index, speed } => law_request_keeps_wf(state.nvidia, index, speed),
        FanCommand::SetAmd { index, speed } => law_request_keeps_wf(state.amd, index, speed),
    }
    law_tick_keeps_wf(state.nvidia, nvidia);
    law_tick_keeps_wf(state.amd, amd);
}

/// Settings that hold the overrides of a monitor bring back the same overrides when a
/// monitor starts from them, with no GPU in safety and none cooling down.
pub proof fn law_overrides_survive_restart(state: MonitorState, saved: AppSettings)
    requires
        saved.hold(state.nvidia.overrides, state.amd.overrides),
    ensures
        BankState::fresh(saved.nvidia_speeds()) == BankState::fresh(state.nvidia.overrides),
        BankState::fresh(saved.amd_speeds()) == BankState::fresh(state.amd.overrides),
{
}

/// The overrides in the last save among actions.
pub open spec fn last_saved(actions: Seq<ActionView>) -> Option<(Map<u32, u32>, Map<usize, u32>)>
    decreases actions.len(),
{
    if actions.len() == 0 {
        None
    } else {
        match actions.last() {
            ActionView::Save(nvidia, amd) => Some((nvidia, amd)),
            _ => last_saved(actions.drop_last()),
        }
    }
}

/// Whether carrying out `actions` leaves the overrides of `after` saved, if those of
/// `before` were.
pub open spec fn keeps_saved(
    before: MonitorState,
    after: MonitorState,
    actions: Seq<ActionView>,
) -> bool {
    match last_saved(actions) {
        Some((nvidia, amd)) => nvidia == after.nvidia.overrides && amd == after.amd.overrides,
        None => after.nvidia.overrides == before.nvidia.overrides && after.amd.overrides
            == before.amd.overrides,
    }
}

/// What is saved is what is in force: the last save that follows from a command holds
/// the overrides after it, and where there is none the overrides are as before.
pub proof fn law_commands_save(state: MonitorState, command: FanCommand)
    ensures
        keeps_saved(state, state.after_command(command), state.command_actions(command)),
{
    reveal_with_fuel(last_saved, 2);
}

/// What is saved is what is in force: the last save that follows from a tick holds the
/// overrides after it, and where there is none the overrides are as before.
pub proof fn law_ticks_save(
    state: MonitorState,
    nvidia: Seq<GpuSample<u32>>,
    amd: Seq<GpuSample<usize>>,
)
    ensures
        keeps_saved(state, state.after_tick(nvidia, amd), state.tick_actions(nvidia, amd)),
{
    let nvidia_warned = state.nvidia.after_temperatures(nvidia);
    let amd_warned = state.amd.after_temperatures(amd);
    lemma_temperatures_frame(state.nvidia, nvidia);
    lemma_temperatures_frame(state.amd, amd);
    lemma_loads_frame(nvidia_warned, nvidia);
    lemma_loads_frame(amd_warned, amd);
    let nvidia_due = nvidia_warned.due(nvidia);
    let amd_due = amd_warned.due(amd);
    let first = nvidia_actions(state.nvidia.temperature_orders(nvidia)) + amd_actions(
        state.amd.temperature_orders(amd),
    );
    let second = nvidia_resets(nvidia_warned.after_loads(nvidia), nvidia_due, state.amd.overrides);
    let third = amd_resets(
        amd_warned.after_loads(amd),
        amd_due,
        state.nvidia.after_tick(nvidia).overrides,
    );
    let actions = state.tick_actions(nvidia, amd);
    if amd_due.len() > 0 {
        assert(actions.last() == third.last());
    } else {
        assert(actions =~= first + second);
        if nvidia_due.len() > 0 {
            assert(actions.last() == second.last());
        } else {
            assert(actions =~= first);
            lemma_orders_do_not_save(first);
        }
    }
}

proof fn lemma_orders_do_not_save(actions: Seq<ActionView>)
    requires
        forall|i: int| 0 <= i < actions.len() ==> !((#[trigger] actions[i]) is Save),
    ensures
        last_saved(actions) is None,
    decreases actions.len(),
{
    if actions.len() > 0 {
        assert(!(actions[actions.len() - 1] is Save));
        lemma_orders_do_not_save(actions.drop_last());
    }
}

/// A tick in which the driver says that an NVIDIA GPU has 85 degrees or more leaves that
/// GPU in safety, and orders full speed for it where it was not in safety before.
pub proof fn law_hot_nvidia_gpu(
    state: MonitorState,
    readings: Seq<Option<NvidiaReading>>,
    amd: Seq<GpuSample<usize>>,
    i: int,
)
    requires
        0 <= i < readings.len() <= u32::MAX,
        readings[i] matches Some(r) && r.temperature matches Some(t) && t >= 85,
    ensures
        state.after_tick(state.nvidia_samples(readings), amd).nvidia.safety.contains(i as u32),
        !state.nvidia.safety.contains(i as u32) ==> state.tick_actions(
            state.nvidia_samples(readings),
            amd,
        ).contains(ActionView::Nvidia(FanOrder::Apply { gpu: i as u32, speed: 100 })),
{
    let gpus = state.nvidia_gpus(readings);
    let samples = state.nvidia_samples(readings);
    let gpu = state.nvidia_metrics(readings)(i).unwrap();
    assert(numbers(readings.len())[i] == i);
    lemma_mapped(numbers(readings.len()), state.nvidia_metrics(readings), i);
    let j = choose|j: int| 0 <= j < gpus.len() && gpus[j] == gpu;
    assert(samples[j] == nvidia_sample(gpu));
    lemma_nvidia_distinct(state, readings);
    law_tick_of_sampled(state.nvidia, samples, j);
    if !state.nvidia.safety.contains(i as u32) {
        let order = FanOrder::Apply { gpu: i as u32, speed: 100 };
        lemma_ordered(state.nvidia, samples, j, order);
        let orders = state.nvidia.temperature_orders(samples);
        let k = choose|k: int| 0 <= k < orders.len() && orders[k] == order;
        assert(state.tick_actions(samples, amd)[k] == ActionView::Nvidia(order));
    }
}

/// A tick in which an AMD GPU is found to have 85 degrees or more, without the fraction,
/// leaves that GPU in safety, and orders full speed for it where it was not in safety
/// before.
pub proof fn law_hot_amd_gpu(
    state: MonitorState,
    nvidia: Seq<GpuSample<u32>>,
    adapters: Seq<VideoController>,
    sources: AmdSources,
    position: int,
)
    requires
        0 <= position < adapters.len() <= usize::MAX,
        sources.temperature_at(position) matches Some(t) && t.whole_part() >= 85,
    ensures
        state.after_tick(nvidia, state.amd_samples(adapters, sources)).amd.safety.contains(
            position as usize,
        ),
        !state.amd.safety.contains(position as usize) ==> state.tick_actions(
            nvidia,
            state.amd_samples(adapters, sources),
        ).contains(ActionView::Amd(FanOrder::Apply { gpu: position as usize, speed: 100 })),
{
    let samples = state.amd_samples(adapters, sources);
    assert(samples[position] == amd_sample(state.amd_metrics(adapters, sources, position)));
    lemma_amd_distinct(state, adapters, sources);
    law_tick_of_sampled(state.amd, samples, position);
    if !state.amd.safety.contains(position as usize) {
        let order = FanOrder::Apply { gpu: position as usize, speed: 100 };
        lemma_ordered(state.amd, samples, position, order);
        let orders = state.amd.temperature_orders(samples);
        let first = nvidia_actions(state.nvidia.temperature_orders(nvidia));
        let k = choose|k: int| 0 <= k < orders.len() && orders[k] == order;
        assert(state.tick_actions(nvidia, samples)[first.len() + k] == ActionView::Amd(order));
    }
}

proof fn lemma_ordered<K>(
    bank: BankState<K>,
    samples: Seq<GpuSample<K>>,
    i: int,
    order: FanOrder<K>,
)
    requires
        distinct_gpus(samples),
        0 <= i < samples.len(),
        bank.temperature_order(samples[i].gpu, samples[i].temperature) == Some(order),
    ensures
        bank.temperature_orders(samples).contains(order),
{
    let f = |s: GpuSample<K>| bank.temperature_order(s.gpu, s.temperature);
    law_orders_are_per_sample(bank, samples);
    assert(bank.temperature_orders(samples) == samples.filter_map(f));
    lemma_mapped(samples, f, i);
}

/// A monitor that starts from settings is in order.
pub proof fn law_start_is_wf(saved: AppSettings, state: MonitorState)
    requires
        state.nvidia == BankState::fresh(saved.nvidia_speeds()),
        state.amd == BankState::fresh(saved.amd_speeds()),
    ensures
        state.wf(),
{
    law_fresh_is_wf(saved.nvidia_speeds());
    law_fresh_is_wf(saved.amd_speeds());
}

/// An action shows an order only as that order, and a save only as one whose settings
/// hold exactly the given overrides.
pub proof fn law_actions_are_shown_as_they_are(
    order: FanOrder<u32>,
    amd_order: FanOrder<usize>,
    settings: AppSettings,
    view: ActionView,
)
    ensures
        shows(FanAction::Nvidia(order), view) <==> view == ActionView::Nvidia(order),
        shows(FanAction::Amd(amd_order), view) <==> view == ActionView::Amd(amd_order),
        shows(FanAction::Save(settings), view) <==> view is Save && settings.hold(
            view->Save_0,
            view->Save_1,
        ),
        shows(FanAction::Save(settings), view) ==> view->Save_0 == settings.nvidia_speeds()
            && view->Save_1 == settings.amd_speeds(),
{
}

/// Actions show a sequence only where there are as many, and each shows its own.
pub proof fn law_actions_are_shown_one_by_one(
    actions: Seq<FanAction>,
    views: Seq<ActionView>,
    i: int,
)
    requires
        actions_show(actions, views),
        0 <= i < actions.len(),
    ensures
        actions.len() == views.len(),
        shows(actions[i], views[i]),
{
}

/// Settings give an NVIDIA GPU the speed of the last entry with its index.
pub proof fn law_nvidia_settings(saved: AppSettings, i: int)
    requires
        0 <= i < saved.fan_overrides@.len(),
        forall|j: int|
            i < j < saved.fan_overrides@.len() ==> (#[trigger] saved.fan_overrides@[j]).gpu_index
                != saved.fan_overrides@[i].gpu_index,
    ensures
        saved.nvidia_speeds().get(saved.fan_overrides@[i].gpu_index) == Some(
            saved.fan_overrides@[i].speed,
        ),
{
    law_last_entry_counts(saved.nvidia_entries(), i);
}

/// Settings give an AMD GPU the speed of the last entry with its position.
pub proof fn law_amd_settings(saved: AppSettings, i: int)
    requires
        0 <= i < saved.amd_fan_overrides@.len(),
        forall|j: int|
            i < j < saved.amd_fan_overrides@.len() ==> (
            #[trigger] saved.amd_fan_overrides@[j]).gpu_position
                != saved.amd_fan_overrides@[i].gpu_position,
    ensures
        saved.amd_speeds().get(saved.amd_fan_overrides@[i].gpu_position) == Some(
            saved.amd_fan_overrides@[i].speed,
        ),
{
    law_last_entry_counts(saved.amd_entries(), i);
}

/// Settings that hold overrides hold each of them once, with its speed, and no other.
pub proof fn law_saved_settings_are_exact(
    saved: AppSettings,
    nvidia: Map<u32, u32>,
    amd: Map<usize, u32>,
)
    requires
        saved.hold(nvidia, amd),
    ensures
        forall|i: int|
            0 <= i < saved.fan_overrides@.len() ==> nvidia.get(
                (#[trigger] saved.fan_overrides@[i]).gpu_index,
            ) == Some(saved.fan_overrides@[i].speed),
        forall|i: int|
            0 <= i < saved.amd_fan_overrides@.len() ==> amd.get(
                (#[trigger] saved.amd_fan_overrides@[i]).gpu_position,
            ) == Some(saved.amd_fan_overrides@[i].speed),
        forall|i: int, j: int|
            0 <= i < j < saved.fan_overrides@.len() ==> (
            #[trigger] saved.fan_overrides@[i]).gpu_index != (
            #[trigger] saved.fan_overrides@[j]).gpu_index,
        forall|i: int, j: int|
            0 <= i < j < saved.amd_fan_overrides@.len() ==> (
            #[trigger] saved.amd_fan_overrides@[i]).gpu_position != (
            #[trigger] saved.amd_fan_overrides@[j]).gpu_position,
        forall|g: u32| #[trigger]
            nvidia.contains_key(g) ==> exists|j: int|
                0 <= j < saved.fan_overrides@.len() && (
                #[trigger] saved.fan_overrides@[j]).gpu_index == g,
        forall|g: usize| #[trigger]
            amd.contains_key(g) ==> exists|j: int|
                0 <= j < saved.amd_fan_overrides@.len() && (
                #[trigger] saved.amd_fan_overrides@[j]).gpu_position == g,
{
    law_list_is_exact(saved.nvidia_entries(), nvidia, 0u32);
    law_list_is_exact(saved.amd_entries(), amd, 0usize);
    assert forall|i: int, j: int| 0 <= i < j < saved.fan_overrides@.len() implies (
    #[trigger] saved.fan_overrides@[i]).gpu_index != (
    #[trigger] saved.fan_overrides@[j]).gpu_index by {
        assert(saved.nvidia_entries()[i].0 != saved.nvidia_entries()[j].0);
    }
    assert forall|i: int, j: int| 0 <= i < j < saved.amd_fan_overrides@.len() implies (
    #[trigger] saved.amd_fan_overrides@[i]).gpu_position != (
    #[trigger] saved.amd_fan_overrides@[j]).gpu_position by {
        assert(saved.amd_entries()[i].0 != saved.amd_entries()[j].0);
    }
    assert forall|i: int| 0 <= i < saved.fan_overrides@.len() implies nvidia.get(
        (#[trigger] saved.fan_overrides@[i]).gpu_index,
    ) == Some(saved.fan_overrides@[i].speed) by {
        assert(saved.nvidia_entries()[i].0 == saved.fan_overrides@[i].gpu_index);
    }
    assert forall|i: int| 0 <= i < saved.amd_fan_overrides@.len() implies amd.get(
        (#[trigger] saved.amd_fan_overrides@[i]).gpu_position,
    ) == Some(saved.amd_fan_overrides@[i].speed) by {
        assert(saved.amd_entries()[i].0 == saved.amd_fan_overrides@[i].gpu_position);
    }
    assert forall|g: u32| #[trigger] nvidia.contains_key(g) implies exists|j: int|
        0 <= j < saved.fan_overrides@.len() && (#[trigger] saved.fan_overrides@[j]).gpu_index
            == g by {
        law_list_is_exact(saved.nvidia_entries(), nvidia, g);
        let j = choose|j: int|
            0 <= j < saved.nvidia_entries().len() && (#[trigger] saved.nvidia_entries()[j]).0 == g;
        assert(saved.fan_overrides@[j].gpu_index == g);
    }
    assert forall|g: usize| #[trigger] amd.contains_key(g) implies exists|j: int|
        0 <= j < saved.amd_fan_overrides@.len() && (
        #[trigger] saved.amd_fan_overrides@[j]).gpu_position == g by {
        law_list_is_exact(saved.amd_entries(), amd, g);
        let j = choose|j: int|
            0 <= j < saved.amd_entries().len() && (#[trigger] saved.amd_entries()[j]).0 == g;
        assert(saved.amd_fan_overrides@[j].gpu_position == g);
    }
}

/// An accepted request for a speed on an NVIDIA GPU leaves the override at that speed, 100
/// percent at most; it orders exactly that where the GPU is not in safety, and saves all
/// overrides as they then are. It is accepted where the fans can be controlled.
pub proof fn law_nvidia_request_in_percent(state: MonitorState, index: u32, speed: u32)
    requires
        state.nvml_fan,
    ensures
        ({
            let command = FanCommand::SetNvidia { index, speed: Some(speed) };
            let asked: u32 = if speed <= 100 {
                speed
            } else {
                100
            };
            let save = ActionView::Save(
                state.nvidia.overrides.insert(index, asked),
                state.amd.overrides,
            );
            let actions = state.command_actions(command);
            &&& state.accepts_nvidia()
            &&& state.after_command(command).nvidia.overrides == state.nvidia.overrides.insert(
                index,
                asked,
            )
            &&& state.nvidia.safety.contains(index) ==> actions == seq![save]
            &&& !state.nvidia.safety.contains(index) ==> actions == seq![
                ActionView::Nvidia(FanOrder::Apply { gpu: index, speed: asked }),
                save,
            ]
        }),
{
}

/// An accepted request for a speed on an AMD GPU leaves the override at that speed, 100
/// percent at most; it orders exactly that where the GPU is not in safety, and saves all
/// overrides as they then are. It is accepted where the fans can be controlled.
pub proof fn law_amd_request_in_percent(state: MonitorState, index: usize, speed: u32)
    requires
        state.adl_fan == AmdFanSupport::Ready,
    ensures
        ({
            let command = FanCommand::SetAmd { index, speed: Some(speed) };
            let asked: u32 = if speed <= 100 {
                speed
            } else {
                100
            };
            let save = ActionView::Save(
                state.nvidia.overrides,
                state.amd.overrides.insert(index, asked),
            );
            let actions = state.command_actions(command);
            &&& state.accepts_amd()
            &&& state.after_command(command).amd.overrides == state.amd.overrides.insert(
                index,
                asked,
            )
            &&& state.amd.safety.contains(index) ==> actions == seq![save]
            &&& !state.amd.safety.contains(index) ==> actions == seq![
                ActionView::Amd(FanOrder::Apply { gpu: index, speed: asked }),
                save,
            ]
        }),
{
}

/// An accepted request for automatic control orders it, in safety too, and saves the
/// overrides without that of the GPU.
pub proof fn law_auto_requests_save(state: MonitorState, index: u32, position: usize)
    ensures
        state.nvml_fan ==> state.command_actions(
            FanCommand::SetNvidia { index, speed: None },
        ) == seq![
            ActionView::Nvidia(FanOrder::Auto { gpu: index }),
            ActionView::Save(state.nvidia.overrides.remove(index), state.amd.overrides),
        ],
        state.adl_fan == AmdFanSupport::Ready ==> state.command_actions(
            FanCommand::SetAmd { index: position, speed: None },
        ) == seq![
            ActionView::Amd(FanOrder::Auto { gpu: position }),
            ActionView::Save(state.nvidia.overrides, state.amd.overrides.remove(position)),
        ],
{
}

/// Requests are refused exactly where the fans of the family cannot be controlled.
pub proof fn law_refusals(state: MonitorState)
    ensures
        state.accepts_nvidia() <==> state.nvml_fan,
        state.accepts_amd() <==> state.adl_fan == AmdFanSupport::Ready,
{
}

/// Overrides that end lead to two actions each, in their order: the GPU is handed back to
/// the driver, and the overrides are saved without those that have ended by then.
pub proof fn law_nvidia_resets(bank: BankState<u32>, due: Seq<u32>, amd: Map<usize, u32>, i: int)
    requires
        0 <= i < due.len(),
    ensures
        nvidia_resets(bank, due, amd).len() == 2 * due.len(),
        nvidia_resets(bank, due, amd)[2 * i] == ActionView::Nvidia(FanOrder::Auto { gpu: due[i] }),
        nvidia_resets(bank, due, amd)[2 * i + 1] is Save,
        nvidia_resets(bank, due, amd)[2 * i + 1]->Save_1 == amd,
        forall|g: u32| #[trigger]
            nvidia_resets(bank, due, amd)[2 * i + 1]->Save_0.get(g) == if due.take(
                i + 1,
            ).contains(g) {
                None
            } else {
                bank.overrides.get(g)
            },
    decreases due.len(),
{
    let rest = due.drop_last();
    lemma_nvidia_resets_len(bank, rest, amd);
    if i < rest.len() {
        law_nvidia_resets(bank, rest, amd, i);
        assert(rest.take(i + 1) =~= due.take(i + 1));
        assert(rest[i] == due[i]);
        assert(nvidia_resets(bank, due, amd)[2 * i + 1] == nvidia_resets(bank, rest, amd)[2 * i
            + 1]);
    } else {
        assert(due.take(i + 1) =~= due);
        assert forall|g: u32| #[trigger]
            nvidia_resets(bank, due, amd)[2 * i + 1]->Save_0.get(g) == if due.take(
                i + 1,
            ).contains(g) {
                None
            } else {
                bank.overrides.get(g)
            } by {
            law_released_are_dropped(bank, due, g);
        }
    }
}

proof fn lemma_nvidia_resets_len(bank: BankState<u32>, due: Seq<u32>, amd: Map<usize, u32>)
    ensures
        nvidia_resets(bank, due, amd).len() == 2 * due.len(),
    decreases due.len(),
{
    if due.len() > 0 {
        lemma_nvidia_resets_len(bank, due.drop_last(), amd);
    }
}

/// Overrides that end lead to two actions each, in their order: the GPU is handed back to
/// the driver, and the overrides are saved without those that have ended by then.
pub proof fn law_amd_resets(bank: BankState<usize>, due: Seq<usize>, nvidia: Map<u32, u32>, i: int)
    requires
        0 <= i < due.len(),
    ensures
        amd_resets(bank, due, nvidia).len() == 2 * due.len(),
        amd_resets(bank, due, nvidia)[2 * i] == ActionView::Amd(FanOrder::Auto { gpu: due[i] }),
        amd_resets(bank, due, nvidia)[2 * i + 1] is Save,
        amd_resets(bank, due, nvidia)[2 * i + 1]->Save_0 == nvidia,
        forall|g: usize| #[trigger]
            amd_resets(bank, due, nvidia)[2 * i + 1]->Save_1.get(g) == if due.take(
                i + 1,
            ).contains(g) {
                None
            } else {
                bank.overrides.get(g)
            },
    decreases due.len(),
{
    let rest = due.drop_last();
    lemma_amd_resets_len(bank, rest, nvidia);
    if i < rest.len() {
        law_amd_resets(bank, rest, nvidia, i);
        assert(rest.take(i + 1) =~= due.take(i + 1));
        assert(rest[i] == due[i]);
        assert(amd_resets(bank, due, nvidia)[2 * i + 1] == amd_resets(bank, rest, nvidia)[2 * i
            + 1]);
    } else {
        assert(due.take(i + 1) =~= due);
        assert forall|g: usize| #[trigger]
            amd_resets(bank, due, nvidia)[2 * i + 1]->Save_1.get(g) == if due.take(
                i + 1,
            ).contains(g) {
                None
            } else {
                bank.overrides.get(g)
            } by {
            law_released_are_dropped(bank, due, g);
        }
    }
}

proof fn lemma_amd_resets_len(bank: BankState<usize>, due: Seq<usize>, nvidia: Map<u32, u32>)
    ensures
        amd_resets(bank, due, nvidia).len() == 2 * due.len(),
    decreases due.len(),
{
    if due.len() > 0 {
        lemma_amd_resets_len(bank, due.drop_last(), nvidia);
    }
}

/// A tick acts in this order: the orders of the NVIDIA temperatures, those of the AMD
/// temperatures, the NVIDIA overrides that end, and the AMD overrides that end. The saves
/// of the former hold all AMD overrides, and those of the latter the NVIDIA overrides that
/// are left.
pub proof fn law_tick_acts_in_order(
    state: MonitorState,
    nvidia: Seq<GpuSample<u32>>,
    amd: Seq<GpuSample<usize>>,
)
    requires
        distinct_gpus(nvidia),
        distinct_gpus(amd),
    ensures
        ({
            let actions = state.tick_actions(nvidia, amd);
            let hot = state.nvidia.temperature_orders(nvidia);
            let amd_hot = state.amd.temperature_orders(amd);
            let due = state.nvidia.due(nvidia);
            let amd_due = state.amd.due(amd);
            let left = state.after_tick(nvidia, amd).nvidia.overrides;
            &&& actions.len() == hot.len() + amd_hot.len() + 2 * due.len() + 2 * amd_due.len()
            &&& forall|i: int|
                0 <= i < hot.len() ==> #[trigger] actions[i] == ActionView::Nvidia(hot[i])
            &&& forall|i: int|
                0 <= i < amd_hot.len() ==> #[trigger] actions[hot.len() + i] == ActionView::Amd(
                    amd_hot[i],
                )
            &&& forall|i: int|
                0 <= i < due.len() ==> actions[hot.len() + amd_hot.len() + 2 * i]
                    == ActionView::Nvidia(FanOrder::Auto { gpu: #[trigger] due[i] })
                    && actions[hot.len() + amd_hot.len() + 2 * i + 1] is Save && actions[hot.len()
                    + amd_hot.len() + 2 * i + 1]->Save_1 == state.amd.overrides
            &&& forall|i: int|
                0 <= i < amd_due.len() ==> actions[hot.len() + amd_hot.len() + 2 * due.len() + 2
                    * i] == ActionView::Amd(FanOrder::Auto { gpu: #[trigger] amd_due[i] })
                    && actions[hot.len() + amd_hot.len() + 2 * due.len() + 2 * i + 1] is Save
                    && actions[hot.len() + amd_hot.len() + 2 * due.len() + 2 * i + 1]->Save_0
                    == left
        }),
{
    let nvidia_warned = state.nvidia.after_temperatures(nvidia);
    let amd_warned = state.amd.after_temperatures(amd);
    lemma_temperatures_frame(state.nvidia, nvidia);
    lemma_temperatures_frame(state.amd, amd);
    lemma_due_of_frame(state.nvidia, nvidia_warned, nvidia);
    lemma_due_of_frame(state.amd, amd_warned, amd);
    let due = state.nvidia.due(nvidia);
    let amd_due = state.amd.due(amd);
    let hot = state.nvidia.temperature_orders(nvidia);
    let amd_hot = state.amd.temperature_orders(amd);
    let left = state.nvidia.after_tick(nvidia).overrides;
    let nvidia_bank = nvidia_warned.after_loads(nvidia);
    let amd_bank = amd_warned.after_loads(amd);
    let actions = state.tick_actions(nvidia, amd);
    let ends = nvidia_resets(nvidia_bank, due, state.amd.overrides);
    let amd_ends = amd_resets(amd_bank, amd_due, left);
    lemma_nvidia_resets_len(nvidia_bank, due, state.amd.overrides);
    lemma_amd_resets_len(amd_bank, amd_due, left);
    let from = hot.len() + amd_hot.len();
    assert forall|i: int| 0 <= i < due.len() implies actions[from + 2 * i] == ActionView::Nvidia(
        FanOrder::Auto { gpu: #[trigger] due[i] },
    ) && actions[from + 2 * i + 1] is Save && actions[from + 2 * i + 1]->Save_1
        == state.amd.overrides by {
        law_nvidia_resets(nvidia_bank, due, state.amd.overrides, i);
        assert(actions[from + 2 * i] == ends[2 * i]);
        assert(actions[from + 2 * i + 1] == ends[2 * i + 1]);
    }
    let amd_from = from + 2 * due.len();
    assert forall|i: int| 0 <= i < amd_due.len() implies actions[amd_from + 2 * i]
        == ActionView::Amd(FanOrder::Auto { gpu: #[trigger] amd_due[i] }) && actions[amd_from + 2
        * i + 1] is Save && actions[amd_from + 2 * i + 1]->Save_0 == left by {
        law_amd_resets(amd_bank, amd_due, left, i);
        assert(actions[amd_from + 2 * i] == amd_ends[2 * i]);
        assert(actions[amd_from + 2 * i + 1] == amd_ends[2 * i + 1]);
    }
}

proof fn lemma_due_of_frame<K>(a: BankState<K>, b: BankState<K>, samples: Seq<GpuSample<K>>)
    requires
        a.overrides == b.overrides,
        a.cooldown == b.cooldown,
        distinct_gpus(samples),
    ensures
        a.due(samples) == b.due(samples),
    decreases samples.len(),
{
    if samples.len() > 0 {
        let rest = samples.drop_last();
        lemma_due_of_frame(a, b, rest);
        lemma_loads_elsewhere(a, rest, samples.last().gpu);
        lemma_loads_elsewhere(b, rest, samples.last().gpu);
    }
}

/// The first speeds that a start applies are those of the list, entry by entry.
pub proof fn law_started_speeds<K>(entries: Seq<(K, u32)>, i: int)
    requires
        0 <= i < entries.len(),
    ensures
        apply_all(entries).len() == entries.len(),
        apply_all(entries)[i] == (FanOrder::Apply { gpu: entries[i].0, speed: entries[i].1 }),
{
}

/// A tick looks at the temperature of an NVIDIA GPU as it is, and takes it for idle up to
/// a load of 20 percent.
pub proof fn law_nvidia_sample(gpu: NvidiaView)
    ensures
        nvidia_sample(gpu).gpu == gpu.index,
        nvidia_sample(gpu).temperature == gpu.temperature,
        gpu.utilization_gpu is None ==> nvidia_sample(gpu).idle is None,
        gpu.utilization_gpu matches Some(load) ==> nvidia_sample(gpu).idle == Some(load <= 20),
{
}

/// A tick looks at the whole degrees of the temperature of an AMD GPU, and takes it for
/// idle where the loads of its engines add up to at most 20 percent for each engine.
pub proof fn law_amd_sample(gpu: AmdView)
    ensures
        amd_sample(gpu).gpu == gpu.index,
        gpu.temperature is None ==> amd_sample(gpu).temperature is None,
        gpu.temperature matches Some(t) ==> amd_sample(gpu).temperature == Some(t.whole_part()),
        gpu.utilization_3d is None ==> amd_sample(gpu).idle is None,
        gpu.utilization_3d matches Some(load) ==> amd_sample(gpu).idle == Some(
            load.sum <= 20 * load.engines,
        ),
{
}

/// Each NVIDIA GPU that the driver knows is shown once, under its number, with the
/// temperature, loads and fan speed that the driver said of it, its memory in whole
/// mebibytes, its name or a name made of its number, and the fan state of the bank.
pub proof fn law_known_nvidia_gpu_is_shown(
    state: MonitorState,
    readings: Seq<Option<NvidiaReading>>,
    i: int,
)
    requires
        0 <= i < readings.len() <= u32::MAX,
        readings[i] is Some,
    ensures
        ({
            let gpus = state.nvidia_gpus(readings);
            let r = readings[i].unwrap();
            exists|j: int|
                {
                    &&& 0 <= j < gpus.len()
                    &&& (#[trigger] gpus[j]).index == i
                    &&& gpus[j].temperature == r.temperature
                    &&& gpus[j].utilization_gpu == r.utilization_gpu
                    &&& gpus[j].utilization_mem == r.utilization_mem
                    &&& gpus[j].fan_speed == r.fan_speed
                    &&& whole_mebibytes(r.memory_used, gpus[j].vram_used_mb)
                    &&& whole_mebibytes(r.memory_total, gpus[j].vram_total_mb)
                    &&& r.name is Some ==> gpus[j].name == r.name.unwrap()@
                    &&& r.name is None ==> gpus[j].name == "NVIDIA GPU "@ + decimal_text(i as nat)
                    &&& gpus[j].fan_control_available == state.nvml_fan
                    &&& gpus[j].safety_override_active == state.nvidia.safety.contains(i as u32)
                    &&& gpus[j].fan_override == state.nvidia.overrides.get(i as u32)
                    &&& gpus[j].cooldown_secs == state.nvidia.cooldown.get(i as u32)
                }
        }),
{
    let gpus = state.nvidia_gpus(readings);
    let gpu = state.nvidia_metrics(readings)(i).unwrap();
    assert(numbers(readings.len())[i] == i);
    lemma_mapped(numbers(readings.len()), state.nvidia_metrics(readings), i);
    let j = choose|j: int| 0 <= j < gpus.len() && gpus[j] == gpu;
    assert(gpus[j].index == i);
}

/// Whether `mb` is the number of whole mebibytes in `bytes`.
pub open spec fn whole_mebibytes(bytes: Option<u64>, mb: Option<u64>) -> bool {
    match (bytes, mb) {
        (Some(b), Some(m)) => m * 1048576 <= b < (m + 1) * 1048576,
        (None, None) => true,
        _ => false,
    }
}

/// Only GPUs that the driver knows are shown, and in the order of their numbers.
pub proof fn law_shown_nvidia_gpus_are_known(
    state: MonitorState,
    readings: Seq<Option<NvidiaReading>>,
    j: int,
)
    requires
        readings.len() <= u32::MAX,
        0 <= j < state.nvidia_gpus(readings).len(),
    ensures
        state.nvidia_gpus(readings)[j].index < readings.len(),
        readings[state.nvidia_gpus(readings)[j].index as int] is Some,
        forall|k: int|
            j < k < state.nvidia_gpus(readings).len() ==> state.nvidia_gpus(readings)[j].index < (
            #[trigger] state.nvidia_gpus(readings)[k]).index,
{
    let gpus = state.nvidia_gpus(readings);
    let f = state.nvidia_metrics(readings);
    lemma_indices_increase(state, readings, readings.len());
    assert(gpus.contains(gpus[j]));
    numbers(readings.len()).lemma_filter_map_contains(f, gpus[j]);
    let i = choose|i: int|
        numbers(readings.len()).contains(i) && #[trigger] f(i) == Some(gpus[j]);
    assert(gpus[j].index == i);
}

/// The fan speed shown of an NVIDIA GPU rests on the fan speed that the driver said and on
/// nothing else: two sets of readings that agree on which GPUs are known and on their fan
/// speeds are shown with the same fan speeds.
pub proof fn law_fan_speed_rests_on_the_driver(
    state: MonitorState,
    a: Seq<Option<NvidiaReading>>,
    b: Seq<Option<NvidiaReading>>,
)
    requires
        a.len() == b.len(),
        forall|i: int|
            0 <= i < a.len() ==> ((#[trigger] a[i]) is Some <==> (#[trigger] b[i]) is Some),
        forall|i: int|
            0 <= i < a.len() && (#[trigger] a[i]) is Some ==> a[i].unwrap().fan_speed == (
            #[trigger] b[i]).unwrap().fan_speed,
    ensures
        state.nvidia_gpus(a).len() == state.nvidia_gpus(b).len(),
        forall|j: int|
            0 <= j < state.nvidia_gpus(a).len() ==> (#[trigger] state.nvidia_gpus(a)[j]).fan_speed
                == (#[trigger] state.nvidia_gpus(b)[j]).fan_speed,
{
    lemma_same_fan_speeds(state, a, b, a.len());
}

proof fn lemma_same_fan_speeds(
    state: MonitorState,
    a: Seq<Option<NvidiaReading>>,
    b: Seq<Option<NvidiaReading>>,
    n: nat,
)
    requires
        n <= a.len() == b.len(),
        forall|i: int|
            0 <= i < a.len() ==> ((#[trigger] a[i]) is Some <==> (#[trigger] b[i]) is Some),
        forall|i: int|
            0 <= i < a.len() && (#[trigger] a[i]) is Some ==> a[i].unwrap().fan_speed == (
            #[trigger] b[i]).unwrap().fan_speed,
    ensures
        ({
            let x = numbers(n).filter_map(state.nvidia_metrics(a));
            let y = numbers(n).filter_map(state.nvidia_metrics(b));
            &&& x.len() == y.len()
            &&& forall|j: int|
                0 <= j < x.len() ==> (#[trigger] x[j]).fan_speed == (#[trigger] y[j]).fan_speed
        }),
    decreases n,
{
    if n > 0 {
        lemma_same_fan_speeds(state, a, b, (n - 1) as nat);
        assert(numbers(n).drop_last() =~= numbers((n - 1) as nat));
        assert(numbers(n).last() == n - 1);
        assert(a[n - 1] is Some <==> b[n - 1] is Some);
    }
}

/// Each AMD GPU is shown at its position, with the name and memory of its adapter, the
/// temperature and fan speed that the sources give it, and the fan state of the bank.
pub proof fn law_amd_gpu_is_shown(
    state: MonitorState,
    adapters: Seq<VideoController>,
    sources: AmdSources,
    p: int,
)
    requires
        0 <= p < adapters.len() <= usize::MAX,
    ensures
        ({
            let gpus = state.amd_gpus(adapters, sources);
            &&& gpus.len() == adapters.len()
            &&& gpus[p].index == p
            &&& gpus[p].name == adapters[p].name@
            &&& whole_mebibytes(adapters[p].vram_bytes, gpus[p].vram_mb)
            &&& gpus[p].utilization_3d == sources.utilization_3d
            &&& gpus[p].temperature == sources.temperature_at(p)
            &&& gpus[p].fan_speed == sources.fan_at(p)
            &&& gpus[p].fan_control_available == (state.adl_fan == AmdFanSupport::Ready)
            &&& gpus[p].safety_override_active == state.amd.safety.contains(p as usize)
            &&& gpus[p].fan_override == state.amd.overrides.get(p as usize)
            &&& gpus[p].cooldown_secs == state.amd.cooldown.get(p as usize)
        }),
{
}

/// A tick has a sample of each NVIDIA GPU that the driver knows, with the temperature that
/// the driver said, and idle up to a load of 20 percent.
pub proof fn law_nvidia_gpu_is_sampled(
    state: MonitorState,
    readings: Seq<Option<NvidiaReading>>,
    i: int,
)
    requires
        0 <= i < readings.len() <= u32::MAX,
        readings[i] is Some,
    ensures
        ({
            let samples = state.nvidia_samples(readings);
            let r = readings[i].unwrap();
            exists|j: int|
                {
                    &&& 0 <= j < samples.len()
                    &&& (#[trigger] samples[j]).gpu == i
                    &&& samples[j].temperature == r.temperature
                    &&& r.utilization_gpu is None ==> samples[j].idle is None
                    &&& r.utilization_gpu matches Some(load) ==> samples[j].idle == Some(
                        load <= 20,
                    )
                }
        }),
        state.nvidia_samples(readings).len() == state.nvidia_gpus(readings).len(),
        distinct_gpus(state.nvidia_samples(readings)),
{
    let gpus = state.nvidia_gpus(readings);
    let samples = state.nvidia_samples(readings);
    let r = readings[i].unwrap();
    law_known_nvidia_gpu_is_shown(state, readings, i);
    let j = choose|j: int|
        0 <= j < gpus.len() && (#[trigger] gpus[j]).index == i && gpus[j].temperature
            == r.temperature && gpus[j].utilization_gpu == r.utilization_gpu;
    assert(samples[j].gpu == i);
    lemma_nvidia_distinct(state, readings);
}

/// A tick has a sample of each AMD GPU, with the whole degrees of the temperature that the
/// sources give it, and idle where the loads of the engines add up to at most 20 percent
/// for each engine.
pub proof fn law_amd_gpu_is_sampled(
    state: MonitorState,
    adapters: Seq<VideoController>,
    sources: AmdSources,
    p: int,
)
    requires
        0 <= p < adapters.len() <= usize::MAX,
    ensures
        ({
            let samples = state.amd_samples(adapters, sources);
            &&& samples.len() == adapters.len()
            &&& samples[p].gpu == p
            &&& sources.temperature_at(p) is None ==> samples[p].temperature is None
            &&& sources.temperature_at(p) matches Some(t) ==> samples[p].temperature == Some(
                t.whole_part(),
            )
            &&& sources.utilization_3d is None ==> samples[p].idle is None
            &&& sources.utilization_3d matches Some(load) ==> samples[p].idle == Some(
                load.sum <= 20 * load.engines,
            )
        }),
        distinct_gpus(state.amd_samples(adapters, sources)),
{
    lemma_amd_distinct(state, adapters, sources);
}

/// What a tick does to the NVIDIA GPUs rests on their samples alone, and so for the AMD
/// GPUs.
pub proof fn law_tick_of_each_family(
    state: MonitorState,
    nvidia: Seq<GpuSample<u32>>,
    amd: Seq<GpuSample<usize>>,
)
    ensures
        state.after_tick(nvidia, amd).nvidia == state.nvidia.after_tick(nvidia),
        state.after_tick(nvidia, amd).amd == state.amd.after_tick(amd),
{
}

/// Orders become actions one by one.
pub proof fn law_orders_become_actions(
    nvidia: Seq<FanOrder<u32>>,
    amd: Seq<FanOrder<usize>>,
    i: int,
)
    ensures
        nvidia_actions(nvidia).len() == nvidia.len(),
        amd_actions(amd).len() == amd.len(),
        0 <= i < nvidia.len() ==> nvidia_actions(nvidia)[i] == ActionView::Nvidia(nvidia[i]),
        0 <= i < amd.len() ==> amd_actions(amd)[i] == ActionView::Amd(amd[i]),
{
}

} // verus!
