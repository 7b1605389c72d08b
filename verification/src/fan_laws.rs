//! What holds of a fan bank over several readings, requests and ticks.

use vstd::prelude::*;
use crate::fan_bank::{
    distinct_gpus, lemma_loads_elsewhere, lemma_speeds, lists, speeds_of, BankState, FanOrder,
    GpuSample,
};

verus! {

/// Between 80 and 84 degrees nothing changes and nothing is ordered: a GPU that is
/// in safety stays there, and one that is not stays out.
pub proof fn law_hysteresis<K>(state: BankState<K>, gpu: K, t: u32)
    requires
        80 <= t < 85,
    ensures
        state.after_temperature(gpu, Some(t)) == state,
        state.temperature_order(gpu, Some(t)) is None,
{
}

/// A GPU at 85 degrees or more is in safety, and only the first such reading
/// orders full speed.
pub proof fn law_hot_once<K>(state: BankState<K>, gpu: K, t: u32, u: u32)
    requires
        t >= 85,
        u >= 85,
    ensures
        state.after_temperature(gpu, Some(t)).safety.contains(gpu),
        !state.safety.contains(gpu) ==> state.temperature_order(gpu, Some(t)) == Some(
            (FanOrder::Apply { gpu, speed: 100 }),
        ),
        state.after_temperature(gpu, Some(t)).temperature_order(gpu, Some(u)) is None,
{
}

/// A GPU that becomes hot and then cools below 80 degrees is back where it was, and
/// is ordered the speed its owner asked for, or automatic control.
pub proof fn law_hot_then_cool<K>(state: BankState<K>, gpu: K, t: u32, u: u32)
    requires
        !state.safety.contains(gpu),
        t >= 85,
        u < 80,
    ensures
        state.after_temperature(gpu, Some(t)).after_temperature(gpu, Some(u)) == state,
        state.after_temperature(gpu, Some(t)).temperature_order(gpu, Some(u)) == Some(
            state.wanted(gpu),
        ),
{
    assert(state.safety.insert(gpu).remove(gpu) =~= state.safety);
}

/// A speed asked for while a GPU is in safety is not ordered at once, but when the
/// GPU has cooled down.
pub proof fn law_request_waits_for_safety<K>(state: BankState<K>, gpu: K, speed: u32, t: u32)
    requires
        state.safety.contains(gpu),
        t < 80,
    ensures
        state.request_order(gpu, Some(speed)) is None,
        state.after_request(gpu, Some(speed)).safety == state.safety,
        state.after_request(gpu, Some(speed)).temperature_order(gpu, Some(t)) == Some(
            (FanOrder::Apply { gpu, speed: if speed <= 100 { speed } else { 100 } }),
        ),
{
}

/// Asking for automatic control undoes whatever speed was asked for before, and
/// leaves nothing known of the GPU.
pub proof fn law_auto_forgets<K>(state: BankState<K>, gpu: K, speed: u32)
    ensures
        state.after_request(gpu, Some(speed)).after_request(gpu, None) == state.after_request(
            gpu,
            None,
        ),
        state.after_request(gpu, None).wanted(gpu) == (FanOrder::Auto { gpu }),
        !state.after_request(gpu, None).safety.contains(gpu),
        !state.after_request(gpu, None).cooldown.contains_key(gpu),
{
    assert(state.after_request(gpu, Some(speed)).after_request(gpu, None)
        =~= state.after_request(gpu, None));
}

/// Of two speeds asked for on one GPU in a row, the later counts.
pub proof fn law_last_request_counts<K>(state: BankState<K>, gpu: K, first: u32, last: u32)
    ensures
        state.after_request(gpu, Some(first)).after_request(gpu, Some(last))
            == state.after_request(gpu, Some(last)),
        state.after_request(gpu, Some(last)).overrides[gpu] == if last <= 100 {
            last
        } else {
            100
        },
{
    assert(state.after_request(gpu, Some(first)).after_request(gpu, Some(last))
        =~= state.after_request(gpu, Some(last)));
}

/// A request for one GPU leaves the others alone.
pub proof fn law_request_is_local<K>(state: BankState<K>, gpu: K, speed: Option<u32>, other: K)
    requires
        other != gpu,
    ensures
        same_gpu(state, state.after_request(gpu, speed), other),
{
}

/// Whether two states know the same of a GPU.
pub open spec fn same_gpu<K>(a: BankState<K>, b: BankState<K>, gpu: K) -> bool {
    &&& a.overrides.get(gpu) == b.overrides.get(gpu)
    &&& a.safety.contains(gpu) == b.safety.contains(gpu)
    &&& a.cooldown.get(gpu) == b.cooldown.get(gpu)
}

/// A request keeps the counts of a bank in order.
pub proof fn law_request_keeps_wf<K>(state: BankState<K>, gpu: K, speed: Option<u32>)
    requires
        state.wf(),
    ensures
        state.after_request(gpu, speed).wf(),
{
}

/// A bank without counts has them in order.
pub proof fn law_fresh_is_wf<K>(overrides: Map<K, u32>)
    ensures
        BankState::fresh(overrides).wf(),
{
}

/// A tick keeps the counts of a bank in order.
pub proof fn law_tick_keeps_wf<K>(state: BankState<K>, samples: Seq<GpuSample<K>>)
    requires
        state.wf(),
        distinct_gpus(samples),
    ensures
        state.after_tick(samples).wf(),
{
    let next = state.after_tick(samples);
    assert forall|k: K| #[trigger] next.cooldown.contains_key(k) implies next.overrides.contains_key(
        k,
    ) && 1 <= next.cooldown[k] <= 29 by {
        if exists|i: int| 0 <= i < samples.len() && (#[trigger] samples[i]).gpu == k {
            let i = choose|i: int| 0 <= i < samples.len() && (#[trigger] samples[i]).gpu == k;
            law_tick_of_sampled(state, samples, i);
        } else {
            law_tick_of_others(state, samples, k);
        }
    }
}

/// What a tick does to a GPU that it has a sample of: the temperature decides on
/// safety, and the load on the count and the override, which is dropped with the
/// thirtieth idle tick in a row.
pub proof fn law_tick_of_sampled<K>(state: BankState<K>, samples: Seq<GpuSample<K>>, i: int)
    requires
        distinct_gpus(samples),
        0 <= i < samples.len(),
    ensures
        ({
            let sample = samples[i];
            let gpu = sample.gpu;
            let next = state.after_tick(samples);
            let counted = state.after_load(gpu, sample.idle);
            let ends = state.load_is_due(gpu, sample.idle);
            &&& next.safety.contains(gpu) == state.after_temperature(
                gpu,
                sample.temperature,
            ).safety.contains(gpu)
            &&& next.overrides.get(gpu) == if ends {
                None
            } else {
                state.overrides.get(gpu)
            }
            &&& next.cooldown.get(gpu) == if ends {
                None
            } else {
                counted.cooldown.get(gpu)
            }
        }),
{
    let gpu = samples[i].gpu;
    let warned = state.after_temperatures(samples);
    lemma_temperatures_frame(state, samples);
    lemma_temperatures_of(state, samples, i);
    lemma_loads_of(warned, samples, i);
    lemma_loads_frame(warned, samples);
    lemma_released_all(warned.after_loads(samples), warned.due(samples), gpu);
}

/// A tick leaves a GPU alone that it has no sample of.
pub proof fn law_tick_of_others<K>(state: BankState<K>, samples: Seq<GpuSample<K>>, gpu: K)
    requires
        forall|i: int| 0 <= i < samples.len() ==> (#[trigger] samples[i]).gpu != gpu,
    ensures
        same_gpu(state, state.after_tick(samples), gpu),
{
    let warned = state.after_temperatures(samples);
    lemma_temperatures_frame(state, samples);
    lemma_temperatures_elsewhere(state, samples, gpu);
    lemma_loads_elsewhere(warned, samples, gpu);
    lemma_due_is_sampled(warned, samples, gpu);
    lemma_released_all(warned.after_loads(samples), warned.due(samples), gpu);
}

/// The orders of a look at the temperatures are those of the single samples, in the
/// order of the samples.
pub proof fn law_orders_are_per_sample<K>(state: BankState<K>, samples: Seq<GpuSample<K>>)
    requires
        distinct_gpus(samples),
    ensures
        state.temperature_orders(samples) == samples.filter_map(
            |s: GpuSample<K>| state.temperature_order(s.gpu, s.temperature),
        ),
    decreases samples.len(),
{
    let f = |s: GpuSample<K>| state.temperature_order(s.gpu, s.temperature);
    if samples.len() > 0 {
        let rest = samples.drop_last();
        law_orders_are_per_sample(state, rest);
        assert(rest.filter_map(f) == rest.filter_map(
            |s: GpuSample<K>| state.temperature_order(s.gpu, s.temperature),
        ));
        lemma_temperatures_elsewhere(state, rest, samples.last().gpu);
        lemma_temperatures_frame(state, rest);
        assert(state.temperature_orders(samples) =~= samples.filter_map(f));
    } else {
        assert(state.temperature_orders(samples) =~= samples.filter_map(f));
    }
}

/// The state after a series of ticks.
pub open spec fn after_ticks<K>(state: BankState<K>, ticks: Seq<Seq<GpuSample<K>>>) -> BankState<K>
    decreases ticks.len(),
{
    if ticks.len() == 0 {
        state
    } else {
        after_ticks(state, ticks.drop_last()).after_tick(ticks.last())
    }
}

/// Whether a tick has each GPU once and sees `gpu` idle.
pub open spec fn sees_idle<K>(tick: Seq<GpuSample<K>>, gpu: K) -> bool {
    &&& distinct_gpus(tick)
    &&& exists|i: int|
        0 <= i < tick.len() && (#[trigger] tick[i]).gpu == gpu && tick[i].idle == Some(true)
}

/// A GPU whose override was just asked for keeps it through 29 idle ticks in a row,
/// which are counted one by one, and loses it with the thirtieth.
pub proof fn law_thirty_idle_ticks<K>(
    state: BankState<K>,
    gpu: K,
    speed: u32,
    ticks: Seq<Seq<GpuSample<K>>>,
)
    requires
        ticks.len() <= 30,
        forall|n: int| 0 <= n < ticks.len() ==> sees_idle(#[trigger] ticks[n], gpu),
    ensures
        ({
            let last = after_ticks(state.after_request(gpu, Some(speed)), ticks);
            let asked: u32 = if speed <= 100 {
                speed
            } else {
                100
            };
            if ticks.len() == 0 {
                last.overrides.get(gpu) == Some(asked) && last.cooldown.get(gpu) is None
            } else if ticks.len() < 30 {
                last.overrides.get(gpu) == Some(asked) && last.cooldown.get(gpu) == Some(
                    ticks.len() as u32,
                )
            } else {
                last.overrides.get(gpu) is None && last.cooldown.get(gpu) is None
            }
        }),
    decreases ticks.len(),
{
    if ticks.len() > 0 {
        let rest = ticks.drop_last();
        let tick = ticks.last();
        assert forall|n: int| 0 <= n < rest.len() implies sees_idle(#[trigger] rest[n], gpu) by {
            assert(rest[n] == ticks[n]);
        }
        law_thirty_idle_ticks(state, gpu, speed, rest);
        assert(sees_idle(ticks[ticks.len() - 1], gpu));
        let i = choose|i: int|
            0 <= i < tick.len() && (#[trigger] tick[i]).gpu == gpu && tick[i].idle == Some(true);
        law_tick_of_sampled(after_ticks(state.after_request(gpu, Some(speed)), rest), tick, i);
    }
}

/// A busy tick starts the count of idle ticks anew and keeps the override.
pub proof fn law_busy_tick_restarts<K>(state: BankState<K>, samples: Seq<GpuSample<K>>, i: int)
    requires
        distinct_gpus(samples),
        0 <= i < samples.len(),
        samples[i].idle == Some(false),
    ensures
        state.after_tick(samples).cooldown.get(samples[i].gpu) is None,
        state.after_tick(samples).overrides.get(samples[i].gpu) == state.overrides.get(
            samples[i].gpu,
        ),
{
    law_tick_of_sampled(state, samples, i);
}

/// Whether no speed is above full speed.
pub open spec fn speeds_in_range<K>(state: BankState<K>) -> bool {
    forall|k: K| #[trigger] state.overrides.contains_key(k) ==> state.overrides[k] <= 100
}

/// Whether an order asks for no more than full speed.
pub open spec fn order_in_range<K>(order: Option<FanOrder<K>>) -> bool {
    order matches Some(FanOrder::Apply { gpu, speed }) ==> speed <= 100
}

/// Where no override is above full speed, none ever gets there, and no order asks
/// for more.
pub proof fn law_speeds_stay_in_range<K>(
    state: BankState<K>,
    gpu: K,
    speed: Option<u32>,
    temperature: Option<u32>,
    samples: Seq<GpuSample<K>>,
)
    requires
        speeds_in_range(state),
    ensures
        speeds_in_range(state.after_request(gpu, speed)),
        order_in_range(state.request_order(gpu, speed)),
        order_in_range(state.temperature_order(gpu, temperature)),
        speeds_in_range(state.after_tick(samples)),
        forall|i: int|
            0 <= i < state.temperature_orders(samples).len() ==> order_in_range(
                Some(#[trigger] state.temperature_orders(samples)[i]),
            ),
{
    lemma_orders_in_range(state, samples);
    let warned = state.after_temperatures(samples);
    lemma_temperatures_frame(state, samples);
    lemma_loads_frame(warned, samples);
    let next = state.after_tick(samples);
    assert forall|k: K| #[trigger] next.overrides.contains_key(k) implies next.overrides[k]
        <= 100 by {
        lemma_released_all(warned.after_loads(samples), warned.due(samples), k);
        assert(next.overrides.get(k) == state.overrides.get(k));
    }
}

proof fn lemma_orders_in_range<K>(state: BankState<K>, samples: Seq<GpuSample<K>>)
    requires
        speeds_in_range(state),
    ensures
        forall|i: int|
            0 <= i < state.temperature_orders(samples).len() ==> order_in_range(
                Some(#[trigger] state.temperature_orders(samples)[i]),
            ),
    decreases samples.len(),
{
    if samples.len() > 0 {
        let rest = samples.drop_last();
        let orders = state.temperature_orders(samples);
        lemma_orders_in_range(state, rest);
        lemma_temperatures_frame(state, rest);
        let reached = state.after_temperatures(rest);
        let gpu = samples.last().gpu;
        assert(order_in_range(reached.temperature_order(gpu, samples.last().temperature)));
        assert forall|i: int| 0 <= i < orders.len() implies order_in_range(
            Some(#[trigger] orders[i]),
        ) by {
            if i < state.temperature_orders(rest).len() {
                assert(orders[i] == state.temperature_orders(rest)[i]);
            }
        }
    }
}

/// A look at the temperatures changes neither overrides nor counts.
pub proof fn lemma_temperatures_frame<K>(state: BankState<K>, samples: Seq<GpuSample<K>>)
    ensures
        state.after_temperatures(samples).overrides == state.overrides,
        state.after_temperatures(samples).cooldown == state.cooldown,
    decreases samples.len(),
{
    if samples.len() > 0 {
        lemma_temperatures_frame(state, samples.drop_last());
    }
}

proof fn lemma_temperatures_elsewhere<K>(
    state: BankState<K>,
    samples: Seq<GpuSample<K>>,
    gpu: K,
)
    requires
        forall|i: int| 0 <= i < samples.len() ==> (#[trigger] samples[i]).gpu != gpu,
    ensures
        state.after_temperatures(samples).safety.contains(gpu) == state.safety.contains(gpu),
    decreases samples.len(),
{
    if samples.len() > 0 {
        lemma_temperatures_elsewhere(state, samples.drop_last(), gpu);
        assert(samples[samples.len() - 1].gpu != gpu);
    }
}

proof fn lemma_temperatures_of<K>(state: BankState<K>, samples: Seq<GpuSample<K>>, i: int)
    requires
        distinct_gpus(samples),
        0 <= i < samples.len(),
    ensures
        state.after_temperatures(samples).safety.contains(samples[i].gpu)
            == state.after_temperature(samples[i].gpu, samples[i].temperature).safety.contains(
            samples[i].gpu,
        ),
    decreases samples.len(),
{
    let rest = samples.drop_last();
    if i == samples.len() - 1 {
        lemma_temperatures_elsewhere(state, rest, samples[i].gpu);
    } else {
        lemma_temperatures_of(state, rest, i);
        assert(rest[i] == samples[i]);
        assert(samples[samples.len() - 1].gpu != samples[i].gpu);
    }
}

/// A look at the loads changes neither overrides nor safety.
pub proof fn lemma_loads_frame<K>(state: BankState<K>, samples: Seq<GpuSample<K>>)
    ensures
        state.after_loads(samples).overrides == state.overrides,
        state.after_loads(samples).safety == state.safety,
    decreases samples.len(),
{
    if samples.len() > 0 {
        lemma_loads_frame(state, samples.drop_last());
    }
}

proof fn lemma_loads_of<K>(state: BankState<K>, samples: Seq<GpuSample<K>>, i: int)
    requires
        distinct_gpus(samples),
        0 <= i < samples.len(),
    ensures
        state.after_loads(samples).cooldown.get(samples[i].gpu) == state.after_load(
            samples[i].gpu,
            samples[i].idle,
        ).cooldown.get(samples[i].gpu),
        state.due(samples).contains(samples[i].gpu) == state.load_is_due(
            samples[i].gpu,
            samples[i].idle,
        ),
    decreases samples.len(),
{
    let rest = samples.drop_last();
    let gpu = samples[i].gpu;
    let n = samples.len() - 1;
    lemma_loads_frame(state, rest);
    lemma_loads_elsewhere(state, rest, samples[n].gpu);
    if i == n {
        lemma_due_is_sampled(state, rest, gpu);
        if state.load_is_due(gpu, samples[i].idle) {
            assert(state.due(samples).last() == gpu);
            assert(state.due(samples)[state.due(samples).len() - 1] == gpu);
        }
    } else {
        lemma_loads_of(state, rest, i);
        assert(rest[i] == samples[i]);
        assert(samples[n].gpu != gpu);
        let due = state.due(rest);
        if state.due(samples) != due {
            assert(state.due(samples) == due.push(samples[n].gpu));
            if due.contains(gpu) {
                let j = choose|j: int| 0 <= j < due.len() && due[j] == gpu;
                assert(due.push(samples[n].gpu)[j] == gpu);
            }
        }
    }
}

proof fn lemma_due_is_sampled<K>(state: BankState<K>, samples: Seq<GpuSample<K>>, gpu: K)
    requires
        forall|i: int| 0 <= i < samples.len() ==> (#[trigger] samples[i]).gpu != gpu,
    ensures
        !state.due(samples).contains(gpu),
    decreases samples.len(),
{
    if samples.len() > 0 {
        lemma_due_is_sampled(state, samples.drop_last(), gpu);
        assert(samples[samples.len() - 1].gpu != gpu);
    }
}

proof fn lemma_released_all<K>(state: BankState<K>, gpus: Seq<K>, gpu: K)
    ensures
        state.released_all(gpus).safety == state.safety,
        state.released_all(gpus).overrides.get(gpu) == if gpus.contains(gpu) {
            None
        } else {
            state.overrides.get(gpu)
        },
        state.released_all(gpus).cooldown.get(gpu) == if gpus.contains(gpu) {
            None
        } else {
            state.cooldown.get(gpu)
        },
    decreases gpus.len(),
{
    if gpus.len() > 0 {
        let rest = gpus.drop_last();
        lemma_released_all(state, rest, gpu);
        assert(gpus =~= rest.push(gpus.last()));
        if rest.contains(gpu) {
            let j = choose|j: int| 0 <= j < rest.len() && rest[j] == gpu;
            assert(gpus[j] == gpu);
        }
        if gpus.last() == gpu {
            assert(gpus[gpus.len() - 1] == gpu);
        }
    }
}

/// A GPU in safety that is seen below 80 degrees leaves safety and is ordered exactly the
/// speed of its override, whatever its count of idle ticks, and automatic control where
/// it has no override.
pub proof fn law_cooled_gpu_gets_its_speed<K>(state: BankState<K>, gpu: K, t: u32)
    requires
        state.safety.contains(gpu),
        t < 80,
    ensures
        !state.after_temperature(gpu, Some(t)).safety.contains(gpu),
        state.overrides.contains_key(gpu) ==> state.temperature_order(gpu, Some(t)) == Some(
            (FanOrder::Apply { gpu, speed: state.overrides[gpu] }),
        ),
        !state.overrides.contains_key(gpu) ==> state.temperature_order(gpu, Some(t)) == Some(
            (FanOrder::Auto { gpu }),
        ),
{
}

/// Two banks that agree on the override and the safety of a GPU order the same at every
/// temperature, whatever else they hold.
pub proof fn law_order_rests_on_override_and_safety<K>(
    a: BankState<K>,
    b: BankState<K>,
    gpu: K,
    temperature: Option<u32>,
)
    requires
        a.overrides.get(gpu) == b.overrides.get(gpu),
        a.safety.contains(gpu) == b.safety.contains(gpu),
    ensures
        a.temperature_order(gpu, temperature) == b.temperature_order(gpu, temperature),
{
}

/// What a temperature does: from 85 degrees on the GPU is in safety, and full speed is
/// ordered where it was not; below 80 it is out of safety, and nothing is ordered where
/// it was out before; in between, and where the temperature is not known, nothing
/// happens. Other GPUs, overrides and counts are left alone.
pub proof fn law_temperature_in_degrees<K>(state: BankState<K>, gpu: K, other: K, t: u32)
    requires
        other != gpu,
    ensures
        ({
            let next = state.after_temperature(gpu, Some(t));
            let order = state.temperature_order(gpu, Some(t));
            let was = state.safety.contains(gpu);
            &&& next.safety.contains(gpu) == (t >= 85 || (was && t >= 80))
            &&& t >= 85 && !was ==> order == Some((FanOrder::Apply { gpu, speed: 100 }))
            &&& t >= 85 && was ==> order is None
            &&& 80 <= t < 85 ==> order is None
            &&& t < 80 && !was ==> order is None
            &&& t < 80 && was ==> order is Some
            &&& next.safety.contains(other) == state.safety.contains(other)
            &&& next.overrides == state.overrides
            &&& next.cooldown == state.cooldown
        }),
        state.after_temperature(gpu, None) == state,
        state.temperature_order(gpu, None) is None,
{
}

/// A request for a speed of at most 100 percent leaves the override at exactly that
/// speed, and one for more at 100; out of safety exactly the override is ordered, and in
/// safety nothing. The count of idle ticks starts anew.
pub proof fn law_request_in_percent<K>(state: BankState<K>, gpu: K, speed: u32)
    ensures
        ({
            let next = state.after_request(gpu, Some(speed));
            let order = state.request_order(gpu, Some(speed));
            &&& speed <= 100 ==> next.overrides.get(gpu) == Some(speed)
            &&& speed > 100 ==> next.overrides.get(gpu) == Some(100u32)
            &&& !state.safety.contains(gpu) && speed <= 100 ==> order == Some(
                (FanOrder::Apply { gpu, speed }),
            )
            &&& !state.safety.contains(gpu) && speed > 100 ==> order == Some(
                (FanOrder::Apply { gpu, speed: 100 }),
            )
            &&& state.safety.contains(gpu) ==> order is None
            &&& next.safety == state.safety
            &&& next.cooldown.get(gpu) is None
        }),
{
}

/// A request for automatic control orders it in any state, and drops the override, the
/// count and the safety of the GPU.
pub proof fn law_auto_is_ordered<K>(state: BankState<K>, gpu: K)
    ensures
        state.request_order(gpu, None) == Some((FanOrder::Auto { gpu })),
        state.after_request(gpu, None).overrides.get(gpu) is None,
        state.after_request(gpu, None).cooldown.get(gpu) is None,
        !state.after_request(gpu, None).safety.contains(gpu),
{
}

/// Of two speeds up to 100 percent, the greater request leaves the greater override.
pub proof fn law_requests_keep_their_order<K>(state: BankState<K>, gpu: K, low: u32, high: u32)
    requires
        low < high <= 100,
    ensures
        state.after_request(gpu, Some(low)).overrides[gpu] < state.after_request(
            gpu,
            Some(high),
        ).overrides[gpu],
{
}

/// The idle ticks counted on a GPU, zero where none are.
pub open spec fn ticks_of<K>(state: BankState<K>, gpu: K) -> int {
    match state.cooldown.get(gpu) {
        Some(n) => n as int,
        None => 0,
    }
}

/// What a load does: an idle GPU with an override has one tick more, and its override is
/// due from the thirtieth on; a busy GPU, or one without an override, has no count; where
/// the load is not known nothing happens. Other GPUs, overrides and safety are left
/// alone.
pub proof fn law_load_in_ticks<K>(state: BankState<K>, gpu: K, other: K)
    requires
        ticks_of(state, gpu) < u32::MAX,
        other != gpu,
    ensures
        ({
            let idle = state.after_load(gpu, Some(true));
            let busy = state.after_load(gpu, Some(false));
            let owned = state.overrides.contains_key(gpu);
            &&& owned ==> idle.cooldown.contains_key(gpu) && idle.cooldown[gpu] == ticks_of(
                state,
                gpu,
            ) + 1
            &&& !owned ==> idle.cooldown.get(gpu) is None
            &&& busy.cooldown.get(gpu) is None
            &&& state.load_is_due(gpu, Some(true)) == (owned && ticks_of(state, gpu) >= 29)
            &&& !state.load_is_due(gpu, Some(false))
            &&& idle.cooldown.get(other) == state.cooldown.get(other)
            &&& busy.cooldown.get(other) == state.cooldown.get(other)
            &&& idle.overrides == state.overrides && idle.safety == state.safety
            &&& busy.overrides == state.overrides && busy.safety == state.safety
        }),
        state.after_load(gpu, None) == state,
        !state.load_is_due(gpu, None),
{
}

/// What a whole tick does to a GPU that it has a sample of. Safety follows the
/// temperature: on from 85 degrees, off below 80, else as it was. The override goes with
/// the thirtieth idle tick in a row and stays otherwise; the count goes up with an idle
/// tick and starts anew with a busy one.
pub proof fn law_tick_in_numbers<K>(state: BankState<K>, samples: Seq<GpuSample<K>>, i: int)
    requires
        distinct_gpus(samples),
        0 <= i < samples.len(),
        ticks_of(state, samples[i].gpu) < u32::MAX,
    ensures
        ({
            let gpu = samples[i].gpu;
            let next = state.after_tick(samples);
            let owned = state.overrides.contains_key(gpu);
            &&& next.safety.contains(gpu) == match samples[i].temperature {
                Some(t) => t >= 85 || (t >= 80 && state.safety.contains(gpu)),
                None => state.safety.contains(gpu),
            }
            &&& match samples[i].idle {
                Some(true) => if owned && ticks_of(state, gpu) < 29 {
                    next.overrides.get(gpu) == state.overrides.get(gpu) && ticks_of(next, gpu)
                        == ticks_of(state, gpu) + 1
                } else {
                    next.overrides.get(gpu) is None && next.cooldown.get(gpu) is None
                },
                Some(false) => next.overrides.get(gpu) == state.overrides.get(gpu)
                    && next.cooldown.get(gpu) is None,
                None => next.overrides.get(gpu) == state.overrides.get(gpu) && next.cooldown.get(
                    gpu,
                ) == state.cooldown.get(gpu),
            }
        }),
{
    law_tick_of_sampled(state, samples, i);
}

/// Between ticks every count lies in 1 to 29, and only overridden GPUs are counted.
pub proof fn law_counts_lie_below_thirty<K>(state: BankState<K>, gpu: K)
    requires
        state.wf(),
        state.cooldown.contains_key(gpu),
    ensures
        state.overrides.contains_key(gpu),
        1 <= state.cooldown[gpu] <= 29,
{
}

/// The overrides that end with a look at the loads are those of the idle GPUs that were
/// idle for 29 ticks before, in the order of the samples.
pub proof fn law_due_are_per_sample<K>(state: BankState<K>, samples: Seq<GpuSample<K>>)
    requires
        distinct_gpus(samples),
    ensures
        state.due(samples) == samples.filter_map(
            |s: GpuSample<K>|
                if s.idle == Some(true) && state.overrides.contains_key(s.gpu) && ticks_of(
                    state,
                    s.gpu,
                ) >= 29 {
                    Some(s.gpu)
                } else {
                    None
                },
        ),
    decreases samples.len(),
{
    let f = |s: GpuSample<K>|
        if s.idle == Some(true) && state.overrides.contains_key(s.gpu) && ticks_of(state, s.gpu)
            >= 29 {
            Some(s.gpu)
        } else {
            None
        };
    if samples.len() > 0 {
        let rest = samples.drop_last();
        law_due_are_per_sample(state, rest);
        assert(state.due(rest) == rest.filter_map(f));
        lemma_loads_elsewhere(state, rest, samples.last().gpu);
        lemma_loads_frame(state, rest);
        assert(state.due(samples) =~= samples.filter_map(f));
    } else {
        assert(state.due(samples) =~= samples.filter_map(f));
    }
}

/// Dropping overrides drops those of the given GPUs, with their counts, and no other,
/// and leaves safety alone.
pub proof fn law_released_are_dropped<K>(state: BankState<K>, gpus: Seq<K>, gpu: K)
    ensures
        gpus.contains(gpu) ==> state.released_all(gpus).overrides.get(gpu) is None
            && state.released_all(gpus).cooldown.get(gpu) is None,
        !gpus.contains(gpu) ==> state.released_all(gpus).overrides.get(gpu)
            == state.overrides.get(gpu) && state.released_all(gpus).cooldown.get(gpu)
            == state.cooldown.get(gpu),
        state.released_all(gpus).safety == state.safety,
{
    lemma_released_all(state, gpus, gpu);
}

/// A bank that starts has the given overrides, and no GPU in safety or cooling down.
pub proof fn law_fresh_holds_overrides_alone<K>(overrides: Map<K, u32>, gpu: K)
    ensures
        BankState::fresh(overrides).overrides == overrides,
        !BankState::fresh(overrides).safety.contains(gpu),
        BankState::fresh(overrides).cooldown.get(gpu) is None,
{
}

/// Of the entries for a GPU the last counts.
pub proof fn law_last_entry_counts<K>(entries: Seq<(K, u32)>, i: int)
    requires
        0 <= i < entries.len(),
        forall|j: int| i < j < entries.len() ==> (#[trigger] entries[j]).0 != entries[i].0,
    ensures
        speeds_of(entries).get(entries[i].0) == Some(entries[i].1),
    decreases entries.len(),
{
    let rest = entries.drop_last();
    let n = entries.len() - 1;
    if i < n {
        assert(entries[n].0 != entries[i].0);
        assert(forall|j: int| 0 <= j < n ==> #[trigger] rest[j] == entries[j]);
        law_last_entry_counts(rest, i);
    }
}

/// A GPU without an entry has no speed.
pub proof fn law_unlisted_gpu_has_no_speed<K>(entries: Seq<(K, u32)>, gpu: K)
    requires
        forall|j: int| 0 <= j < entries.len() ==> (#[trigger] entries[j]).0 != gpu,
    ensures
        speeds_of(entries).get(gpu) is None,
{
    lemma_speeds(entries, gpu);
}

/// A list of speeds has one entry for each GPU with a speed, with exactly that speed,
/// and none for any other.
pub proof fn law_list_is_exact<K>(entries: Seq<(K, u32)>, speeds: Map<K, u32>, gpu: K)
    requires
        lists(entries, speeds),
    ensures
        entries.no_duplicates(),
        speeds.contains_key(gpu) <==> exists|i: int|
            0 <= i < entries.len() && (#[trigger] entries[i]).0 == gpu,
        forall|i: int|
            0 <= i < entries.len() ==> speeds.get((#[trigger] entries[i]).0) == Some(entries[i].1),
        forall|i: int, j: int|
            0 <= i < j < entries.len() ==> (#[trigger] entries[i]).0 != (#[trigger] entries[j]).0,
{
    lemma_speeds(entries, gpu);
    assert forall|i: int| 0 <= i < entries.len() implies speeds.get((#[trigger] entries[i]).0)
        == Some(entries[i].1) by {
        lemma_speeds(entries, entries[i].0);
        let k = choose|k: int|
            0 <= k < entries.len() && #[trigger] entries[k] == (
                entries[i].0,
                speeds_of(entries)[entries[i].0],
            );
        if k != i {
            assert(entries[k].0 == entries[i].0);
        }
    }
}

} // verus!
