//! Fan state of one family of GPUs: the speeds a user asked for, the GPUs that
//! run at full speed because they are hot, and how long each overridden GPU has
//! been idle.

use std::collections::{HashMap, HashSet};
use std::hash::Hash;
use vstd::prelude::*;
use vstd::std_specs::hash::*;
use vstd::std_specs::iter::IteratorSpec;

verus! {

/// Temperature in degrees Celsius from which a GPU is driven at full fan speed.
pub const SAFETY_ON_TEMP: u32 = 85;

/// Temperature in degrees Celsius below which full fan speed ends.
pub const SAFETY_OFF_TEMP: u32 = 80;

/// Full fan speed in percent.
pub const FULL_SPEED: u32 = 100;

/// Number of idle ticks in a row after which an override is dropped.
pub const COOLDOWN_LIMIT: u32 = 30;

/// What a fan controller is told to do with the fans of one GPU.
#[derive(Debug, PartialEq, Eq)]
pub enum FanOrder<K> {
    /// Run the fans of `gpu` at `speed` percent.
    Apply { gpu: K, speed: u32 },
    /// Hand the fans of `gpu` back to the driver.
    Auto { gpu: K },
}

/// What one tick knows about one GPU: its key, its temperature in whole degrees
/// Celsius, and whether its load counts as idle.
pub struct GpuSample<K> {
    pub gpu: K,
    pub temperature: Option<u32>,
    pub idle: Option<bool>,
}

/// The mathematical content of a [`FanBank`].
#[verifier::ext_equal]
#[verifier::reject_recursive_types(K)]
pub struct BankState<K> {
    /// The speed asked for, for each GPU with an override.
    pub overrides: Map<K, u32>,
    /// The GPUs at full speed for safety.
    pub safety: Set<K>,
    /// The idle ticks counted so far, for each GPU that is cooling down.
    pub cooldown: Map<K, u32>,
}

impl<K> BankState<K> {
    /// The state with the given overrides, no GPU in safety and none cooling down.
    pub open spec fn fresh(overrides: Map<K, u32>) -> Self {
        BankState { overrides, safety: Set::empty(), cooldown: Map::empty() }
    }

    /// Only overridden GPUs are counted, and each count lies in `1..=limit`.
    pub open spec fn counts_within(self, limit: u32) -> bool {
        forall|k: K| #[trigger]
            self.cooldown.contains_key(k) ==> self.overrides.contains_key(k) && 1
                <= self.cooldown[k] <= limit
    }

    /// What holds of a bank between ticks: every count is below the limit.
    pub open spec fn wf(self) -> bool {
        self.counts_within((COOLDOWN_LIMIT - 1) as u32)
    }

    /// The order that gives `gpu` what its owner asked for.
    pub open spec fn wanted(self, gpu: K) -> FanOrder<K> {
        if self.overrides.contains_key(gpu) {
            FanOrder::Apply { gpu, speed: self.overrides[gpu] }
        } else {
            FanOrder::Auto { gpu }
        }
    }

    /// The state after `gpu` was seen at `temperature`.
    pub open spec fn after_temperature(self, gpu: K, temperature: Option<u32>) -> Self {
        match temperature {
            Some(t) => if t >= SAFETY_ON_TEMP {
                BankState { safety: self.safety.insert(gpu), ..self }
            } else if t < SAFETY_OFF_TEMP {
                BankState { safety: self.safety.remove(gpu), ..self }
            } else {
                self
            },
            None => self,
        }
    }

    /// The order that follows from `gpu` being seen at `temperature`.
    pub open spec fn temperature_order(self, gpu: K, temperature: Option<u32>) -> Option<
        FanOrder<K>,
    > {
        match temperature {
            Some(t) => if t >= SAFETY_ON_TEMP && !self.safety.contains(gpu) {
                Some(FanOrder::Apply { gpu, speed: FULL_SPEED })
            } else if t < SAFETY_OFF_TEMP && self.safety.contains(gpu) {
                Some(self.wanted(gpu))
            } else {
                None
            },
            None => None,
        }
    }

    /// The idle ticks of `gpu` once one more is counted.
    pub open spec fn next_count(self, gpu: K) -> int {
        if self.cooldown.contains_key(gpu) {
            self.cooldown[gpu] + 1
        } else {
            1
        }
    }

    /// The state after the load of `gpu` was seen to be idle, busy or unknown.
    pub open spec fn after_load(self, gpu: K, idle: Option<bool>) -> Self {
        match idle {
            Some(true) if self.overrides.contains_key(gpu) => BankState {
                cooldown: self.cooldown.insert(gpu, self.next_count(gpu) as u32),
                ..self
            },
            Some(_) => BankState { cooldown: self.cooldown.remove(gpu), ..self },
            None => self,
        }
    }

    /// Whether seeing the load of `gpu` ends its override.
    pub open spec fn load_is_due(self, gpu: K, idle: Option<bool>) -> bool {
        idle == Some(true) && self.overrides.contains_key(gpu) && self.next_count(gpu)
            >= COOLDOWN_LIMIT
    }

    /// The state after one look at the temperatures of all GPUs.
    pub open spec fn after_temperatures(self, samples: Seq<GpuSample<K>>) -> Self
        decreases samples.len(),
    {
        if samples.len() == 0 {
            self
        } else {
            self.after_temperatures(samples.drop_last()).after_temperature(
                samples.last().gpu,
                samples.last().temperature,
            )
        }
    }

    /// The orders that follow from one look at the temperatures of all GPUs.
    pub open spec fn temperature_orders(self, samples: Seq<GpuSample<K>>) -> Seq<FanOrder<K>>
        decreases samples.len(),
    {
        if samples.len() == 0 {
            Seq::empty()
        } else {
            let rest = self.temperature_orders(samples.drop_last());
            match self.after_temperatures(samples.drop_last()).temperature_order(
                samples.last().gpu,
                samples.last().temperature,
            ) {
                Some(order) => rest.push(order),
                None => rest,
            }
        }
    }

    /// The state after one look at the loads of all GPUs.
    pub open spec fn after_loads(self, samples: Seq<GpuSample<K>>) -> Self
        decreases samples.len(),
    {
        if samples.len() == 0 {
            self
        } else {
            self.after_loads(samples.drop_last()).after_load(
                samples.last().gpu,
                samples.last().idle,
            )
        }
    }

    /// The GPUs whose overrides end with one look at the loads of all GPUs.
    pub open spec fn due(self, samples: Seq<GpuSample<K>>) -> Seq<K>
        decreases samples.len(),
    {
        if samples.len() == 0 {
            Seq::empty()
        } else {
            let rest = self.due(samples.drop_last());
            if self.after_loads(samples.drop_last()).load_is_due(
                samples.last().gpu,
                samples.last().idle,
            ) {
                rest.push(samples.last().gpu)
            } else {
                rest
            }
        }
    }

    /// The state once the overrides of all `gpus` have been dropped.
    pub open spec fn released_all(self, gpus: Seq<K>) -> Self
        decreases gpus.len(),
    {
        if gpus.len() == 0 {
            self
        } else {
            self.released_all(gpus.drop_last()).released(gpus.last())
        }
    }

    /// The state after a whole tick.
    pub open spec fn after_tick(self, samples: Seq<GpuSample<K>>) -> Self {
        let warned = self.after_temperatures(samples);
        warned.after_loads(samples).released_all(warned.due(samples))
    }

    /// The state once the override of `gpu` has been dropped.
    pub open spec fn released(self, gpu: K) -> Self {
        BankState {
            overrides: self.overrides.remove(gpu),
            cooldown: self.cooldown.remove(gpu),
            ..self
        }
    }

    /// The state after a user asked for `speed` on `gpu`, or for none.
    pub open spec fn after_request(self, gpu: K, speed: Option<u32>) -> Self {
        match speed {
            Some(s) => BankState {
                overrides: self.overrides.insert(gpu, capped(s)),
                cooldown: self.cooldown.remove(gpu),
                ..self
            },
            None => BankState {
                overrides: self.overrides.remove(gpu),
                safety: self.safety.remove(gpu),
                cooldown: self.cooldown.remove(gpu),
            },
        }
    }

    /// The order that follows from a user asking for `speed` on `gpu`.
    pub open spec fn request_order(self, gpu: K, speed: Option<u32>) -> Option<FanOrder<K>> {
        match speed {
            Some(s) => if self.safety.contains(gpu) {
                None
            } else {
                Some(FanOrder::Apply { gpu, speed: capped(s) })
            },
            None => Some(FanOrder::Auto { gpu }),
        }
    }
}

/// No two samples are of the same GPU.
pub open spec fn distinct_gpus<K>(samples: Seq<GpuSample<K>>) -> bool {
    forall|i: int, j: int|
        0 <= i < j < samples.len() ==> (#[trigger] samples[i]).gpu != (#[trigger] samples[j]).gpu
}

/// Whether `entries` lists each GPU of `speeds` once, with its speed, and no other.
pub open spec fn lists<K>(entries: Seq<(K, u32)>, speeds: Map<K, u32>) -> bool {
    &&& speeds_of(entries) == speeds
    &&& forall|i: int, j: int|
        0 <= i < j < entries.len() ==> (#[trigger] entries[i]).0 != (#[trigger] entries[j]).0
}

/// A requested speed, cut off at full speed.
pub open spec fn capped(speed: u32) -> u32 {
    if speed < FULL_SPEED {
        speed
    } else {
        FULL_SPEED
    }
}

/// Fan state of the GPUs that are told apart by keys of type `K`.
#[verifier::reject_recursive_types(K)]
pub struct FanBank<K> {
    overrides: HashMap<K, u32>,
    safety: HashSet<K>,
    cooldown: HashMap<K, u32>,
}

impl<K> View for FanBank<K> {
    type V = BankState<K>;

    closed spec fn view(&self) -> BankState<K> {
        BankState {
            overrides: self.overrides@,
            safety: self.safety@,
            cooldown: self.cooldown@,
        }
    }
}

impl<K: Copy + Eq + Hash> FanBank<K> {
    /// Starts from the given speeds; of two entries for one GPU the later counts.
    pub fn restore(saved: &[(K, u32)]) -> (bank: Self)
        requires
            obeys_key_model::<K>(),
        ensures
            bank@ == BankState::fresh(speeds_of(saved@)),
    {
        broadcast use group_hash_axioms;

        let mut overrides: HashMap<K, u32> = HashMap::new();
        let mut i: usize = 0;
        while i < saved.len()
            invariant
                i <= saved.len(),
                obeys_key_model::<K>(),
                overrides@ == speeds_of(saved@.take(i as int)),
            decreases saved.len() - i,
        {
            let (gpu, speed) = saved[i];
            overrides.insert(gpu, speed);
            assert(saved@.take(i + 1).drop_last() =~= saved@.take(i as int));
            i += 1;
        }
        assert(saved@.take(i as int) =~= saved@);
        FanBank { overrides, safety: HashSet::new(), cooldown: HashMap::new() }
    }

    /// Whether `gpu` runs at full speed for safety.
    pub fn in_safety(&self, gpu: K) -> (b: bool)
        requires
            obeys_key_model::<K>(),
        ensures
            b == self@.safety.contains(gpu),
    {
        broadcast use group_hash_axioms;

        self.safety.contains(&gpu)
    }

    /// The speed asked for on `gpu`.
    pub fn override_of(&self, gpu: K) -> (speed: Option<u32>)
        requires
            obeys_key_model::<K>(),
        ensures
            speed == self@.overrides.get(gpu),
    {
        broadcast use group_hash_axioms;

        match self.overrides.get(&gpu) {
            Some(s) => Some(*s),
            None => None,
        }
    }

    /// The idle ticks counted on `gpu`.
    pub fn cooldown_of(&self, gpu: K) -> (ticks: Option<u32>)
        requires
            obeys_key_model::<K>(),
        ensures
            ticks == self@.cooldown.get(gpu),
    {
        broadcast use group_hash_axioms;

        match self.cooldown.get(&gpu) {
            Some(t) => Some(*t),
            None => None,
        }
    }

    /// Takes note of the temperature of `gpu`, and returns the order that follows.
    pub fn see_temperature(&mut self, gpu: K, temperature: Option<u32>) -> (order: Option<
        FanOrder<K>,
    >)
        requires
            obeys_key_model::<K>(),
        ensures
            final(self)@ == old(self)@.after_temperature(gpu, temperature),
            order == old(self)@.temperature_order(gpu, temperature),
    {
        broadcast use group_hash_axioms;

        let temp = match temperature {
            Some(t) => t,
            None => {
                return None;
            },
        };
        if temp >= SAFETY_ON_TEMP {
            if self.safety.insert(gpu) {
                return Some(FanOrder::Apply { gpu, speed: FULL_SPEED });
            }
        } else if temp < SAFETY_OFF_TEMP && self.safety.remove(&gpu) {
            return match self.override_of(gpu) {
                Some(speed) => Some(FanOrder::Apply { gpu, speed }),
                None => Some(FanOrder::Auto { gpu }),
            };
        }
        None
    }

    /// Takes note of the load of `gpu`, and returns whether its override is due to end.
    pub fn see_load(&mut self, gpu: K, idle: Option<bool>) -> (due: bool)
        requires
            obeys_key_model::<K>(),
            old(self)@.next_count(gpu) <= u32::MAX,
        ensures
            final(self)@ == old(self)@.after_load(gpu, idle),
            due == old(self)@.load_is_due(gpu, idle),
    {
        broadcast use group_hash_axioms;

        let idle = match idle {
            Some(b) => b,
            None => {
                return false;
            },
        };
        if idle && self.overrides.contains_key(&gpu) {
            let ticks: u32 = match self.cooldown_of(gpu) {
                Some(t) => t + 1,
                None => 1,
            };
            self.cooldown.insert(gpu, ticks);
            ticks >= COOLDOWN_LIMIT
        } else {
            self.cooldown.remove(&gpu);
            false
        }
    }

    /// Takes one look at the temperatures of all GPUs, and returns the orders that follow.
    pub fn see_temperatures(&mut self, samples: &[GpuSample<K>]) -> (orders: Vec<FanOrder<K>>)
        requires
            obeys_key_model::<K>(),
        ensures
            final(self)@ == old(self)@.after_temperatures(samples@),
            orders@ == old(self)@.temperature_orders(samples@),
    {
        let ghost start = self@;
        let mut orders: Vec<FanOrder<K>> = Vec::new();
        let mut i: usize = 0;
        while i < samples.len()
            invariant
                i <= samples.len(),
                obeys_key_model::<K>(),
                self@ == start.after_temperatures(samples@.take(i as int)),
                orders@ == start.temperature_orders(samples@.take(i as int)),
            decreases samples.len() - i,
        {
            assert(samples@.take(i + 1).drop_last() =~= samples@.take(i as int));
            if let Some(order) = self.see_temperature(samples[i].gpu, samples[i].temperature) {
                orders.push(order);
            }
            i += 1;
        }
        assert(samples@.take(i as int) =~= samples@);
        orders
    }

    /// Takes one look at the loads of all GPUs, and returns the GPUs whose overrides
    /// are due to end.
    pub fn see_loads(&mut self, samples: &[GpuSample<K>]) -> (due: Vec<K>)
        requires
            obeys_key_model::<K>(),
            old(self)@.wf(),
            distinct_gpus(samples@),
        ensures
            final(self)@ == old(self)@.after_loads(samples@),
            due@ == old(self)@.due(samples@),
    {
        let ghost start = self@;
        let mut due: Vec<K> = Vec::new();
        let mut i: usize = 0;
        while i < samples.len()
            invariant
                i <= samples.len(),
                obeys_key_model::<K>(),
                start.wf(),
                distinct_gpus(samples@),
                self@ == start.after_loads(samples@.take(i as int)),
                due@ == start.due(samples@.take(i as int)),
            decreases samples.len() - i,
        {
            proof {
                assert(samples@.take(i + 1).drop_last() =~= samples@.take(i as int));
                lemma_loads_elsewhere(start, samples@.take(i as int), samples@[i as int].gpu);
            }
            if self.see_load(samples[i].gpu, samples[i].idle) {
                due.push(samples[i].gpu);
            }
            i += 1;
        }
        assert(samples@.take(i as int) =~= samples@);
        due
    }

    /// The overrides as a list, in no particular order.
    pub fn saved(&self) -> (entries: Vec<(K, u32)>)
        requires
            obeys_key_model::<K>(),
        ensures
            lists(entries@, self@.overrides),
    {
        broadcast use group_hash_axioms;

        let mut entries: Vec<(K, u32)> = Vec::new();
        for entry in it: self.overrides.iter()
            invariant
                obeys_key_model::<K>(),
                it.seq() == spec_hash_map_iter(&self.overrides).remaining(),
                entries@.len() == it.index(),
                forall|i: int|
                    0 <= i < entries@.len() ==> #[trigger] entries@[i] == (
                        *it.seq()[i].0,
                        *it.seq()[i].1,
                    ),
        {
            let (gpu, speed) = entry;
            entries.push((*gpu, *speed));
        }
        proof {
            let walked = spec_hash_map_iter(&self.overrides).remaining();
            assert(entries@ =~= walked.unref());
            assert forall|k: K| #[trigger] self.overrides@.contains_key(k) implies entries@.contains(
                (k, self.overrides@[k]),
            ) by {
                assert(walked.contains((&k, &self.overrides@[k])));
                let i = choose|i: int|
                    0 <= i < walked.len() && walked[i] == (&k, &self.overrides@[k]);
                assert(entries@[i] == (k, self.overrides@[k]));
            }
            lemma_lists(entries@, self.overrides@);
        }
        entries
    }

    /// Drops the override of `gpu`.
    pub fn release(&mut self, gpu: K)
        requires
            obeys_key_model::<K>(),
        ensures
            final(self)@ == old(self)@.released(gpu),
    {
        broadcast use group_hash_axioms;

        self.overrides.remove(&gpu);
        self.cooldown.remove(&gpu);
    }

    /// Carries out a user's request for `speed` on `gpu`, where `None` asks for
    /// automatic control, and returns the order that follows.
    pub fn request(&mut self, gpu: K, speed: Option<u32>) -> (order: Option<FanOrder<K>>)
        requires
            obeys_key_model::<K>(),
        ensures
            final(self)@ == old(self)@.after_request(gpu, speed),
            order == old(self)@.request_order(gpu, speed),
    {
        broadcast use group_hash_axioms;

        match speed {
            Some(s) => {
                let s: u32 = if s < FULL_SPEED {
                    s
                } else {
                    FULL_SPEED
                };
                self.overrides.insert(gpu, s);
                self.cooldown.remove(&gpu);
                if self.safety.contains(&gpu) {
                    None
                } else {
                    Some(FanOrder::Apply { gpu, speed: s })
                }
            },
            None => {
                self.overrides.remove(&gpu);
                self.safety.remove(&gpu);
                self.cooldown.remove(&gpu);
                Some(FanOrder::Auto { gpu })
            },
        }
    }
}

/// A look at the loads of some GPUs does not touch what is known of another.
pub proof fn lemma_loads_elsewhere<K>(state: BankState<K>, samples: Seq<GpuSample<K>>, gpu: K)
    requires
        forall|i: int| 0 <= i < samples.len() ==> (#[trigger] samples[i]).gpu != gpu,
    ensures
        state.after_loads(samples).cooldown.contains_key(gpu) == state.cooldown.contains_key(gpu),
        state.after_loads(samples).cooldown[gpu] == state.cooldown[gpu],
        state.after_loads(samples).overrides == state.overrides,
        state.after_loads(samples).safety == state.safety,
    decreases samples.len(),
{
    if samples.len() > 0 {
        lemma_loads_elsewhere(state, samples.drop_last(), gpu);
        assert(samples[samples.len() - 1].gpu != gpu);
    }
}

/// A list without repetition that holds the speeds of `speeds` and nothing else.
proof fn lemma_lists<K>(entries: Seq<(K, u32)>, speeds: Map<K, u32>)
    requires
        entries.no_duplicates(),
        forall|i: int|
            0 <= i < entries.len() ==> speeds.contains_key((#[trigger] entries[i]).0)
                && speeds[entries[i].0] == entries[i].1,
        forall|k: K| #[trigger] speeds.contains_key(k) ==> entries.contains((k, speeds[k])),
    ensures
        lists(entries, speeds),
{
    assert forall|i: int, j: int| 0 <= i < j < entries.len() implies (#[trigger] entries[i]).0
        != (#[trigger] entries[j]).0 by {
        if entries[i].0 == entries[j].0 {
            assert(entries[i] == entries[j]);
        }
    }
    assert forall|k: K| #[trigger]
        speeds_of(entries).dom().contains(k) == speeds.dom().contains(k) by {
        lemma_speeds(entries, k);
        if speeds.contains_key(k) {
            let i = choose|i: int| 0 <= i < entries.len() && entries[i] == (k, speeds[k]);
            assert(entries[i].0 == k);
        }
    }
    assert forall|k: K| speeds.dom().contains(k) implies #[trigger] speeds_of(entries)[k]
        == speeds[k] by {
        lemma_speeds(entries, k);
    }
    assert(speeds_of(entries).dom() =~= speeds.dom());
    assert(speeds_of(entries) =~= speeds);
}

/// A list gives a speed to the GPUs that it names, and one that it names for them.
pub proof fn lemma_speeds<K>(entries: Seq<(K, u32)>, gpu: K)
    ensures
        speeds_of(entries).contains_key(gpu) <==> exists|i: int|
            0 <= i < entries.len() && (#[trigger] entries[i]).0 == gpu,
        speeds_of(entries).contains_key(gpu) ==> exists|i: int|
            0 <= i < entries.len() && #[trigger] entries[i] == (gpu, speeds_of(entries)[gpu]),
    decreases entries.len(),
{
    if entries.len() > 0 {
        let rest = entries.drop_last();
        let n = entries.len() - 1;
        lemma_speeds(rest, gpu);
        assert(entries[n] == entries.last());
        assert(forall|i: int| 0 <= i < n ==> #[trigger] entries[i] == rest[i]);
        if entries.last().0 != gpu && speeds_of(rest).contains_key(gpu) {
            let i = choose|i: int|
                0 <= i < rest.len() && #[trigger] rest[i] == (gpu, speeds_of(rest)[gpu]);
            assert(entries[i] == (gpu, speeds_of(entries)[gpu]));
        }
    }
}

/// The speed that a list of entries gives each GPU; the last entry for a GPU counts.
pub open spec fn speeds_of<K>(entries: Seq<(K, u32)>) -> Map<K, u32>
    decreases entries.len(),
{
    if entries.len() == 0 {
        Map::empty()
    } else {
        speeds_of(entries.drop_last()).insert(entries.last().0, entries.last().1)
    }
}

} // verus!
