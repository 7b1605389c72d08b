//! AMD adapters as the display library lists them, and the fan settings that it
//! takes and gives.

use vstd::prelude::*;
use vstd::string::StringExecFns;
use vstd::utf8::encode_utf8;
use crate::bytes::{decode_ansi, law_narrow_text_reads_back, narrow_field};
use crate::sequences::{lemma_mapped, numbers};
use crate::text::{decimal, decimal_text, is_space, law_trim, trimmed, utf8_lossy};

verus! {

/// The PCI vendor number of AMD.
pub const AMD_VENDOR: i32 = 0x1002;

/// What the library reads of an adapter record.
pub struct AdlAdapterInfo {
    pub i_adapter_index: i32,
    pub i_vendor_id: i32,
    pub str_adapter_name: [u8; 256],
    pub i_present: i32,
}

impl AdlAdapterInfo {
    /// The name in the record: its bytes before the first zero, as text without
    /// white space at either end.
    pub open spec fn name(self) -> Seq<char> {
        trimmed(utf8_lossy(narrow_field(self.str_adapter_name@, 256)))
    }

    /// Whether this is an AMD adapter that is present.
    pub open spec fn usable(self) -> bool {
        self.i_vendor_id == AMD_VENDOR && self.i_present != 0
    }

    /// The name of the adapter.
    pub fn adapter_name(&self) -> (name: String)
        ensures
            name@ == self.name(),
    {
        let text = decode_ansi(self.str_adapter_name.as_slice(), 256);
        text.as_str().trim().to_owned()
    }
}

/// Fan settings of an adapter.
#[derive(Clone, Copy, Debug, PartialEq, Eq, Structural)]
pub struct AdlOdnFanControl {
    /// 0 for automatic, 1 for manual control.
    pub i_mode: i32,
    pub i_fan_control_mode: i32,
    /// 0 for a speed in turns per minute, 1 for one in percent.
    pub i_current_fan_speed_mode: i32,
    pub i_current_fan_speed: i32,
    pub i_target_fan_speed: i32,
    pub i_target_temperature: i32,
    pub i_min_performance_clock: i32,
    pub i_min_fan_limit: i32,
}

impl AdlOdnFanControl {
    /// Settings that are all zero.
    pub open spec fn zero() -> Self {
        AdlOdnFanControl {
            i_mode: 0,
            i_fan_control_mode: 0,
            i_current_fan_speed_mode: 0,
            i_current_fan_speed: 0,
            i_target_fan_speed: 0,
            i_target_temperature: 0,
            i_min_performance_clock: 0,
            i_min_fan_limit: 0,
        }
    }

    /// Settings for manual control at `pct` percent.
    pub open spec fn manual(pct: u32) -> Self {
        AdlOdnFanControl {
            i_mode: 1,
            i_fan_control_mode: 1,
            i_current_fan_speed_mode: 1,
            i_current_fan_speed: pct as i32,
            i_target_fan_speed: pct as i32,
            ..AdlOdnFanControl::zero()
        }
    }

    /// The speed in percent that the settings show, where they show one.
    pub open spec fn percent(self) -> Option<u32> {
        if self.i_current_fan_speed_mode == 1 {
            Some(clamped(self.i_current_fan_speed))
        } else if self.i_fan_control_mode == 1 {
            Some(clamped(self.i_target_fan_speed))
        } else {
            None
        }
    }
}

impl Default for AdlOdnFanControl {
    fn default() -> (ctrl: Self)
        ensures
            ctrl == AdlOdnFanControl::zero(),
    {
        AdlOdnFanControl {
            i_mode: 0,
            i_fan_control_mode: 0,
            i_current_fan_speed_mode: 0,
            i_current_fan_speed: 0,
            i_target_fan_speed: 0,
            i_target_temperature: 0,
            i_min_performance_clock: 0,
            i_min_fan_limit: 0,
        }
    }
}

/// A speed, cut off at 0 and at 100 percent.
pub open spec fn clamped(speed: i32) -> u32 {
    if speed < 0 {
        0
    } else if speed > 100 {
        100
    } else {
        speed as u32
    }
}

fn clamp_percent(speed: i32) -> (pct: u32)
    ensures
        pct == clamped(speed),
{
    if speed < 0 {
        0
    } else if speed > 100 {
        100
    } else {
        speed as u32
    }
}

/// The AMD adapters that the display library knows, in the order in which it lists
/// them: the number by which it knows each, and its name.
pub struct AdlFanControl {
    pub amd_adapters: Vec<(i32, String)>,
}

impl View for AdlFanControl {
    type V = Seq<(i32, Seq<char>)>;

    open spec fn view(&self) -> Seq<(i32, Seq<char>)> {
        entries(self.amd_adapters@)
    }
}

/// The contents of a sequence of adapter entries.
pub open spec fn entries(adapters: Seq<(i32, String)>) -> Seq<(i32, Seq<char>)> {
    adapters.map_values(|a: (i32, String)| (a.0, a.1@))
}

/// From an adapter record to the entry of an adapter, where it is usable.
pub open spec fn listed_adapter() -> spec_fn(AdlAdapterInfo) -> Option<(i32, Seq<char>)> {
    |info: AdlAdapterInfo|
        if info.usable() {
            Some((info.i_adapter_index, info.name()))
        } else {
            None
        }
}

/// From a number to the entry of the adapter, where it answered.
pub open spec fn probed_adapter(answers: Seq<bool>) -> spec_fn(int) -> Option<(i32, Seq<char>)> {
    |i: int|
        if answers[i] {
            Some((i as i32, "AMD GPU "@ + decimal_text(i as nat)))
        } else {
            None
        }
}

/// The adapters to work with: those of the records where there are records, else
/// those of the numbers that answered.
pub open spec fn adapters_of(listed: Option<Seq<AdlAdapterInfo>>, answers: Seq<bool>) -> Seq<
    (i32, Seq<char>),
> {
    match listed {
        Some(infos) => infos.filter_map(listed_adapter()),
        None => numbers(answers.len()).filter_map(probed_adapter(answers)),
    }
}

impl AdlFanControl {
    /// The number of adapters, where asking for it succeeded and there are any.
    pub fn adapter_count(ret: i32, num: i32) -> (count: Option<i32>)
        ensures
            count == if ret == 0 && num > 0 {
                Some(num)
            } else {
                None
            },
    {
        if ret != 0 || num <= 0 {
            None
        } else {
            Some(num)
        }
    }

    /// The AMD adapters among the records, or where there are no records, among the
    /// numbers, of which `answers` tells whether asking for a temperature succeeded;
    /// `None` where there are none.
    pub fn try_init(listed: Option<&[AdlAdapterInfo]>, answers: &[bool]) -> (adl: Option<Self>)
        requires
            answers@.len() <= i32::MAX,
        ensures
            ({
                let found = adapters_of(
                    match listed {
                        Some(infos) => Some(infos@),
                        None => None,
                    },
                    answers@,
                );
                match adl {
                    Some(a) => a@ == found && found.len() > 0,
                    None => found.len() == 0,
                }
            }),
    {
        let mut amd_adapters: Vec<(i32, String)> = Vec::new();
        let mut i: usize = 0;
        match listed {
            Some(infos) => {
                while i < infos.len()
                    invariant
                        i <= infos.len(),
                        entries(amd_adapters@) == infos@.take(i as int).filter_map(
                            listed_adapter(),
                        ),
                    decreases infos.len() - i,
                {
                    let ghost done = amd_adapters@;
                    assert(infos@.take(i + 1).drop_last() =~= infos@.take(i as int));
                    if infos[i].i_vendor_id == AMD_VENDOR && infos[i].i_present != 0 {
                        let name = infos[i].adapter_name();
                        amd_adapters.push((infos[i].i_adapter_index, name));
                        assert(entries(amd_adapters@) =~= entries(done).push(
                            (infos@[i as int].i_adapter_index, name@),
                        ));
                    }
                    i += 1;
                }
                assert(infos@.take(i as int) =~= infos@);
            },
            None => {
                while i < answers.len()
                    invariant
                        i <= answers.len() <= i32::MAX,
                        entries(amd_adapters@) == numbers(i as nat).filter_map(
                            probed_adapter(answers@),
                        ),
                    decreases answers.len() - i,
                {
                    let ghost done = amd_adapters@;
                    assert(numbers((i + 1) as nat).drop_last() =~= numbers(i as nat));
                    if answers[i] {
                        let mut name = "AMD GPU ".to_owned();
                        name.append(decimal(i as u32).as_str());
                        amd_adapters.push((i as i32, name));
                        assert(entries(amd_adapters@) =~= entries(done).push((i as i32, name@)));
                    }
                    i += 1;
                }
            },
        }
        if amd_adapters.is_empty() {
            None
        } else {
            Some(AdlFanControl { amd_adapters })
        }
    }

    /// The number of the adapter at `position`.
    pub fn adl_index(&self, position: usize) -> (index: Option<i32>)
        ensures
            index == if position < self@.len() {
                Some(self@[position as int].0)
            } else {
                None
            },
    {
        if position < self.amd_adapters.len() {
            Some(self.amd_adapters[position].0)
        } else {
            None
        }
    }

    /// The temperature in degrees Celsius, where asking for it succeeded and it is
    /// above zero.
    pub fn temperature(ret: i32, t: i32) -> (degrees: Option<i32>)
        ensures
            degrees == if ret == 0 && t > 0 {
                Some(t)
            } else {
                None
            },
    {
        if ret == 0 && t > 0 {
            Some(t)
        } else {
            None
        }
    }

    /// The fan speed in percent, where asking for the settings succeeded and they
    /// show one.
    pub fn fan_speed_pct(ret: i32, ctrl: &AdlOdnFanControl) -> (pct: Option<u32>)
        ensures
            pct == if ret == 0 {
                ctrl.percent()
            } else {
                None
            },
    {
        if ret != 0 {
            return None;
        }
        if ctrl.i_current_fan_speed_mode == 1 {
            Some(clamp_percent(ctrl.i_current_fan_speed))
        } else if ctrl.i_fan_control_mode == 1 {
            Some(clamp_percent(ctrl.i_target_fan_speed))
        } else {
            None
        }
    }

    /// The settings that run the fans at `pct` percent.
    pub fn set_fan(pct: u32) -> (ctrl: AdlOdnFanControl)
        ensures
            ctrl == AdlOdnFanControl::manual(pct),
    {
        let speed: i32 = #[verifier::truncate]
        (pct as i32);
        AdlOdnFanControl {
            i_mode: 1,
            i_fan_control_mode: 1,
            i_current_fan_speed_mode: 1,
            i_current_fan_speed: speed,
            i_target_fan_speed: speed,
            ..AdlOdnFanControl::default()
        }
    }

    /// The settings that hand the fans back to the driver.
    pub fn reset_fan() -> (ctrl: AdlOdnFanControl)
        ensures
            ctrl == AdlOdnFanControl::zero(),
    {
        AdlOdnFanControl::default()
    }
}

/// Settings for a speed of at most 100 percent show that speed when they are read
/// back, and settings for automatic control show none.
pub proof fn law_settings_read_back(pct: u32)
    requires
        pct <= 100,
    ensures
        AdlOdnFanControl::manual(pct).percent() == Some(pct),
        AdlOdnFanControl::zero().percent() is None,
{
}

/// The adapters of records are those of vendor 0x1002 that are present, each with the
/// number and name of its record, in the order of the records.
pub proof fn law_listed_adapters(infos: Seq<AdlAdapterInfo>, answers: Seq<bool>)
    ensures
        adapters_of(Some(infos), answers) == infos.filter_map(
            |info: AdlAdapterInfo|
                if info.i_vendor_id == 0x1002 && info.i_present != 0 {
                    Some((info.i_adapter_index, info.name()))
                } else {
                    None
                },
        ),
{
    let f = |info: AdlAdapterInfo|
        if info.i_vendor_id == 0x1002 && info.i_present != 0 {
            Some((info.i_adapter_index, info.name()))
        } else {
            None
        };
    assert(listed_adapter() =~= f);
}

/// An AMD adapter that is present is listed, whatever other records there are.
pub proof fn law_present_adapter_is_listed(infos: Seq<AdlAdapterInfo>, answers: Seq<bool>, i: int)
    requires
        0 <= i < infos.len(),
        infos[i].i_vendor_id == 0x1002,
        infos[i].i_present != 0,
    ensures
        adapters_of(Some(infos), answers).contains((infos[i].i_adapter_index, infos[i].name())),
{
    lemma_mapped(infos, listed_adapter(), i);
}

/// Without records, each number that answered is listed under a name made of it.
pub proof fn law_answering_adapter_is_listed(answers: Seq<bool>, i: int)
    requires
        0 <= i < answers.len() <= i32::MAX,
        answers[i],
    ensures
        adapters_of(None, answers).contains((i as i32, "AMD GPU "@ + decimal_text(i as nat))),
{
    assert(numbers(answers.len())[i] == i);
    lemma_mapped(numbers(answers.len()), probed_adapter(answers), i);
}

/// Without records, what is listed has answered.
pub proof fn law_listed_adapter_has_answered(answers: Seq<bool>, k: int)
    requires
        answers.len() <= i32::MAX,
        0 <= k < adapters_of(None, answers).len(),
    ensures
        0 <= adapters_of(None, answers)[k].0 < answers.len(),
        answers[adapters_of(None, answers)[k].0 as int],
{
    let found = adapters_of(None, answers);
    assert(found.contains(found[k]));
    numbers(answers.len()).lemma_filter_map_contains(probed_adapter(answers), found[k]);
    let i = choose|i: int|
        numbers(answers.len()).contains(i) && #[trigger] probed_adapter(answers)(i) == Some(
            found[k],
        );
    assert(found[k].0 == i);
}

/// A name that stands as UTF-8 in its record, followed by a zero or filling the record, is
/// read without the white space around it.
pub proof fn law_adapter_name(
    info: AdlAdapterInfo,
    left: Seq<char>,
    name: Seq<char>,
    right: Seq<char>,
)
    requires
        forall|i: int| 0 <= i < left.len() ==> is_space(#[trigger] left[i]),
        forall|i: int| 0 <= i < right.len() ==> is_space(#[trigger] right[i]),
        name.len() > 0,
        !is_space(name.first()),
        !is_space(name.last()),
        ({
            let bytes = encode_utf8(left + name + right);
            &&& !bytes.contains(0u8)
            &&& bytes.len() <= 256
            &&& bytes == info.str_adapter_name@.take(bytes.len() as int)
            &&& bytes.len() < 256 ==> info.str_adapter_name@[bytes.len() as int] == 0
        }),
    ensures
        info.name() == name,
{
    law_narrow_text_reads_back(left + name + right, info.str_adapter_name@, 256);
    law_trim(left, name, right);
}

/// The speed that settings show: that of the present where it is in percent, else the one
/// aimed at where it is under control, else none; cut off at 0 and 100.
pub proof fn law_percent(ctrl: AdlOdnFanControl)
    ensures
        ({
            let shown = ctrl.percent();
            let speed = if ctrl.i_current_fan_speed_mode == 1 {
                ctrl.i_current_fan_speed
            } else {
                ctrl.i_target_fan_speed
            };
            &&& shown is None <==> ctrl.i_current_fan_speed_mode != 1 && ctrl.i_fan_control_mode
                != 1
            &&& shown is Some && 0 <= speed <= 100 ==> shown.unwrap() == speed
            &&& shown is Some && speed < 0 ==> shown.unwrap() == 0
            &&& shown is Some && speed > 100 ==> shown.unwrap() == 100
        }),
{
}

/// Settings for a speed ask for manual control at that speed in percent and leave the rest
/// zero; settings for automatic control are all zero.
pub proof fn law_settings(pct: u32)
    requires
        pct <= i32::MAX,
    ensures
        ({
            let s = AdlOdnFanControl::manual(pct);
            let z = AdlOdnFanControl::zero();
            &&& s.i_mode == 1 && s.i_fan_control_mode == 1 && s.i_current_fan_speed_mode == 1
            &&& s.i_current_fan_speed == pct && s.i_target_fan_speed == pct
            &&& s.i_target_temperature == 0 && s.i_min_performance_clock == 0 && s.i_min_fan_limit
                == 0
            &&& z.i_mode == 0 && z.i_fan_control_mode == 0 && z.i_current_fan_speed_mode == 0
            &&& z.i_current_fan_speed == 0 && z.i_target_fan_speed == 0
            &&& z.i_target_temperature == 0 && z.i_min_performance_clock == 0 && z.i_min_fan_limit
                == 0
        }),
{
}

/// The content of the adapters is the number and the name of each, in their order.
pub proof fn law_adapter_contents(adl: AdlFanControl, i: int)
    ensures
        adl@.len() == adl.amd_adapters@.len(),
        0 <= i < adl@.len() ==> adl@[i].0 == adl.amd_adapters@[i].0 && adl@[i].1
            == adl.amd_adapters@[i].1@,
{
}

/// Without records, the adapters are the numbers that answered, from the lowest to the
/// highest.
pub proof fn law_probed_adapters(answers: Seq<bool>)
    ensures
        adapters_of(None, answers) == numbers(answers.len()).filter_map(
            |i: int|
                if answers[i] {
                    Some((i as i32, "AMD GPU "@ + decimal_text(i as nat)))
                } else {
                    None
                },
        ),
{
    let f = |i: int|
        if answers[i] {
            Some((i as i32, "AMD GPU "@ + decimal_text(i as nat)))
        } else {
            None
        };
    assert(probed_adapter(answers) =~= f);
}

} // verus!
