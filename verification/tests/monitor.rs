use hybrid_gauge::components::ComponentReading;
use hybrid_gauge::fan_bank::FanOrder;
use hybrid_gauge::metrics::{AdlReading, AmdSources, CpuReading, NvidiaReading};
use hybrid_gauge::monitor::{set_amd_fan_speed, set_fan_speed, AmdFanSupport, FanAction, FanCommand, Monitor};
use hybrid_gauge::sensors::SensorSnapshot;
use hybrid_gauge::settings::{AmdFanOverrideSetting, AppSettings, FanOverrideSetting};
use hybrid_gauge::single::Single;
use hybrid_gauge::wmi::{Utilization, VideoController};

fn single(v: f32) -> Single {
    Single { bits: v.to_bits() }
}

fn start() -> Monitor {
    Monitor::new(&AppSettings::default(), true, AmdFanSupport::Ready).0
}

fn nvidia(temperature: Option<u32>, load: Option<u32>) -> Option<NvidiaReading> {
    Some(NvidiaReading {
        name: None,
        temperature,
        utilization_gpu: load,
        utilization_mem: None,
        fan_speed: None,
        memory_used: Some(3 << 20),
        memory_total: Some((8 << 20) + 5),
    })
}

fn sources(thermal: Option<f32>, load: Option<Utilization>) -> AmdSources<'static> {
    AmdSources { lhm: None, adl: &[], components: &[], thermal: thermal.map(single), utilization_3d: load }
}

fn card(name: &str) -> VideoController {
    VideoController { name: name.to_string(), compatibility: String::new(), vram_bytes: Some(16 << 30) }
}

fn tick(m: &mut Monitor, readings: &[Option<NvidiaReading>]) -> Vec<String> {
    show(m.collect(readings, &[], &sources(None, None)))
}

fn show(actions: Vec<FanAction>) -> Vec<String> {
    actions
        .into_iter()
        .map(|a| match a {
            FanAction::Nvidia(FanOrder::Apply { gpu, speed }) => format!("nv{gpu}={speed}"),
            FanAction::Nvidia(FanOrder::Auto { gpu }) => format!("nv{gpu}=auto"),
            FanAction::Amd(FanOrder::Apply { gpu, speed }) => format!("amd{gpu}={speed}"),
            FanAction::Amd(FanOrder::Auto { gpu }) => format!("amd{gpu}=auto"),
            FanAction::Save(s) => {
                let mut nv: Vec<(u32, u32)> = s.fan_overrides.iter().map(|e| (e.gpu_index, e.speed)).collect();
                let mut amd: Vec<(usize, u32)> = s.amd_fan_overrides.iter().map(|e| (e.gpu_position, e.speed)).collect();
                nv.sort();
                amd.sort();
                format!("save {nv:?} {amd:?}")
            }
        })
        .collect()
}

#[test]
fn saved_speeds_are_restored() {
    let saved = AppSettings {
        fan_overrides: vec![
            FanOverrideSetting { gpu_index: 0, speed: 40 },
            FanOverrideSetting { gpu_index: 1, speed: 50 },
            FanOverrideSetting { gpu_index: 0, speed: 60 },
        ],
        amd_fan_overrides: vec![AmdFanOverrideSetting { gpu_position: 2, speed: 130 }],
    };
    let (m, actions) = Monitor::new(&saved, false, AmdFanSupport::Missing);
    let mut shown = show(actions);
    assert_eq!(shown.pop().unwrap(), "amd2=130");
    shown.sort();
    assert_eq!(shown, vec!["nv0=60", "nv1=50"]);
    let again = m.settings();
    assert_eq!(again.fan_overrides.len(), 2);
    let (n, _) = Monitor::new(&again, false, AmdFanSupport::Missing);
    assert_eq!(show(vec![FanAction::Save(n.settings())]), show(vec![FanAction::Save(m.settings())]));
}

#[test]
fn requests_are_capped_and_saved() {
    let mut m = start();
    assert_eq!(show(m.set_fan_override(1, Some(70)).unwrap()), vec!["nv1=70", "save [(1, 70)] []"]);
    assert_eq!(show(m.set_fan_override(1, Some(500)).unwrap()), vec!["nv1=100", "save [(1, 100)] []"]);
    assert_eq!(
        show(m.set_amd_fan_override(0, Some(30)).unwrap()),
        vec!["amd0=30", "save [(1, 100)] [(0, 30)]"]
    );
    assert_eq!(show(m.set_fan_override(1, None).unwrap()), vec!["nv1=auto", "save [] [(0, 30)]"]);
    assert_eq!(show(m.handle_fan_command(set_amd_fan_speed(0, None))), vec!["amd0=auto", "save [] []"]);
}

#[test]
fn refused_requests_change_nothing() {
    let saved = AppSettings {
        fan_overrides: vec![FanOverrideSetting { gpu_index: 0, speed: 40 }],
        amd_fan_overrides: vec![],
    };
    let (mut m, _) = Monitor::new(&saved, false, AmdFanSupport::Unsupported);
    let err = m.set_fan_override(0, Some(1)).unwrap_err();
    assert_eq!(err, "NVML fan control unavailable (requires NVIDIA driver ≥ 520)");
    let err = m.set_amd_fan_override(0, Some(1)).unwrap_err();
    assert_eq!(err, "AMD fan control only available on Windows");
    assert!(m.handle_fan_command(FanCommand::SetNvidia { index: 0, speed: None }).is_empty());
    assert!(m.handle_fan_command(FanCommand::SetAmd { index: 0, speed: Some(3) }).is_empty());
    assert_eq!(show(vec![FanAction::Save(m.settings())]), vec!["save [(0, 40)] []"]);
    let (mut m, _) = Monitor::new(&saved, false, AmdFanSupport::Missing);
    let err = m.set_amd_fan_override(0, None).unwrap_err();
    assert_eq!(err, "AMD fan control unavailable (atiadlxx.dll not found or OverdriveN unsupported)");
}

#[test]
fn commands_name_the_gpu() {
    assert_eq!(set_fan_speed(3, Some(9)), FanCommand::SetNvidia { index: 3, speed: Some(9) });
    assert_eq!(set_amd_fan_speed(3, None), FanCommand::SetAmd { index: 3, speed: None });
}

#[test]
fn safety_has_hysteresis() {
    let mut m = start();
    assert!(tick(&mut m, &[nvidia(Some(84), None)]).is_empty());
    assert_eq!(tick(&mut m, &[nvidia(Some(85), None)]), vec!["nv0=100"]);
    assert!(tick(&mut m, &[nvidia(Some(90), None)]).is_empty());
    assert!(tick(&mut m, &[nvidia(Some(80), None)]).is_empty());
    assert!(tick(&mut m, &[nvidia(None, None)]).is_empty());
    assert!(m.collect_nvidia(&[nvidia(None, None)])[0].safety_override_active);
    assert_eq!(tick(&mut m, &[nvidia(Some(79), None)]), vec!["nv0=auto"]);
    assert!(tick(&mut m, &[nvidia(Some(79), None)]).is_empty());
    assert!(!m.collect_nvidia(&[nvidia(None, None)])[0].safety_override_active);
}

#[test]
fn requests_wait_for_safety() {
    let mut m = start();
    tick(&mut m, &[None, nvidia(Some(95), None)]);
    assert_eq!(show(m.set_fan_override(1, Some(45)).unwrap()), vec!["save [(1, 45)] []"]);
    assert_eq!(tick(&mut m, &[None, nvidia(Some(60), None)]), vec!["nv1=45"]);
    tick(&mut m, &[None, nvidia(Some(95), None)]);
    assert_eq!(show(m.set_fan_override(1, None).unwrap()), vec!["nv1=auto", "save [] []"]);
    assert_eq!(tick(&mut m, &[None, nvidia(Some(95), None)]), vec!["nv1=100"]);
}

#[test]
fn thirty_idle_ticks_end_an_override() {
    let mut m = start();
    m.set_fan_override(0, Some(55)).unwrap();
    for n in 1..30u32 {
        assert!(tick(&mut m, &[nvidia(None, Some(20))]).is_empty());
        assert_eq!(m.collect_nvidia(&[nvidia(None, None)])[0].cooldown_secs, Some(n));
    }
    assert_eq!(tick(&mut m, &[nvidia(None, Some(0))]), vec!["nv0=auto", "save [] []"]);
    let shown = &m.collect_nvidia(&[nvidia(None, None)])[0];
    assert_eq!((shown.fan_override, shown.cooldown_secs), (None, None));
}

#[test]
fn a_busy_tick_restarts_the_count() {
    let mut m = start();
    m.set_fan_override(0, Some(55)).unwrap();
    for _ in 0..29 {
        tick(&mut m, &[nvidia(None, Some(5))]);
    }
    assert!(tick(&mut m, &[nvidia(None, Some(21))]).is_empty());
    assert_eq!(m.collect_nvidia(&[nvidia(None, None)])[0].cooldown_secs, None);
    for _ in 0..29 {
        assert!(tick(&mut m, &[nvidia(None, Some(5))]).is_empty());
    }
    // An unknown load neither counts nor restarts.
    assert!(tick(&mut m, &[nvidia(None, None)]).is_empty());
    assert_eq!(tick(&mut m, &[nvidia(None, Some(5))]), vec!["nv0=auto", "save [] []"]);
}

#[test]
fn without_an_override_nothing_is_counted() {
    let mut m = start();
    for _ in 0..40 {
        assert!(tick(&mut m, &[nvidia(Some(30), Some(0))]).is_empty());
    }
}

#[test]
fn both_families_act_in_one_tick() {
    let mut m = start();
    for i in 0..2 {
        m.set_fan_override(i, Some(10 + i)).unwrap();
        m.set_amd_fan_override(i as usize, Some(20 + i)).unwrap();
    }
    let cards = [card("a"), card("b")];
    let idle = Some(Utilization { sum: 60, engines: 3 });
    for _ in 0..29 {
        let readings = [nvidia(None, Some(1)), nvidia(None, Some(1))];
        assert!(m.collect(&readings, &cards, &sources(None, idle)).is_empty());
    }
    let readings = [nvidia(Some(85), Some(1)), nvidia(None, Some(99))];
    assert_eq!(
        show(m.collect(&readings, &cards, &sources(Some(85.9), idle))),
        vec![
            "nv0=100",
            "amd0=100",
            "amd1=100",
            "nv0=auto",
            "save [(1, 11)] [(0, 20), (1, 21)]",
            "amd0=auto",
            "save [(1, 11)] [(1, 21)]",
            "amd1=auto",
            "save [(1, 11)] []",
        ]
    );
}

#[test]
fn amd_temperatures_lose_their_fraction() {
    let mut m = start();
    let cards = [card("a")];
    assert!(m.collect(&[], &cards, &sources(Some(84.99), None)).is_empty());
    assert_eq!(show(m.collect(&[], &cards, &sources(Some(85.0), None))), vec!["amd0=100"]);
    assert!(m.collect(&[], &cards, &sources(Some(80.0), None)).is_empty());
    assert_eq!(show(m.collect(&[], &cards, &sources(Some(79.99), None))), vec!["amd0=auto"]);
}

#[test]
fn nvidia_gpus_are_shown() {
    let mut m = start();
    m.set_fan_override(2, Some(33)).unwrap();
    let mut named = nvidia(Some(50), Some(7));
    named.as_mut().unwrap().name = Some("GeForce".to_string());
    let gpus = m.collect_nvidia(&[named, None, nvidia(None, None)]);
    assert_eq!(gpus.len(), 2);
    assert_eq!((gpus[0].index, gpus[0].name.as_str()), (0, "GeForce"));
    assert_eq!((gpus[0].vram_used_mb, gpus[0].vram_total_mb), (Some(3), Some(8)));
    assert!(gpus[0].fan_control_available);
    assert_eq!((gpus[1].index, gpus[1].name.as_str()), (2, "NVIDIA GPU 2"));
    assert_eq!(gpus[1].fan_override, Some(33));
}

#[test]
fn amd_temperatures_come_from_the_best_source() {
    let m = start();
    let sensor = |hw: &str, id: &str, v: f32| SensorSnapshot {
        name: String::new(),
        identifier: id.to_string(),
        sensor_type: String::new(),
        hardware_name: hw.to_string(),
        value: single(v),
    };
    let lhm = vec![
        sensor("AMD Radeon", "/gpu-amd/0/temperature/0", 41.5),
        sensor("AMD Radeon", "/gpu-amd/0/fan/0", 25.5),
    ];
    let adl = vec![
        AdlReading { temperature: Some(single(50.0)), fan_speed: None },
        AdlReading { temperature: Some(single(51.0)), fan_speed: Some(61) },
    ];
    let components = vec![ComponentReading { label: "gpu".to_string(), temperature: single(52.0) }];
    let cards = [card("a"), card("b"), card("c")];
    let mut s = AmdSources { lhm: Some(&lhm), adl: &adl, components: &components, thermal: Some(single(53.0)), utilization_3d: None };
    assert!(!s.needs_thermal(3));
    let gpus = m.collect_amd(&cards, &s);
    let temps: Vec<Option<Single>> = gpus.iter().map(|g| g.temperature).collect();
    assert_eq!(temps, vec![Some(single(41.5)), Some(single(51.0)), Some(single(52.0))]);
    let fans: Vec<Option<u32>> = gpus.iter().map(|g| g.fan_speed).collect();
    assert_eq!(fans, vec![Some(25), Some(61), None]);
    assert_eq!(gpus[0].vram_mb, Some(16384));
    s.components = &[];
    assert!(s.needs_thermal(3));
    assert!(!s.needs_thermal(2));
    assert_eq!(m.collect_amd(&cards, &s)[2].temperature, Some(single(53.0)));
}

#[test]
fn reports_hold_everything() {
    let m = start();
    let components = vec![ComponentReading { label: "Package id 0".to_string(), temperature: single(44.0) }];
    let s = AmdSources { lhm: None, adl: &[], components: &components, thermal: None, utilization_3d: Some(Utilization { sum: 5, engines: 2 }) };
    let cpu = CpuReading { brand: None, overall_usage: single(12.5), core_usages: &[single(1.0), single(2.0)] };
    let r = m.report(&[nvidia(Some(1), None)], &[card("a")], &s, &cpu);
    assert_eq!(r.nvidia_gpus.len(), 1);
    assert_eq!(r.amd_gpus[0].name, "a");
    assert_eq!(r.amd_gpus[0].utilization_3d, Some(Utilization { sum: 5, engines: 2 }));
    assert_eq!(r.cpu.name, "CPU");
    assert_eq!(r.cpu.core_usages, vec![single(1.0), single(2.0)]);
    assert_eq!(r.cpu.package_temp, Some(single(44.0)));
    let named = CpuReading { brand: Some("Ryzen".to_string()), overall_usage: single(0.0), core_usages: &[] };
    assert_eq!(m.report(&[], &[], &s, &named).cpu.name, "Ryzen");
}
