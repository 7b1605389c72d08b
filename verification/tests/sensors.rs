use hybrid_gauge::sensors::{
    amd_fan, amd_temperature, cpu_temperature, filter_by_id, find_by_id, highlights,
    names_amd_gpu, names_cpu_package, read_sensors, SensorSnapshot,
};
use hybrid_gauge::single::Single;

fn single(v: f32) -> Single {
    Single { bits: v.to_bits() }
}

fn sensor(name: &str, id: &str, hw: &str, value: f32) -> SensorSnapshot {
    SensorSnapshot {
        name: name.to_string(),
        identifier: id.to_string(),
        sensor_type: "Temperature".to_string(),
        hardware_name: hw.to_string(),
        value: single(value),
    }
}

#[test]
fn identifiers_are_found_in_any_case() {
    let all = vec![
        sensor("a", "/intelcpu/0/temperature/1", "CPU", 40.0),
        sensor("b", "/GPU-AMD/0/Temperature/0", "AMD", 50.0),
        sensor("c", "/gpu-amd/0/temperature/0", "AMD", 60.0),
    ];
    assert_eq!(find_by_id(&all, "/gpu-amd/0/TEMPERATURE/0").unwrap().name, "b");
    assert!(find_by_id(&all, "/gpu-amd/0/temperature").is_none());
    assert!(find_by_id(&[], "x").is_none());
}

#[test]
fn non_ascii_identifiers_are_lowered_too() {
    let all = vec![sensor("a", "/ÄÖ/Σ", "", 1.0)];
    assert_eq!(find_by_id(&all, "/äö/σ").is_some(), "/ÄÖ/Σ".to_lowercase() == "/äö/σ");
    assert!(find_by_id(&all, "/ÄÖ/Σ").is_some());
}

#[test]
fn filtering_asks_for_all_and_forbids_any() {
    let all = vec![
        sensor("a", "/GPU/0/temperature/0", "", 1.0),
        sensor("b", "/gpu/0/fan/0", "", 2.0),
        sensor("c", "/cpu/0/temperature/0", "", 3.0),
        sensor("d", "/gpu/0/temperature/hotspot", "", 4.0),
    ];
    let names = |must: &[&str], exclude: &[&str]| -> Vec<String> {
        filter_by_id(&all, must, exclude).iter().map(|s| s.name.clone()).collect()
    };
    assert_eq!(names(&["/gpu", "/temperature"], &["hotspot"]), vec!["a"]);
    assert_eq!(names(&["/gpu"], &[]), vec!["a", "b", "d"]);
    assert_eq!(names(&[], &[]).len(), 4);
    assert_eq!(names(&[], &[""]).len(), 0);
    assert_eq!(names(&["/GPU"], &[]), vec!["a"]);
    assert_eq!(names(&["/gpu"], &["/GPU"]), vec!["b", "d"]);
    assert_eq!(names(&["/gpu"], &["HOTSPOT"]), vec!["a", "b", "d"]);
}

#[test]
fn amd_readings_are_picked_by_position() {
    let all = vec![
        sensor("x", "/gpu-nvidia/0/temperature/0", "GeForce", 70.0),
        sensor("a", "/gpu-amd/0/temperature/0", "AMD Radeon RX 7900", 55.5),
        sensor("f", "/gpu-amd/0/fan/0", "AMD Radeon RX 7900", 33.9),
        sensor("b", "/gpu-amd/1/temperature/0", "Navi 31", 150.0),
        sensor("g", "/gpu-amd/1/fan/0", "Navi 31", 1200.0),
        sensor("c", "/gpu-amd/2/temperature/0", "RX6800", 66.0),
        sensor("h", "/gpu-amd/2/fan/0", "RX6800", 100.0),
    ];
    assert_eq!(amd_temperature(&all, 0), Some(single(55.5)));
    assert_eq!(amd_temperature(&all, 1), None);
    assert_eq!(amd_temperature(&all, 2), Some(single(66.0)));
    assert_eq!(amd_temperature(&all, 3), None);
    assert_eq!(amd_fan(&all, 0), Some(33));
    assert_eq!(amd_fan(&all, 1), None);
    assert_eq!(amd_fan(&all, 2), Some(100));
}

#[test]
fn amd_names_need_a_keyword() {
    assert!(names_amd_gpu("/gpu-amd/0/fan/0", "vega 64", "/fan"));
    assert!(!names_amd_gpu("/gpu-amd/0/fan/0", "geforce", "/fan"));
    assert!(!names_amd_gpu("/gpu-amd/0/fan/0", "vega 64", "/temperature"));
    assert!(!names_amd_gpu("/cpu/0/fan/0", "vega 64", "/fan"));
    assert!(names_amd_gpu("/gpu/fan", "sapphire rx 580", "/fan"));
    assert!(!names_amd_gpu("/gpu/fan", "rx", "/fan"));
    for hw in ["radeon", "amd", "rx9", "rx7", "rx6", "navi", "rdna"] {
        assert!(names_amd_gpu("/gpu/fan", hw, "/fan"));
    }
}

#[test]
fn the_first_plausible_package_counts() {
    let all = vec![
        sensor("Core #1", "/intelcpu/0/temperature/0", "Intel", 90.0),
        sensor("CPU Package", "/intelcpu/0/temperature/1", "Intel", 0.0),
        sensor("Core Max", "/IntelCPU/0/Temperature/2", "Intel", 71.0),
        sensor("Core (Tctl/Tdie)", "/amdcpu/0/temperature/2", "AMD", 72.0),
    ];
    assert_eq!(cpu_temperature(&all), None);
    let mut all = all;
    for s in all.iter_mut() {
        s.identifier = s.identifier.to_lowercase().replace("intelcpu", "cpu").replace("amdcpu", "cpu");
    }
    assert_eq!(cpu_temperature(&all), Some(single(71.0)));
    all[1].value = single(60.0);
    assert_eq!(cpu_temperature(&all), Some(single(60.0)));
    all.truncate(1);
    assert_eq!(cpu_temperature(&all), None);
}

#[test]
fn package_names() {
    assert!(names_cpu_package("/cpu/0/temperature/0", "core max"));
    assert!(!names_cpu_package("/cpu/0/temperature/0", "core max 2"));
    assert!(names_cpu_package("/cpu/0/temperature/0", "cpu composite"));
    assert!(names_cpu_package("/cpu/0/temperature/0", "tdie"));
    assert!(names_cpu_package("/cpu/0/temperature/0", "x tctl"));
    assert!(!names_cpu_package("/cpu/0/load/0", "package"));
    assert!(!names_cpu_package("/gpu/0/temperature/0", "package"));
}

#[test]
fn highlights_show_two_sensors() {
    let all = vec![
        sensor("p", "/intelcpu/0/temperature/26", "", 61.0),
        sensor("g", "/gpu-amd/0/temperature/0", "", 47.0),
    ];
    assert_eq!(highlights(&all), (Some(single(61.0)), Some(single(47.0))));
    assert_eq!(highlights(&[]), (None, None));
}

#[test]
fn a_keyword_is_taken_as_it_stands() {
    let upper = vec![sensor("a", "/CPU/0", "", 1.0)];
    assert_eq!(filter_by_id(&upper, &["CPU"], &[]).len(), 1);
    assert_eq!(filter_by_id(&upper, &["cpu"], &[]).len(), 1);
    assert_eq!(filter_by_id(&upper, &["Cpu"], &[]).len(), 0);
    assert_eq!(filter_by_id(&upper, &[], &["CPU"]).len(), 0);
    assert_eq!(filter_by_id(&upper, &[], &["cpu"]).len(), 0);
    let lower = vec![sensor("a", "/cpu/0", "", 1.0)];
    assert_eq!(filter_by_id(&lower, &["CPU"], &[]).len(), 0);
    assert_eq!(filter_by_id(&lower, &["cpu"], &[]).len(), 1);
    assert_eq!(filter_by_id(&lower, &[], &["CPU"]).len(), 1);
}

#[test]
fn shared_memory_comes_before_http() {
    let shared = || Some(vec![sensor("shared", "/a", "", 1.0)]);
    let served = || Some(vec![sensor("served", "/b", "", 2.0)]);
    assert_eq!(read_sensors(shared(), served()).unwrap()[0].name, "shared");
    assert_eq!(read_sensors(shared(), None).unwrap()[0].name, "shared");
    assert_eq!(read_sensors(None, served()).unwrap()[0].name, "served");
    assert!(read_sensors(None, None).is_none());
}
