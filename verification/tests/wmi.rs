use hybrid_gauge::components::{
    labels_cpu, labels_gpu, query_amd_temp_from_components, query_cpu_temp_from_components,
    ComponentReading,
};
use hybrid_gauge::single::Single;
use hybrid_gauge::wmi::{
    amd_adapters, amd_controllers, extract_string, extract_u64, first_plausible_zone, gpu_zone_readings, names_amd,
    names_gpu_zone, query_gpu_3d_utilization, query_video_controllers, ControllerRow, ThermalRow,
    Utilization, Variant,
};

fn single(v: f32) -> Single {
    Single { bits: v.to_bits() }
}

fn text(s: &str) -> Option<Variant> {
    Some(Variant::Text(s.to_string()))
}

#[test]
fn numbers_of_every_kind() {
    assert_eq!(extract_u64(&Some(Variant::UI8(u64::MAX))), Some(u64::MAX));
    assert_eq!(extract_u64(&Some(Variant::UI4(7))), Some(7));
    assert_eq!(extract_u64(&Some(Variant::UI2(8))), Some(8));
    assert_eq!(extract_u64(&Some(Variant::UI1(9))), Some(9));
    assert_eq!(extract_u64(&Some(Variant::I8(10))), Some(10));
    assert_eq!(extract_u64(&Some(Variant::I4(11))), Some(11));
    assert_eq!(extract_u64(&Some(Variant::I8(-1))), None);
    assert_eq!(extract_u64(&Some(Variant::I4(-1))), None);
    assert_eq!(extract_u64(&text("5")), None);
    assert_eq!(extract_u64(&Some(Variant::Other)), None);
    assert_eq!(extract_u64(&None), None);
    assert_eq!(extract_string(&text("a")), Some("a".to_string()));
    assert_eq!(extract_string(&Some(Variant::UI4(7))), None);
    assert_eq!(extract_string(&None), None);
}

#[test]
fn controllers_need_a_name() {
    let rows = vec![
        ControllerRow { name: text("AMD Radeon RX 7900"), compatibility: text("Advanced Micro Devices, Inc."), ram: Some(Variant::UI4(4293918720)) },
        ControllerRow { name: None, compatibility: text("AMD"), ram: None },
        ControllerRow { name: text("Intel UHD"), compatibility: None, ram: Some(Variant::I4(-5)) },
    ];
    let all = query_video_controllers(&rows);
    assert_eq!(all.len(), 2);
    assert_eq!(all[0].vram_bytes, Some(4293918720));
    assert_eq!(all[1].compatibility, "");
    assert_eq!(all[1].vram_bytes, None);
    let amd = amd_adapters(&all);
    assert_eq!(amd.len(), 1);
    assert_eq!(amd[0].name, "AMD Radeon RX 7900");
    let joined = amd_controllers(&rows);
    assert_eq!(joined.len(), 1);
    assert_eq!((joined[0].name.as_str(), joined[0].vram_bytes), ("AMD Radeon RX 7900", Some(4293918720)));
}

#[test]
fn amd_is_told_by_maker_or_name() {
    assert!(names_amd("ati technologies", "x"));
    assert!(names_amd("amd", "x"));
    assert!(names_amd("", "radeon"));
    assert!(names_amd("", "amd graphics"));
    assert!(!names_amd("nvidia", "geforce"));
    assert!(!names_amd("intel corporation", "radeon rx vega m"));
    assert!(!names_amd("amd", "intel"));
    // "corporation" holds "ati".
    assert!(names_amd("nvidia corporation", "geforce"));
}

#[test]
fn loads_are_averaged() {
    let column = vec![Some(Variant::UI8(30)), None, Some(Variant::UI8(11)), text("x")];
    let load = query_gpu_3d_utilization(&column).unwrap();
    assert_eq!(load, Utilization { sum: 41, engines: 4 });
    assert!(load.is_idle());
    assert!(query_gpu_3d_utilization(&[]).is_none());
    assert!(Utilization { sum: 40, engines: 2 }.is_idle());
    assert!(!Utilization { sum: 41, engines: 2 }.is_idle());
    assert!(!Utilization { sum: u64::MAX, engines: 1 }.is_idle());
    for sum in 0..200u64 {
        for engines in 1..12usize {
            assert_eq!(Utilization { sum, engines }.is_idle(), sum as f64 / engines as f64 <= 20.0);
        }
    }
}

#[test]
fn gpu_zones_are_read() {
    let rows = vec![
        ThermalRow { instance: text("ACPI\\ThermalZone\\CPUZ_0"), temperature: Some(Variant::UI4(3000)) },
        ThermalRow { instance: text("ACPI\\ThermalZone\\TGPU_0"), temperature: Some(Variant::UI4(3232)) },
        ThermalRow { instance: None, temperature: Some(Variant::UI4(1)) },
        ThermalRow { instance: text("Display"), temperature: None },
        ThermalRow { instance: text("GFX"), temperature: Some(Variant::UI4(2)) },
    ];
    assert_eq!(gpu_zone_readings(&rows), vec![3232, 2]);
    assert!(names_gpu_zone("x vga") && names_gpu_zone("disp") && names_gpu_zone("amd"));
    assert!(!names_gpu_zone("cpu"));
}

#[test]
fn the_first_plausible_zone_counts() {
    let celsius = vec![single(-0.15), single(150.1), single(0.0), single(50.0)];
    assert_eq!(first_plausible_zone(&celsius), Some(single(0.0)));
    assert_eq!(first_plausible_zone(&celsius[..2]), None);
    assert_eq!(first_plausible_zone(&[single(f32::NAN), single(150.0)]), Some(single(150.0)));
}

fn component(label: &str, t: f32) -> ComponentReading {
    ComponentReading { label: label.to_string(), temperature: single(t) }
}

#[test]
fn components_are_told_by_label() {
    let all = vec![
        component("Core 0", 50.0),
        component("GPU junction", 120.0),
        component("Radeon edge", 61.0),
        component("Package id 0", 0.0),
        component("Tctl", 70.0),
    ];
    assert_eq!(query_amd_temp_from_components(&all), Some(single(61.0)));
    assert_eq!(query_amd_temp_from_components(&all[..2]), None);
    // The temperature of a CPU package is taken as it is.
    assert_eq!(query_cpu_temp_from_components(&all), Some(single(0.0)));
    assert_eq!(query_cpu_temp_from_components(&all[..3]), None);
    for label in ["gpu", "amd", "radeon", "vga", "tgpu", "display", "gfx"] {
        assert!(labels_gpu(label));
    }
    for label in ["package", "tctl", "tccd1"] {
        assert!(labels_cpu(label));
    }
    assert!(!labels_gpu("core") && !labels_cpu("core"));
}
