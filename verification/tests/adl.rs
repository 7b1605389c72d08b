use hybrid_gauge::adl::{AdlAdapterInfo, AdlFanControl, AdlOdnFanControl};

fn info(index: i32, vendor: i32, present: i32, name: &[u8]) -> AdlAdapterInfo {
    let mut bytes = [0u8; 256];
    bytes[..name.len()].copy_from_slice(name);
    AdlAdapterInfo {
        i_adapter_index: index,
        i_vendor_id: vendor,
        str_adapter_name: bytes,
        i_present: present,
    }
}

#[test]
fn adapter_names_are_trimmed() {
    assert_eq!(info(0, 0, 0, b"  AMD Radeon RX 7900 XT \0garbage").adapter_name(), "AMD Radeon RX 7900 XT");
    assert_eq!(info(0, 0, 0, b"").adapter_name(), "");
    assert_eq!(info(0, 0, 0, "\u{a0}\u{3000}Vega\u{2003}".as_bytes()).adapter_name(), "Vega");
    assert_eq!(info(0, 0, 0, &[b'x'; 256]).adapter_name(), "x".repeat(256));
    assert_eq!(info(0, 0, 0, &[b'A', 0xff, b' ']).adapter_name(), "A\u{fffd}");
}

#[test]
fn present_amd_adapters_are_listed() {
    let infos = vec![
        info(3, 0x1002, 1, b"A"),
        info(4, 0x10de, 1, b"B"),
        info(5, 0x1002, 0, b"C"),
        info(6, 0x1002, 1, b"D"),
    ];
    let adl = AdlFanControl::try_init(Some(&infos), &[]).unwrap();
    assert_eq!(adl.amd_adapters, vec![(3, "A".to_string()), (6, "D".to_string())]);
    assert_eq!(adl.adl_index(0), Some(3));
    assert_eq!(adl.adl_index(1), Some(6));
    assert_eq!(adl.adl_index(2), None);
    assert!(AdlFanControl::try_init(Some(&infos[1..3]), &[true]).is_none());
}

#[test]
fn without_records_the_answers_count() {
    let adl = AdlFanControl::try_init(None, &[false, true, true]).unwrap();
    assert_eq!(adl.amd_adapters, vec![(1, "AMD GPU 1".to_string()), (2, "AMD GPU 2".to_string())]);
    assert!(AdlFanControl::try_init(None, &[false]).is_none());
}

#[test]
fn counts_and_temperatures_are_checked() {
    assert_eq!(AdlFanControl::adapter_count(0, 2), Some(2));
    assert_eq!(AdlFanControl::adapter_count(0, 0), None);
    assert_eq!(AdlFanControl::adapter_count(-1, 2), None);
    assert_eq!(AdlFanControl::temperature(0, 55), Some(55));
    assert_eq!(AdlFanControl::temperature(0, 0), None);
    assert_eq!(AdlFanControl::temperature(1, 55), None);
}

#[test]
fn speeds_are_read_in_percent() {
    let mut ctrl = AdlOdnFanControl::default();
    assert_eq!(AdlFanControl::fan_speed_pct(0, &ctrl), None);
    ctrl.i_fan_control_mode = 1;
    ctrl.i_target_fan_speed = 140;
    assert_eq!(AdlFanControl::fan_speed_pct(0, &ctrl), Some(100));
    ctrl.i_current_fan_speed_mode = 1;
    ctrl.i_current_fan_speed = -3;
    assert_eq!(AdlFanControl::fan_speed_pct(0, &ctrl), Some(0));
    assert_eq!(AdlFanControl::fan_speed_pct(1, &ctrl), None);
}

#[test]
fn settings_read_back() {
    for pct in [0, 1, 42, 100] {
        let ctrl = AdlFanControl::set_fan(pct);
        assert_eq!((ctrl.i_mode, ctrl.i_fan_control_mode), (1, 1));
        assert_eq!(ctrl.i_target_fan_speed, pct as i32);
        assert_eq!(AdlFanControl::fan_speed_pct(0, &ctrl), Some(pct));
    }
    assert_eq!(AdlFanControl::set_fan(u32::MAX).i_current_fan_speed, -1);
    assert_eq!(AdlFanControl::reset_fan(), AdlOdnFanControl::default());
    assert_eq!(AdlFanControl::fan_speed_pct(0, &AdlFanControl::reset_fan()), None);
}
