use hybrid_gauge::fan_bank::{FanBank, FanOrder, GpuSample};

fn sample(gpu: u32, temperature: Option<u32>, idle: Option<bool>) -> GpuSample<u32> {
    GpuSample { gpu, temperature, idle }
}

#[test]
fn the_last_saved_speed_counts() {
    let bank = FanBank::restore(&[(1u32, 10), (2, 20), (1, 30)]);
    assert_eq!(bank.override_of(1), Some(30));
    assert_eq!(bank.override_of(2), Some(20));
    assert_eq!(bank.override_of(3), None);
    assert!(!bank.in_safety(1));
    assert_eq!(bank.cooldown_of(1), None);
    let mut saved = bank.saved();
    saved.sort();
    assert_eq!(saved, vec![(1, 30), (2, 20)]);
}

#[test]
fn a_hot_gpu_that_cools_is_back_where_it_was() {
    let mut bank = FanBank::restore(&[(1u32, 40)]);
    assert_eq!(bank.see_temperature(1, Some(100)), Some(FanOrder::Apply { gpu: 1, speed: 100 }));
    assert!(bank.in_safety(1));
    assert_eq!(bank.see_temperature(1, Some(90)), None);
    assert_eq!(bank.see_temperature(1, Some(79)), Some(FanOrder::Apply { gpu: 1, speed: 40 }));
    assert!(!bank.in_safety(1));
    assert_eq!(bank.override_of(1), Some(40));
}

#[test]
fn samples_are_taken_in_their_order() {
    let mut bank = FanBank::restore(&[(2u32, 50)]);
    let samples = [
        sample(0, Some(85), Some(true)),
        sample(1, Some(84), Some(true)),
        sample(2, Some(99), Some(true)),
        sample(3, None, None),
    ];
    assert_eq!(
        bank.see_temperatures(&samples),
        vec![FanOrder::Apply { gpu: 0, speed: 100 }, FanOrder::Apply { gpu: 2, speed: 100 }]
    );
    assert!(bank.see_loads(&samples).is_empty());
    assert_eq!(bank.cooldown_of(0), None);
    assert_eq!(bank.cooldown_of(2), Some(1));
    for _ in 0..28 {
        assert!(!bank.see_load(2, Some(true)));
    }
    assert_eq!(bank.see_loads(&samples), vec![2]);
    bank.release(2);
    assert_eq!((bank.override_of(2), bank.cooldown_of(2)), (None, None));
    assert!(bank.in_safety(2));
}

#[test]
fn requests_are_local_and_the_last_counts() {
    let mut bank = FanBank::restore(&[(1u32, 40), (2, 50)]);
    assert_eq!(bank.request(1, Some(60)), Some(FanOrder::Apply { gpu: 1, speed: 60 }));
    assert_eq!(bank.request(1, Some(101)), Some(FanOrder::Apply { gpu: 1, speed: 100 }));
    assert_eq!(bank.override_of(1), Some(100));
    assert_eq!(bank.override_of(2), Some(50));
    assert_eq!(bank.request(1, None), Some(FanOrder::Auto { gpu: 1 }));
    assert_eq!(bank.override_of(1), None);
    assert_eq!(bank.override_of(2), Some(50));
}
