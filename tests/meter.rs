use hostess::meter::Measurement;

#[test]
fn new_meter_reads_zero() {
    let mut m = Measurement::new(100);
    assert_eq!(m.per_second(100), 0);
    assert_eq!(m.per_second(500), 0);
}

#[test]
fn window_rolls_after_one_second() {
    let mut m = Measurement::new(0);
    m.sample(10, 100);
    m.sample(20, 900);
    assert_eq!(m.per_second(999), 0);
    assert_eq!(m.per_second(1000), 30);
    assert_eq!(m.window_start, 1000);
    assert_eq!(m.accumulator, 0);
}

#[test]
fn sample_rolls_before_charging() {
    let mut m = Measurement::new(0);
    m.sample(5, 10);
    m.sample(7, 1500);
    assert_eq!(m.latest, 5);
    assert_eq!(m.accumulator, 7);
    assert_eq!(m.per_second(1600), 5);
    assert_eq!(m.per_second(2500), 7);
}

#[test]
fn long_idle_credits_one_window() {
    let mut m = Measurement::new(0);
    m.sample(40, 0);
    assert_eq!(m.per_second(60_000), 40);
    assert_eq!(m.per_second(61_000), 0);
}

#[test]
fn accumulator_saturates() {
    let mut m = Measurement::new(0);
    m.sample(u64::MAX, 1);
    m.sample(10, 2);
    assert_eq!(m.accumulator, u64::MAX);
}

#[test]
fn clock_reading_earlier_does_not_roll() {
    let mut m = Measurement::new(5000);
    m.sample(3, 4000);
    assert_eq!(m.per_second(100), 0);
    assert_eq!(m.accumulator, 3);
}
