use booru_dl::counter::{average_speed, ByteCounter, SamplerAction, SpeedSampler};

#[test]
fn drain_reports_exactly_what_was_added() {
    let mut c = ByteCounter::new();
    c.add(10);
    c.add(20);
    c.add(30);
    assert_eq!(c.drain(), 60);
    assert_eq!(c.bytes, 0);

    // Nothing carries over between drains.
    c.add(5);
    assert_eq!(c.drain(), 5);
    assert_eq!(c.drain(), 0);
}

#[test]
fn batched_adds_sum() {
    let mut c = ByteCounter::new();
    let chunks: Vec<u64> = vec![1, 2, 3, 4, 5, 6, 7, 8, 9, 10];
    c.add_all(&chunks);
    assert_eq!(c.drain(), 55);
}

#[test]
fn speed_is_bytes_per_second() {
    assert_eq!(average_speed(5000, 1000), 5000);
    assert_eq!(average_speed(1234, 500), 2468);
    assert_eq!(average_speed(999, 1000), 999);
    assert_eq!(average_speed(1, 2000), 0);
}

#[test]
fn sampler_discards_first_tick_and_stops_with_display() {
    let mut s = SpeedSampler::new();
    // The first sample only clears pre-arrangement counter noise.
    assert!(matches!(s.on_tick(true, 12345, 1000), SamplerAction::Discard));
    // Steady state: the drained bytes over the interval.
    match s.on_tick(true, 5000, 1000) {
        SamplerAction::Update(rate) => assert_eq!(rate, 5000),
        _ => panic!("expected a rate update"),
    }
    match s.on_tick(true, 1500, 3000) {
        SamplerAction::Update(rate) => assert_eq!(rate, 500),
        _ => panic!("expected a rate update"),
    }
    // Once the progress display is gone, sampling stops.
    assert!(matches!(s.on_tick(false, 10, 1000), SamplerAction::Stop));
}
