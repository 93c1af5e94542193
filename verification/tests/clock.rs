use shader_host::clock::{FrameClock, TICK_INCREMENT};

#[test]
fn fresh_clock_starts_at_zero() {
    let c = FrameClock::new();
    assert_eq!(c.time, 0);
}

#[test]
fn tick_advances_by_fixed_increment() {
    let mut c = FrameClock::new();
    assert_eq!(c.tick(), 10);
    assert_eq!(c.tick(), 20);
    assert_eq!(c.tick(), 30);
    assert_eq!(c.time, 30);
}

#[test]
fn value_after_n_ticks_is_increment_times_n() {
    let mut c = FrameClock::new();
    let mut last: u64 = 0;
    for n in 1u64..=1000 {
        last = c.tick();
        assert_eq!(last, TICK_INCREMENT * n);
    }
    assert_eq!(last, 10_000);
}

#[test]
fn clock_value_widens_exactly_to_float() {
    // The graphics layer hands the clock value to the GPU as an f32 uniform;
    // for the values a session reaches it is exact.
    let mut c = FrameClock::new();
    let mut expected: f32 = 0.0;
    for _ in 0..100 {
        let t = c.tick();
        expected += 10.0;
        assert_eq!(t as f32, expected);
    }
}
