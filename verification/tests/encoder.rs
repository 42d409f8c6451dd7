use open_sesame::encoder::{filter_value, limit_step, Encoder};

#[test]
fn limits_accumulate() {
    let mut encoder = Encoder::new(0);
    assert_eq!(encoder.read(Some(99)), 99);
    encoder.on_limit(true, false);
    assert_eq!(encoder.read(Some(0)), 100);
    encoder.on_limit(false, true);
    encoder.on_limit(false, true);
    assert_eq!(encoder.read(Some(-7)), -107);
    encoder.on_limit(true, true);
    assert_eq!(encoder.read(Some(-7)), -107);
    encoder.on_limit(false, false);
    assert_eq!(encoder.read(Some(-7)), -107);
}

#[test]
fn unreadable_counter_counts_as_zero() {
    assert_eq!(Encoder::new(4200).read(None), 4200);
}

#[test]
fn overflow_wraps_around() {
    let mut encoder = Encoder::new(i32::MAX - 50);
    encoder.on_limit(true, false);
    assert_eq!(encoder.read(None), i32::MIN + 49);
}

#[test]
fn reset_goes_to_zero() {
    let mut encoder = Encoder::new(900);
    encoder.reset();
    assert_eq!(encoder.read(Some(0)), 0);
}

#[test]
fn counting_past_a_limit_loses_nothing() {
    let mut encoder = Encoder::new(0);
    let mut counter: i16 = 0;
    for n in 1..=1000 {
        counter += 1;
        if counter == 100 {
            counter = 0;
            encoder.on_limit(true, false);
        }
        assert_eq!(encoder.read(Some(counter)), n);
    }
}

#[test]
fn filter_and_steps() {
    assert_eq!(filter_value(), 800);
    assert_eq!(limit_step(true, false), 100);
    assert_eq!(limit_step(false, true), -100);
    assert_eq!(limit_step(true, true), 0);
    assert_eq!(limit_step(false, false), 0);
}
