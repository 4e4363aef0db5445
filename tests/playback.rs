use asciivid::framerate::{parse_framerate, Framerate, FramerateError};
use asciivid::pacing::Pacer;

#[test]
fn framerate_ten_gives_a_tenth_of_a_second() {
    let rate = parse_framerate("10").unwrap();
    assert_eq!(rate, Framerate { num: 10, den: 1 });
    assert_eq!(rate.frame_time_nanos(), 100_000_000);
    let pacer = Pacer::new(5, rate.frame_time_nanos());
    let plan = pacer.plan_sleep(20_000_000);
    assert_eq!(plan.requested, 80_000_000);
    assert_eq!(plan.duration, 80_000_000);
}

#[test]
fn framerate_with_fraction() {
    let rate = parse_framerate("29.97").unwrap();
    assert_eq!(rate, Framerate { num: 2997, den: 100 });
    assert_eq!(rate.frame_time_nanos(), 33_366_701);
    assert_eq!(parse_framerate("2.").unwrap(), Framerate { num: 2, den: 1 });
    assert_eq!(parse_framerate(".5").unwrap(), Framerate { num: 5, den: 10 });
    assert_eq!(parse_framerate(".5").unwrap().frame_time_nanos(), 2_000_000_000);
    assert_eq!(parse_framerate("3").unwrap().frame_time_nanos(), 333_333_334);
}

#[test]
fn invalid_framerate_is_malformed() {
    assert_eq!(parse_framerate("abc"), Err(FramerateError::Malformed));
    assert_eq!(parse_framerate(""), Err(FramerateError::Malformed));
    assert_eq!(parse_framerate("."), Err(FramerateError::Malformed));
    assert_eq!(parse_framerate("1.2.3"), Err(FramerateError::Malformed));
    assert_eq!(parse_framerate("-5"), Err(FramerateError::Malformed));
    assert_eq!(parse_framerate("12a"), Err(FramerateError::Malformed));
}

#[test]
fn zero_framerate_is_not_positive() {
    assert_eq!(parse_framerate("0"), Err(FramerateError::NotPositive));
    assert_eq!(parse_framerate("0.000"), Err(FramerateError::NotPositive));
}

#[test]
fn framerate_out_of_range() {
    assert_eq!(parse_framerate("18446744073709551616"), Err(FramerateError::OutOfRange));
    assert_eq!(
        parse_framerate("18446744073709551615").unwrap(),
        Framerate { num: u64::MAX, den: 1 }
    );
    assert_eq!(parse_framerate("1.0000000000000000000"), Err(FramerateError::OutOfRange));
    assert_eq!(
        parse_framerate("0.000000000000000001").unwrap(),
        Framerate { num: 1, den: 1_000_000_000_000_000_000 }
    );
    assert_eq!(
        parse_framerate("0.000000000000000001").unwrap().frame_time_nanos(),
        1_000_000_000_000_000_000_000_000_000
    );
}

#[test]
fn sleep_is_never_negative() {
    let pacer = Pacer::new(3, 100);
    for elapsed in [0u64, 1, 50, 99, 100, 101, 1_000, u64::MAX] {
        let plan = pacer.plan_sleep(elapsed);
        assert_eq!(plan.requested, 100 - elapsed as i128);
        assert_eq!(plan.duration, (100 - elapsed as i128).max(0) as u128);
    }
}

#[test]
fn five_frames_show_indices_one_to_four() {
    let mut pacer = Pacer::new(5, 1_000);
    let mut shown = Vec::new();
    while let Some(i) = pacer.current_frame() {
        shown.push(i);
        let plan = pacer.plan_sleep(200);
        assert!(pacer.record_sleep(plan, 800));
    }
    assert_eq!(shown, vec![1, 2, 3, 4]);
    assert_eq!(pacer.index, 5);
}

#[test]
fn no_frames_when_count_is_at_most_one() {
    assert_eq!(Pacer::new(0, 10).current_frame(), None);
    assert_eq!(Pacer::new(1, 10).current_frame(), None);
    assert_eq!(Pacer::new(2, 10).current_frame(), Some(1));
}

#[test]
fn drift_of_a_whole_interval_holds_the_frame() {
    let mut pacer = Pacer::new(10, 100);
    let plan = pacer.plan_sleep(10);
    assert_eq!(plan.requested, 90);
    assert!(pacer.record_sleep(plan, 150));
    assert_eq!((pacer.index, pacer.error), (2, 60));
    let plan = pacer.plan_sleep(10);
    assert!(!pacer.record_sleep(plan, 130));
    assert_eq!((pacer.index, pacer.error), (2, 0));
}

#[test]
fn drift_stays_below_the_interval_over_a_run() {
    let frame_time: u128 = 1_000;
    let mut pacer = Pacer::new(1_000_000, frame_time);
    let elapsed = [0u64, 300, 1_200, 999, 5_000, 1, 700, 2_000, 0, 450];
    let overshoot = [0u64, 10, 400, 999, 3, 1_000, 77, 2_500, 600, 0];
    let mut holds = 0;
    for round in 0..200 {
        let e = elapsed[round % elapsed.len()];
        let plan = pacer.plan_sleep(e);
        let actual = plan.duration as u64 + overshoot[(round * 7) % overshoot.len()];
        let before = pacer.index;
        if pacer.record_sleep(plan, actual) {
            assert_eq!(pacer.index, before + 1);
        } else {
            holds += 1;
            assert_eq!(pacer.index, before);
            assert_eq!(pacer.error, 0);
        }
        assert!(pacer.error < frame_time as i128);
    }
    assert!(holds > 0);
}
