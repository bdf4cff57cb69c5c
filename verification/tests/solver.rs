use atem::ffmpeg::{get_target_size, get_target_video_rate, is_minsize};

const MICRO: u64 = 1_000_000;

#[test]
fn audio_only_size_of_the_worked_example() {
    // 128 kib/s over 100 s: 128 * 100 / 8192 = 1.5625 MiB.
    assert_eq!(get_target_size(128 * MICRO, 100 * MICRO), 1_562_500);
}

#[test]
fn audio_only_size_is_rounded_down() {
    // 1 kib/s over 1 s: 1 / 8192 = 0.0001220703125 MiB.
    assert_eq!(get_target_size(MICRO, MICRO), 122);
    assert_eq!(get_target_size(0, 100 * MICRO), 0);
    assert_eq!(get_target_size(128 * MICRO, 0), 0);
}

#[test]
fn audio_only_size_takes_the_largest_inputs() {
    let size = get_target_size(u64::MAX, u64::MAX);
    assert_eq!(size, (u64::MAX as u128 * u64::MAX as u128) / 8_192_000_000);
}

#[test]
fn audio_only_size_grows_with_both_arguments() {
    let rates = [0u64, 1, 64 * MICRO, 128 * MICRO, 320 * MICRO];
    let durations = [1u64, MICRO, 90 * MICRO, 100 * MICRO, 7200 * MICRO];
    for (i, &rate) in rates.iter().enumerate() {
        for (j, &duration) in durations.iter().enumerate() {
            let here = get_target_size(rate, duration);
            for &more_rate in &rates[i..] {
                for &more_duration in &durations[j..] {
                    assert!(here <= get_target_size(more_rate, more_duration));
                }
            }
        }
    }
    assert!(get_target_size(128 * MICRO, 100 * MICRO) < get_target_size(129 * MICRO, 100 * MICRO));
    assert!(get_target_size(128 * MICRO, 100 * MICRO) < get_target_size(128 * MICRO, 101 * MICRO));
}

#[test]
fn target_at_the_floor_is_not_feasible() {
    let floor = get_target_size(128 * MICRO, 100 * MICRO);
    assert!(!is_minsize(floor, floor));
    assert!(is_minsize(floor, floor + 1));
    assert!(!is_minsize(floor, floor - 1));
    assert!(!is_minsize(0, 0));
}

#[test]
fn worked_example_is_feasible_and_gives_its_rate() {
    let floor = get_target_size(128 * MICRO, 100 * MICRO);
    assert!(is_minsize(floor, (20 * MICRO) as u128));
    // 20 * 8192 / (1.048576 * 100) - 128 = 1562.5 - 128 = 1434.5 kib/s.
    assert_eq!(get_target_video_rate(20 * MICRO, 100 * MICRO, 128 * MICRO), 1_434_500_000);
}

#[test]
fn video_rate_is_rounded_down() {
    // 1 * 8192 / (1.048576 * 3) - 0 = 2604.1666...
    assert_eq!(get_target_video_rate(MICRO, 3 * MICRO, 0), 2_604_166_666);
    // The quotient is rounded down before the audio is taken off.
    assert_eq!(get_target_video_rate(MICRO, 3 * MICRO, 3000 * MICRO), 2_604_166_666 - 3_000_000_000);
}

#[test]
fn video_rate_at_the_floor_is_zero_without_audio() {
    let floor = get_target_size(0, 100 * MICRO);
    assert_eq!(floor, 0);
    assert_eq!(get_target_video_rate(0, 100 * MICRO, 0), 0);
}

#[test]
fn video_rate_at_the_floor_is_negative_with_audio() {
    let floor = get_target_size(128 * MICRO, 100 * MICRO);
    // 1.5625 * 8192 / 104.8576 - 128 = 122.0703125 - 128.
    assert_eq!(get_target_video_rate(floor as u64, 100 * MICRO, 128 * MICRO), -5_929_688);
}

#[test]
fn video_rate_can_be_negative_above_the_floor() {
    let floor = get_target_size(128 * MICRO, 100 * MICRO);
    assert!(is_minsize(floor, 1_600_000));
    assert_eq!(get_target_video_rate(1_600_000, 100 * MICRO, 128 * MICRO), -3_000_000);
}

#[test]
fn rates_fill_the_target_divided_by_the_factor() {
    for &(size, duration, audio) in &[
        (20 * MICRO, 100 * MICRO, 128 * MICRO),
        (8 * MICRO, 37_500_000, 96 * MICRO),
        (0, 100 * MICRO, 128 * MICRO),
        (25 * MICRO, 1, 0),
    ] {
        let video = get_target_video_rate(size, duration, audio);
        let total = (video + audio as i128) as u128;
        let filled = total * duration as u128 / 8_192_000_000;
        assert!(8_192_000_000 * filled <= 7_812_500_000 * size as u128);
        assert!(7_812_500_000 * (size as u128) < 8_192_000_000 * (filled + 1) + duration as u128);
        if size == 0 {
            assert_eq!(filled, 0);
        }
    }
    // 20 MiB comes back as 20 / 1.048576 = 19.073486... MiB.
    let video = get_target_video_rate(20 * MICRO, 100 * MICRO, 128 * MICRO);
    assert_eq!(get_target_size((video + 128_000_000) as u64, 100 * MICRO), 19_073_486);
}

#[test]
fn solver_agrees_with_the_formulas_in_floating_point() {
    for &(size, duration, audio) in &[
        (20.0f64, 100.0f64, 128.0f64),
        (8.0, 37.5, 96.0),
        (7.8, 12.345678, 125.0),
        (100.0, 3600.0, 320.0),
    ] {
        let s = (size * 1e6).round() as u64;
        let d = (duration * 1e6).round() as u64;
        let a = (audio * 1e6).round() as u64;
        let floor = get_target_size(a, d) as f64 / 1e6;
        assert!((floor - audio * duration / 8192.0).abs() < 2e-6);
        let rate = get_target_video_rate(s, d, a) as f64 / 1e6;
        let expected = size * 8192.0 / (1.048576 * duration) - audio;
        assert!((rate - expected).abs() < 1e-3, "{} against {}", rate, expected);
    }
}
