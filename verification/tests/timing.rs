use frame_timing::timing::delay_at;
use frame_timing::{Fps, Lodecoder, Rate, Ratio, Timestamp};
use std::path::PathBuf;

fn paths(count: usize) -> Vec<PathBuf> {
    (0..count).map(|i| PathBuf::from(format!("frame{i:04}.png"))).collect()
}

fn whole(n: u32) -> Ratio {
    Ratio { num: n, den: 1 }
}

#[test]
fn base_rate_is_fps_times_speed() {
    let params = Fps { fps: Ratio { num: 30000, den: 1001 }, speed: Ratio { num: 3, den: 2 } };
    assert_eq!(params.base_rate(), Rate { num: 90000, den: 2002 });
}

#[test]
fn base_rate_of_largest_values_does_not_wrap() {
    let top = Ratio { num: u32::MAX, den: u32::MAX };
    let params = Fps { fps: top, speed: top };
    let square = u64::from(u32::MAX) * u64::from(u32::MAX);
    assert_eq!(params.base_rate(), Rate { num: square, den: square });
}

#[test]
fn base_rate_may_be_zero() {
    let params = Fps { fps: whole(0), speed: whole(1) };
    assert_eq!(params.base_rate(), Rate { num: 0, den: 1 });
}

#[test]
fn source_keeps_the_base_rate() {
    let params = Fps { fps: whole(10), speed: Ratio { num: 1, den: 2 } };
    let constant = Lodecoder::new(paths(2), params);
    assert_eq!(constant.base_rate(), Rate { num: 10, den: 2 });
    let delayed = Lodecoder::new_with_delays(paths(2), params, vec![None, Some(40)]);
    assert_eq!(delayed.base_rate(), Rate { num: 10, den: 2 });
}

#[test]
fn source_keeps_the_base_rate_after_the_pass() {
    let params = Fps { fps: whole(25), speed: whole(4) };
    let mut source = Lodecoder::new(paths(1), params);
    let _pass = source.collect();
    assert_eq!(source.base_rate(), Rate { num: 100, den: 1 });
}

#[test]
fn total_frames_counts_the_frames() {
    let params = Fps { fps: whole(10), speed: whole(1) };
    assert_eq!(Lodecoder::new(paths(0), params).total_frames(), Some(0));
    assert_eq!(Lodecoder::new(paths(1), params).total_frames(), Some(1));
    assert_eq!(Lodecoder::new(paths(7), params).total_frames(), Some(7));
    assert_eq!(Lodecoder::new_with_delays(paths(4), params, vec![Some(1)]).total_frames(), Some(4));
}

#[test]
fn delay_is_looked_up_by_index() {
    let delays = Some(vec![Some(500), None, Some(250)]);
    assert_eq!(delay_at(&delays, 0), Some(500));
    assert_eq!(delay_at(&delays, 1), None);
    assert_eq!(delay_at(&delays, 2), Some(250));
}

#[test]
fn delay_past_the_end_of_the_list_is_none() {
    let delays = Some(vec![Some(500), None, Some(250)]);
    assert_eq!(delay_at(&delays, 3), None);
    assert_eq!(delay_at(&delays, usize::MAX), None);
    assert_eq!(delay_at(&Some(Vec::new()), 0), None);
}

#[test]
fn delay_without_a_list_is_none() {
    assert_eq!(delay_at(&None, 0), None);
    assert_eq!(delay_at(&None, 12), None);
}

#[test]
fn delay_of_zero_is_explicit() {
    assert_eq!(delay_at(&Some(vec![Some(0)]), 0), Some(0));
}

#[test]
fn time_advances_by_the_default_duration() {
    let start = Timestamp { default_frames: 4, explicit_ms: 120 };
    assert_eq!(start.advanced(None), Timestamp { default_frames: 5, explicit_ms: 120 });
}

#[test]
fn time_advances_by_an_explicit_delay() {
    let start = Timestamp { default_frames: 4, explicit_ms: 120 };
    assert_eq!(start.advanced(Some(250)), Timestamp { default_frames: 4, explicit_ms: 370 });
    assert_eq!(start.advanced(Some(0)), start);
}

#[test]
fn time_advances_past_the_range_of_a_delay() {
    let start = Timestamp { default_frames: 0, explicit_ms: u128::from(u32::MAX) };
    let end = start.advanced(Some(u32::MAX));
    assert_eq!(end, Timestamp { default_frames: 0, explicit_ms: 2 * u128::from(u32::MAX) });
    assert_eq!(end.explicit_ms, 8_589_934_590);
}
