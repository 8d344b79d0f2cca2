use auto_volume::level::{bar_length, percentage_label, rms, Level, BAR_WIDTH, FULL_SCALE};

#[test]
fn rms_of_empty_frame_is_zero() {
    assert_eq!(rms(&[]), Level { raw: 0 });
}

#[test]
fn rms_of_silence_is_zero() {
    assert_eq!(rms(&[0; 512]), Level { raw: 0 });
    assert_eq!(rms(&[0]), Level { raw: 0 });
}

#[test]
fn rms_of_single_sample_is_its_magnitude() {
    assert_eq!(rms(&[1]).raw, 1);
    assert_eq!(rms(&[-1]).raw, 1);
    assert_eq!(rms(&[123_456_789]).raw, 123_456_789);
    assert_eq!(rms(&[-987_654_321]).raw, 987_654_321);
    assert_eq!(rms(&[i32::MAX]).raw, 2_147_483_647);
}

#[test]
fn rms_of_full_scale_frame_is_one() {
    assert_eq!(rms(&[i32::MAX; 512]).raw, FULL_SCALE);
    assert_eq!(rms(&[i32::MAX; 3]).raw, FULL_SCALE);
}

#[test]
fn most_negative_sample_lies_beyond_full_scale() {
    let level = rms(&[i32::MIN]);
    assert_eq!(level.raw, 2_147_483_648);
    assert!(level.raw > FULL_SCALE);
    assert_eq!(rms(&[i32::MIN; 512]).raw, 2_147_483_648);
}

#[test]
fn rms_rounds_the_root_down() {
    // mean of squares (9 + 16) / 2 = 12, root 3.46
    assert_eq!(rms(&[3, 4]).raw, 3);
    // mean of squares (1 + 1 + 4) / 3 = 2, root 1.41
    assert_eq!(rms(&[1, -1, 2]).raw, 1);
    // mean of squares 100 / 4 = 25
    assert_eq!(rms(&[10, 0, 0, 0]).raw, 5);
    assert_eq!(rms(&[1_000_000_000, -1_000_000_000]).raw, 1_000_000_000);
}

#[test]
fn rms_of_alternating_full_swing() {
    let mut frame = Vec::new();
    for i in 0..512 {
        frame.push(if i % 2 == 0 { i32::MAX } else { -i32::MAX });
    }
    assert_eq!(rms(&frame).raw, FULL_SCALE);
}

#[test]
fn rms_ignores_the_order_of_samples() {
    assert_eq!(rms(&[5, 700, -32, 1_000_000]), rms(&[1_000_000, -32, 700, 5]));
}

#[test]
fn bar_length_is_level_times_fifty_rounded() {
    assert_eq!(bar_length(Level { raw: 0 }), 0);
    assert_eq!(bar_length(Level { raw: FULL_SCALE }), 50);
    // half of full scale, rounded down by half a unit: 24.99999999 cells
    assert_eq!(bar_length(Level { raw: FULL_SCALE / 2 }), 25);
    assert_eq!(bar_length(Level { raw: FULL_SCALE / 10 }), 5);
    assert_eq!(bar_length(Level { raw: BAR_WIDTH }), 0);
}

#[test]
fn bar_length_rounds_to_nearest_cell() {
    // 0.5 cells is 21474836.47 units
    assert_eq!(bar_length(Level { raw: 21_474_836 }), 0);
    assert_eq!(bar_length(Level { raw: 21_474_837 }), 1);
    // 49.5 cells is 2126008810.53 units
    assert_eq!(bar_length(Level { raw: 2_126_008_810 }), 49);
    assert_eq!(bar_length(Level { raw: 2_126_008_811 }), 50);
}

#[test]
fn bar_is_not_clamped_above_full_scale() {
    assert_eq!(bar_length(Level { raw: 2_147_483_648 }), 50);
    assert_eq!(bar_length(Level { raw: 3_221_225_470 }), 75);
    assert_eq!(bar_length(Level { raw: u32::MAX }), 100);
}

#[test]
fn percentage_label_is_level_times_hundred_rounded() {
    assert_eq!(percentage_label(Level { raw: 0 }), 0);
    assert_eq!(percentage_label(Level { raw: FULL_SCALE }), 100);
    assert_eq!(percentage_label(Level { raw: FULL_SCALE / 2 }), 50);
    assert_eq!(percentage_label(Level { raw: FULL_SCALE / 4 }), 25);
    // 0.5 percent is 10737418.235 units
    assert_eq!(percentage_label(Level { raw: 10_737_418 }), 0);
    assert_eq!(percentage_label(Level { raw: 10_737_419 }), 1);
    assert_eq!(percentage_label(Level { raw: u32::MAX }), 200);
}

#[test]
fn readings_agree_with_floating_point() {
    let mut raw: u32 = 1;
    while raw < 2_000_000_000 {
        let level = raw as f64 / FULL_SCALE as f64;
        assert_eq!(bar_length(Level { raw }), (level * 50.0).round() as usize);
        assert_eq!(percentage_label(Level { raw }), (level * 100.0).round() as u32);
        raw = raw + raw / 7 + 12_345;
    }
}

#[test]
fn rms_agrees_with_floating_point() {
    let frame: Vec<i32> = (0..512).map(|i: i64| ((i * 7_919_173) % 2_000_000_000 - 1_000_000_000) as i32).collect();
    let mean: f64 = frame.iter().map(|s| (*s as f64) * (*s as f64)).sum::<f64>() / 512.0;
    let level = rms(&frame);
    assert!((level.raw as f64 - mean.sqrt()).abs() <= 1.0);
}
