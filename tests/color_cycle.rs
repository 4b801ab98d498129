use webgl_renderer::color_cycle::{cycle_step, FULL, STEP};

fn start_colors() -> Vec<i32> {
    vec![FULL, 0, 0, 0, FULL, 0, 0, 0, FULL]
}

#[test]
fn one_step_moves_unblocked_pairs() {
    let mut colors = start_colors();
    cycle_step(&mut colors);
    // Pair 0 -> 1 moves (source full); 4 -> 5 moves; 8 -> 0 moves; pairs whose
    // source is empty, or whose target is empty while the source is not full,
    // stay put.
    assert_eq!(colors, vec![10000, 100, 0, 0, 9900, 100, 0, 0, 9900]);
}

#[test]
fn hundred_steps_keep_the_total() {
    let mut colors = start_colors();
    for _ in 0..100 {
        cycle_step(&mut colors);
    }
    let total: i64 = colors.iter().map(|c| *c as i64).sum();
    assert_eq!(total, 3 * FULL as i64);
}

#[test]
fn every_step_keeps_the_total() {
    let mut colors = vec![2500, 7000, 0, 10000, 40, 0, 9999, 3, 123];
    let before: i64 = colors.iter().map(|c| *c as i64).sum();
    for _ in 0..1000 {
        cycle_step(&mut colors);
        let now: i64 = colors.iter().map(|c| *c as i64).sum();
        assert_eq!(now, before);
    }
}

#[test]
fn near_zero_source_is_skipped() {
    // Channel 0 is within the tolerance of zero, so nothing leaves it; channel
    // 1 is not full and its target is empty, so nothing leaves it either.
    let mut colors = vec![4, 500, 0];
    cycle_step(&mut colors);
    assert_eq!(colors, vec![4, 500, 0]);
}

#[test]
fn nearly_full_source_fills_an_empty_target() {
    // 9996 is within the tolerance of full: it passes color to an empty target.
    let mut colors = vec![9996, 0];
    cycle_step(&mut colors);
    // Pair 0 -> 1 moves, then pair 1 -> 0 moves the same amount back.
    assert_eq!(colors, vec![9996, 0]);
    let mut colors = vec![9994, 0];
    cycle_step(&mut colors);
    assert_eq!(colors, vec![9994, 0]);
}

#[test]
fn single_channel_passes_to_itself() {
    let mut colors = vec![700];
    cycle_step(&mut colors);
    assert_eq!(colors, vec![700]);
}

#[test]
fn empty_colors_stay_empty() {
    let mut colors: Vec<i32> = Vec::new();
    cycle_step(&mut colors);
    assert!(colors.is_empty());
}
