use xhacklight::steps::{find_step, get_smart_steps, SMART_STEPS, UPPER_BOUND};

#[test]
fn table_is_the_fixed_list_of_levels() {
    let expected: [u32; 33] = [
        0, 1, 100, 200, 300, 400, 600, 800, 1000, 1200, 1400, 1600, 1800, 2000, 3000, 4000, 5000,
        6000, 8000, 10000, 12000, 14000, 16000, 18000, 20000, 25000, 30000, 35000, 40000, 45000,
        50000, 55000, 60000,
    ];
    assert_eq!(SMART_STEPS, expected);
    assert_eq!(UPPER_BOUND, 60000);
}

#[test]
fn table_ascends_from_zero_to_the_upper_bound() {
    assert_eq!(SMART_STEPS[0], 0);
    assert_eq!(SMART_STEPS[SMART_STEPS.len() - 1], UPPER_BOUND);
    for i in 1..SMART_STEPS.len() {
        assert!(SMART_STEPS[i - 1] < SMART_STEPS[i]);
    }
}

#[test]
fn from_a_level_steps_go_to_its_neighbours() {
    let last: usize = SMART_STEPS.len() - 1;
    for i in 0..SMART_STEPS.len() {
        let down: u32 = SMART_STEPS[if i == 0 { 0 } else { i - 1 }];
        let up: u32 = SMART_STEPS[if i == last { last } else { i + 1 }];
        assert_eq!(get_smart_steps(SMART_STEPS[i]), (down, up));
    }
}

#[test]
fn between_two_levels_steps_go_to_them() {
    for i in 0..SMART_STEPS.len() - 1 {
        let low: u32 = SMART_STEPS[i];
        let high: u32 = SMART_STEPS[i + 1];
        for b in (low + 1)..high {
            assert_eq!(get_smart_steps(b), (low, high));
        }
    }
}

#[test]
fn steps_stay_at_the_bounds() {
    assert_eq!(get_smart_steps(60000).1, 60000);
    assert_eq!(get_smart_steps(0).0, 0);
    assert_eq!(get_smart_steps(0), (0, 1));
    assert_eq!(get_smart_steps(60000), (55000, 60000));
}

#[test]
fn beyond_the_upper_bound_both_steps_give_it() {
    assert_eq!(get_smart_steps(60001), (60000, 60000));
    assert_eq!(get_smart_steps(999999), (60000, 60000));
    assert_eq!(get_smart_steps(u32::MAX), (60000, 60000));
}

#[test]
fn steps_near_the_low_end() {
    assert_eq!(get_smart_steps(1), (0, 100));
    assert_eq!(get_smart_steps(2), (1, 100));
    assert_eq!(get_smart_steps(99), (1, 100));
    assert_eq!(get_smart_steps(100), (1, 200));
    assert_eq!(get_smart_steps(101), (100, 200));
}

#[test]
fn steps_in_the_middle() {
    assert_eq!(get_smart_steps(1500), (1400, 1600));
    assert_eq!(get_smart_steps(2000), (1800, 3000));
    assert_eq!(get_smart_steps(20000), (18000, 25000));
    assert_eq!(get_smart_steps(59999), (55000, 60000));
}

#[test]
fn find_step_gives_the_index_or_the_insertion_index() {
    assert_eq!(find_step(0), Ok(0));
    assert_eq!(find_step(1), Ok(1));
    assert_eq!(find_step(2000), Ok(13));
    assert_eq!(find_step(60000), Ok(32));
    assert_eq!(find_step(2), Err(2));
    assert_eq!(find_step(1500), Err(11));
    assert_eq!(find_step(59999), Err(32));
    assert_eq!(find_step(60001), Err(33));
    assert_eq!(find_step(u32::MAX), Err(33));
}

#[test]
fn find_step_agrees_with_the_slice_search() {
    for b in 0..=61000u32 {
        assert_eq!(find_step(b), SMART_STEPS.binary_search(&b));
    }
}

#[test]
fn steps_are_the_nearest_levels_on_each_side() {
    for b in 0..=61000u32 {
        let (down, up): (u32, u32) = get_smart_steps(b);
        let above: Option<u32> = SMART_STEPS.iter().copied().filter(|s| *s > b).min();
        let below: Option<u32> = SMART_STEPS.iter().copied().filter(|s| *s < b).max();
        assert_eq!(up, above.unwrap_or(60000));
        assert_eq!(down, below.unwrap_or(0));
    }
}
