use pathtracer::{accumulate_row, closest_hit, inspect, next_step, Step};

#[test]
fn miss_gives_background() {
    assert_eq!(next_step(false, false, 0, 5, 10), Step::Background);
    assert_eq!(next_step(false, true, 5, 5, 10), Step::Background);
}

#[test]
fn emitter_gives_emission_at_any_depth() {
    for depth in [0u32, 1, 4] {
        assert_eq!(next_step(true, true, depth, 5, 10), Step::Emission);
    }
}

#[test]
fn bounce_limit_gives_emission() {
    assert_eq!(next_step(true, false, 5, 5, 10), Step::Emission);
    assert_eq!(next_step(true, false, 0, 0, 10), Step::Emission);
}

#[test]
fn scatter_requests_scaled_samples() {
    assert_eq!(next_step(true, false, 0, 5, 10), Step::Scatter(10));
    assert_eq!(next_step(true, false, 4, 5, 1), Step::Scatter(1));
}

#[test]
fn scatter_requests_at_least_one_sample() {
    assert_eq!(next_step(true, false, 2, 5, 0), Step::Scatter(1));
    assert_eq!(next_step(true, false, 2, 5, -3), Step::Scatter(1));
}

// A hit is modelled here by a distance in whole units; a probe answers only within the bound.
fn probe(distance: &Option<u32>, bound: Option<&u32>) -> Option<u32> {
    match (*distance, bound) {
        (Some(d), Some(b)) if d > *b => None,
        (d, _) => d,
    }
}

#[test]
fn empty_scene_has_no_hit() {
    let objects: Vec<Option<u32>> = Vec::new();
    assert_eq!(closest_hit(&objects, probe), None);
    assert_eq!(next_step(false, false, 0, 5, 10), Step::Background);
}

#[test]
fn closest_hit_keeps_the_nearest() {
    let objects = vec![Some(7), None, Some(3), Some(9), Some(5)];
    assert_eq!(closest_hit(&objects, probe), Some((2, 3)));
}

#[test]
fn closest_hit_ignores_objects_that_miss() {
    let objects = vec![None, None, Some(4), None];
    assert_eq!(closest_hit(&objects, probe), Some((2, 4)));
    let misses: Vec<Option<u32>> = vec![None, None];
    assert_eq!(closest_hit(&misses, probe), None);
}

#[test]
fn closest_hit_equal_distances_keep_the_later_object() {
    let objects = vec![Some(2), Some(2)];
    assert_eq!(closest_hit(&objects, probe), Some((1, 2)));
}

#[test]
fn single_emitter_scene_is_terminal() {
    let objects = vec![Some(1)];
    let hit = closest_hit(&objects, probe);
    assert!(hit.is_some());
    for depth in [0u32, 3] {
        assert_eq!(next_step(hit.is_some(), true, depth, 8, 64), Step::Emission);
    }
}

#[test]
fn accumulate_row_adds_at_row_offset() {
    let mut image = vec![1u32; 12];
    let row = vec![10u32, 20, 30, 40];
    accumulate_row(&mut image, 4, 1, &row, |a, b| a + b);
    assert_eq!(image, vec![1, 1, 1, 1, 11, 21, 31, 41, 1, 1, 1, 1]);
    accumulate_row(&mut image, 4, 2, &row, |a, b| a + b);
    assert_eq!(image, vec![1, 1, 1, 1, 11, 21, 31, 41, 11, 21, 31, 41]);
}

#[test]
fn accumulate_row_short_row_leaves_the_rest() {
    let mut image = vec![0i64; 6];
    accumulate_row(&mut image, 3, 0, &vec![5i64, -2], |a, b| a + b);
    assert_eq!(image, vec![5, -2, 0, 0, 0, 0]);
}

#[test]
fn inspect_maps_a_value() {
    assert_eq!(inspect(&Some(4u32), |v| *v * 2), Some(8));
    assert_eq!(inspect(&None::<u32>, |v| *v * 2), None);
    assert_eq!(inspect(&Some((1u8, 2.5f64)), |(_, d)| *d), Some(2.5));
}

#[test]
fn row_order_does_not_change_the_image() {
    let start = vec![2u64; 9];
    let top = vec![1u64, 2, 3];
    let bottom = vec![7u64, 8];

    let mut first = start.clone();
    accumulate_row(&mut first, 3, 0, &top, |a, b| a * 10 + b);
    accumulate_row(&mut first, 3, 2, &bottom, |a, b| a * 10 + b);

    let mut second = start.clone();
    accumulate_row(&mut second, 3, 2, &bottom, |a, b| a * 10 + b);
    accumulate_row(&mut second, 3, 0, &top, |a, b| a * 10 + b);

    assert_eq!(first, second);
    assert_eq!(first, vec![21, 22, 23, 2, 2, 2, 27, 28, 2]);
}
