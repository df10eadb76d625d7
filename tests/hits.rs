use raytracer::hit::{in_shadow, nearest_hit};

fn key(t: f32) -> u32 {
    t.to_bits()
}

#[test]
fn no_objects_is_a_miss() {
    assert_eq!(nearest_hit(&vec![]), None);
}

#[test]
fn all_missed_is_a_miss() {
    assert_eq!(nearest_hit(&vec![None, None, None]), None);
}

#[test]
fn nearest_valid_hit_wins() {
    let hits = vec![Some(key(5.0)), None, Some(key(2.5)), Some(key(3.0))];
    assert_eq!(nearest_hit(&hits), Some(2));
}

#[test]
fn equal_distances_go_to_the_first() {
    let hits = vec![None, Some(key(4.0)), Some(key(4.0))];
    assert_eq!(nearest_hit(&hits), Some(1));
}

#[test]
fn nearest_matches_minimum_over_independent_tests() {
    let ts: Vec<Option<f32>> = vec![Some(9.0), Some(0.002), None, Some(1e6), Some(0.5), None];
    let hits: Vec<Option<u32>> = ts.iter().map(|t| t.map(key)).collect();
    let mut best: Option<usize> = None;
    for (i, t) in ts.iter().enumerate() {
        if let Some(t) = t {
            if best.map_or(true, |b| *t < ts[b].unwrap()) {
                best = Some(i);
            }
        }
    }
    assert_eq!(nearest_hit(&hits), best);
    assert_eq!(best, Some(1));
}

#[test]
fn distance_keys_order_as_distances() {
    assert!(key(0.001) < key(0.5));
    assert!(key(0.5) < key(1.0));
    assert!(key(1.0) < key(f32::INFINITY));
}

#[test]
fn occluder_nearer_than_light_shadows() {
    assert!(in_shadow(Some(key(2.0)), key(10.0)));
}

#[test]
fn occluder_beyond_light_does_not_shadow() {
    assert!(!in_shadow(Some(key(12.0)), key(10.0)));
    assert!(!in_shadow(Some(key(10.0)), key(10.0)));
}

#[test]
fn nothing_hit_is_lit() {
    assert!(!in_shadow(None, key(10.0)));
}
