use ultrasonic_sim::hits::{beam_fraction, hit_rays, HitHistory, RayCast};

#[test]
fn beam_fraction_of_single_ray() {
    assert_eq!(beam_fraction(0, 1), None);
}

#[test]
fn beam_fraction_spans_edges() {
    assert_eq!(beam_fraction(0, 128), Some((0, 127)));
    assert_eq!(beam_fraction(127, 128), Some((127, 127)));
    assert_eq!(beam_fraction(1, 2), Some((1, 1)));
}

#[test]
fn empty_history() {
    let h = HitHistory::new();
    assert_eq!(h.get(1, 0), None);
}

#[test]
fn insert_then_get() {
    let mut h = HitHistory::new();
    h.insert(42, 3, 1000);
    h.insert(42, 4, 2000);
    h.insert(7, 3, 3000);
    assert_eq!(h.get(42, 3), Some(1000));
    assert_eq!(h.get(42, 4), Some(2000));
    assert_eq!(h.get(7, 3), Some(3000));
    assert_eq!(h.get(7, 4), None);
}

#[test]
fn insert_replaces() {
    let mut h = HitHistory::new();
    h.insert(42, 3, 1000);
    h.insert(42, 3, 1500);
    assert_eq!(h.get(42, 3), Some(1500));
}

#[test]
fn frame_replaces_history() {
    let d1 = 1500.0f32.to_bits();
    let d2 = 1520.5f32.to_bits();
    let mut h = HitHistory::new();
    h.insert(9, 0, 1);
    let casts: Vec<RayCast> = vec![None, Some((42, d1)), None, Some((42, d2)), Some((7, d1))];
    h.record_frame(&casts);
    assert_eq!(h.get(9, 0), None);
    assert_eq!(h.get(42, 1), Some(d1));
    assert_eq!(h.get(42, 3), Some(d2));
    assert_eq!(h.get(7, 4), Some(d1));
    assert_eq!(h.get(42, 4), None);
    assert_eq!(h.get(42, 0), None);
    assert_eq!(f32::from_bits(h.get(42, 3).unwrap()), 1520.5);
}

#[test]
fn frame_without_hits_clears_history() {
    let mut h = HitHistory::new();
    h.insert(1, 1, 1);
    h.record_frame(&vec![None, None]);
    assert_eq!(h.get(1, 1), None);
}

#[test]
fn hit_rays_in_ray_order() {
    let casts: Vec<RayCast> = vec![None, Some((42, 5)), None, Some((42, 6)), Some((7, 5))];
    assert_eq!(hit_rays(&casts), vec![1, 3, 4]);
    assert_eq!(hit_rays(&vec![None, None]), Vec::<usize>::new());
    assert_eq!(hit_rays(&Vec::new()), Vec::<usize>::new());
}

#[test]
fn hits_agree_with_history() {
    let casts: Vec<RayCast> = vec![Some((3, 1)), None, Some((4, 2))];
    let rays = hit_rays(&casts);
    let mut h = HitHistory::new();
    h.record_frame(&casts);
    for (i, c) in casts.iter().enumerate() {
        match c {
            Some((e, d)) => {
                assert!(rays.contains(&i));
                assert_eq!(h.get(*e, i), Some(*d));
            }
            None => assert!(!rays.contains(&i)),
        }
    }
}
