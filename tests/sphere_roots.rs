use ray_tracer::roots::{choose_root, Root};

#[test]
fn negative_discriminant_is_no_hit() {
    assert_eq!(choose_root(true, true, true), None);
    assert_eq!(choose_root(true, false, true), None);
}

#[test]
fn far_root_when_near_root_is_outside() {
    assert_eq!(choose_root(false, false, true), Some(Root::Far));
}

#[test]
fn near_root_preferred() {
    assert_eq!(choose_root(false, true, true), Some(Root::Near));
    assert_eq!(choose_root(false, true, false), Some(Root::Near));
    assert_eq!(choose_root(false, false, false), None);
}
