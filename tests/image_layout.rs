use ray_tracer::layout::{ImageLayout, LayoutError};

#[test]
fn layout_rejects_bad_configuration() {
    assert_eq!(ImageLayout::new(0, 5, 1, 1).unwrap_err(), LayoutError::NonPositiveWidth);
    assert_eq!(ImageLayout::new(-3, 5, 0, -1).unwrap_err(), LayoutError::NonPositiveWidth);
    assert_eq!(ImageLayout::new(4, 5, 0, 1).unwrap_err(), LayoutError::NonPositiveSamples);
    assert_eq!(ImageLayout::new(4, 5, 1, -1).unwrap_err(), LayoutError::NegativeDepth);
}

#[test]
fn layout_keeps_configuration() {
    let l = ImageLayout::new(400, 225, 100, 10).unwrap();
    assert_eq!(l.width(), 400);
    assert_eq!(l.height(), 225);
    assert_eq!(l.samples_per_pixel(), 100);
    assert_eq!(l.max_depth(), 10);
    assert_eq!(l.pixel_count(), 90000);
}

#[test]
fn degenerate_height_becomes_one_row() {
    let l = ImageLayout::new(4, 0, 1, 0).unwrap();
    assert_eq!(l.height(), 1);
    let l = ImageLayout::new(4, -7, 1, 0).unwrap();
    assert_eq!(l.height(), 1);
    assert_eq!(l.max_depth(), 0);
}

#[test]
fn pixels_come_out_row_major() {
    let l = ImageLayout::new(3, 2, 1, 1).unwrap();
    let order: Vec<(u32, u32)> = (0..l.pixel_count()).map(|k| l.pixel_at(k)).collect();
    assert_eq!(order, vec![(0, 0), (1, 0), (2, 0), (0, 1), (1, 1), (2, 1)]);
    for k in 0..l.pixel_count() {
        let (i, j) = l.pixel_at(k);
        assert_eq!(l.pixel_index(i, j), k);
    }
    assert_eq!(l.pixel_index(2, 1), 5);
}
