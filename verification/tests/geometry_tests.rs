use termmenu::geometry::Rect;

#[test]
fn inset_shrinks_symmetrically() {
    let r = Rect::new(0, 0, 40, 10);
    let inner = r.inset(2, 1);
    assert_eq!(inner, Rect::new(2, 1, 36, 8));
}

#[test]
fn inset_keeps_origin_offset() {
    let r = Rect::new(5, 3, 20, 9);
    let inner = r.inset(4, 2);
    assert_eq!(inner, Rect::new(9, 5, 12, 5));
}

#[test]
fn inset_clamps_width_to_zero() {
    let r = Rect::new(0, 0, 40, 10);
    let inner = r.inset(20, 1);
    assert_eq!(inner.width, 0);
    assert_eq!(inner.height, 8);
}

#[test]
fn inset_clamps_height_to_zero() {
    let r = Rect::new(0, 0, 40, 10);
    let inner = r.inset(2, 5);
    assert_eq!(inner.height, 0);
    assert_eq!(inner.width, 36);
}

#[test]
fn inset_oversized_margins_anchor_at_centre() {
    let r = Rect::new(10, 10, 5, 4);
    let inner = r.inset(3, 2);
    assert_eq!(inner, Rect::new(12, 12, 0, 0));
}

#[test]
fn inset_of_zero_height_rect_stays_degenerate() {
    let r = Rect::new(7, 7, 12, 0);
    let inner = r.inset(1, 1);
    assert_eq!(inner.height, 0);
}

#[test]
fn row_slice_inside() {
    let r = Rect::new(2, 1, 36, 8);
    assert_eq!(r.row_slice(4), Rect::new(2, 4, 36, 1));
    assert_eq!(r.row_slice(1), Rect::new(2, 1, 36, 1));
    assert_eq!(r.row_slice(8), Rect::new(2, 8, 36, 1));
}

#[test]
fn row_slice_outside_is_degenerate() {
    let r = Rect::new(2, 1, 36, 8);
    assert_eq!(r.row_slice(9), Rect::new(2, 1, 36, 0));
    assert_eq!(r.row_slice(0), Rect::new(2, 1, 36, 0));
}
