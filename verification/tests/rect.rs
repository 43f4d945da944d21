use adventure2d::rect::ScreenRect;

#[test]
fn rect_is_kept_where_it_fits() {
    let rect = ScreenRect::new(100, -20, 48, 48);
    assert_eq!(rect, ScreenRect { x: 100, y: -20, width: 48, height: 48 });
}

#[test]
fn rect_position_is_pulled_into_range() {
    let rect = ScreenRect::new(i32::MAX, i32::MIN, 48, 48);
    assert_eq!(rect.x, 1_073_741_823);
    assert_eq!(rect.y, -1_073_741_824);
}

#[test]
fn rect_side_is_never_zero_nor_too_large() {
    let rect = ScreenRect::new(0, 0, 0, u32::MAX);
    assert_eq!(rect.width, 1);
    assert_eq!(rect.height, 1_073_741_823);
}
