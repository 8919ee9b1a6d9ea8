use orbit::geometry::{fits_i32, Rect};

#[test]
fn rect_extent() {
    let r = Rect { left: -10, top: 34, right: 1910, bottom: 1080 };
    assert_eq!(r.width(), 1920);
    assert_eq!(r.height(), 1046);
}

#[test]
fn i32_range() {
    assert!(fits_i32(0));
    assert!(fits_i32(i32::MAX as i64));
    assert!(fits_i32(i32::MIN as i64));
    assert!(!fits_i32(i32::MAX as i64 + 1));
    assert!(!fits_i32(i32::MIN as i64 - 1));
}
