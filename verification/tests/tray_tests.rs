use replayd::tray::{rgba_to_argb, tray_icon, tray_id, tray_title};

#[test]
fn pixels_become_argb() {
    let mut d = vec![1, 2, 3, 4, 10, 20, 30, 40];
    rgba_to_argb(&mut d);
    assert_eq!(d, vec![4, 1, 2, 3, 40, 10, 20, 30]);
    let mut e: Vec<u8> = vec![];
    rgba_to_argb(&mut e);
    assert!(e.is_empty());
}

#[test]
fn tray_identity() {
    assert_eq!(tray_id(), "dev.land.Replayd");
    assert_eq!(tray_title(), "Replayd");
}

// A 1x1 PNG whose only pixel is RGBA (255, 0, 0, 128).
const RED_PIXEL_PNG: [u8; 70] = [
    0x89, 0x50, 0x4e, 0x47, 0x0d, 0x0a, 0x1a, 0x0a, 0x00, 0x00, 0x00, 0x0d, 0x49, 0x48, 0x44, 0x52, 0x00, 0x00, 0x00,
    0x01, 0x00, 0x00, 0x00, 0x01, 0x08, 0x06, 0x00, 0x00, 0x00, 0x1f, 0x15, 0xc4, 0x89, 0x00, 0x00, 0x00, 0x0d, 0x49,
    0x44, 0x41, 0x54, 0x78, 0x9c, 0x63, 0xf8, 0xcf, 0xc0, 0xd0, 0x00, 0x00, 0x04, 0x81, 0x01, 0x80, 0x2c, 0x55, 0xce,
    0xb0, 0x00, 0x00, 0x00, 0x00, 0x49, 0x45, 0x4e, 0x44, 0xae, 0x42, 0x60, 0x82,
];

#[test]
fn icon_from_png() {
    let icon = tray_icon(&RED_PIXEL_PNG).unwrap();
    assert_eq!((icon.width, icon.height), (1, 1));
    assert_eq!(icon.data, vec![128, 255, 0, 0]);
    assert!(tray_icon(&[1, 2, 3]).is_none());
}

#[test]
fn argb_leaves_a_partial_pixel_alone() {
    let mut d = vec![1u8, 2, 3, 4, 5, 6];
    replayd::tray::rgba_to_argb(&mut d);
    assert_eq!(d, vec![4, 1, 2, 3, 5, 6]);
}
