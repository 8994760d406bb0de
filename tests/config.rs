use three_body::config::ColorRGB;

#[test]
fn colour_keeps_its_channels() {
    let c = ColorRGB { r: 255, g: 128, b: 0 };
    let d = c;
    assert_eq!(d, ColorRGB { r: 255, g: 128, b: 0 });
    assert_ne!(d, ColorRGB { r: 255, g: 128, b: 1 });
    assert_eq!((c.r, c.g, c.b), (255, 128, 0));
}
