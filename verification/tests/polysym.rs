use polykit::polysym::SfImage;

const LIGHT: [u8; 3] = [1, 2, 3];
const DARK: [u8; 2] = [9, 8];

#[test]
fn bytes_for_picks_the_appearance() {
    let img = SfImage::new(&LIGHT, &DARK);
    assert_eq!(img.bytes_for(false), &LIGHT[..]);
    assert_eq!(img.bytes_for(true), &DARK[..]);
}

#[test]
fn menu_bytes_follow_the_platform_flag() {
    let img = SfImage::new(&LIGHT, &DARK);
    assert_eq!(img.menu_png_bytes_for(true, true), Some(&DARK[..]));
    assert_eq!(img.menu_png_bytes_for(false, true), Some(&LIGHT[..]));
    assert_eq!(img.menu_png_bytes_for(true, false), None);
}
