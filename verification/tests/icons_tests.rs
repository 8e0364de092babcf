use base64::Engine;
use magic_audio_control::display::{blank_button_image, blank_knob_image, knob_image, unlocked_button_image};
use magic_audio_control::icons::{
    create_blank_button, create_blank_knob, create_knob_display, create_unlocked_button_with_icon,
};

const PREFIX: &str = "data:image/png;base64,";

fn decode(url: &str) -> image::RgbaImage {
    assert!(url.starts_with(PREFIX));
    let bytes = base64::engine::general_purpose::STANDARD.decode(&url[PREFIX.len()..]).unwrap();
    image::load_from_memory(&bytes).unwrap().to_rgba8()
}

fn px(img: &image::RgbaImage, x: u32, y: u32) -> [u8; 4] {
    img.get_pixel(x, y).0
}

#[test]
fn blank_button_is_black_square() {
    let img = decode(&create_blank_button());
    assert_eq!(img.dimensions(), (144, 144));
    assert!(img.pixels().all(|p| p.0 == [0, 0, 0, 255]));
    assert_eq!(blank_button_image(), create_blank_button());
}

#[test]
fn blank_knob_is_black_strip() {
    let img = decode(&create_blank_knob());
    assert_eq!(img.dimensions(), (144, 72));
    assert!(img.pixels().all(|p| p.0 == [0, 0, 0, 255]));
    assert_eq!(blank_knob_image(), create_blank_knob());
}

#[test]
fn knob_bar_is_filled_to_volume() {
    let img = decode(&create_knob_display("Firefox", 50, false));
    assert_eq!(img.dimensions(), (144, 72));
    assert_eq!(px(&img, 0, 0), [0, 0, 0, 255]);
    assert_eq!(px(&img, 40, 55), [220, 220, 225, 255]);
    assert_eq!(px(&img, 100, 55), [80, 80, 95, 255]);
    assert_eq!(px(&img, 70, 55), [220, 220, 225, 255]);
    assert_eq!(px(&img, 74, 55), [80, 80, 95, 255]);
    assert_eq!(px(&img, 40, 49), [0, 0, 0, 255]);
    assert_eq!(px(&img, 40, 62), [0, 0, 0, 255]);
    assert_eq!(knob_image("Firefox", 50, false), create_knob_display("x", 50, false));
}

#[test]
fn knob_bar_full_and_empty() {
    let full = decode(&create_knob_display("a", 150, false));
    assert_eq!(px(&full, 130, 55), [220, 220, 225, 255]);
    let empty = decode(&create_knob_display("a", 0, false));
    assert_eq!(px(&empty, 40, 55), [80, 80, 95, 255]);
    assert_eq!(px(&empty, 9, 55), [80, 80, 95, 255]);
}

#[test]
fn muted_knob_bar_is_dark() {
    let img = decode(&create_knob_display("Firefox", 80, true));
    assert_eq!(px(&img, 40, 55), [60, 60, 70, 255]);
    assert_eq!(px(&img, 130, 55), [60, 60, 70, 255]);
    assert_eq!(px(&img, 2, 2), [0, 0, 0, 255]);
}

#[test]
fn rounded_corners_are_cut() {
    let img = decode(&create_knob_display("a", 100, false));
    assert_eq!(px(&img, 8, 50), [0, 0, 0, 255]);
    assert_eq!(px(&img, 14, 50), [220, 220, 225, 255]);
}

#[test]
fn unlocked_icon_is_tinted() {
    let blank = create_blank_button();
    let dark = decode(&create_unlocked_button_with_icon(&blank, false));
    assert_eq!(dark.dimensions(), (144, 144));
    assert_eq!(px(&dark, 10, 10), [18, 18, 25, 255]);
    let light = decode(&create_unlocked_button_with_icon(&blank, true));
    assert_eq!(px(&light, 10, 10), [37, 37, 47, 255]);
    assert_eq!(unlocked_button_image(&blank, true), create_unlocked_button_with_icon(&blank, true));
}

#[test]
fn transparent_pixels_stay_untinted() {
    let img = image::RgbaImage::from_pixel(4, 4, image::Rgba([10, 20, 30, 0]));
    let mut png = std::io::Cursor::new(Vec::new());
    img.write_to(&mut png, image::ImageFormat::Png).unwrap();
    let url = format!("{PREFIX}{}", base64::engine::general_purpose::STANDARD.encode(png.into_inner()));
    let out = decode(&create_unlocked_button_with_icon(&url, true));
    assert_eq!(px(&out, 1, 1)[3], 0);
}

#[test]
fn non_png_icons_are_kept() {
    assert_eq!(create_unlocked_button_with_icon("mdi:volume-high", true), "mdi:volume-high");
    assert_eq!(create_unlocked_button_with_icon("data:image/png;base64,@@@", false), "data:image/png;base64,@@@");
    let not_png = format!("{PREFIX}{}", base64::engine::general_purpose::STANDARD.encode(b"hello"));
    assert_eq!(create_unlocked_button_with_icon(&not_png, false), not_png);
}
