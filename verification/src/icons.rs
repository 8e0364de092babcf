//! The images the deck shows, as PNG data URLs: the blank button and knob,
//! the knob's volume bar, and the tinted icon of an unlocked button. The
//! pixels are computed here; PNG and base64 coding are the `image` and
//! `base64` crates'.
use vstd::prelude::*;

use crate::text::{chars_of, concat, string_of};

verus! {

/// One RGBA pixel.
pub type Rgba = (u8, u8, u8, u8);

/// An RGBA image as rows of pixels, top row first.
pub struct PixelImage {
    pub width: u32,
    pub height: u32,
    pub rows: Vec<Vec<Rgba>>,
}

pub open spec fn rows_view(rows: Seq<Vec<Rgba>>) -> Seq<Seq<Rgba>> {
    rows.map_values(|r: Vec<Rgba>| r@)
}

/// `height` rows of `width` pixels each.
pub open spec fn shaped(width: u32, height: u32, rows: Seq<Seq<Rgba>>) -> bool {
    &&& rows.len() == height
    &&& forall|y: int| 0 <= y < rows.len() ==> (#[trigger] rows[y]).len() == width
}

impl PixelImage {
    pub open spec fn well_formed(&self) -> bool {
        &&& shaped(self.width, self.height, rows_view(self.rows@))
        &&& self.width > 0
        &&& self.height > 0
    }
}

#[verifier::external_type_specification]
#[verifier::external_body]
pub struct ExImageError(image::ImageError);

#[verifier::external_type_specification]
#[verifier::external_body]
pub struct ExDecodeError(base64::DecodeError);

/// The PNG file that the `image` crate writes for an RGBA image.
pub uninterp spec fn png_encoded(width: u32, height: u32, rows: Seq<Seq<Rgba>>) -> Seq<u8>;

/// The RGBA image that the `image` crate reads from a file's bytes, with
/// its width and height, where it reads one.
pub uninterp spec fn decoded_image(bytes: Seq<u8>) -> Option<(u32, u32, Seq<Seq<Rgba>>)>;

/// The bytes that the `base64` crate's standard engine decodes from a
/// text, where it decodes it.
pub uninterp spec fn base64_decoded(text: Seq<char>) -> Option<Seq<u8>>;

/// `ImageBuffer::write_to` with `ImageFormat::Png`: the image as a PNG
/// file. The contract names the file `png_encoded` of the pixels; writing
/// to memory does not fail for a non-empty image.
#[verifier::external_body]
fn encode_png(img: &PixelImage) -> (r: Vec<u8>)
    requires
        img.well_formed(),
    ensures
        r@ == png_encoded(img.width, img.height, rows_view(img.rows@)),
{
    let buffer = image::RgbaImage::from_fn(img.width, img.height, |x, y| {
        let p = img.rows[y as usize][x as usize];
        image::Rgba([p.0, p.1, p.2, p.3])
    });
    let mut out = std::io::Cursor::new(Vec::new());
    buffer.write_to(&mut out, image::ImageFormat::Png).expect("Failed to write PNG");
    out.into_inner()
}

/// `image::load_from_memory` followed by `to_rgba8`: the decoded image as
/// rows of RGBA pixels. The contract names the result `decoded_image` of
/// the bytes, and states that a decoded image has the rows and widths its
/// size says and is not empty (only the PNG decoder is built in, and it
/// refuses a zero width or height).
#[verifier::external_body]
fn decode_image(bytes: &Vec<u8>) -> (r: Result<PixelImage, image::ImageError>)
    ensures
        match r {
            Ok(img) => img.well_formed() && decoded_image(bytes@) == Some(
                (img.width, img.height, rows_view(img.rows@)),
            ),
            Err(_) => decoded_image(bytes@) is None,
        },
{
    let img = image::load_from_memory(bytes)?.to_rgba8();
    let (width, height) = img.dimensions();
    let rows = (0..height).map(|y| {
        (0..width).map(|x| {
            let p = img.get_pixel(x, y).0;
            (p[0], p[1], p[2], p[3])
        }).collect()
    }).collect();
    Ok(PixelImage { width, height, rows })
}

/// The standard base64 alphabet.
pub open spec fn b64_digit(n: int) -> char {
    if n < 26 {
        ('A' as int + n) as char
    } else if n < 52 {
        ('a' as int + n - 26) as char
    } else if n < 62 {
        ('0' as int + n - 52) as char
    } else if n == 62 {
        '+'
    } else {
        '/'
    }
}

/// Standard base64 with padding (RFC 4648): each group of three bytes
/// written as four digits of six bits, a last partial group padded with `=`.
pub open spec fn base64_encode(b: Seq<u8>) -> Seq<char>
    decreases b.len(),
{
    if b.len() == 0 {
        seq![]
    } else {
        let b0 = b[0] as int;
        let b1 = if b.len() > 1 {
            b[1] as int
        } else {
            0
        };
        let b2 = if b.len() > 2 {
            b[2] as int
        } else {
            0
        };
        if b.len() == 1 {
            seq![b64_digit(b0 / 4), b64_digit((b0 % 4) * 16), '=', '=']
        } else if b.len() == 2 {
            seq![b64_digit(b0 / 4), b64_digit((b0 % 4) * 16 + b1 / 16), b64_digit((b1 % 16) * 4), '=']
        } else {
            seq![
                b64_digit(b0 / 4),
                b64_digit((b0 % 4) * 16 + b1 / 16),
                b64_digit((b1 % 16) * 4 + b2 / 64),
                b64_digit(b2 % 64),
            ] + base64_encode(b.skip(3))
        }
    }
}

/// `Engine::encode` of the standard engine: standard base64 with padding.
#[verifier::external_body]
fn base64_encode_exec(bytes: &Vec<u8>) -> (r: String)
    ensures
        r@ == base64_encode(bytes@),
{
    base64::Engine::encode(&base64::engine::general_purpose::STANDARD, bytes)
}

/// `Engine::decode` of the standard engine. The contract names the result
/// `base64_decoded` of the text, and states that decoded bytes encode back
/// to the text (the engine accepts only canonical, padded input).
#[verifier::external_body]
fn base64_decode(text: &str) -> (r: Result<Vec<u8>, base64::DecodeError>)
    ensures
        match r {
            Ok(b) => base64_decoded(text@) == Some(b@) && base64_encode(b@) == text@,
            Err(_) => base64_decoded(text@) is None,
        },
{
    base64::Engine::decode(&base64::engine::general_purpose::STANDARD, text)
}

pub open spec fn data_url_prefix() -> Seq<char> {
    "data:image/png;base64,"@
}

/// A PNG file as a data URL.
pub open spec fn png_data_url(png: Seq<u8>) -> Seq<char> {
    data_url_prefix() + base64_encode(png)
}

/// The image as a PNG data URL.
fn image_data_url(img: &PixelImage) -> (r: String)
    requires
        img.well_formed(),
    ensures
        r@ == png_data_url(png_encoded(img.width, img.height, rows_view(img.rows@))),
{
    let png = encode_png(img);
    let encoded = base64_encode_exec(&png);
    let prefix = chars_of("data:image/png;base64,");
    string_of(&concat(&prefix, &chars_of(encoded.as_str())))
}

// ---------------------------------------------------------------------------
// Pixels
// ---------------------------------------------------------------------------

pub const ICON_SIZE: u32 = 144;

pub const KNOB_WIDTH: u32 = 144;

pub const KNOB_HEIGHT: u32 = 72;

pub open spec fn knob_bg() -> Rgba {
    (0, 0, 0, 255)
}

pub open spec fn icon_color() -> Rgba {
    (220, 220, 225, 255)
}

pub open spec fn bar_bg() -> Rgba {
    (80, 80, 95, 255)
}

pub open spec fn muted_bar() -> Rgba {
    (60, 60, 70, 255)
}

/// An image of one colour.
pub open spec fn solid_rows(width: u32, height: u32, c: Rgba) -> Seq<Seq<Rgba>> {
    Seq::new(height as nat, |y: int| Seq::new(width as nat, |x: int| c))
}

fn solid_image(width: u32, height: u32, c: Rgba) -> (r: PixelImage)
    requires
        width > 0,
        height > 0,
    ensures
        r.well_formed(),
        r.width == width,
        r.height == height,
        rows_view(r.rows@) == solid_rows(width, height, c),
{
    let mut rows: Vec<Vec<Rgba>> = Vec::new();
    let mut y: u32 = 0;
    while y < height
        invariant
            y <= height,
            rows_view(rows@) == solid_rows(width, y, c),
        decreases height - y,
    {
        let mut row: Vec<Rgba> = Vec::new();
        let mut x: u32 = 0;
        while x < width
            invariant
                x <= width,
                row@ == Seq::new(x as nat, |i: int| c),
            decreases width - x,
        {
            row.push(c);
            x += 1;
            assert(row@ =~= Seq::new(x as nat, |i: int| c));
        }
        let ghost before = rows_view(rows@);
        rows.push(row);
        assert(rows_view(rows@) =~= before.push(row@));
        y += 1;
        assert(rows_view(rows@) =~= solid_rows(width, y, c));
    }
    PixelImage { width, height, rows }
}

/// Whether pixel (`px`, `py`) lies in the rectangle at (`x`, `y`) of size
/// `w` by `h` whose corners are rounded with radius `r0` (at most half the
/// width and half the height).
pub open spec fn in_rounded_rect(px: int, py: int, x: int, y: int, w: int, h: int, r0: int) -> bool {
    let r1 = if r0 < w / 2 {
        r0
    } else {
        w / 2
    };
    let r = if r1 < h / 2 {
        r1
    } else {
        h / 2
    };
    let dx = if px < x + r {
        x + r - px
    } else if px > x + w - r {
        px - (x + w - r)
    } else {
        0
    };
    let dy = if py < y + r {
        y + r - py
    } else if py > y + h - r {
        py - (y + h - r)
    } else {
        0
    };
    &&& x <= px < x + w
    &&& y <= py < y + h
    &&& (!(dx > 0 && dy > 0) || dx * dx + dy * dy <= r * r)
}

fn in_rounded_rect_exec(px: u32, py: u32, x: u32, y: u32, w: u32, h: u32, r0: u32) -> (b: bool)
    requires
        x + w <= 1000,
        y + h <= 1000,
        r0 <= 1000,
    ensures
        b == in_rounded_rect(px as int, py as int, x as int, y as int, w as int, h as int, r0 as int),
{
    if !(x <= px && px < x + w && y <= py && py < y + h) {
        return false;
    }
    let r1 = if r0 < w / 2 {
        r0
    } else {
        w / 2
    };
    let r = if r1 < h / 2 {
        r1
    } else {
        h / 2
    };
    let dx: u32 = if px < x + r {
        x + r - px
    } else if px > x + w - r {
        px - (x + w - r)
    } else {
        0
    };
    let dy: u32 = if py < y + r {
        y + r - py
    } else if py > y + h - r {
        py - (y + h - r)
    } else {
        0
    };
    assert(dx <= r && dy <= r);
    if dx > 0 && dy > 0 {
        assert(dx * dx <= r * r && dy * dy <= r * r) by (nonlinear_arith)
            requires
                dx <= r,
                dy <= r,
        ;
        assert(r * r <= 1000 * 1000) by (nonlinear_arith)
            requires
                r <= 1000,
        ;
        dx * dx + dy * dy <= r * r
    } else {
        true
    }
}

/// The width of the filled part of the volume bar: the volume's share of
/// its 128 pixels, the whole bar from 100% on.
pub open spec fn filled_width(volume: u32) -> int {
    if volume >= 100 {
        128
    } else {
        (128 * volume) / 100
    }
}

/// A pixel of the knob image: black, with a grey rounded bar at the bottom
/// that is filled in light grey up to the volume, or all dark for a muted
/// target.
pub open spec fn knob_pixel(px: int, py: int, volume: u32, muted: bool) -> Rgba {
    if !muted && filled_width(volume) > 0 && in_rounded_rect(px, py, 8, 50, filled_width(volume), 12, 6) {
        icon_color()
    } else if in_rounded_rect(px, py, 8, 50, 128, 12, 6) {
        if muted {
            muted_bar()
        } else {
            bar_bg()
        }
    } else {
        knob_bg()
    }
}

pub open spec fn knob_rows(volume: u32, muted: bool) -> Seq<Seq<Rgba>> {
    Seq::new(72, |y: int| Seq::new(144, |x: int| knob_pixel(x, y, volume, muted)))
}

fn knob_image_pixels(volume: u32, muted: bool) -> (r: PixelImage)
    ensures
        r.well_formed(),
        r.width == KNOB_WIDTH,
        r.height == KNOB_HEIGHT,
        rows_view(r.rows@) == knob_rows(volume, muted),
{
    let filled: u32 = if volume >= 100 {
        128
    } else {
        (128 * volume) / 100
    };
    let mut rows: Vec<Vec<Rgba>> = Vec::new();
    let mut y: u32 = 0;
    while y < KNOB_HEIGHT
        invariant
            y <= KNOB_HEIGHT,
            filled == filled_width(volume),
            filled <= 128,
            rows_view(rows@) == knob_rows(volume, muted).take(y as int),
        decreases KNOB_HEIGHT - y,
    {
        let mut row: Vec<Rgba> = Vec::new();
        let mut x: u32 = 0;
        while x < KNOB_WIDTH
            invariant
                x <= KNOB_WIDTH,
                y < KNOB_HEIGHT,
                filled == filled_width(volume),
                filled <= 128,
                row@ == Seq::new(x as nat, |i: int| knob_pixel(i, y as int, volume, muted)),
            decreases KNOB_WIDTH - x,
        {
            let p: Rgba = if !muted && filled > 0 && in_rounded_rect_exec(x, y, 8, 50, filled, 12, 6) {
                (220, 220, 225, 255)
            } else if in_rounded_rect_exec(x, y, 8, 50, 128, 12, 6) {
                if muted {
                    (60, 60, 70, 255)
                } else {
                    (80, 80, 95, 255)
                }
            } else {
                (0, 0, 0, 255)
            };
            row.push(p);
            x += 1;
            assert(row@ =~= Seq::new(x as nat, |i: int| knob_pixel(i, y as int, volume, muted)));
        }
        let ghost before = rows_view(rows@);
        rows.push(row);
        assert(rows_view(rows@) =~= before.push(row@));
        assert(knob_rows(volume, muted).take(y + 1) =~= knob_rows(volume, muted).take(y as int).push(
            knob_rows(volume, muted)[y as int],
        ));
        assert(row@ =~= knob_rows(volume, muted)[y as int]);
        y += 1;
    }
    assert(knob_rows(volume, muted).take(72) =~= knob_rows(volume, muted));
    PixelImage { width: KNOB_WIDTH, height: KNOB_HEIGHT, rows }
}

/// One channel of a pixel seen through a tint of colour `c` and opacity
/// `a`.
pub open spec fn blend(p: u8, c: u8, a: u8) -> u8 {
    ((p as int * (255 - a as int) + c as int * a as int) / 255) as u8
}

/// The overlay colour of an unlocked button's icon.
pub open spec fn overlay_color(is_light: bool) -> Rgba {
    if is_light {
        (120, 120, 150, 80)
    } else {
        (60, 60, 80, 80)
    }
}

/// A pixel under the overlay: visible pixels are tinted, transparent ones
/// kept.
pub open spec fn overlay_pixel(p: Rgba, c: Rgba) -> Rgba {
    if p.3 > 0 {
        (blend(p.0, c.0, c.3), blend(p.1, c.1, c.3), blend(p.2, c.2, c.3), p.3)
    } else {
        p
    }
}

pub open spec fn overlay_rows(rows: Seq<Seq<Rgba>>, c: Rgba) -> Seq<Seq<Rgba>> {
    rows.map_values(|row: Seq<Rgba>| row.map_values(|p: Rgba| overlay_pixel(p, c)))
}

fn blend_exec(p: u8, c: u8, a: u8) -> (r: u8)
    ensures
        r == blend(p, c, a),
{
    let pv = p as u32;
    let cv = c as u32;
    let av = a as u32;
    let ia = 255 - av;
    assert(pv * ia <= 255 * 255 && cv * av <= 255 * 255) by (nonlinear_arith)
        requires
            pv <= 255,
            cv <= 255,
            av <= 255,
            ia <= 255,
    ;
    assert(pv * ia + cv * av <= 255 * 255) by (nonlinear_arith)
        requires
            pv <= 255,
            cv <= 255,
            av <= 255,
            ia == 255 - av,
    ;
    let t: u32 = pv * ia + cv * av;
    (t / 255) as u8
}

fn overlay_image(img: &PixelImage, c: Rgba) -> (r: PixelImage)
    requires
        img.well_formed(),
    ensures
        r.well_formed(),
        r.width == img.width,
        r.height == img.height,
        rows_view(r.rows@) == overlay_rows(rows_view(img.rows@), c),
{
    let mut rows: Vec<Vec<Rgba>> = Vec::new();
    let mut y: usize = 0;
    let ghost src = rows_view(img.rows@);
    while y < img.rows.len()
        invariant
            y <= img.rows.len(),
            src == rows_view(img.rows@),
            rows_view(rows@) == overlay_rows(src, c).take(y as int),
        decreases img.rows.len() - y,
    {
        let src_row = &img.rows[y];
        assert(src_row@ == src[y as int]);
        let mut row: Vec<Rgba> = Vec::new();
        let mut x: usize = 0;
        while x < src_row.len()
            invariant
                x <= src_row.len(),
                row@ == src_row@.take(x as int).map_values(|p: Rgba| overlay_pixel(p, c)),
            decreases src_row.len() - x,
        {
            let p = src_row[x];
            let q: Rgba = if p.3 > 0 {
                (blend_exec(p.0, c.0, c.3), blend_exec(p.1, c.1, c.3), blend_exec(p.2, c.2, c.3), p.3)
            } else {
                p
            };
            row.push(q);
            x += 1;
            assert(row@ =~= src_row@.take(x as int).map_values(|p: Rgba| overlay_pixel(p, c)));
        }
        assert(src_row@.take(src_row@.len() as int) =~= src_row@);
        let ghost before = rows_view(rows@);
        rows.push(row);
        assert(rows_view(rows@) =~= before.push(row@));
        assert(overlay_rows(src, c).take(y + 1) =~= overlay_rows(src, c).take(y as int).push(
            overlay_rows(src, c)[y as int],
        ));
        y += 1;
    }
    assert(overlay_rows(src, c).take(img.rows.len() as int) =~= overlay_rows(src, c));
    let r = PixelImage { width: img.width, height: img.height, rows };
    assert forall|yy: int| 0 <= yy < rows_view(r.rows@).len() implies (#[trigger] rows_view(
        r.rows@,
    )[yy]).len() == r.width by {
        assert(rows_view(r.rows@)[yy] == overlay_rows(src, c)[yy]);
        assert(src[yy].len() == img.width);
    }
    r
}

// ---------------------------------------------------------------------------
// The images
// ---------------------------------------------------------------------------

/// The blank button: a black square.
pub open spec fn blank_button_url() -> Seq<char> {
    png_data_url(png_encoded(144, 144, solid_rows(144, 144, knob_bg())))
}

/// The blank knob: a black strip.
pub open spec fn blank_knob_url() -> Seq<char> {
    png_data_url(png_encoded(144, 72, solid_rows(144, 72, knob_bg())))
}

/// The knob image for a volume and mute state.
pub open spec fn knob_url(volume: u32, muted: bool) -> Seq<char> {
    png_data_url(png_encoded(144, 72, knob_rows(volume, muted)))
}

/// An unlocked button's icon: a PNG data URL whose image decodes comes
/// back tinted with the overlay colour; anything else comes back unchanged.
pub open spec fn unlocked_icon(icon: Seq<char>, is_light: bool) -> Seq<char> {
    if data_url_prefix().is_prefix_of(icon) {
        match base64_decoded(icon.skip(data_url_prefix().len() as int)) {
            Some(bytes) => match decoded_image(bytes) {
                Some((w, h, rows)) => png_data_url(
                    png_encoded(w, h, overlay_rows(rows, overlay_color(is_light))),
                ),
                None => icon,
            },
            None => icon,
        }
    } else {
        icon
    }
}

pub fn create_blank_button() -> (r: String)
    ensures
        r@ == blank_button_url(),
{
    let img = solid_image(ICON_SIZE, ICON_SIZE, (0, 0, 0, 255));
    image_data_url(&img)
}

pub fn create_blank_knob() -> (r: String)
    ensures
        r@ == blank_knob_url(),
{
    let img = solid_image(KNOB_WIDTH, KNOB_HEIGHT, (0, 0, 0, 255));
    image_data_url(&img)
}

/// The knob image: a volume bar filled to `volume` (all dark when muted).
/// The name is not drawn; the deck shows it as the knob's title.
pub fn create_knob_display(_name: &str, volume: u32, muted: bool) -> (r: String)
    ensures
        r@ == knob_url(volume, muted),
{
    let img = knob_image_pixels(volume, muted);
    image_data_url(&img)
}

/// The icon of an unlocked button, tinted lighter or darker as `is_light`
/// says so that it flashes.
pub fn create_unlocked_button_with_icon(icon_b64: &str, is_light: bool) -> (r: String)
    ensures
        r@ == unlocked_icon(icon_b64@, is_light),
{
    let icon = chars_of(icon_b64);
    let prefix = chars_of("data:image/png;base64,");
    proof {
        reveal_strlit("data:image/png;base64,");
    }
    if !crate::text::starts_with(&icon, &prefix) {
        return icon_b64.to_owned();
    }
    let data = string_of(&crate::text::slice_of(&icon, prefix.len(), icon.len()));
    assert(data@ =~= icon_b64@.skip(data_url_prefix().len() as int));
    let bytes = match base64_decode(data.as_str()) {
        Ok(b) => b,
        Err(_) => {
            return icon_b64.to_owned();
        },
    };
    let img = match decode_image(&bytes) {
        Ok(img) => img,
        Err(_) => {
            return icon_b64.to_owned();
        },
    };
    let c: Rgba = if is_light {
        (120, 120, 150, 80)
    } else {
        (60, 60, 80, 80)
    };
    let tinted = overlay_image(&img, c);
    image_data_url(&tinted)
}

} // verus!
