//! The pictures that the client shows: the code that a phone scans, what stands in its place where
//! there is none, and the program's icon.

use crate::text;
use crate::text::concat;
use image::Luma;
use qrcode::QrCode;
use vstd::prelude::*;

verus! {

/// How wide and high a code is at least, and what stands in its place.
pub const CODE_SIZE: u32 = 256;

/// A picture in shades of grey, row by row.
#[derive(Debug)]
pub struct GrayPicture {
    pub width: u32,
    pub height: u32,
    pub pixels: Vec<u8>,
}

/// A picture in shades of grey, for contracts.
#[verifier::ext_equal]
pub struct GrayView {
    pub width: u32,
    pub height: u32,
    pub pixels: Seq<u8>,
}

impl View for GrayPicture {
    type V = GrayView;

    open spec fn view(&self) -> GrayView {
        GrayView { width: self.width, height: self.height, pixels: self.pixels@ }
    }
}

/// The picture of a text's code, as `QrCode::new` and its renderer for `image::Luma` draw it at a
/// size of at least 256 by 256; nothing for a text that is too long for a code.
pub uninterp spec fn code_of(text: Seq<char>) -> Option<GrayView>;

/// `QrCode::new` on the bytes of a text, and `QrCode::render` with `min_dimensions` of 256 by 256. It
/// is a function of the text alone. What it draws is as high as it is wide, not smaller than what
/// was asked for, and has one byte for each pixel.
#[verifier::external_body]
pub(crate) fn render_code(text: &str) -> (r: Option<GrayPicture>)
    ensures
        match r {
            Some(p) => {
                &&& code_of(text@) == Some(p@)
                &&& p@.width == p@.height
                &&& p@.width >= 256
                &&& p@.pixels.len() == p@.width * p@.height
            },
            None => code_of(text@) is None,
        },
{
    let code = QrCode::new(text.as_bytes()).ok()?;
    let image = code.render::<Luma<u8>>().min_dimensions(256, 256).build();
    Some(GrayPicture { width: image.width(), height: image.height(), pixels: image.into_raw() })
}

/// The shade of a pixel of what stands in the place of a code: a board of squares, dark and light in
/// turn.
pub open spec fn board_shade(x: int, y: int) -> u8 {
    if (x / 16 + y / 16) % 2 == 0 {
        32
    } else {
        224
    }
}

/// What stands in the place of a code.
pub open spec fn board() -> GrayView {
    GrayView {
        width: CODE_SIZE,
        height: CODE_SIZE,
        pixels: Seq::new(
            (CODE_SIZE * CODE_SIZE) as nat,
            |k: int| board_shade(k % (CODE_SIZE as int), k / (CODE_SIZE as int)),
        ),
    }
}

/// What stands in the place of a code.
pub fn placeholder_qr_texture() -> (r: GrayPicture)
    ensures
        r@ == board(),
{
    let mut pixels: Vec<u8> = Vec::new();
    let mut k: u32 = 0;
    while k < 65536
        invariant
            k <= 65536,
            pixels@ == board().pixels.take(k as int),
        decreases 65536 - k,
    {
        let x: u32 = k % CODE_SIZE;
        let y: u32 = k / CODE_SIZE;
        pixels.push(
            if (x / 16 + y / 16) % 2 == 0 {
                32
            } else {
                224
            },
        );
        k = k + 1;
        assert(pixels@ =~= board().pixels.take(k as int));
    }
    assert(board().pixels.take(65536) =~= board().pixels);
    GrayPicture { width: CODE_SIZE, height: CODE_SIZE, pixels }
}

/// The code that was drawn, or what stands in its place.
pub fn code_or_placeholder(drawn: Option<GrayPicture>) -> (r: GrayPicture)
    ensures
        r@ == (match drawn {
            Some(p) => p@,
            None => board(),
        }),
{
    match drawn {
        Some(p) => p,
        None => placeholder_qr_texture(),
    }
}

/// The code of an address, or what stands in its place.
pub fn generate_qr_texture(url: &str) -> (r: GrayPicture)
    ensures
        r@ == (match code_of(url@) {
            Some(p) => p,
            None => board(),
        }),
        r@.width == r@.height,
        r@.width >= CODE_SIZE,
        r@.pixels.len() == r@.width * r@.height,
{
    code_or_placeholder(render_code(url))
}

/// The program's icon, four bytes for each pixel, row by row.
#[derive(Debug)]
pub struct IconRgba {
    pub rgba: Vec<u8>,
    pub width: u32,
    pub height: u32,
}

/// The program's icon, for contracts.
#[verifier::ext_equal]
pub struct IconView {
    pub rgba: Seq<u8>,
    pub width: u32,
    pub height: u32,
}

impl View for IconRgba {
    type V = IconView;

    open spec fn view(&self) -> IconView {
        IconView { rgba: self.rgba@, width: self.width, height: self.height }
    }
}

/// What `image::load_from_memory_with_format` makes of the bytes of a PNG file, four bytes for each
/// pixel, or the text of its error.
pub uninterp spec fn png_of(bytes: Seq<u8>) -> Result<IconView, Seq<char>>;

/// `image::load_from_memory_with_format` for PNG, and `DynamicImage::into_rgba8`. It is a function
/// of the bytes alone. There are four bytes for each pixel.
#[verifier::external_body]
pub(crate) fn decode_png(bytes: &[u8]) -> (r: Result<IconRgba, String>)
    ensures
        match r {
            Ok(icon) => {
                &&& png_of(bytes@) == Ok::<IconView, Seq<char>>(icon@)
                &&& icon@.rgba.len() == icon@.width * icon@.height * 4
            },
            Err(e) => png_of(bytes@) == Err::<IconView, Seq<char>>(e@),
        },
{
    let image = image::load_from_memory_with_format(bytes, image::ImageFormat::Png)
        .map_err(|e| e.to_string())?
        .into_rgba8();
    Ok(IconRgba { width: image.width(), height: image.height(), rgba: image.into_raw() })
}

/// The icon that was decoded, or why it was not.
pub fn icon_or_error(decoded: Result<IconRgba, String>) -> (r: Result<IconRgba, String>)
    ensures
        match decoded {
            Ok(icon) => r == Ok::<IconRgba, String>(icon),
            Err(why) => r matches Err(e) && e@ == "failed to decode app icon PNG: "@ + why@,
        },
{
    match decoded {
        Ok(icon) => Ok(icon),
        Err(why) => Err(concat("failed to decode app icon PNG: ", &why)),
    }
}

/// The icon in the bytes of a PNG file.
pub fn load_icon_rgba(png: &[u8]) -> (r: Result<IconRgba, String>)
    ensures
        match png_of(png@) {
            Ok(icon) => (r matches Ok(i) && i@ == icon) && icon.rgba.len() == icon.width
                * icon.height * 4,
            Err(why) => r matches Err(e) && e@ == "failed to decode app icon PNG: "@ + why,
        },
{
    icon_or_error(decode_png(png))
}

} // verus!
