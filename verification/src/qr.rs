//! QR images of key URIs: the text is encoded as a QR symbol (medium error
//! correction), each module is drawn as a 2x2 block of grey pixels (black
//! for dark, white for light), and the picture is sent as PNG.

use vstd::prelude::*;

verus! {

// ---------------------------------------------------------------------------
// The `qrcodegen` crate
// ---------------------------------------------------------------------------

#[verifier::external_type_specification]
#[verifier::external_body]
pub struct ExQrCode(qrcodegen::QrCode);

/// The side of a QR symbol, in modules.
pub uninterp spec fn qr_size(q: qrcodegen::QrCode) -> int;

/// The modules of a QR symbol, row by row (`true` is dark).
pub uninterp spec fn qr_modules(q: qrcodegen::QrCode) -> Seq<bool>;

/// What `QrCode::encode_text` gives for a text at medium error correction:
/// nothing when the text does not fit in any QR version, else the side and
/// the modules (row by row) of the symbol.
pub uninterp spec fn qr_medium_symbol(text: Seq<char>) -> Option<(int, Seq<bool>)>;

/// The module at column `x`, row `y` of a symbol of side `size`.
pub open spec fn module_at(size: int, modules: Seq<bool>, x: int, y: int) -> bool {
    modules[y * size + x]
}

/// Calls `QrCode::encode_text` with `QrCodeEcc::Medium`; its error (the
/// text is too long) becomes `None`. A symbol's side is between 21 and 177
/// (documented) and it holds `size * size` modules (as the source builds it).
#[verifier::external_body]
fn qr_encode_text(text: &str) -> (res: Option<qrcodegen::QrCode>)
    ensures
        res is Some <==> qr_medium_symbol(text@) is Some,
        res matches Some(q) ==> {
            &&& qr_medium_symbol(text@) == Some((qr_size(q), qr_modules(q)))
            &&& 21 <= qr_size(q) <= 177
            &&& qr_modules(q).len() == qr_size(q) * qr_size(q)
        },
{
    qrcodegen::QrCode::encode_text(text, qrcodegen::QrCodeEcc::Medium).ok()
}

/// Calls `QrCode::size`.
#[verifier::external_body]
fn qr_code_size(q: &qrcodegen::QrCode) -> (res: i32)
    ensures
        res == qr_size(*q),
{
    q.size()
}

/// Calls `QrCode::get_module`: whether the module at (`x`, `y`) is dark,
/// `false` outside the symbol.
#[verifier::external_body]
fn qr_code_module(q: &qrcodegen::QrCode, x: i32, y: i32) -> (res: bool)
    ensures
        res == (0 <= x < qr_size(*q) && 0 <= y < qr_size(*q) && module_at(
            qr_size(*q),
            qr_modules(*q),
            x as int,
            y as int,
        )),
{
    q.get_module(x, y)
}

// ---------------------------------------------------------------------------
// The `image` crate
// ---------------------------------------------------------------------------

/// A grey image of the `image` crate (`ImageBuffer<Luma<u8>, Vec<u8>>`).
#[verifier::external_body]
pub struct GrayImage {
    inner: image::ImageBuffer<image::Luma<u8>, Vec<u8>>,
}

/// The width of an image, in pixels.
pub uninterp spec fn image_width(img: GrayImage) -> nat;

/// The height of an image, in pixels.
pub uninterp spec fn image_height(img: GrayImage) -> nat;

/// The pixels of an image, by (column, row).
pub uninterp spec fn image_pixels(img: GrayImage) -> Map<(int, int), u8>;

/// What `ImageBuffer::write_to` with `ImageOutputFormat::Png` writes for a
/// grey image of the given width, height and pixels.
pub uninterp spec fn png_gray(width: nat, height: nat, pixels: Map<(int, int), u8>) -> Seq<u8>;

/// Every pixel of a `width` x `height` image set to `value`.
pub open spec fn filled(width: int, height: int, value: u8) -> Map<(int, int), u8> {
    Map::new(|p: (int, int)| 0 <= p.0 < width && 0 <= p.1 < height, |p: (int, int)| value)
}

/// Calls `ImageBuffer::new`: a `width` x `height` image whose pixels are all
/// zero. It panics when the buffer would not fit in memory, which `requires`
/// leaves out.
#[verifier::external_body]
fn gray_image_new(width: u32, height: u32) -> (img: GrayImage)
    requires
        width * height <= isize::MAX,
    ensures
        image_width(img) == width,
        image_height(img) == height,
        image_pixels(img) == filled(width as int, height as int, 0),
{
    GrayImage { inner: image::ImageBuffer::new(width, height) }
}

/// Calls `ImageBuffer::put_pixel`, which sets one pixel. It panics outside
/// the image, which `requires` leaves out.
#[verifier::external_body]
fn gray_image_put(img: &mut GrayImage, x: u32, y: u32, value: u8)
    requires
        x < image_width(*old(img)),
        y < image_height(*old(img)),
    ensures
        image_width(*final(img)) == image_width(*old(img)),
        image_height(*final(img)) == image_height(*old(img)),
        image_pixels(*final(img)) == image_pixels(*old(img)).insert((x as int, y as int), value),
{
    img.inner.put_pixel(x, y, image::Luma([value]))
}

/// Calls `ImageBuffer::write_to` with `ImageOutputFormat::Png` into an
/// in-memory cursor. Writing to memory cannot fail for an image whose sides
/// are positive and within PNG's limit, which `requires` asks.
#[verifier::external_body]
fn gray_image_png(img: &GrayImage) -> (png: Vec<u8>)
    requires
        0 < image_width(*img) <= 0x7fff_ffff,
        0 < image_height(*img) <= 0x7fff_ffff,
    ensures
        png@ == png_gray(image_width(*img), image_height(*img), image_pixels(*img)),
{
    let mut buf = std::io::Cursor::new(Vec::new());
    img.inner.write_to(&mut buf, image::ImageOutputFormat::Png).unwrap();
    buf.into_inner()
}

// ---------------------------------------------------------------------------
// QR images
// ---------------------------------------------------------------------------

/// The grey level of pixel (`px`, `py`) of the image of a symbol drawn at two
/// pixels per module: 0 (black) for a dark module, 255 (white) otherwise.
pub open spec fn qr_pixel(size: int, modules: Seq<bool>, px: int, py: int) -> u8 {
    if module_at(size, modules, px / 2, py / 2) {
        0
    } else {
        255
    }
}

/// The pixels of the image of a symbol of side `size`, two pixels per module.
pub open spec fn qr_image(size: int, modules: Seq<bool>) -> Map<(int, int), u8> {
    Map::new(
        |p: (int, int)| 0 <= p.0 < 2 * size && 0 <= p.1 < 2 * size,
        |p: (int, int)| qr_pixel(size, modules, p.0, p.1),
    )
}

/// The answer to a request for a QR image.
#[derive(Debug)]
pub enum QrResponse {
    /// The request is refused (HTTP 400) with this message.
    BadRequest(String),
    /// A PNG image.
    Png(Vec<u8>),
}

/// The QR image of the `data` parameter of a request: refused when it is
/// missing or does not fit in a QR symbol, else the PNG of its symbol drawn
/// at two pixels per module.
pub fn generate_qr(data: Option<&str>) -> (res: QrResponse)
    ensures
        data is None ==> (res matches QrResponse::BadRequest(m) && m@ == "Missing `data` param"@),
        data matches Some(d) ==> match qr_medium_symbol(d@) {
            None => res matches QrResponse::BadRequest(m) && m@ == "Invalid data"@,
            Some((size, modules)) => res matches QrResponse::Png(png) && png@ == png_gray(
                (2 * size) as nat,
                (2 * size) as nat,
                qr_image(size, modules),
            ),
        },
{
    let data = match data {
        Some(d) => d,
        None => {
            return QrResponse::BadRequest(String::from_str("Missing `data` param"));
        },
    };
    let qr = match qr_encode_text(data) {
        Some(code) => code,
        None => {
            return QrResponse::BadRequest(String::from_str("Invalid data"));
        },
    };
    let size = qr_code_size(&qr);
    let scale: i32 = 2;
    let img_size = size * scale;
    let ghost modules = qr_modules(qr);
    let ghost sz = size as int;
    assert((img_size as u32) * (img_size as u32) <= 354 * 354) by (nonlinear_arith)
        requires
            0 <= img_size <= 354;
    let mut img = gray_image_new(img_size as u32, img_size as u32);
    let mut y: i32 = 0;
    while y < size
        invariant
            0 <= y <= size,
            size == sz,
            21 <= sz <= 177,
            modules.len() == sz * sz,
            modules == qr_modules(qr),
            sz == qr_size(qr),
            scale == 2,
            image_width(img) == 2 * sz,
            image_height(img) == 2 * sz,
            image_pixels(img).dom() == filled(2 * sz, 2 * sz, 0).dom(),
            forall|px: int, py: int|
                0 <= px < 2 * sz && 0 <= py < 2 * sz ==> #[trigger] image_pixels(img)[(px, py)] == (
                if py < 2 * y {
                    qr_pixel(sz, modules, px, py)
                } else {
                    0
                }),
        decreases size - y,
    {
        let mut x: i32 = 0;
        while x < size
            invariant
                0 <= y < size,
                0 <= x <= size,
                size == sz,
                21 <= sz <= 177,
                modules.len() == sz * sz,
                modules == qr_modules(qr),
                sz == qr_size(qr),
                scale == 2,
                image_width(img) == 2 * sz,
                image_height(img) == 2 * sz,
                image_pixels(img).dom() == filled(2 * sz, 2 * sz, 0).dom(),
                forall|px: int, py: int|
                    0 <= px < 2 * sz && 0 <= py < 2 * sz ==> #[trigger] image_pixels(img)[(px, py)]
                        == (if py < 2 * y || (py < 2 * y + 2 && px < 2 * x) {
                        qr_pixel(sz, modules, px, py)
                    } else {
                        0
                    }),
            decreases size - x,
        {
            let color: u8 = if qr_code_module(&qr, x, y) {
                0
            } else {
                255
            };
            let mut dy: i32 = 0;
            while dy < scale
                invariant
                    0 <= y < size,
                    0 <= x < size,
                    0 <= dy <= 2,
                    size == sz,
                    21 <= sz <= 177,
                    modules.len() == sz * sz,
                    scale == 2,
                    color == (if module_at(sz, modules, x as int, y as int) { 0u8 } else { 255u8 }),
                    image_width(img) == 2 * sz,
                    image_height(img) == 2 * sz,
                    image_pixels(img).dom() == filled(2 * sz, 2 * sz, 0).dom(),
                    forall|px: int, py: int|
                        0 <= px < 2 * sz && 0 <= py < 2 * sz ==> #[trigger] image_pixels(img)[(
                            px,
                            py,
                        )] == (if py < 2 * y || (py < 2 * y + 2 && px < 2 * x) || (2 * x <= px
                            < 2 * x + 2 && 2 * y <= py < 2 * y + dy) {
                            qr_pixel(sz, modules, px, py)
                        } else {
                            0
                        }),
                decreases scale - dy,
            {
                let mut dx: i32 = 0;
                while dx < scale
                    invariant
                        0 <= y < size,
                        0 <= x < size,
                        0 <= dy < 2,
                        0 <= dx <= 2,
                        size == sz,
                        21 <= sz <= 177,
                        modules.len() == sz * sz,
                        scale == 2,
                        color == (if module_at(sz, modules, x as int, y as int) { 0u8 } else { 255u8 }),
                        image_width(img) == 2 * sz,
                        image_height(img) == 2 * sz,
                        image_pixels(img).dom() == filled(2 * sz, 2 * sz, 0).dom(),
                        forall|px: int, py: int|
                            0 <= px < 2 * sz && 0 <= py < 2 * sz ==> #[trigger] image_pixels(img)[(
                                px,
                                py,
                            )] == (if py < 2 * y || (py < 2 * y + 2 && px < 2 * x) || (2 * x <= px
                                < 2 * x + 2 && 2 * y <= py < 2 * y + dy) || (2 * x <= px < 2 * x
                                + dx && py == 2 * y + dy) {
                                qr_pixel(sz, modules, px, py)
                            } else {
                                0
                            }),
                    decreases scale - dx,
                {
                    let ghost before = image_pixels(img);
                    gray_image_put(&mut img, (x * scale + dx) as u32, (y * scale + dy) as u32, color);
                    proof {
                        let px0 = (x * 2 + dx) as int;
                        let py0 = (y * 2 + dy) as int;
                        assert(px0 / 2 == x && py0 / 2 == y);
                        assert(qr_pixel(sz, modules, px0, py0) == color);
                        assert forall|px: int, py: int|
                            0 <= px < 2 * sz && 0 <= py < 2 * sz implies #[trigger] image_pixels(img)[(
                                px,
                                py,
                            )] == (if py < 2 * y || (py < 2 * y + 2 && px < 2 * x) || (2 * x <= px
                                < 2 * x + 2 && 2 * y <= py < 2 * y + dy) || (2 * x <= px < 2 * x
                                + dx + 1 && py == 2 * y + dy) {
                                qr_pixel(sz, modules, px, py)
                            } else {
                                0
                            }) by {
                            if px != px0 || py != py0 {
                                assert(image_pixels(img)[(px, py)] == before[(px, py)]);
                            }
                        }
                        assert(image_pixels(img).dom() =~= before.dom());
                    }
                    dx = dx + 1;
                }
                dy = dy + 1;
            }
            x = x + 1;
        }
        y = y + 1;
    }
    proof {
        assert forall|p: (int, int)| #[trigger] image_pixels(img).contains_key(p) implies image_pixels(
            img,
        )[p] == qr_image(sz, modules)[p] by {
            assert(image_pixels(img)[(p.0, p.1)] == qr_pixel(sz, modules, p.0, p.1));
        }
        assert(image_pixels(img) =~= qr_image(sz, modules));
    }
    let png = gray_image_png(&img);
    QrResponse::Png(png)
}

/// Each module is drawn at its own place: for every module (`x`, `y`) of a
/// symbol and `dx`, `dy` in {0, 1}, pixel (`2x + dx`, `2y + dy`) of its image
/// is black (0) when the module is dark and white (255) otherwise; the image
/// has no other pixels.
pub proof fn qr_image_draws_modules(size: int, modules: Seq<bool>, x: int, y: int, dx: int, dy: int)
    requires
        0 <= x < size,
        0 <= y < size,
        0 <= dx < 2,
        0 <= dy < 2,
    ensures
        qr_image(size, modules).contains_key((2 * x + dx, 2 * y + dy)),
        qr_image(size, modules)[(2 * x + dx, 2 * y + dy)] == (if modules[y * size + x] {
            0u8
        } else {
            255u8
        }),
        forall|p: (int, int)| #[trigger] qr_image(size, modules).contains_key(p) <==> (0 <= p.0 < 2
            * size && 0 <= p.1 < 2 * size),
{
    assert((2 * x + dx) / 2 == x && (2 * y + dy) / 2 == y);
}

} // verus!
