//! The tray icon's identity and pixel data.
use vstd::prelude::*;
use image::GenericImageView;

verus! {

/// The tray item's id.
pub fn tray_id() -> (s: &'static str)
    ensures
        s@ == "dev.land.Replayd"@,
{
    "dev.land.Replayd"
}

/// The tray item's title.
pub fn tray_title() -> (s: &'static str)
    ensures
        s@ == "Replayd"@,
{
    "Replayd"
}

/// An icon as the tray protocol takes it: ARGB pixels, row by row.
#[derive(Debug)]
pub struct Icon {
    pub width: i32,
    pub height: i32,
    pub data: Vec<u8>,
}

/// `data` with every whole 4-byte pixel rotated right by one byte, which
/// turns RGBA pixels into ARGB ones; bytes after the last whole pixel stay.
pub open spec fn argb_of(data: Seq<u8>) -> Seq<u8> {
    Seq::new(
        data.len(),
        |i: int|
            if i >= data.len() - data.len() % 4 {
                data[i]
            } else if i % 4 == 0 {
                data[i + 3]
            } else {
                data[i - 1]
            },
    )
}

/// Turns RGBA pixels into ARGB pixels in place, pixel by whole pixel
/// (`chunks_exact_mut(4)`), leaving a shorter remainder as it is.
pub fn rgba_to_argb(data: &mut Vec<u8>)
    ensures
        final(data)@ == argb_of(old(data)@),
{
    let len = data.len();
    let n = len - len % 4;
    assert(n % 4 == 0) by (nonlinear_arith)
        requires
            n == len - len % 4,
    ;
    let ghost orig = data@;
    let mut i: usize = 0;
    while i < n
        invariant
            len == data@.len(),
            len == orig.len(),
            n == len - len % 4,
            n % 4 == 0,
            i % 4 == 0,
            i <= n,
            forall|k: int| 0 <= k < i ==> #[trigger] data@[k] == argb_of(orig)[k],
            forall|k: int| i <= k < len ==> #[trigger] data@[k] == orig[k],
        decreases n - i,
    {
        let r = data[i];
        let g = data[i + 1];
        let b = data[i + 2];
        let a = data[i + 3];
        data.set(i, a);
        data.set(i + 1, r);
        data.set(i + 2, g);
        data.set(i + 3, b);
        proof {
            assert forall|k: int| 0 <= k < i + 4 implies #[trigger] data@[k] == argb_of(orig)[k] by {
                if k >= i {
                    assert((k - i) % 4 == k % 4 - i % 4) by (nonlinear_arith)
                        requires
                            i % 4 == 0,
                            i <= k < i + 4;
                }
            }
        }
        i = i + 4;
    }
    assert(data@ =~= argb_of(orig));
}

/// What `image::load_from_memory_with_format` decodes from PNG bytes, as
/// width, height and RGBA8 pixels.
pub uninterp spec fn png_rgba(png: Seq<u8>) -> Option<(u32, u32, Seq<u8>)>;

/// Calls `image::load_from_memory_with_format` for PNG and converts the
/// image to its dimensions and RGBA8 pixel bytes (`dimensions`,
/// `into_rgba8`, `into_raw`); `None` when decoding fails. The pixels are
/// given a name; an RGBA8 buffer holds four bytes for each of the image's
/// width times height pixels.
#[verifier::external_body]
fn decode_png(png: &[u8]) -> (r: Option<(u32, u32, Vec<u8>)>)
    ensures
        match r {
            Some((w, h, d)) => png_rgba(png@) == Some((w, h, d@)) && d@.len() == w * h * 4,
            None => png_rgba(png@) is None,
        },
{
    match image::load_from_memory_with_format(png, image::ImageFormat::Png) {
        Ok(img) => {
            let (w, h) = img.dimensions();
            Some((w, h, img.into_rgba8().into_raw()))
        },
        Err(_) => None,
    }
}

/// The tray icon for PNG bytes: the decoded image with ARGB pixels; `None`
/// when the PNG does not decode.
pub fn tray_icon(png: &[u8]) -> (r: Option<Icon>)
    ensures
        match png_rgba(png@) {
            Some((w, h, d)) => r matches Some(icon) && icon.width == w as i32 && icon.height == h as i32 && icon.data@ == argb_of(d),
            None => r is None,
        },
{
    match decode_png(png) {
        Some((w, h, mut d)) => {
            rgba_to_argb(&mut d);
            Some(Icon { width: w as i32, height: h as i32, data: d })
        },
        None => None,
    }
}

} // verus!
