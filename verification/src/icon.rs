//! The weather icon pictures: decoding a PNG into 8-bit RGBA pixels with
//! `minipng`, and which of its pixels are drawn.

use vstd::prelude::*;

verus! {

/// Named result of decoding PNG bytes with `minipng` and converting them
/// to 8-bit RGBA: width, height and pixel bytes (row by row, four bytes
/// per pixel), or `None` when the bytes are not a PNG `minipng` decodes.
pub uninterp spec fn png_rgba(data: Seq<u8>) -> Option<(u32, u32, Seq<u8>)>;

/// Calls `minipng::decode_png_header`, `minipng::decode_png` into a buffer
/// of `required_bytes_rgba8bpc()` bytes, then
/// `ImageData::convert_to_rgba8bpc`, and copies `pixels()`. Trusted: the
/// result is the named decoding, and it has four bytes per pixel (the
/// header check refuses sizes whose RGBA data would not fit in `usize`).
#[verifier::external_body]
fn decode_png_rgba(data: &[u8]) -> (res: Option<(u32, u32, Vec<u8>)>)
    ensures
        res is None <==> png_rgba(data@) is None,
        res matches Some((w, h, px)) ==> png_rgba(data@) == Some((w, h, px@)) && px@.len() == 4
            * w * h,
{
    let header = minipng::decode_png_header(data).ok()?;
    let mut buf = vec![0u8; header.required_bytes_rgba8bpc()];
    let mut image = minipng::decode_png(data, &mut buf).ok()?;
    image.convert_to_rgba8bpc().ok()?;
    Some((image.width(), image.height(), image.pixels().to_vec()))
}

/// A decoded icon: its size, its RGBA bytes, and which pixels are drawn.
pub struct IconImage {
    pub width: u32,
    pub height: u32,
    pub rgba: Vec<u8>,
    pub opaque: Vec<bool>,
}

/// Which pixels of `w * h` RGBA pixels `px` are drawn: those whose alpha
/// is at least 128.
pub open spec fn alpha_mask_spec(w: u32, h: u32, px: Seq<u8>) -> Seq<bool> {
    Seq::new((w * h) as nat, |i: int| px[4 * i + 3] >= 128)
}

/// The drawn pixels of an RGBA image (see `alpha_mask_spec`).
pub fn icon_alpha_mask(w: u32, h: u32, px: &[u8]) -> (res: Vec<bool>)
    requires
        px@.len() == 4 * w * h,
    ensures
        res@ == alpha_mask_spec(w, h, px@),
{
    let len = px.len();
    let n = len / 4;
    assert(4 * w * h == 4 * (w * h)) by (nonlinear_arith);
    assert(n == w * h);
    let mut mask: Vec<bool> = Vec::new();
    let mut i: usize = 0;
    while i < n
        invariant
            n == w * h,
            px@.len() == 4 * n,
            len == px@.len(),
            i <= n,
            mask@ =~= alpha_mask_spec(w, h, px@).take(i as int),
        decreases n - i,
    {
        mask.push(px[4 * i + 3] >= 128);
        i = i + 1;
    }
    assert(alpha_mask_spec(w, h, px@).take(n as int) =~= alpha_mask_spec(w, h, px@));
    mask
}

/// Decodes an icon picture and marks its drawn pixels; `None` when the
/// bytes are not a picture `minipng` decodes (see `png_rgba`).
pub fn decode_icon(data: &[u8]) -> (res: Option<IconImage>)
    ensures
        res is None <==> png_rgba(data@) is None,
        res matches Some(img) ==> png_rgba(data@) == Some((img.width, img.height, img.rgba@))
            && img.rgba@.len() == 4 * img.width * img.height
            && img.opaque@ == alpha_mask_spec(img.width, img.height, img.rgba@),
{
    match decode_png_rgba(data) {
        None => None,
        Some((width, height, rgba)) => {
            let opaque = icon_alpha_mask(width, height, rgba.as_slice());
            Some(IconImage { width, height, rgba, opaque })
        },
    }
}

} // verus!
