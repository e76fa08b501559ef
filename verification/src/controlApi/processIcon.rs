//! Icons of executables as PNG images.

use vstd::prelude::*;

verus! {

/// The width and the height of an icon in pixels.
pub const iconPixelSize: u32 = 48;

/// Whether some pixel is not fully transparent. Pixels are blue, green, red and alpha.
pub open spec fn hasAlpha(bgra: Seq<u8>) -> bool {
    exists|i: int| 0 <= i < bgra.len() / 4 && #[trigger] bgra[4 * i + 3] != 0
}

/// A colour that was multiplied by its alpha, undone and cut at white.
pub open spec fn unmultiplied(component: u8, alpha: u8) -> u8 {
    if alpha == 0 || alpha == 255 {
        component
    } else {
        let value = component as int * 255 / alpha as int;
        if value > 255 {
            255
        } else {
            value as u8
        }
    }
}

/// The alpha of a pixel; old icons without any alpha count as opaque.
pub open spec fn pixelAlpha(bgra: Seq<u8>, i: int) -> u8 {
    if hasAlpha(bgra) {
        bgra[4 * i + 3]
    } else {
        255
    }
}

/// The pixels as red, green, blue and alpha, with the multiplication undone.
pub open spec fn rgbaPixels(bgra: Seq<u8>, count: int) -> Seq<u8>
    decreases count,
{
    if count <= 0 {
        Seq::empty()
    } else {
        let i = count - 1;
        let alpha = pixelAlpha(bgra, i);
        rgbaPixels(bgra, i) + seq![
            unmultiplied(bgra[4 * i + 2], alpha),
            unmultiplied(bgra[4 * i + 1], alpha),
            unmultiplied(bgra[4 * i], alpha),
            alpha,
        ]
    }
}

fn undoMultiply(component: u8, alpha: u8) -> (result: u8)
    ensures
        result == unmultiplied(component, alpha),
{
    if alpha == 0 || alpha == 255 {
        component
    } else {
        let value: u16 = (component as u16 * 255) / alpha as u16;
        if value > 255 {
            255
        } else {
            value as u8
        }
    }
}

/// Turns whole pixels into red, green, blue and alpha.
pub fn convertPixels(bgra: &Vec<u8>) -> (result: Vec<u8>)
    ensures
        result@ == rgbaPixels(bgra@, bgra@.len() as int / 4),
        result@.len() == bgra@.len() / 4 * 4,
{
    let count: usize = bgra.len() / 4;
    let mut anyAlpha = false;
    let mut k: usize = 0;
    while k < count
        invariant
            k <= count,
            count == bgra.len() / 4,
            anyAlpha == exists|i: int| 0 <= i < k && #[trigger] bgra@[4 * i + 3] != 0,
        decreases count - k,
    {
        if bgra[4 * k + 3] != 0 {
            anyAlpha = true;
            assert(bgra@[4 * (k as int) + 3] != 0);
        }
        k += 1;
    }
    assert(anyAlpha == hasAlpha(bgra@));
    let mut rgba: Vec<u8> = Vec::new();
    let mut i: usize = 0;
    while i < count
        invariant
            i <= count,
            count == bgra.len() / 4,
            anyAlpha == hasAlpha(bgra@),
            rgba@ == rgbaPixels(bgra@, i as int),
            rgba@.len() == 4 * i,
        decreases count - i,
    {
        let alpha: u8 = if anyAlpha {
            bgra[4 * i + 3]
        } else {
            255
        };
        let ghost before = rgba@;
        rgba.push(undoMultiply(bgra[4 * i + 2], alpha));
        rgba.push(undoMultiply(bgra[4 * i + 1], alpha));
        rgba.push(undoMultiply(bgra[4 * i], alpha));
        rgba.push(alpha);
        i += 1;
        assert(rgba@ == rgbaPixels(bgra@, i as int));
    }
    rgba
}

/// An image of red, green, blue and alpha as PNG, if it can be written.
pub uninterp spec fn pngImage(rgba: Seq<u8>, width: u32, height: u32) -> Option<Seq<u8>>;

/// Writes an image as PNG.
///
/// Trusted: `png::Encoder` with eight bits per channel. The image depends on the pixels and the size
/// alone. The encoder multiplies the size out unchecked, so only sizes whose bytes it can count are
/// handed to it.
#[verifier::external_body]
pub(crate) fn writePng(rgba: &[u8], width: u32, height: u32) -> (result: Option<Vec<u8>>)
    requires
        width as int * height as int * 4 <= 0x7fff_ffff,
    ensures
        match result {
            Some(bytes) => pngImage(rgba@, width, height) == Some(bytes@),
            None => pngImage(rgba@, width, height) is None,
        },
{
    let mut bytes = Vec::new();
    let mut encoder = png::Encoder::new(&mut bytes, width, height);
    encoder.set_color(png::ColorType::Rgba);
    encoder.set_depth(png::BitDepth::Eight);
    encoder.write_header().ok()?.write_image_data(rgba).ok()?;
    Some(bytes)
}

/// Writes the pixels of an icon as PNG.
pub fn encodePng(bgra: &Vec<u8>) -> (result: Option<Vec<u8>>)
    ensures
        match result {
            Some(bytes) => pngImage(
                rgbaPixels(bgra@, bgra@.len() as int / 4),
                iconPixelSize,
                iconPixelSize,
            ) == Some(bytes@),
            None => pngImage(
                rgbaPixels(bgra@, bgra@.len() as int / 4),
                iconPixelSize,
                iconPixelSize,
            ) is None,
        },
{
    let rgba = convertPixels(bgra);
    writePng(rgba.as_slice(), iconPixelSize, iconPixelSize)
}

/// Undoing the multiplication keeps black and white, and never darkens a colour.
pub proof fn lawUnmultiplyNeverDarkens(component: u8, alpha: u8)
    ensures
        unmultiplied(component, alpha) >= component,
        unmultiplied(0, alpha) == 0,
        unmultiplied(component, 255) == component,
        alpha > 0 ==> unmultiplied(alpha, alpha) == 255 || alpha == 255,
{
    if alpha != 0 && alpha != 255 {
        assert(component as int * 255 / alpha as int >= component as int) by (nonlinear_arith)
            requires
                0 < alpha < 255,
        ;
        assert(alpha as int * 255 / alpha as int == 255) by (nonlinear_arith)
            requires
                0 < alpha < 255,
        ;
        assert(0int * 255 / alpha as int == 0) by (nonlinear_arith)
            requires
                0 < alpha < 255,
        ;
    }
}

/// Pixels are turned from blue, green, red to red, green, blue, one by one; their opacity stays, and a picture
/// without any is opaque.
pub proof fn lawPixelsAreTurned(bgra: Seq<u8>, count: int, i: int)
    requires
        0 <= i < count,
        4 * count <= bgra.len(),
    ensures
        rgbaPixels(bgra, count).len() == 4 * count,
        ({
            let pixels = rgbaPixels(bgra, count);
            let alpha = pixelAlpha(bgra, i);
            &&& pixels[4 * i] == unmultiplied(bgra[4 * i + 2], alpha)
            &&& pixels[4 * i + 1] == unmultiplied(bgra[4 * i + 1], alpha)
            &&& pixels[4 * i + 2] == unmultiplied(bgra[4 * i], alpha)
            &&& pixels[4 * i + 3] == alpha
        }),
        bgra[4 * i + 3] != 0 ==> pixelAlpha(bgra, i) == bgra[4 * i + 3],
        (forall|k: int| 0 <= k < bgra.len() / 4 ==> #[trigger] bgra[4 * k + 3] == 0) ==> pixelAlpha(
            bgra,
            i,
        ) == 255,
    decreases count,
{
    lemmaPixelCount(bgra, count - 1);
    if i < count - 1 {
        lawPixelsAreTurned(bgra, count - 1, i);
    }
    if bgra[4 * i + 3] != 0 {
        assert(0 <= i < bgra.len() / 4);
        assert(hasAlpha(bgra));
    }
}

proof fn lemmaPixelCount(bgra: Seq<u8>, count: int)
    requires
        0 <= count,
    ensures
        rgbaPixels(bgra, count).len() == 4 * count,
    decreases count,
{
    if count > 0 {
        lemmaPixelCount(bgra, count - 1);
    }
}

/// A color that was dimmed by its opacity is brought back to its strength.
pub proof fn lawColorsAreBroughtBack(component: u8, alpha: u8)
    ensures
        alpha == 0 ==> unmultiplied(component, alpha) == component,
        0 < alpha && component <= alpha ==> unmultiplied(component, alpha) == component * 255
            / alpha as int,
        0 < alpha < 255 && component > alpha ==> unmultiplied(component, alpha) == 255,
{
    if 0 < alpha && component <= alpha {
        assert(component * 255 <= alpha * 255);
        assert(component * 255 / alpha as int <= 255) by (nonlinear_arith)
            requires
                0 < alpha,
                component * 255 <= alpha * 255,
        ;
    }
    if 0 < alpha < 255 && component > alpha {
        assert(component * 255 / alpha as int >= 255) by (nonlinear_arith)
            requires
                0 < alpha,
                component > alpha,
        ;
    }
}

} // verus!
