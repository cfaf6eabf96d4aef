use vstd::prelude::*;

use crate::pixels::{
    draw_red_dot, dotted, law_dot_touches_only_its_pixels, law_whitening_paints_visible_pixels,
    whiten_opaque_pixels, whitened, DotPixel, DotShape,
};

verus! {

/// An RGBA image as plain values: the raw bytes, four per pixel and row by
/// row, then the width and the height.
pub type RgbaPixels = (Vec<u8>, u32, u32);

/// What the `image` crate's built-in decoders make of an encoded image (PNG,
/// ICO or BMP), its format guessed from the signature at its start: its
/// pixels as 8-bit RGBA, its width and its height, or nothing when the bytes
/// do not decode.
pub uninterp spec fn rgba_decoding(bytes: Seq<u8>) -> Option<(Seq<u8>, u32, u32)>;

/// Decodes with the `image` crate the way `image::load_from_memory` does,
/// but without the process-wide format and decoding hooks that any code may
/// register: `image::guess_format` picks a built-in format from the leading
/// signature, `image::load_from_memory_with_format` decodes with it, and
/// `DynamicImage::into_rgba8` turns the image into 8-bit RGBA, handed back as
/// `ImageBuffer::into_raw`, `width` and `height`. Trusted: the result is
/// `rgba_decoding` of the bytes (built-in decoders and default limits only,
/// so the bytes alone decide it), and a decoded buffer holds exactly four
/// bytes for each of its `width * height` pixels (the decoders fill a buffer
/// of `total_bytes`, and every conversion to RGBA builds a fresh `width` by
/// `height` one). Which formats decode and what pixels come out is left to
/// the name.
#[verifier::external_body]
fn image_rgba8(bytes: &[u8]) -> (r: Option<RgbaPixels>)
    ensures
        r.deep_view() == rgba_decoding(bytes@),
        r matches Some((px, w, h)) ==> px@.len() == 4 * (w as int) * (h as int),
{
    let format = match image::guess_format(bytes) {
        Ok(format) => format,
        Err(_) => return None,
    };
    match image::load_from_memory_with_format(bytes, format) {
        Ok(img) => {
            let img = img.into_rgba8();
            let (w, h) = (img.width(), img.height());
            Some((img.into_raw(), w, h))
        },
        Err(_) => None,
    }
}

/// Decodes an encoded image into RGBA bytes, width and height.
pub fn decode_rgba(bytes: &[u8]) -> (r: Option<RgbaPixels>)
    ensures
        r.deep_view() == rgba_decoding(bytes@),
        r matches Some((px, w, h)) ==> px@.len() == 4 * (w as int) * (h as int),
{
    image_rgba8(bytes)
}

/// The badged form of a decoded glyph: every pixel that is not fully
/// transparent turns white, then the red dot is drawn on top.
pub open spec fn badged_spec(decoded: Option<(Seq<u8>, u32, u32)>, shape: DotShape) -> Option<
    (Seq<u8>, u32, u32),
> {
    match decoded {
        Some((px, w, h)) => Some((dotted(whitened(px), w as int, h as int, shape), w, h)),
        None => None,
    }
}

/// The badged glyph has the size of the plain one: the same width and
/// height, and a buffer of the same length; it exists exactly when the plain
/// glyph does.
pub proof fn law_badging_keeps_size(decoded: Option<(Seq<u8>, u32, u32)>, shape: DotShape)
    ensures
        badged_spec(decoded, shape) is Some <==> decoded is Some,
        decoded matches Some((px, w, h)) ==> badged_spec(decoded, shape) matches Some(
            (bpx, bw, bh),
        ) && bw == w && bh == h && bpx.len() == px.len(),
{
}

/// Pixel by pixel: at column `x`, row `y` of a `w` by `h` glyph (bytes
/// `4 * (y * w + x)` on), the badged glyph holds the dot's red where the dot
/// fills, and elsewhere the glyph's pixel painted white when it is not fully
/// transparent, with its alpha cleared in the dot's gap and kept otherwise.
/// The dot's class is read from the shape's rectangle, row by row.
pub proof fn law_badged_pixel(
    px: Seq<u8>,
    w: u32,
    h: u32,
    shape: DotShape,
    x: int,
    y: int,
    c: int,
)
    requires
        px.len() == 4 * (w as int) * (h as int),
        0 <= x < w,
        0 <= y < h,
        0 <= c < 4,
    ensures
        ({
            let i = 4 * (y * w + x) + c;
            let alpha = px[4 * (y * w + x) + 3];
            let k = (y - shape.y_min) * (shape.x_max - shape.x_min) + (x - shape.x_min);
            let class = if shape.x_min <= x < shape.x_max && shape.y_min <= y < shape.y_max && k
                < shape.pixels@.len() {
                shape.pixels@[k]
            } else {
                DotPixel::Keep
            };
            let white = if c < 3 && alpha != 0 {
                255u8
            } else {
                px[i]
            };
            badged_spec(Some((px, w, h)), shape) matches Some((q, qw, qh)) && qw == w && qh == h
                && q[i] == match class {
                DotPixel::Fill => if c == 0 {
                    235u8
                } else if c == 1 {
                    64u8
                } else if c == 2 {
                    60u8
                } else {
                    255u8
                },
                DotPixel::Gap => if c == 3 {
                    0u8
                } else {
                    white
                },
                DotPixel::Keep => white,
            }
        }),
{
    let p = y * w + x;
    assert(0 <= y * w) by (nonlinear_arith)
        requires
            0 <= y,
            0 <= w,
    ;
    assert(p + 1 <= (w as int) * (h as int)) by (nonlinear_arith)
        requires
            p == y * w + x,
            0 <= x < w,
            0 <= y < h,
    ;
    assert(4 * (w as int) * (h as int) == 4 * ((w as int) * (h as int))) by (nonlinear_arith);
    law_whitening_paints_visible_pixels(px, p, c, 0);
    law_whitening_paints_visible_pixels(px, p, 3, 0);
    law_dot_touches_only_its_pixels(whitened(px), w as int, h as int, shape, x, y, c);
}

/// Turns a decoded glyph into its badged form.
pub fn badge_pixels(decoded: Option<RgbaPixels>, shape: &DotShape) -> (r: Option<RgbaPixels>)
    requires
        decoded matches Some((px, w, h)) ==> 4 * (w as int) * (h as int) <= px@.len(),
    ensures
        r.deep_view() == badged_spec(decoded.deep_view(), *shape),
        r matches Some((px, w, h)) ==> decoded matches Some((dpx, dw, dh)) && w == dw && h == dh
            && px@.len() == dpx@.len(),
{
    match decoded {
        Some((px, w, h)) => {
            let mut px = px;
            whiten_opaque_pixels(&mut px);
            draw_red_dot(&mut px, w, h, shape);
            Some((px, w, h))
        },
        None => None,
    }
}

/// The tray glyph, decoded once, in its plain and in its badged form.
///
/// Each form is computed on the first request and kept: the page reports
/// its unread state on every title change, so the badge is switched often.
pub struct IconCache {
    tray_png: Vec<u8>,
    plain: Option<Option<RgbaPixels>>,
    badged: Option<Option<RgbaPixels>>,
    badge_shape: Ghost<Option<DotShape>>,
}

impl IconCache {
    /// The encoded tray glyph.
    pub closed spec fn source(&self) -> Seq<u8> {
        self.tray_png@
    }

    /// The plain form, once it has been computed.
    pub closed spec fn plain_slot(&self) -> Option<Option<(Seq<u8>, u32, u32)>> {
        self.plain.deep_view()
    }

    /// The badged form, once it has been computed.
    pub closed spec fn badged_slot(&self) -> Option<Option<(Seq<u8>, u32, u32)>> {
        self.badged.deep_view()
    }

    /// The dot that the badged form was drawn with, once it has been
    /// computed.
    pub closed spec fn badged_shape(&self) -> Option<DotShape> {
        self.badge_shape@
    }

    #[verifier::type_invariant]
    closed spec fn well_formed(&self) -> bool {
        &&& self.plain matches Some(d) ==> {
            &&& d.deep_view() == rgba_decoding(self.tray_png@)
            &&& d matches Some((px, w, h)) ==> px@.len() == 4 * (w as int) * (h as int)
        }
        &&& self.badged matches Some(b) ==> {
            &&& self.badge_shape@ matches Some(s)
            &&& b.deep_view() == badged_spec(rgba_decoding(self.tray_png@), s)
            &&& b matches Some((px, w, h)) ==> px@.len() == 4 * (w as int) * (h as int)
        }
    }

    /// A cache for the given encoded glyph, with nothing computed yet.
    pub fn new(tray_png: Vec<u8>) -> (c: IconCache)
        ensures
            c.source() == tray_png@,
            c.plain_slot() is None,
            c.badged_slot() is None,
            c.badged_shape() is None,
    {
        IconCache { tray_png, plain: None, badged: None, badge_shape: Ghost(None) }
    }

    /// The decoded glyph, decoding it on the first request.
    pub fn cached_plain_rgba(&mut self) -> (r: Option<&RgbaPixels>)
        ensures
            final(self).source() == old(self).source(),
            final(self).badged_slot() == old(self).badged_slot(),
            final(self).badged_shape() == old(self).badged_shape(),
            final(self).plain_slot() == Some(rgba_decoding(old(self).source())),
            r.deep_view() == rgba_decoding(old(self).source()),
            r matches Some(p) ==> p.0@.len() == 4 * (p.1 as int) * (p.2 as int),
    {
        proof {
            use_type_invariant(&*self);
        }
        if self.plain.is_none() {
            let decoded = image_rgba8(self.tray_png.as_slice());
            self.plain = Some(decoded);
        }
        proof {
            use_type_invariant(&*self);
        }
        match &self.plain {
            Some(d) => d.as_ref(),
            None => None,
        }
    }

    /// The badged glyph, computed from a fresh decoding with the given dot on
    /// the first request. Later requests hand back what the first one made,
    /// whatever dot they bring: the form is always the decoded glyph,
    /// whitened, with the dot of the first request drawn on it.
    pub fn cached_badged_rgba(&mut self, shape: &DotShape) -> (r: Option<&RgbaPixels>)
        ensures
            final(self).source() == old(self).source(),
            final(self).plain_slot() == old(self).plain_slot(),
            final(self).badged_shape() == if old(self).badged_slot() is None {
                Some(*shape)
            } else {
                old(self).badged_shape()
            },
            old(self).badged_slot() is Some ==> final(self).badged_slot() == old(
                self,
            ).badged_slot(),
            final(self).badged_shape() is Some,
            final(self).badged_slot() == Some(
                badged_spec(rgba_decoding(old(self).source()), final(self).badged_shape()->0),
            ),
            r.deep_view() == badged_spec(
                rgba_decoding(old(self).source()),
                final(self).badged_shape()->0,
            ),
            final(self).plain_slot() matches Some(p) ==> r.deep_view() == badged_spec(
                p,
                final(self).badged_shape()->0,
            ),
            r matches Some(p) ==> p.0@.len() == 4 * (p.1 as int) * (p.2 as int),
    {
        proof {
            use_type_invariant(&*self);
        }
        if self.badged.is_none() {
            let decoded = image_rgba8(self.tray_png.as_slice());
            let badged = badge_pixels(decoded, shape);
            self.badge_shape = Ghost(Some(*shape));
            self.badged = Some(badged);
        }
        proof {
            use_type_invariant(&*self);
        }
        match &self.badged {
            Some(b) => b.as_ref(),
            None => None,
        }
    }
}

} // verus!
