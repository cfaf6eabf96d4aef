use vstd::prelude::*;

verus! {

// ---------------------------------------------------------------------------
// White silhouette
// ---------------------------------------------------------------------------

/// Byte `i` of an RGBA buffer after every pixel that is not fully
/// transparent has been painted white. Only whole four-byte pixels count.
pub open spec fn whitened_byte(s: Seq<u8>, i: int) -> u8 {
    let base = i - i % 4;
    if i % 4 < 3 && base + 4 <= s.len() && s[base + 3] != 0 {
        255
    } else {
        s[i]
    }
}

pub open spec fn whitened(s: Seq<u8>) -> Seq<u8> {
    Seq::new(s.len(), |i: int| whitened_byte(s, i))
}

/// Paints every pixel whose alpha is not zero opaque-white in colour, keeping
/// its alpha.
pub fn whiten_opaque_pixels(rgba: &mut Vec<u8>)
    ensures
        final(rgba)@ == whitened(old(rgba)@),
{
    let ghost orig = rgba@;
    let len = rgba.len();
    let mut i: usize = 0;
    while len - i >= 4
        invariant
            i <= len,
            i % 4 == 0,
            len == orig.len(),
            rgba@.len() == len,
            forall|j: int| 0 <= j < i ==> rgba@[j] == whitened_byte(orig, j),
            forall|j: int| i <= j < len ==> rgba@[j] == orig[j],
        decreases len - i,
    {
        if rgba[i + 3] != 0 {
            rgba.set(i, 255);
            rgba.set(i + 1, 255);
            rgba.set(i + 2, 255);
        }
        assert forall|j: int| i <= j < i + 4 implies rgba@[j] == whitened_byte(orig, j) by {
            assert(j % 4 == j - i);
        }
        i = i + 4;
    }
    assert forall|j: int| i <= j < len implies rgba@[j] == whitened_byte(orig, j) by {
        assert(j - j % 4 >= i);
    }
    assert(rgba@ =~= whitened(orig));
}

// ---------------------------------------------------------------------------
// The red dot
// ---------------------------------------------------------------------------

/// What the red dot does to one pixel.
#[derive(Clone, Copy, Debug, PartialEq, Eq, Structural)]
pub enum DotPixel {
    /// Inside the dot: painted solid red.
    Fill,
    /// In the ring around the dot: made transparent.
    Gap,
    /// Outside both: left as it is.
    Keep,
}

/// The red dot as a rectangle of pixel classes, row by row: the pixel at
/// column `x` and row `y` of the rectangle `[x_min, x_max) x [y_min, y_max)`
/// is `pixels[(y - y_min) * (x_max - x_min) + (x - x_min)]`. Pixels that the
/// list does not reach are kept.
pub struct DotShape {
    pub x_min: u32,
    pub x_max: u32,
    pub y_min: u32,
    pub y_max: u32,
    pub pixels: Vec<DotPixel>,
}

/// The class of the pixel at column `x`, row `y` of a `w` by `h` image: the
/// rectangle is clipped to the image.
pub open spec fn dot_class(shape: DotShape, w: int, h: int, x: int, y: int) -> DotPixel {
    if shape.x_min <= x < shape.x_max && x < w && shape.y_min <= y < shape.y_max && y < h {
        let k = (y - shape.y_min) * (shape.x_max - shape.x_min) + (x - shape.x_min);
        if k < shape.pixels@.len() {
            shape.pixels@[k]
        } else {
            DotPixel::Keep
        }
    } else {
        DotPixel::Keep
    }
}

/// The red of the dot, channel by channel.
pub open spec fn dot_red(c: int) -> u8 {
    if c == 0 {
        235
    } else if c == 1 {
        64
    } else if c == 2 {
        60
    } else {
        255
    }
}

/// Byte `i` of a `w` by `h` RGBA buffer after the dot has been drawn.
pub open spec fn dotted_byte(s: Seq<u8>, w: int, h: int, shape: DotShape, i: int) -> u8 {
    let p = i / 4;
    let c = i % 4;
    if w > 0 {
        match dot_class(shape, w, h, p % w, p / w) {
            DotPixel::Fill => dot_red(c),
            DotPixel::Gap => if c == 3 {
                0
            } else {
                s[i]
            },
            DotPixel::Keep => s[i],
        }
    } else {
        s[i]
    }
}

pub open spec fn dotted(s: Seq<u8>, w: int, h: int, shape: DotShape) -> Seq<u8> {
    Seq::new(s.len(), |i: int| dotted_byte(s, w, h, shape, i))
}

/// Column and row of the pixel `y * w + x`.
proof fn lemma_pixel_coords(x: int, y: int, w: int)
    requires
        0 <= x < w,
        0 <= y,
    ensures
        (y * w + x) / w == y,
        (y * w + x) % w == x,
{
    vstd::arithmetic::div_mod::lemma_fundamental_div_mod_converse(y * w + x, w, y, x);
}

/// A pixel number is its row times the width plus its column.
proof fn lemma_pixel_split(p: int, w: int)
    requires
        0 <= p,
        0 < w,
    ensures
        p == (p / w) * w + p % w,
        0 <= p % w < w,
        0 <= p / w,
{
    vstd::arithmetic::div_mod::lemma_fundamental_div_mod(p, w);
    assert(w * (p / w) == (p / w) * w) by (nonlinear_arith);
    vstd::arithmetic::div_mod::lemma_mod_bound(p, w);
    vstd::arithmetic::div_mod::lemma_div_pos_is_pos(p, w);
}

/// Whether the pixel of byte `i` comes before column `x` of row `y`.
pub open spec fn pixel_before(i: int, w: int, x: int, y: int) -> bool {
    let p = i / 4;
    p / w < y || (p / w == y && p % w < x)
}

/// Paints the red dot into a `w` by `h` RGBA buffer: filled pixels become
/// solid red (235, 64, 60, 255), gap pixels become transparent, and every
/// other byte is left as it is.
pub fn draw_red_dot(buf: &mut Vec<u8>, w: u32, h: u32, shape: &DotShape)
    requires
        4 * (w as int) * (h as int) <= old(buf)@.len(),
    ensures
        final(buf)@ == dotted(old(buf)@, w as int, h as int, *shape),
{
    let ghost orig = buf@;
    let total = buf.len();
    if w == 0 || h == 0 {
        assert forall|i: int| 0 <= i < orig.len() implies orig[i] == dotted_byte(
            orig,
            w as int,
            h as int,
            *shape,
            i,
        ) by {
            if w > 0 {
                lemma_pixel_split(i / 4, w as int);
            }
        }
        assert(buf@ =~= dotted(orig, w as int, h as int, *shape));
        return;
    }
    let y_end = if shape.y_max < h {
        shape.y_max
    } else {
        h
    };
    let x_end = if shape.x_max < w {
        shape.x_max
    } else {
        w
    };
    let mut y = shape.y_min;
    assert forall|i: int| 0 <= i < orig.len() implies #[trigger] buf@[i] == if pixel_before(
        i,
        w as int,
        0,
        y as int,
    ) {
        dotted_byte(orig, w as int, h as int, *shape, i)
    } else {
        orig[i]
    } by {
        lemma_pixel_split(i / 4, w as int);
    }
    while y < y_end
        invariant
            0 < w,
            0 < h,
            y_end <= h,
            y_end <= shape.y_max,
            x_end <= w,
            x_end <= shape.x_max,
            x_end == shape.x_max || x_end == w,
            y_end == shape.y_max || y_end == h,
            orig.len() <= usize::MAX,
            shape.y_min <= y,
            4 * (w as int) * (h as int) <= orig.len(),
            buf@.len() == orig.len(),
            forall|i: int|
                0 <= i < orig.len() ==> #[trigger] buf@[i] == if pixel_before(
                    i,
                    w as int,
                    0,
                    y as int,
                ) {
                    dotted_byte(orig, w as int, h as int, *shape, i)
                } else {
                    orig[i]
                },
        decreases y_end - y,
    {
        let mut x = shape.x_min;
        assert forall|i: int| 0 <= i < orig.len() implies #[trigger] buf@[i] == if pixel_before(
            i,
            w as int,
            x as int,
            y as int,
        ) {
            dotted_byte(orig, w as int, h as int, *shape, i)
        } else {
            orig[i]
        } by {
            lemma_pixel_split(i / 4, w as int);
            if (i / 4) / (w as int) == y && (i / 4) % (w as int) < x {
                assert(dot_class(*shape, w as int, h as int, (i / 4) % (w as int), y as int)
                    == DotPixel::Keep);
            }
        }
        while x < x_end
            invariant
                0 < w,
                0 < h,
                y < y_end,
                y_end <= h,
                y_end <= shape.y_max,
                x_end <= w,
                x_end <= shape.x_max,
                x_end == shape.x_max || x_end == w,
                orig.len() <= usize::MAX,
                shape.y_min <= y,
                shape.x_min <= x,
                4 * (w as int) * (h as int) <= orig.len(),
                buf@.len() == orig.len(),
                forall|i: int|
                    0 <= i < orig.len() ==> #[trigger] buf@[i] == if pixel_before(
                        i,
                        w as int,
                        x as int,
                        y as int,
                    ) {
                        dotted_byte(orig, w as int, h as int, *shape, i)
                    } else {
                        orig[i]
                    },
            decreases x_end - x,
        {
            let row = (y - shape.y_min) as u64;
            let col = (x - shape.x_min) as u64;
            let stride = (shape.x_max - shape.x_min) as u64;
            assert(row * stride + col <= u64::MAX) by (nonlinear_arith)
                requires
                    row < 0x1_0000_0000,
                    stride < 0x1_0000_0000,
                    col < 0x1_0000_0000,
            ;
            let k: u64 = row * stride + col;
            let class = if k < shape.pixels.len() as u64 {
                shape.pixels[k as usize]
            } else {
                DotPixel::Keep
            };
            assert(class == dot_class(*shape, w as int, h as int, x as int, y as int));
            assert((y as int) * (w as int) + (x as int) < (w as int) * (h as int)) by (
            nonlinear_arith)
                requires
                    (y as int) < (h as int),
                    (x as int) < (w as int),
            ;
            assert(4 * (w as int) * (h as int) == 4 * ((w as int) * (h as int))) by (
            nonlinear_arith);
            assert(0 <= (y as int) * (w as int)) by (nonlinear_arith)
                requires
                    0 <= y,
                    0 <= w,
            ;
            let p: usize = (y as usize) * (w as usize) + (x as usize);
            let idx: usize = p * 4;
            proof {
                lemma_pixel_coords(x as int, y as int, w as int);
            }
            match class {
                DotPixel::Fill => {
                    buf.set(idx, 235);
                    buf.set(idx + 1, 64);
                    buf.set(idx + 2, 60);
                    buf.set(idx + 3, 255);
                },
                DotPixel::Gap => {
                    buf.set(idx + 3, 0);
                },
                DotPixel::Keep => {},
            }
            proof {
                assert forall|i: int| 0 <= i < orig.len() implies #[trigger] buf@[i] == if pixel_before(
                    i,
                    w as int,
                    x + 1,
                    y as int,
                ) {
                    dotted_byte(orig, w as int, h as int, *shape, i)
                } else {
                    orig[i]
                } by {
                    lemma_pixel_split(i / 4, w as int);
                    if i / 4 == p as int {
                        assert(i % 4 == i - 4 * p);
                    } else {
                        assert(i < idx || i >= idx + 4);
                    }
                }
            }
            x = x + 1;
        }
        proof {
            assert forall|i: int| 0 <= i < orig.len() implies #[trigger] buf@[i] == if pixel_before(
                i,
                w as int,
                0,
                y + 1,
            ) {
                dotted_byte(orig, w as int, h as int, *shape, i)
            } else {
                orig[i]
            } by {
                lemma_pixel_split(i / 4, w as int);
                if (i / 4) / (w as int) == y && (i / 4) % (w as int) >= x {
                    assert(dot_class(*shape, w as int, h as int, (i / 4) % (w as int), y as int)
                        == DotPixel::Keep);
                }
            }
        }
        y = y + 1;
    }
    proof {
        assert forall|i: int| 0 <= i < orig.len() implies buf@[i] == dotted_byte(
            orig,
            w as int,
            h as int,
            *shape,
            i,
        ) by {
            lemma_pixel_split(i / 4, w as int);
            if !pixel_before(i, w as int, 0, y as int) {
                assert(dot_class(*shape, w as int, h as int, (i / 4) % (w as int), (i / 4) / (
                w as int)) == DotPixel::Keep);
            }
        }
        assert(buf@ =~= dotted(orig, w as int, h as int, *shape));
    }
}

// ---------------------------------------------------------------------------
// Laws
// ---------------------------------------------------------------------------

/// The white silhouette keeps the glyph's shape: no alpha value changes, and
/// fully transparent pixels keep their colour too.
pub proof fn law_whitening_keeps_alpha(s: Seq<u8>, i: int)
    requires
        0 <= i < s.len(),
    ensures
        whitened(s).len() == s.len(),
        i % 4 == 3 ==> whitened(s)[i] == s[i],
        i - i % 4 + 4 <= s.len() && s[i - i % 4 + 3] == 0 ==> whitened(s)[i] == s[i],
{
}

/// The dot touches nothing but its own pixels, and in those it writes the
/// red (235, 64, 60, 255) or, in the gap around it, clears the alpha only.
pub proof fn law_dot_touches_only_its_pixels(
    s: Seq<u8>,
    w: int,
    h: int,
    shape: DotShape,
    x: int,
    y: int,
    c: int,
)
    requires
        0 <= x < w,
        0 <= y < h,
        0 <= c < 4,
        4 * ((y * w + x) + 1) <= s.len(),
    ensures
        ({
            let i = 4 * (y * w + x) + c;
            let out = dotted(s, w, h, shape)[i];
            &&& dot_class(shape, w, h, x, y) == DotPixel::Keep ==> out == s[i]
            &&& dot_class(shape, w, h, x, y) == DotPixel::Fill ==> out == dot_red(c)
            &&& dot_class(shape, w, h, x, y) == DotPixel::Gap ==> out == if c == 3 {
                0
            } else {
                s[i]
            }
        }),
{
    let p = y * w + x;
    assert(0 <= y * w) by (nonlinear_arith)
        requires
            0 <= y,
            0 <= w,
    ;
    lemma_pixel_coords(x, y, w);
    assert((4 * p + c) / 4 == p);
    assert((4 * p + c) % 4 == c);
}

/// Every whole pixel that is not fully transparent comes out white in its
/// three colour bytes, whatever its alpha; its alpha byte is kept; fully
/// transparent pixels and the bytes after the last whole pixel are kept.
pub proof fn law_whitening_paints_visible_pixels(s: Seq<u8>, p: int, c: int, j: int)
    requires
        0 <= p,
        4 * p + 4 <= s.len(),
        0 <= c < 4,
    ensures
        whitened(s).len() == s.len(),
        c < 3 && s[4 * p + 3] != 0 ==> whitened(s)[4 * p + c] == 255,
        c < 3 && s[4 * p + 3] == 0 ==> whitened(s)[4 * p + c] == s[4 * p + c],
        whitened(s)[4 * p + 3] == s[4 * p + 3],
        4 * (s.len() / 4) <= j < s.len() ==> whitened(s)[j] == s[j],
{
    assert((4 * p + c) % 4 == c);
    assert((4 * p + 3) % 4 == 3);
}

} // verus!
