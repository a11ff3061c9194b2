use vstd::prelude::*;

verus! {

/// An RGBA color with 8 bits per channel.
#[derive(Debug, Clone, Copy, PartialEq, Eq, Structural)]
pub struct Color {
    pub r: u8,
    pub g: u8,
    pub b: u8,
    pub a: u8,
}

/// The canonical pixel at `p` converted from a 3-byte source pixel: blue from
/// the second source byte, green from the third, red from the first, opaque.
pub open spec fn rgb24_pixel_ok(dst: Seq<u8>, src: Seq<u8>, p: int) -> bool {
    &&& dst[4 * p] == src[3 * p + 1]
    &&& dst[4 * p + 1] == src[3 * p + 2]
    &&& dst[4 * p + 2] == src[3 * p]
    &&& dst[4 * p + 3] == 255
}

/// The canonical pixel at `p` broadcast from a gray source byte, opaque.
pub open spec fn gray_pixel_ok(dst: Seq<u8>, src: Seq<u8>, p: int) -> bool {
    &&& dst[4 * p] == src[p]
    &&& dst[4 * p + 1] == src[p]
    &&& dst[4 * p + 2] == src[p]
    &&& dst[4 * p + 3] == 255
}

/// Alpha of the BGRA pixel at `p`.
pub open spec fn alpha_at(px: Seq<u8>, p: int) -> u8 {
    px[4 * p + 3]
}

/// Every BGRA pixel of the buffer is fully opaque.
pub open spec fn all_opaque(px: Seq<u8>) -> bool {
    forall|p: int| 0 <= p < px.len() / 4 ==> #[trigger] alpha_at(px, p) == 255
}

/// Converts `count` packed 3-byte pixels into canonical BGRA.
pub fn rgb24_to_bgra(src: &Vec<u8>, count: usize) -> (r: Vec<u8>)
    requires
        src@.len() == 3 * count,
        4 * count <= usize::MAX,
    ensures
        r@.len() == 4 * count,
        forall|p: int| 0 <= p < count ==> #[trigger] rgb24_pixel_ok(r@, src@, p),
{
    let _n = src.len();
    let mut out: Vec<u8> = Vec::with_capacity(4 * count);
    let mut p: usize = 0;
    while p < count
        invariant
            p <= count,
            src@.len() == 3 * count,
            src@.len() <= usize::MAX,
            out@.len() == 4 * p,
            forall|q: int| 0 <= q < p ==> #[trigger] rgb24_pixel_ok(out@, src@, q),
        decreases count - p,
    {
        let ghost prev = out@;
        let s = 3 * p;
        out.push(src[s + 1]);
        out.push(src[s + 2]);
        out.push(src[s]);
        out.push(255);
        proof {
            assert forall|q: int| 0 <= q < p + 1 implies #[trigger] rgb24_pixel_ok(out@, src@, q) by {
                if q < p {
                    assert(rgb24_pixel_ok(prev, src@, q));
                }
            }
        }
        p = p + 1;
    }
    out
}

/// Converts `count` gray bytes into canonical BGRA.
pub fn gray_to_bgra(src: &Vec<u8>, count: usize) -> (r: Vec<u8>)
    requires
        src@.len() == count,
        4 * count <= usize::MAX,
    ensures
        r@.len() == 4 * count,
        forall|p: int| 0 <= p < count ==> #[trigger] gray_pixel_ok(r@, src@, p),
{
    let mut out: Vec<u8> = Vec::with_capacity(4 * count);
    let mut p: usize = 0;
    while p < count
        invariant
            p <= count,
            src@.len() == count,
            out@.len() == 4 * p,
            forall|q: int| 0 <= q < p ==> #[trigger] gray_pixel_ok(out@, src@, q),
        decreases count - p,
    {
        let ghost prev = out@;
        let v = src[p];
        out.push(v);
        out.push(v);
        out.push(v);
        out.push(255);
        proof {
            assert forall|q: int| 0 <= q < p + 1 implies #[trigger] gray_pixel_ok(out@, src@, q) by {
                if q < p {
                    assert(gray_pixel_ok(prev, src@, q));
                }
            }
        }
        p = p + 1;
    }
    out
}

/// `c` with coverage `a` composited over the opaque channel value `m`.
pub open spec fn blend_channel(c: u8, a: u8, m: u8) -> int {
    ((c as int) * (a as int) + (m as int) * (255 - a as int) + 127) / 255
}

/// Alpha of coverage `a` composited over a background of alpha `ma`.
pub open spec fn blend_alpha(a: u8, ma: u8) -> int {
    (a as int) + ((ma as int) * (255 - a as int) + 127) / 255
}

/// The pixel at `p` of `new` is that of `old` composited over `matte`.
pub open spec fn matte_pixel_ok(new: Seq<u8>, old: Seq<u8>, matte: Color, p: int) -> bool {
    let a = old[4 * p + 3];
    &&& new[4 * p] == blend_channel(old[4 * p], a, matte.b)
    &&& new[4 * p + 1] == blend_channel(old[4 * p + 1], a, matte.g)
    &&& new[4 * p + 2] == blend_channel(old[4 * p + 2], a, matte.r)
    &&& new[4 * p + 3] == blend_alpha(a, matte.a)
}

fn blend_channel_exec(c: u8, a: u8, m: u8) -> (r: u8)
    ensures
        r == blend_channel(c, a, m),
{
    proof {
        assert((c as int) * (a as int) + (m as int) * (255 - a as int) <= 255 * 255)
            by (nonlinear_arith)
            requires c <= 255, a <= 255, m <= 255;
        assert(0 <= (c as int) * (a as int) + (m as int) * (255 - a as int))
            by (nonlinear_arith)
            requires 0 <= c, 0 <= a <= 255, 0 <= m;
    }
    let num: u32 = (c as u32) * (a as u32) + (m as u32) * (255 - a as u32) + 127;
    (num / 255) as u8
}

fn blend_alpha_exec(a: u8, ma: u8) -> (r: u8)
    ensures
        r == blend_alpha(a, ma),
{
    proof {
        assert((ma as int) * (255 - a as int) <= 255 * (255 - a as int)) by (nonlinear_arith)
            requires ma <= 255, a <= 255;
        assert(0 <= (ma as int) * (255 - a as int)) by (nonlinear_arith)
            requires 0 <= ma, a <= 255;
    }
    let num: u32 = (ma as u32) * (255 - a as u32) + 127;
    a + (num / 255) as u8
}

/// An opaque matte leaves every composited pixel opaque.
pub proof fn lemma_blend_alpha_opaque(a: u8)
    ensures
        blend_alpha(a, 255) == 255,
{
    let k = 255 - a as int;
    assert((255 * k + 127) / 255 == k);
}

/// Composites every BGRA pixel over `matte`, in place.
pub fn apply_matte(px: &mut Vec<u8>, matte: Color)
    requires
        old(px)@.len() % 4 == 0,
    ensures
        final(px)@.len() == old(px)@.len(),
        forall|p: int| 0 <= p < old(px)@.len() / 4
            ==> #[trigger] matte_pixel_ok(final(px)@, old(px)@, matte, p),
        matte.a == 255 ==> all_opaque(final(px)@),
{
    let ghost orig = px@;
    let len = px.len();
    let count = len / 4;
    let mut p: usize = 0;
    while p < count
        invariant
            p <= count,
            count == orig.len() / 4,
            orig.len() % 4 == 0,
            4 * count == orig.len(),
            orig.len() <= usize::MAX,
            px@.len() == orig.len(),
            forall|q: int| 0 <= q < p ==> #[trigger] matte_pixel_ok(px@, orig, matte, q),
            forall|j: int| 4 * p <= j < px@.len() ==> px@[j] == orig[j],
        decreases count - p,
    {
        let ghost prev = px@;
        let i = 4 * p;
        let a = px[i + 3];
        let b = blend_channel_exec(px[i], a, matte.b);
        let g = blend_channel_exec(px[i + 1], a, matte.g);
        let r = blend_channel_exec(px[i + 2], a, matte.r);
        let na = blend_alpha_exec(a, matte.a);
        px.set(i, b);
        px.set(i + 1, g);
        px.set(i + 2, r);
        px.set(i + 3, na);
        proof {
            assert forall|q: int| 0 <= q < p + 1 implies #[trigger] matte_pixel_ok(px@, orig, matte, q) by {
                if q < p {
                    assert(matte_pixel_ok(prev, orig, matte, q));
                }
            }
        }
        p = p + 1;
    }
    proof {
        if matte.a == 255 {
            assert forall|p: int| 0 <= p < px@.len() / 4 implies #[trigger] alpha_at(px@, p)
                == 255 by {
                assert(matte_pixel_ok(px@, orig, matte, p));
                lemma_blend_alpha_opaque(orig[4 * p + 3]);
            }
        }
    }
}

/// The pixel at `p` of `new` is that of `old`, cleared to zero where it is
/// fully transparent.
pub open spec fn normalized_pixel_ok(new: Seq<u8>, old: Seq<u8>, p: int) -> bool {
    if old[4 * p + 3] == 0 {
        &&& new[4 * p] == 0
        &&& new[4 * p + 1] == 0
        &&& new[4 * p + 2] == 0
        &&& new[4 * p + 3] == 0
    } else {
        &&& new[4 * p] == old[4 * p]
        &&& new[4 * p + 1] == old[4 * p + 1]
        &&& new[4 * p + 2] == old[4 * p + 2]
        &&& new[4 * p + 3] == old[4 * p + 3]
    }
}

/// Clears the color hidden behind fully transparent pixels, in place, so that
/// invisible values do not sway palette selection.
pub fn normalize_unused_alpha(px: &mut Vec<u8>)
    requires
        old(px)@.len() % 4 == 0,
    ensures
        final(px)@.len() == old(px)@.len(),
        forall|p: int| 0 <= p < old(px)@.len() / 4
            ==> #[trigger] normalized_pixel_ok(final(px)@, old(px)@, p),
{
    let ghost orig = px@;
    let len = px.len();
    let count = len / 4;
    let mut p: usize = 0;
    while p < count
        invariant
            p <= count,
            count == orig.len() / 4,
            orig.len() % 4 == 0,
            4 * count == orig.len(),
            orig.len() <= usize::MAX,
            px@.len() == orig.len(),
            forall|q: int| 0 <= q < p ==> #[trigger] normalized_pixel_ok(px@, orig, q),
            forall|j: int| 4 * p <= j < px@.len() ==> px@[j] == orig[j],
        decreases count - p,
    {
        let ghost prev = px@;
        let i = 4 * p;
        if px[i + 3] == 0 {
            px.set(i, 0);
            px.set(i + 1, 0);
            px.set(i + 2, 0);
        }
        proof {
            assert forall|q: int| 0 <= q < p + 1 implies #[trigger] normalized_pixel_ok(px@, orig, q) by {
                if q < p {
                    assert(normalized_pixel_ok(prev, orig, q));
                }
            }
        }
        p = p + 1;
    }
}

/// The RGBA pixel at `p` of `rgba` is the BGRA pixel at `p` of `bgra`.
pub open spec fn rgba_pixel_ok(rgba: Seq<u8>, bgra: Seq<u8>, p: int) -> bool {
    &&& rgba[4 * p] == bgra[4 * p + 2]
    &&& rgba[4 * p + 1] == bgra[4 * p + 1]
    &&& rgba[4 * p + 2] == bgra[4 * p]
    &&& rgba[4 * p + 3] == bgra[4 * p + 3]
}

/// Flattens a BGRA buffer into the RGBA channel order.
pub fn bgra_to_rgba(px: &Vec<u8>) -> (r: Vec<u8>)
    requires
        px@.len() % 4 == 0,
    ensures
        r@.len() == px@.len(),
        forall|p: int| 0 <= p < px@.len() / 4 ==> #[trigger] rgba_pixel_ok(r@, px@, p),
{
    let len = px.len();
    let count = len / 4;
    let mut out: Vec<u8> = Vec::with_capacity(px.len());
    let mut p: usize = 0;
    while p < count
        invariant
            p <= count,
            count == px@.len() / 4,
            px@.len() % 4 == 0,
            4 * count == px@.len(),
            px@.len() <= usize::MAX,
            out@.len() == 4 * p,
            forall|q: int| 0 <= q < p ==> #[trigger] rgba_pixel_ok(out@, px@, q),
        decreases count - p,
    {
        let ghost prev = out@;
        let i = 4 * p;
        out.push(px[i + 2]);
        out.push(px[i + 1]);
        out.push(px[i]);
        out.push(px[i + 3]);
        proof {
            assert forall|q: int| 0 <= q < p + 1 implies #[trigger] rgba_pixel_ok(out@, px@, q) by {
                if q < p {
                    assert(rgba_pixel_ok(prev, px@, q));
                }
            }
        }
        p = p + 1;
    }
    out
}

} // verus!
