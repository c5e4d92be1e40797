//! Rectangular capture regions (subsets of a monitor) for region capture.
//!
//! A [`CaptureRegion`] is expressed in monitor-local pixels: `(x, y)` is the
//! top-left corner of the region relative to the top-left corner of the
//! captured monitor, and `width`/`height` describe the region size. Regions
//! are always clamped to the monitor bounds at crop time, so a stale region
//! (e.g. after a monitor was re-plugged with different dimensions) can never
//! read out of bounds.
use vstd::prelude::*;

verus! {

/// A rectangular region of a monitor, in monitor-local pixels.
#[derive(Debug, Clone, Copy, PartialEq, Eq, Structural)]
pub struct CaptureRegion {
    /// Horizontal offset from the monitor's left edge.
    pub x: u32,
    /// Vertical offset from the monitor's top edge.
    pub y: u32,
    /// Region width in pixels.
    pub width: u32,
    /// Region height in pixels.
    pub height: u32,
}

/// `a` rounded down to an even number.
pub open spec fn even_down(a: u32) -> u32 {
    (a - a % 2) as u32
}

/// The smaller of two pixel counts.
pub open spec fn min_u32(a: u32, b: u32) -> u32 {
    if a <= b { a } else { b }
}

/// `r` clamped into a `mw` × `mh` surface (see [`CaptureRegion::clamped_to`]).
pub open spec fn clamp_spec(r: CaptureRegion, mw: u32, mh: u32) -> CaptureRegion {
    if mw == 0 || mh == 0 {
        CaptureRegion { x: 0, y: 0, width: 0, height: 0 }
    } else {
        let x = min_u32(r.x, (mw - 1) as u32);
        let y = min_u32(r.y, (mh - 1) as u32);
        CaptureRegion {
            x,
            y,
            width: min_u32(r.width, (mw - x) as u32),
            height: min_u32(r.height, (mh - y) as u32),
        }
    }
}

/// `r` with its width and height rounded down to even values.
pub open spec fn even_spec(r: CaptureRegion) -> CaptureRegion {
    CaptureRegion { width: even_down(r.width), height: even_down(r.height), ..r }
}

/// The region actually cropped from a `width` × `height` frame: clamped to
/// the frame, then even-aligned.
pub open spec fn crop_region(r: CaptureRegion, width: u32, height: u32) -> CaptureRegion {
    even_spec(clamp_spec(r, width, height))
}

/// Bytes a `width` × `height` RGBA frame with `stride` bytes per row
/// occupies: every row but the last at full stride, the last row only its
/// pixels.
pub open spec fn frame_bytes(width: u32, height: u32, stride: u32) -> int {
    (if height >= 1 { height - 1 } else { 0 }) * stride + width * 4
}

/// The first `k` rows of the `w`-pixel-wide window at `(x, y)` of an RGBA
/// frame with `stride` bytes per row, concatenated.
pub open spec fn crop_rows(data: Seq<u8>, stride: int, x: int, y: int, w: int, k: nat) -> Seq<u8>
    decreases k,
{
    if k == 0 {
        Seq::empty()
    } else {
        let start = (y + k - 1) * stride + x * 4;
        crop_rows(data, stride, x, y, w, (k - 1) as nat) + data.subrange(start, start + w * 4)
    }
}

/// What [`CaptureRegion::crop_rgba`] yields: the cropped bytes and size, or
/// nothing when the cropped region is empty or the buffer is short.
pub open spec fn crop_spec(r: CaptureRegion, data: Seq<u8>, width: u32, height: u32, stride: u32) -> Option<(Seq<u8>, u32, u32)> {
    let c = crop_region(r, width, height);
    if c.width == 0 || c.height == 0 {
        None
    } else if data.len() < frame_bytes(width, height, stride) {
        None
    } else {
        Some((crop_rows(data, stride as int, c.x as int, c.y as int, c.width as int, c.height as nat), c.width, c.height))
    }
}


/// A clamped region lies inside its surface: its corner is on the surface
/// (unless the surface is empty) and it does not reach past either edge.
pub proof fn lemma_clamp_inside(r: CaptureRegion, mw: u32, mh: u32)
    ensures
        ({
            let c = clamp_spec(r, mw, mh);
            &&& c.x + c.width <= mw
            &&& c.y + c.height <= mh
            &&& (mw > 0 && mh > 0) ==> c.x < mw && c.y < mh
            &&& (mw == 0 || mh == 0) ==> c.width == 0 && c.height == 0
        }),
{
}

/// A region already inside the surface is left as it is, and clamping twice
/// is clamping once.
pub proof fn lemma_clamp_fixes_inside_regions(r: CaptureRegion, mw: u32, mh: u32)
    ensures
        r.x < mw && r.y < mh && r.x + r.width <= mw && r.y + r.height <= mh ==> clamp_spec(r, mw, mh) == r,
        clamp_spec(clamp_spec(r, mw, mh), mw, mh) == clamp_spec(r, mw, mh),
{
}

/// Even alignment keeps the corner, yields even sizes at most one pixel
/// smaller, and aligning twice is aligning once.
pub proof fn lemma_even_aligned(r: CaptureRegion)
    ensures
        even_spec(r).x == r.x && even_spec(r).y == r.y,
        even_spec(r).width % 2 == 0 && even_spec(r).height % 2 == 0,
        even_spec(r).width <= r.width && r.width <= even_spec(r).width + 1,
        even_spec(r).height <= r.height && r.height <= even_spec(r).height + 1,
        even_spec(even_spec(r)) == even_spec(r),
{
}

/// The first `k` rows hold `k * w` RGBA pixels when they lie in the data.
pub proof fn lemma_crop_rows_len(data: Seq<u8>, stride: int, x: int, y: int, w: int, k: nat)
    requires
        0 <= stride,
        0 <= x,
        0 <= y,
        0 <= w,
        k >= 1 ==> (y + k - 1) * stride + x * 4 + w * 4 <= data.len(),
    ensures
        crop_rows(data, stride, x, y, w, k).len() == k * w * 4,
    decreases k,
{
    if k > 0 {
        if k >= 2 {
            assert((y + k - 2) * stride <= (y + k - 1) * stride) by (nonlinear_arith)
                requires
                    0 <= stride,
                    k >= 2,
            ;
        }
        assert(0 <= (y + k - 1) * stride) by (nonlinear_arith)
            requires
                0 <= stride,
                0 <= y,
                k >= 1,
        ;
        lemma_crop_rows_len(data, stride, x, y, w, (k - 1) as nat);
        assert((k - 1) * w * 4 + w * 4 == k * w * 4) by (nonlinear_arith);
    }
}

/// A successful crop holds exactly `width * height` RGBA pixels.
pub proof fn lemma_crop_len(r: CaptureRegion, data: Seq<u8>, width: u32, height: u32, stride: u32)
    ensures
        crop_spec(r, data, width, height, stride) matches Some((out, w, h)) ==> out.len() == w * h * 4,
{
    let c = crop_region(r, width, height);
    if crop_spec(r, data, width, height, stride) is Some {
        lemma_clamp_inside(r, width, height);
        assert((c.y + c.height - 1) * stride <= (height - 1) * stride) by (nonlinear_arith)
            requires
                c.y + c.height <= height,
                c.height >= 1,
        ;
        lemma_crop_rows_len(data, stride as int, c.x as int, c.y as int, c.width as int, c.height as nat);
        assert(c.height * c.width * 4 == c.width * c.height * 4) by (nonlinear_arith);
    }
}

proof fn lemma_crop_rows_tight(data: Seq<u8>, w: int, k: nat)
    requires
        0 <= w,
        k * w * 4 <= data.len(),
    ensures
        crop_rows(data, w * 4, 0, 0, w, k) == data.subrange(0, k * w * 4),
    decreases k,
{
    if k > 0 {
        let start = (0 + k - 1) * (w * 4) + 0 * 4;
        assert(crop_rows(data, w * 4, 0, 0, w, k) == crop_rows(data, w * 4, 0, 0, w, (k - 1) as nat)
            + data.subrange(start, start + w * 4));
        assert(start == (k - 1) * w * 4) by (nonlinear_arith)
            requires
                start == (0 + k - 1) * (w * 4) + 0 * 4,
        ;
        assert((k - 1) * w * 4 + w * 4 == k * w * 4) by (nonlinear_arith);
        assert(0 <= (k - 1) * w * 4) by (nonlinear_arith)
            requires
                k >= 1,
                w >= 0,
        ;
        lemma_crop_rows_tight(data, w, (k - 1) as nat);
        assert(data.subrange(0, (k - 1) * w * 4) + data.subrange((k - 1) * w * 4, k * w * 4) =~= data.subrange(0, k * w * 4));
    } else {
        assert(k * w * 4 == 0) by (nonlinear_arith)
            requires
                k == 0,
        ;
        assert(data.subrange(0, 0) =~= Seq::<u8>::empty());
    }
}

/// Cropping a tightly packed frame to its full, even-sized surface gives
/// the frame back unchanged.
pub proof fn lemma_full_crop_is_identity(data: Seq<u8>, width: u32, height: u32)
    requires
        width > 0 && height > 0,
        width % 2 == 0 && height % 2 == 0,
        data.len() == width * height * 4,
        width * 4 <= u32::MAX,
    ensures
        crop_spec(CaptureRegion { x: 0, y: 0, width, height }, data, width, height, (width * 4) as u32)
            == Some((data, width, height)),
{
    let stride = (width * 4) as u32;
    assert(frame_bytes(width, height, stride) == (height - 1) * stride + width * 4);
    assert((height - 1) * stride + width * 4 == width * height * 4) by (nonlinear_arith)
        requires
            height >= 1,
            stride == width * 4,
    ;
    assert(height * width * 4 == width * height * 4) by (nonlinear_arith);
    lemma_crop_rows_tight(data, width as int, height as nat);
    assert(data.subrange(0, height * width * 4) =~= data);
}

impl CaptureRegion {
    /// A region covering an entire `width` × `height` surface.
    pub fn full(width: u32, height: u32) -> (r: Self)
        ensures
            r == (CaptureRegion { x: 0, y: 0, width, height }),
    {
        CaptureRegion { x: 0, y: 0, width, height }
    }

    /// Whether the region is empty (zero width or height).
    pub fn is_empty(self) -> (r: bool)
        ensures
            r == (self.width == 0 || self.height == 0),
    {
        self.width == 0 || self.height == 0
    }

    /// Whether the region covers the full `width` × `height` surface.
    pub fn is_full_for(self, width: u32, height: u32) -> (r: bool)
        ensures
            r == (self == CaptureRegion { x: 0, y: 0, width, height }),
    {
        self.x == 0 && self.y == 0 && self.width == width && self.height == height
    }

    /// Snap the width and height down to even pixel values.
    ///
    /// Common video encoders (H.264, H.265, VP9) require even frame
    /// dimensions, so a region with an odd width or height must be shrunk
    /// before its frames can be encoded.
    pub fn even_aligned(self) -> (r: Self)
        ensures
            r == even_spec(self),
    {
        let w = self.width;
        let h = self.height;
        assert(w & !1u32 == w - w % 2) by (bit_vector);
        assert(h & !1u32 == h - h % 2) by (bit_vector);
        CaptureRegion { x: self.x, y: self.y, width: w & !1u32, height: h & !1u32 }
    }

    /// Clamp the region so it lies fully inside a `max_width` × `max_height`
    /// surface, keeping the top-left corner fixed when possible. An empty or
    /// degenerate surface yields an empty region.
    pub fn clamped_to(self, max_width: u32, max_height: u32) -> (r: Self)
        ensures
            r == clamp_spec(self, max_width, max_height),
    {
        if max_width == 0 || max_height == 0 {
            return CaptureRegion { x: 0, y: 0, width: 0, height: 0 };
        }
        let x = if self.x <= max_width - 1 { self.x } else { max_width - 1 };
        let y = if self.y <= max_height - 1 { self.y } else { max_height - 1 };
        let width = if self.width <= max_width - x { self.width } else { max_width - x };
        let height = if self.height <= max_height - y { self.height } else { max_height - y };
        CaptureRegion { x, y, width, height }
    }

    /// Crop an RGBA8 frame (row-major, `stride` bytes per row) to this region.
    ///
    /// The region is clamped to the frame bounds and even-aligned first, so
    /// callers can pass stale or odd-sized regions safely. Returns `None`
    /// when the clamped region is empty or the buffer is too small for the
    /// declared frame size. On success, returns the cropped pixel data plus
    /// the cropped dimensions (which may differ from the region's own
    /// width/height when clamping or even alignment applied).
    pub fn crop_rgba(&self, data: &[u8], width: u32, height: u32, stride: u32) -> (r: Option<(Vec<u8>, u32, u32)>)
        requires
            frame_bytes(width, height, stride) <= usize::MAX,
        ensures
            match r {
                None => crop_spec(*self, data@, width, height, stride) is None,
                Some((out, w, h)) => crop_spec(*self, data@, width, height, stride) == Some((out@, w, h)),
            },
    {
        let region = self.clamped_to(width, height).even_aligned();
        if region.is_empty() {
            return None;
        }
        let last_row: u32 = if height >= 1 { height - 1 } else { 0 };
        assert(last_row as int * stride as int <= frame_bytes(width, height, stride));
        let needed: usize = last_row as usize * stride as usize + width as usize * 4;
        if data.len() < needed {
            return None;
        }
        let mut out: Vec<u8> = Vec::new();
        let x = region.x;
        let y = region.y;
        let w = region.width;
        let h = region.height;
        assert(y + h <= height && x + w <= width);
        let mut k: u32 = 0;
        while k < h
            invariant
                k <= h,
                y + h <= height,
                x + w <= width,
                needed == frame_bytes(width, height, stride),
                needed <= data@.len(),
                needed <= usize::MAX,
                out@ == crop_rows(data@, stride as int, x as int, y as int, w as int, k as nat),
            decreases h - k,
        {
            let row = y + k;
            assert(row as int * stride as int <= (if height >= 1 { height - 1 } else { 0 }) * stride) by (nonlinear_arith)
                requires
                    row < height,
            ;
            let start: usize = row as usize * stride as usize + x as usize * 4;
            let end: usize = start + w as usize * 4;
            let piece = vstd::slice::slice_subrange(data, start, end);
            let ghost before = out@;
            out.extend_from_slice(piece);
            proof {
                assert(out@ =~= before + data@.subrange(start as int, end as int));
            }
            k = k + 1;
        }
        Some((out, w, h))
    }
}

} // verus!
