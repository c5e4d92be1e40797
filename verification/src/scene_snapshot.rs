//! Native source frames of scene snapshots: their validation, cropping and
//! the stable color tiles drawn for sources without a frame.
use vstd::prelude::*;

use crate::region::{crop_rows, lemma_crop_rows_len};
use crate::source::{Crop, SourceKind};

verus! {

/// Width of the virtual canvas used by the scene editor and snapshot export.
pub const DEFAULT_CANVAS_WIDTH: u32 = 1920;

/// Height of the virtual canvas used by the scene editor and snapshot export.
pub const DEFAULT_CANVAS_HEIGHT: u32 = 1080;

/// One RGBA8 pixel buffer produced by a native source renderer.
#[derive(Debug, Clone, PartialEq, Eq)]
pub struct SnapshotFrame {
    pub width: u32,
    pub height: u32,
    pub rgba: Vec<u8>,
}

impl SnapshotFrame {
    /// Bound-checked constructor for an RGBA8 frame: both sides non-zero
    /// and exactly four bytes per pixel.
    pub fn new(width: u32, height: u32, rgba: Vec<u8>) -> (r: Option<Self>)
        requires
            width * height * 4 <= usize::MAX,
        ensures
            match r {
                Some(f) => width > 0 && height > 0 && rgba@.len() == width * height * 4 && f.width == width
                    && f.height == height && f.rgba@ == rgba@,
                None => width == 0 || height == 0 || rgba@.len() != width * height * 4,
            },
    {
        if width == 0 || height == 0 {
            return None;
        }
        assert(width as int * height as int <= width * height * 4) by (nonlinear_arith)
            requires
                width >= 1 && height >= 1,
        ;
        if rgba.len() != (width as usize) * (height as usize) * 4 {
            return None;
        }
        Some(SnapshotFrame { width, height, rgba })
    }
}

/// The crop edges actually applied to a `w` × `h` frame: each edge at most
/// what is left of the frame after the opposite edge.
pub open spec fn crop_edges(w: u32, h: u32, crop: Crop) -> (u32, u32, u32, u32) {
    let left = if crop.left <= w { crop.left } else { w };
    let right = if crop.right <= (w - left) as u32 { crop.right } else { (w - left) as u32 };
    let top = if crop.top <= h { crop.top } else { h };
    let bottom = if crop.bottom <= (h - top) as u32 { crop.bottom } else { (h - top) as u32 };
    (left, right, top, bottom)
}

/// Clamp a source frame to the layer crop so the compositor only samples
/// the visible region: a crop that leaves nothing empties the frame,
/// otherwise the frame keeps the rows and columns inside the crop.
pub fn clamp_frame_to_crop(frame: &mut SnapshotFrame, crop: Crop)
    requires
        old(frame).width * old(frame).height * 4 <= u32::MAX,
        old(frame).rgba@.len() >= old(frame).width * old(frame).height * 4,
    ensures
        ({
            let (w, h) = (old(frame).width, old(frame).height);
            let (left, right, top, bottom) = crop_edges(w, h, crop);
            if w == left + right || h == top + bottom {
                final(frame).width == 0 && final(frame).height == 0 && final(frame).rgba@.len() == 0
            } else {
                &&& final(frame).width == w - left - right
                &&& final(frame).height == h - top - bottom
                &&& final(frame).rgba@ == crop_rows(
                    old(frame).rgba@,
                    w * 4,
                    left as int,
                    top as int,
                    final(frame).width as int,
                    final(frame).height as nat,
                )
                &&& final(frame).rgba@.len() == final(frame).width * final(frame).height * 4
            }
        }),
{
    let w = frame.width;
    let h = frame.height;
    let left = if crop.left <= w { crop.left } else { w };
    let right = if crop.right <= w - left { crop.right } else { w - left };
    let top = if crop.top <= h { crop.top } else { h };
    let bottom = if crop.bottom <= h - top { crop.bottom } else { h - top };
    if w == left + right || h == top + bottom {
        frame.width = 0;
        frame.height = 0;
        frame.rgba = Vec::new();
        return;
    }
    let out_width = w - left - right;
    let out_height = h - top - bottom;
    let ghost data = frame.rgba@;
    let mut cropped: Vec<u8> = Vec::new();
    let mut y: u32 = 0;
    while y < out_height
        invariant
            w == old(frame).width,
            h == old(frame).height,
            data == old(frame).rgba@,
            frame.rgba@ == data,
            w * h * 4 <= u32::MAX,
            data.len() >= w * h * 4,
            out_width + left + right == w,
            out_height + top + bottom == h,
            y <= out_height,
            cropped@ == crop_rows(data, w * 4, left as int, top as int, out_width as int, y as nat),
        decreases out_height - y,
    {
        let row = y + top;
        assert(row as int * w as int + left as int + out_width as int <= w as int * h as int) by (nonlinear_arith)
            requires
                row < h,
                left + out_width <= w,
        ;
        assert(w as int * h as int <= w * h * 4);
        let start: usize = (row as usize * w as usize + left as usize) * 4;
        let end: usize = start + out_width as usize * 4;
        assert(start as int == (top + (y + 1) - 1) * (w * 4) + left * 4) by (nonlinear_arith)
            requires
                start as int == (row as int * w as int + left as int) * 4,
                row == top + y,
        ;
        let piece = vstd::slice::slice_subrange(frame.rgba.as_slice(), start, end);
        let ghost before = cropped@;
        cropped.extend_from_slice(piece);
        proof {
            assert(cropped@ =~= before + data.subrange(start as int, end as int));
        }
        y = y + 1;
    }
    proof {
        if out_height >= 1 {
            assert((top + out_height - 1) * (w * 4) + left * 4 + out_width * 4 <= data.len()) by (nonlinear_arith)
                requires
                    top + out_height <= h,
                    left + out_width <= w,
                    out_height >= 1,
                    data.len() >= w * h * 4,
            ;
            assert(0 <= (top + out_height - 1) * (w * 4)) by (nonlinear_arith)
                requires
                    top + out_height >= 1,
            ;
        }
        lemma_crop_rows_len(data, w * 4, left as int, top as int, out_width as int, out_height as nat);
        assert(out_height * out_width * 4 == out_width * out_height * 4) by (nonlinear_arith);
    }
    frame.width = out_width;
    frame.height = out_height;
    frame.rgba = cropped;
}

/// The stable tile color of a source kind without a native frame.
pub fn layer_color(kind: &SourceKind) -> (r: [u8; 3])
    ensures
        r@ == match *kind {
            SourceKind::Image => seq![52u8, 152, 219],
            SourceKind::Text => seq![46u8, 204, 113],
            SourceKind::Webcam => seq![155u8, 89, 182],
            SourceKind::Browser => seq![26u8, 188, 156],
            SourceKind::Media => seq![241u8, 196, 15],
            SourceKind::Color => seq![230u8, 126, 34],
            SourceKind::GameCapture => seq![231u8, 76, 60],
            SourceKind::ScreenCapture => seq![149u8, 165, 166],
            SourceKind::Audio => seq![52u8, 73, 94],
        },
{
    match kind {
        SourceKind::Image => [52, 152, 219],
        SourceKind::Text => [46, 204, 113],
        SourceKind::Webcam => [155, 89, 182],
        SourceKind::Browser => [26, 188, 156],
        SourceKind::Media => [241, 196, 15],
        SourceKind::Color => [230, 126, 34],
        SourceKind::GameCapture => [231, 76, 60],
        SourceKind::ScreenCapture => [149, 165, 166],
        SourceKind::Audio => [52, 73, 94],
    }
}

} // verus!
