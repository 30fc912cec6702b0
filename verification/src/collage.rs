use vstd::prelude::*;

use crate::errors::RecruitError;

verus! {

/// One decoded thumbnail: RGB bytes, row-major, three bytes per pixel.
pub struct Thumbnail {
    pub width: u32,
    pub height: u32,
    pub data: Vec<u8>,
}

impl Thumbnail {
    /// A thumbnail's buffer holds exactly its pixels.
    pub open spec fn wf(self) -> bool {
        self.data@.len() == 3 * self.width * self.height
    }
}

/// Which draw lands in the grid cell at `(col, row)` of the five-by-two
/// grid: the top row shows draws 0 to 4 from right to left, the bottom row
/// draws 5 to 9 the same way.  So the top-right cell shows draw 0 and the
/// bottom-left cell draw 9.
pub open spec fn cell_draw_index(col: int, row: int) -> int {
    4 - col + 5 * row
}

/// The composite's byte offset of byte `t` of the run that cell column
/// `col` contributes to the global pixel row `row * h + ly`: each global
/// pixel row consists of five runs of `3 * w` bytes, one per cell column.
pub open spec fn out_pos(row: int, col: int, ly: int, t: int, w: int, h: int) -> int {
    ((row * h + ly) * 5 + col) * (3 * w) + t
}

/// Byte `t` of local pixel row `ly` of the thumbnail shown in cell
/// `(col, row)`.
pub open spec fn cell_byte(images: Seq<Thumbnail>, col: int, row: int, ly: int, t: int, w: int) -> u8 {
    images[cell_draw_index(col, row)].data@[ly * (3 * w) + t]
}

/// The composite `out` shows the ten thumbnails in the five-by-two grid:
/// every byte of every cell run equals the corresponding thumbnail byte,
/// and the length is exactly the grid's `(5 w) x (2 h)` pixels.
pub open spec fn composed_grid(out: Seq<u8>, images: Seq<Thumbnail>, w: int, h: int) -> bool {
    &&& out.len() == 30 * w * h
    &&& forall|row: int, col: int, ly: int, t: int|
        0 <= row < 2 && 0 <= col < 5 && 0 <= ly < h && 0 <= t < 3 * w ==> out[#[trigger] out_pos(
            row,
            col,
            ly,
            t,
            w,
            h,
        )] == cell_byte(images, col, row, ly, t, w)
}

/// All grid positions strictly before global pixel row `g`, plus those of
/// row `g` in a cell column before `col`, already show their thumbnail.
spec fn placed_to(out: Seq<u8>, images: Seq<Thumbnail>, g: int, col: int, w: int, h: int) -> bool {
    forall|r: int, c: int, l: int, t: int|
        0 <= r < 2 && 0 <= c < 5 && 0 <= l < h && 0 <= t < 3 * w && (r * h + l < g || (r * h + l
            == g && c < col)) ==> out[#[trigger] out_pos(r, c, l, t, w, h)] == cell_byte(
            images,
            c,
            r,
            l,
            t,
            w,
        )
}

/// Arranges a batch of ten equally-sized thumbnails into the five-by-two
/// grid that `composed_grid` describes and returns the composite's RGB
/// bytes.
pub fn compose(images: &Vec<Thumbnail>, width: u32, height: u32) -> (out: Vec<u8>)
    requires
        images@.len() == 10,
        forall|k: int|
            0 <= k < 10 ==> (#[trigger] images@[k]).width == width && images@[k].height == height
                && images@[k].wf(),
        30 * (width as int) * (height as int) <= usize::MAX,
        3 * (width as int) <= usize::MAX,
    ensures
        composed_grid(out@, images@, width as int, height as int),
{
    let ghost gw = width as int;
    let ghost gh = height as int;
    let w: usize = width as usize;
    let h: usize = height as usize;
    proof {
        assert(3 * gw * gh <= 30 * gw * gh && 0 <= 3 * gw * gh) by (nonlinear_arith)
            requires
                gw >= 0,
                gh >= 0,
        ;
    }
    let stride: usize = 3 * w;
    let mut out: Vec<u8> = Vec::new();
    let mut row: usize = 0;
    while row < 2
        invariant
            row <= 2,
            gw == width as int && gh == height as int && w == width as usize && h
                == height as usize && stride == 3 * gw,
            images@.len() == 10,
            forall|k: int|
                0 <= k < 10 ==> (#[trigger] images@[k]).width == width && images@[k].height
                    == height && images@[k].wf(),
            30 * gw * gh <= usize::MAX,
            out@.len() == ((row * gh) * 5) * (3 * gw),
            placed_to(out@, images@, row * gh, 0, gw, gh),
        decreases 2 - row,
    {
        let mut ly: usize = 0;
        while ly < h
            invariant
                row < 2,
                ly <= h,
                gw == width as int && gh == height as int && w == width as usize && h
                    == height as usize && stride == 3 * gw,
                images@.len() == 10,
                forall|k: int|
                    0 <= k < 10 ==> (#[trigger] images@[k]).width == width && images@[k].height
                        == height && images@[k].wf(),
                30 * gw * gh <= usize::MAX,
                out@.len() == ((row * gh + ly) * 5) * (3 * gw),
                placed_to(out@, images@, row * gh + ly, 0, gw, gh),
            decreases h - ly,
        {
            let ghost g = row * gh + ly;
            let mut col: usize = 0;
            while col < 5
                invariant
                    row < 2,
                    ly < h,
                    col <= 5,
                    g == row * gh + ly,
                    gw == width as int && gh == height as int && w == width as usize && h
                        == height as usize && stride == 3 * gw,
                    images@.len() == 10,
                    forall|k: int|
                        0 <= k < 10 ==> (#[trigger] images@[k]).width == width && images@[k].height
                            == height && images@[k].wf(),
                    30 * gw * gh <= usize::MAX,
                    out@.len() == (g * 5 + col) * (3 * gw),
                    placed_to(out@, images@, g, col as int, gw, gh),
                decreases 5 - col,
            {
                let idx: usize = 4 - col + 5 * row;
                proof {
                    assert(idx == cell_draw_index(col as int, row as int));
                    assert(0 <= g * 5 + col && (g * 5 + col + 1) * (3 * gw) <= 30 * gw * gh)
                        by (nonlinear_arith)
                        requires
                            0 <= row < 2,
                            0 <= ly < gh,
                            0 <= col < 5,
                            g == row * gh + ly,
                            gw >= 0,
                    ;
                }
                let mut t: usize = 0;
                while t < stride
                    invariant
                        row < 2,
                        ly < h,
                        col < 5,
                        t <= stride,
                        g == row * gh + ly,
                        idx == cell_draw_index(col as int, row as int),
                        gw == width as int && gh == height as int && w == width as usize && h
                            == height as usize && stride == 3 * gw,
                        images@.len() == 10,
                        forall|k: int|
                            0 <= k < 10 ==> (#[trigger] images@[k]).width == width
                                && images@[k].height == height && images@[k].wf(),
                        30 * gw * gh <= usize::MAX,
                        (g * 5 + col + 1) * (3 * gw) <= 30 * gw * gh,
                        out@.len() == (g * 5 + col) * (3 * gw) + t,
                        placed_to(out@, images@, g, col as int, gw, gh),
                        forall|t2: int|
                            0 <= t2 < t ==> out@[#[trigger] out_pos(
                                row as int,
                                col as int,
                                ly as int,
                                t2,
                                gw,
                                gh,
                            )] == cell_byte(images@, col as int, row as int, ly as int, t2, gw),
                    decreases stride - t,
                {
                    proof {
                        assert(ly * stride + t < 3 * gw * gh && 3 * gw * gh <= 30 * gw * gh)
                            by (nonlinear_arith)
                            requires
                                0 <= ly < gh,
                                0 <= t < stride,
                                stride == 3 * gw,
                                gw >= 0,
                        ;
                        assert(images@[idx as int].data@.len() == 3 * gw * gh);
                    }
                    let b: u8 = images[idx].data[ly * stride + t];
                    let ghost prev = out@;
                    out.push(b);
                    proof {
                        assert((g * 5 + col) * (3 * gw) + t + 1 <= (g * 5 + col + 1) * (3 * gw))
                            by (nonlinear_arith)
                            requires
                                0 <= t < 3 * gw,
                        ;
                        assert(out_pos(row as int, col as int, ly as int, t as int, gw, gh)
                            == prev.len());
                        assert(out@[out_pos(row as int, col as int, ly as int, t as int, gw, gh)]
                            == cell_byte(images@, col as int, row as int, ly as int, t as int, gw));
                        assert forall|r: int, c: int, l: int, t2: int|
                            0 <= r < 2 && 0 <= c < 5 && 0 <= l < gh && 0 <= t2 < 3 * gw && (r * gh
                                + l < g || (r * gh + l == g && c < col)) implies out@[#[trigger] out_pos(
                            r,
                            c,
                            l,
                            t2,
                            gw,
                            gh,
                        )] == cell_byte(images@, c, r, l, t2, gw) by {
                            let a = (r * gh + l) * 5 + c;
                            assert(a + 1 <= g * 5 + col);
                            assert(a * (3 * gw) + t2 < (a + 1) * (3 * gw) && (a + 1) * (3 * gw)
                                <= (g * 5 + col) * (3 * gw)) by (nonlinear_arith)
                                requires
                                    0 <= t2 < 3 * gw,
                                    a + 1 <= g * 5 + col,
                                    gw >= 0,
                            ;
                            assert(out_pos(r, c, l, t2, gw, gh) < prev.len());
                            assert(out@[out_pos(r, c, l, t2, gw, gh)] == prev[out_pos(
                                r,
                                c,
                                l,
                                t2,
                                gw,
                                gh,
                            )]);
                        }
                        assert forall|t2: int|
                            0 <= t2 < t + 1 implies out@[#[trigger] out_pos(
                            row as int,
                            col as int,
                            ly as int,
                            t2,
                            gw,
                            gh,
                        )] == cell_byte(images@, col as int, row as int, ly as int, t2, gw) by {
                            if t2 < t {
                                let a = (g) * 5 + col;
                                assert(out_pos(row as int, col as int, ly as int, t2, gw, gh) == a
                                    * (3 * gw) + t2);
                                assert(a * (3 * gw) + t2 < prev.len());
                                assert(out@[a * (3 * gw) + t2] == prev[a * (3 * gw) + t2]);
                            }
                        }
                    }
                    t = t + 1;
                }
                proof {
                    assert((g * 5 + col) * (3 * gw) + 3 * gw == (g * 5 + (col + 1)) * (3 * gw))
                        by (nonlinear_arith);
                    assert forall|r: int, c: int, l: int, t2: int|
                        0 <= r < 2 && 0 <= c < 5 && 0 <= l < gh && 0 <= t2 < 3 * gw && (r * gh + l
                            < g || (r * gh + l == g && c < col + 1)) implies out@[#[trigger] out_pos(
                        r,
                        c,
                        l,
                        t2,
                        gw,
                        gh,
                    )] == cell_byte(images@, c, r, l, t2, gw) by {
                        if r * gh + l == g && c == col {
                            assert(r == row && l == ly) by (nonlinear_arith)
                                requires
                                    0 <= r < 2,
                                    0 <= l < gh,
                                    0 <= row < 2,
                                    0 <= ly < gh,
                                    r * gh + l == row * gh + ly,
                                    g == row * gh + ly,
                                    r * gh + l == g,
                            ;
                        }
                    }
                }
                col = col + 1;
            }
            proof {
                assert(((g * 5 + 5)) * (3 * gw) == (((row * gh + (ly + 1)) * 5)) * (3 * gw))
                    by (nonlinear_arith)
                    requires
                        g == row * gh + ly,
                ;
                assert forall|r: int, c: int, l: int, t2: int|
                    0 <= r < 2 && 0 <= c < 5 && 0 <= l < gh && 0 <= t2 < 3 * gw && (r * gh + l < g
                        + 1 || (r * gh + l == g + 1 && c < 0)) implies out@[#[trigger] out_pos(
                    r,
                    c,
                    l,
                    t2,
                    gw,
                    gh,
                )] == cell_byte(images@, c, r, l, t2, gw) by {
                    assert(r * gh + l < g || (r * gh + l == g && c < 5));
                }
                assert(placed_to(out@, images@, row * gh + (ly + 1), 0, gw, gh));
            }
            ly = ly + 1;
        }
        proof {
            assert((row * gh + gh) == ((row + 1) * gh)) by (nonlinear_arith);
        }
        row = row + 1;
    }
    proof {
        assert(((2 * gh) * 5) * (3 * gw) == 30 * gw * gh) by (nonlinear_arith);
        assert forall|r: int, c: int, l: int, t2: int|
            0 <= r < 2 && 0 <= c < 5 && 0 <= l < gh && 0 <= t2 < 3 * gw implies out@[#[trigger] out_pos(
            r,
            c,
            l,
            t2,
            gw,
            gh,
        )] == cell_byte(images@, c, r, l, t2, gw) by {
            assert(r * gh + l < 2 * gh) by (nonlinear_arith)
                requires
                    0 <= r < 2,
                    0 <= l < gh,
            ;
        }
    }
    out
}

#[verifier::external_type_specification]
#[verifier::external_body]
pub struct ExImageError(image::ImageError);

/// The JPEG encoding of an RGB buffer of the given dimensions.  The encoder
/// is deterministic, so the bytes are a function of the buffer and the
/// dimensions alone; no more is assumed of them.
pub uninterp spec fn jpeg_of(pixels: Seq<u8>, width: u32, height: u32) -> Seq<u8>;

/// Relies on image's `JpegEncoder::encode`: encodes an RGB byte buffer of
/// the given dimensions as a JPEG, writing into the vector; it panics only
/// on a buffer whose length does not match the dimensions, which the
/// precondition rules out.  Dimensions it cannot encode (zero, or beyond
/// the JPEG limit of 65535) are reported as an error; for legal dimensions
/// every write goes to the in-memory vector, which cannot fail.
#[verifier::external_body]
fn jpeg_encode(pixels: &Vec<u8>, width: u32, height: u32) -> (r: Result<Vec<u8>, image::ImageError>)
    requires
        pixels@.len() == 3 * width * height,
    ensures
        r is Ok ==> r->Ok_0@ == jpeg_of(pixels@, width, height),
        1 <= width <= 65535 && 1 <= height <= 65535 ==> r is Ok,
{
    let mut buf: Vec<u8> = Vec::new();
    let mut encoder = image::codecs::jpeg::JpegEncoder::new(&mut buf);
    match encoder.encode(pixels.as_slice(), width, height, image::ExtendedColorType::Rgb8) {
        Ok(()) => Ok(buf),
        Err(e) => Err(e),
    }
}

/// Encodes a composite buffer as a JPEG; success is owed for JPEG-legal
/// dimensions, and an encoding failure is reported as
/// `CompositeEncodingFailure` — nothing else is altered.
pub fn encode_collage(composite: &Vec<u8>, width: u32, height: u32) -> (r: Result<
    Vec<u8>,
    RecruitError,
>)
    requires
        composite@.len() == 3 * width * height,
    ensures
        r is Ok ==> r->Ok_0@ == jpeg_of(composite@, width, height),
        r is Err ==> r->Err_0 == RecruitError::CompositeEncodingFailure,
        1 <= width <= 65535 && 1 <= height <= 65535 ==> r is Ok,
{
    match jpeg_encode(composite, width, height) {
        Ok(bytes) => Ok(bytes),
        Err(_) => Err(RecruitError::CompositeEncodingFailure),
    }
}

/// The corner cells of the grid: the top-right cell shows draw 0, the
/// bottom-right draw 5, the top-left draw 4 and the bottom-left draw 9 —
/// byte for byte the corresponding thumbnail's pixels.
pub proof fn lemma_grid_corners(out: Seq<u8>, images: Seq<Thumbnail>, w: int, h: int)
    requires
        composed_grid(out, images, w, h),
    ensures
        forall|ly: int, t: int|
            0 <= ly < h && 0 <= t < 3 * w ==> out[#[trigger] out_pos(0, 4, ly, t, w, h)]
                == images[0].data@[ly * (3 * w) + t],
        forall|ly: int, t: int|
            0 <= ly < h && 0 <= t < 3 * w ==> out[#[trigger] out_pos(1, 4, ly, t, w, h)]
                == images[5].data@[ly * (3 * w) + t],
        forall|ly: int, t: int|
            0 <= ly < h && 0 <= t < 3 * w ==> out[#[trigger] out_pos(0, 0, ly, t, w, h)]
                == images[4].data@[ly * (3 * w) + t],
        forall|ly: int, t: int|
            0 <= ly < h && 0 <= t < 3 * w ==> out[#[trigger] out_pos(1, 0, ly, t, w, h)]
                == images[9].data@[ly * (3 * w) + t],
{
    assert(cell_draw_index(4, 0) == 0);
    assert(cell_draw_index(4, 1) == 5);
    assert(cell_draw_index(0, 0) == 4);
    assert(cell_draw_index(0, 1) == 9);
}

} // verus!

