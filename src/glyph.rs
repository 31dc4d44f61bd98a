use vstd::prelude::*;
use crate::palette::{glyph_index, Palette};
use crate::raster::{decoded_rgb, FrameError, RasterFrame};

verus! {

/// A grid of glyphs, one row per pixel row of the frame it came from.
#[derive(Debug)]
pub struct GlyphFrame {
    pub rows: Vec<Vec<char>>,
}

impl View for GlyphFrame {
    type V = Seq<Seq<char>>;

    open spec fn view(&self) -> Seq<Seq<char>> {
        Seq::new(self.rows@.len(), |i: int| self.rows@[i]@)
    }
}

/// Offset of the first sample of pixel `(x, y)`.
pub open spec fn sample_offset(width: int, x: int, y: int) -> int {
    3 * (y * width + x)
}

/// The glyph for pixel `(x, y)` of a frame of the given width and samples.
pub open spec fn cell_glyph(width: int, rgb: Seq<u8>, p: Seq<char>, x: int, y: int) -> char {
    let o = sample_offset(width, x, y);
    p[glyph_index(rgb[o], rgb[o + 1], rgb[o + 2], p.len())]
}

/// The glyph grid of a frame: `height` rows of `width` glyphs.
pub open spec fn glyph_grid(width: int, height: int, rgb: Seq<u8>, p: Seq<char>) -> Seq<Seq<char>> {
    Seq::new(height as nat, |y: int| Seq::new(width as nat, |x: int| cell_glyph(width, rgb, p, x, y)))
}

/// The text of a grid: each row followed by a line break.
pub open spec fn grid_text(rows: Seq<Seq<char>>) -> Seq<char>
    decreases rows.len(),
{
    if rows.len() == 0 {
        Seq::empty()
    } else {
        grid_text(rows.drop_last()) + rows.last() + seq!['\n']
    }
}

proof fn lemma_offset_in_bounds(w: int, h: int, x: int, y: int)
    requires
        0 <= x < w,
        0 <= y < h,
    ensures
        0 <= sample_offset(w, x, y),
        y * w + x < w * h,
        sample_offset(w, x, y) + 2 < 3 * w * h,
{
    assert(0 <= y * w) by (nonlinear_arith)
        requires
            0 <= y,
            0 <= w,
    ;
    assert(y * w + x < w * h) by (nonlinear_arith)
        requires
            0 <= x < w,
            0 <= y < h,
    ;
    assert(3 * (w * h) == 3 * w * h) by (nonlinear_arith);
}

/// Maps every pixel of a frame to its palette glyph.
pub fn map_frame(frame: &RasterFrame, palette: &Palette) -> (g: GlyphFrame)
    requires
        frame.wf(),
        palette.wf(),
    ensures
        g@ == glyph_grid(frame.width as int, frame.height as int, frame.rgb@, palette@),
{
    let w = frame.width as usize;
    let h = frame.height as usize;
    let total = frame.rgb.len();
    let ghost grid = glyph_grid(w as int, h as int, frame.rgb@, palette@);
    let mut rows: Vec<Vec<char>> = Vec::new();
    let mut y: usize = 0;
    while y < h
        invariant
            frame.wf(),
            palette.wf(),
            w == frame.width,
            h == frame.height,
            y <= h,
            total == frame.rgb@.len(),
            grid == glyph_grid(w as int, h as int, frame.rgb@, palette@),
            rows@.len() == y,
            forall|i: int| 0 <= i < y ==> #[trigger] rows@[i]@ == grid[i],
        decreases h - y,
    {
        let mut row: Vec<char> = Vec::new();
        let mut x: usize = 0;
        while x < w
            invariant
                frame.wf(),
                palette.wf(),
                w == frame.width,
                h == frame.height,
                y < h,
                x <= w,
                total == frame.rgb@.len(),
                grid == glyph_grid(w as int, h as int, frame.rgb@, palette@),
                rows@.len() == y,
                forall|i: int| 0 <= i < y ==> #[trigger] rows@[i]@ == grid[i],
                row@.len() == x,
                forall|j: int| 0 <= j < x ==> #[trigger] row@[j] == grid[y as int][j],
            decreases w - x,
        {
            proof {
                lemma_offset_in_bounds(w as int, h as int, x as int, y as int);
            }
            let o: usize = 3 * (y * w + x);
            let c = palette.glyph_for(frame.rgb[o], frame.rgb[o + 1], frame.rgb[o + 2]);
            row.push(c);
            x = x + 1;
        }
        assert(row@ =~= grid[y as int]);
        rows.push(row);
        y = y + 1;
    }
    let g = GlyphFrame { rows };
    assert(g@ =~= grid);
    g
}

/// Mapping is a function of the frame and the palette alone: two mappings
/// of the same frame with the same palette give the same glyph grid.
pub proof fn lemma_mapping_is_deterministic(
    width: int,
    height: int,
    rgb: Seq<u8>,
    p: Seq<char>,
    first: Seq<Seq<char>>,
    second: Seq<Seq<char>>,
)
    requires
        0 <= width,
        0 <= height,
        first == glyph_grid(width, height, rgb, p),
        second == glyph_grid(width, height, rgb, p),
    ensures
        first == second,
        first.len() == height,
        forall|y: int| 0 <= y < height ==> (#[trigger] first[y]).len() == width,
{
}

/// Decodes an encoded frame and maps it to glyphs; a frame that does not
/// decode gives `FrameError::Decode`.
pub fn frame_to_glyphs(bytes: &[u8], palette: &Palette) -> (r: Result<GlyphFrame, FrameError>)
    requires
        palette.wf(),
    ensures
        r is Ok <==> decoded_rgb(bytes@) is Some,
        r matches Ok(g) ==> ({
            let (w, h, rgb) = decoded_rgb(bytes@)->0;
            g@ == glyph_grid(w as int, h as int, rgb, palette@)
        }),
        r matches Err(e) ==> e == FrameError::Decode,
{
    match RasterFrame::decode(bytes) {
        Ok(frame) => Ok(map_frame(&frame, palette)),
        Err(e) => Err(e),
    }
}

impl GlyphFrame {
    /// The grid as text, each row ended by a line break.
    pub fn text(&self) -> (t: Vec<char>)
        ensures
            t@ == grid_text(self@),
    {
        let mut out: Vec<char> = Vec::new();
        let mut i: usize = 0;
        while i < self.rows.len()
            invariant
                i <= self.rows@.len(),
                out@ == grid_text(self@.take(i as int)),
            decreases self.rows@.len() - i,
        {
            let row = &self.rows[i];
            let ghost before = out@;
            let mut j: usize = 0;
            while j < row.len()
                invariant
                    j <= row@.len(),
                    out@ == before + row@.take(j as int),
                decreases row@.len() - j,
            {
                out.push(row[j]);
                j = j + 1;
                assert(out@ =~= before + row@.take(j as int));
            }
            out.push('\n');
            proof {
                let s = self@.take(i as int + 1);
                assert(s.drop_last() =~= self@.take(i as int));
                assert(row@.take(j as int) =~= row@);
                assert(out@ =~= grid_text(s));
            }
            i = i + 1;
        }
        assert(self@.take(self.rows@.len() as int) =~= self@);
        out
    }
}

} // verus!
