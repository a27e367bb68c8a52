//! Cell renderers: the double-buffered glyph/colour renderer driven by the
//! frame diff engine, and the block-image renderer that retransmits whole
//! frames as base64 chunks.

use crate::buffer::diff_post;
use crate::buffer::grouped;
use crate::buffer::Differ;
use crate::buffer::Pixel;
use crate::buffer::Run;
use crate::color::Colorize;
use crate::escape::cursor_escape;
use crate::escape::dec_digits;
use crate::escape::push_cursor_escape;
use crate::escape::push_decimal;
use base64ct::Encoding;
use vstd::prelude::*;

verus! {

/// The 64-glyph brightness ramp, darkest to brightest; a cell's glyph is
/// the entry at its luminance divided by four.
pub open spec fn glyph_ramp() -> Seq<u8> {
    seq![
        32u8, 46u8, 96u8, 34u8, 44u8, 58u8, 59u8, 73u8, 108u8, 33u8, 105u8, 62u8, 60u8, 126u8,
        43u8, 95u8, 45u8, 63u8, 93u8, 91u8, 125u8, 123u8, 49u8, 41u8, 40u8, 124u8, 92u8, 47u8,
        116u8, 102u8, 106u8, 114u8, 120u8, 117u8, 118u8, 99u8, 122u8, 88u8, 89u8, 85u8, 74u8,
        67u8, 81u8, 79u8, 90u8, 109u8, 119u8, 113u8, 112u8, 100u8, 98u8, 107u8, 104u8, 97u8,
        111u8, 42u8, 35u8, 87u8, 38u8, 56u8, 37u8, 66u8, 64u8, 36u8,
    ]
}

/// Perceptual brightness of a pixel: `(3R + B + 4G) / 8`, in `0..=255`.
pub open spec fn spec_luminance(p: Pixel) -> int {
    (3 * p.r + p.b + 4 * p.g) / 8
}

/// The weighted brightness average driving glyph selection.
pub fn luminance(pixel: Pixel) -> (l: u8)
    ensures
        l as int == spec_luminance(pixel),
{
    ((3 * (pixel.r as u32) + (pixel.b as u32) + 4 * (pixel.g as u32)) / 8) as u8
}

/// `g` is the gamma-corrected value of channel `c` for gamma one half:
/// the integer square root of `255 * c`, so that `g/255 == ((c/255)^(1/2))`
/// up to rounding down.
pub open spec fn gamma_channel(c: u8, g: u8) -> bool {
    &&& (g as int) * (g as int) <= 255 * (c as int)
    &&& 255 * (c as int) < ((g as int) + 1) * ((g as int) + 1)
}

/// The largest `r` with `r * r <= n`, for `n` up to `255 * 255`.
fn isqrt255(n: u32) -> (r: u8)
    requires
        n <= 65025,
    ensures
        (r as int) * (r as int) <= n as int,
        (n as int) < ((r as int) + 1) * ((r as int) + 1),
{
    let mut r: u32 = 0;
    loop
        invariant
            n <= 65025,
            r <= 255,
            r * r <= n,
        ensures
            r <= 255,
            r * r <= n,
            n < (r + 1) * (r + 1),
        decreases 256 - r,
    {
        proof {
            assert((r + 1) * (r + 1) <= 65536) by (nonlinear_arith)
                requires
                    r <= 255,
            ;
        }
        let next = (r + 1) * (r + 1);
        if next <= n {
            proof {
                assert(r + 1 <= 255) by (nonlinear_arith)
                    requires
                        (r + 1) * (r + 1) <= 65025,
                ;
            }
            r = r + 1;
        } else {
            break ;
        }
    }
    r as u8
}

/// Applies gamma one-half to the colour channels, leaving the glyph byte as
/// it is: each channel becomes the integer square root of 255 times itself.
pub fn gamma_correct(pixel: Pixel) -> (r: Pixel)
    ensures
        gamma_channel(pixel.r, r.r),
        gamma_channel(pixel.g, r.g),
        gamma_channel(pixel.b, r.b),
        r.x == pixel.x,
{
    Pixel {
        r: isqrt255(255 * (pixel.r as u32)),
        g: isqrt255(255 * (pixel.g as u32)),
        b: isqrt255(255 * (pixel.b as u32)),
        x: pixel.x,
    }
}

/// Gamma correction holds the endpoints fixed: channel 0 stays 0 and
/// channel 255 stays 255.
pub proof fn lemma_gamma_endpoints(c: u8, g: u8)
    requires
        gamma_channel(c, g),
    ensures
        c == 0 ==> g == 0,
        c == 255 ==> g == 255,
{
    if c == 0 {
        assert((g as int) * (g as int) <= 0);
        assert(g == 0) by (nonlinear_arith)
            requires
                (g as int) * (g as int) <= 0,
        ;
    }
    if c == 255 {
        assert(g == 255) by (nonlinear_arith)
            requires
                (g as int) * (g as int) <= 65025 < ((g as int) + 1) * ((g as int) + 1),
                0 <= g as int <= 255,
        ;
    }
}

/// How one stored cell relates to the incoming pixel. Background strategies
/// copy the pixel untouched; foreground strategies gamma-correct the colour
/// and pick a ramp glyph by luminance.
pub open spec fn cell_rel(p: Pixel, c: Pixel, bg: bool) -> bool {
    if bg {
        c == p
    } else {
        &&& gamma_channel(p.r, c.r)
        &&& gamma_channel(p.g, c.g)
        &&& gamma_channel(p.b, c.b)
        &&& c.x == glyph_ramp()[spec_luminance(p) / 4]
    }
}

/// Transforms one incoming pixel into its stored cell for the foreground
/// strategy: ramp glyph by luminance, then gamma-corrected colour.
fn foreground_cell(pixel: Pixel) -> (c: Pixel)
    ensures
        cell_rel(pixel, c, false),
{
    let ramp: [u8; 64] = [
        32, 46, 96, 34, 44, 58, 59, 73, 108, 33, 105, 62, 60, 126, 43, 95, 45, 63, 93, 91, 125,
        123, 49, 41, 40, 124, 92, 47, 116, 102, 106, 114, 120, 117, 118, 99, 122, 88, 89, 85, 74,
        67, 81, 79, 90, 109, 119, 113, 112, 100, 98, 107, 104, 97, 111, 42, 35, 87, 38, 56, 37,
        66, 64, 36,
    ];
    proof {
        assert(ramp@ =~= glyph_ramp());
    }
    let lum = luminance(pixel);
    let index = lum / 4;
    let glyph = ramp[index as usize];
    let corrected = gamma_correct(Pixel { r: pixel.r, g: pixel.g, b: pixel.b, x: glyph });
    corrected
}

/// The glyph bytes of one run from cell `i` (exclusive end `end`): the glyph
/// once per cell, with a newline before every cell that starts a row, except
/// before the run's very first cell.
pub open spec fn glyph_bytes_from(i: int, end: int, glyph: u8, width: int, first: bool) -> Seq<u8>
    decreases end - i,
{
    if i >= end {
        Seq::empty()
    } else {
        (if i % width == 0 && !first {
            seq![10u8, glyph]
        } else {
            seq![glyph]
        }) + glyph_bytes_from(i + 1, end, glyph, width, false)
    }
}

/// Everything one run appends to the sink: a cursor-position escape unless
/// the cursor already stands at the run's start (and always for a start at
/// the origin), a style activation escape unless the style equals the
/// previously written run's (and always for the first run), then the glyphs.
pub open spec fn stride_bytes<C: Colorize>(
    i: int,
    start: int,
    end: int,
    color: C,
    glyph: u8,
    prev_end: int,
    prev_color: C,
    width: int,
) -> Seq<u8> {
    (if start != prev_end || prev_end == 0 {
        cursor_escape(start / width, start % width)
    } else {
        Seq::empty()
    }) + (if color != prev_color || i == 0 {
        color.escape_seq()
    } else {
        Seq::empty()
    }) + glyph_bytes_from(start, end, glyph, width, true)
}

/// Writes one run of the edit script: cell interval `[start, end)`, run
/// index `i` in output order, glyph `chr`. `prev_end` and `prev_color`
/// carry the end and style of the previously written run and are updated.
pub fn render_stride<C: Colorize>(
    i: usize,
    start: usize,
    end: usize,
    color: &C,
    chr: u8,
    prev_end: &mut usize,
    prev_color: &mut C,
    output: &mut Vec<u8>,
    width: u32,
)
    requires
        width > 0,
        start <= end,
    ensures
        final(output)@ == old(output)@ + stride_bytes(
            i as int,
            start as int,
            end as int,
            *color,
            chr,
            *old(prev_end) as int,
            *old(prev_color),
            width as int,
        ),
        *final(prev_end) == end,
        *final(prev_color) == *color,
{
    let ghost base = output@;
    let ghost total = stride_bytes(
        i as int,
        start as int,
        end as int,
        *color,
        chr,
        *prev_end as int,
        *prev_color,
        width as int,
    );
    if start != *prev_end || *prev_end == 0 {
        let line = start / (width as usize);
        let column = start % (width as usize);
        push_cursor_escape(output, line as u64, column as u64);
    }
    if !color.eq_color(prev_color) || i == 0 {
        color.write_escape(output);
    }
    proof {
        assert(base + total =~= output@ + glyph_bytes_from(
            start as int,
            end as int,
            chr,
            width as int,
            true,
        ));
    }
    let mut idx = start;
    let mut is_first = true;
    while idx < end
        invariant
            width > 0,
            start <= idx <= end,
            is_first == (idx == start),
            base + total =~= output@ + glyph_bytes_from(
                idx as int,
                end as int,
                chr,
                width as int,
                is_first,
            ),
        decreases end - idx,
    {
        let col = idx % (width as usize);
        if col == 0 && !is_first {
            output.push(10);
        }
        output.push(chr);
        proof {
            assert(glyph_bytes_from(idx as int, end as int, chr, width as int, is_first) =~= (
            if idx as int % (width as int) == 0 && !is_first {
                seq![10u8, chr]
            } else {
                seq![chr]
            }) + glyph_bytes_from(idx as int + 1, end as int, chr, width as int, false));
            assert(base + total =~= output@ + glyph_bytes_from(
                idx as int + 1,
                end as int,
                chr,
                width as int,
                false,
            ));
        }
        is_first = false;
        idx = idx + 1;
    }
    proof {
        assert(output@ =~= base + total);
    }
    *prev_end = end;
    *prev_color = *color;
}

/// The bytes of a whole frame's edit script from run `i` on, threading the
/// previously written run's end and style through the remaining runs.
pub open spec fn frame_bytes_from<C: Colorize>(
    runs: Seq<Run<C>>,
    i: int,
    prev_end: int,
    prev_color: C,
    width: int,
    bg: bool,
) -> Seq<u8>
    decreases runs.len() - i,
{
    if i < 0 || i >= runs.len() {
        Seq::empty()
    } else {
        let r = runs[i];
        let glyph = if bg {
            32u8
        } else {
            r.glyph
        };
        stride_bytes(i, r.start as int, r.end as int, r.color, glyph, prev_end, prev_color, width)
            + frame_bytes_from(runs, i + 1, r.end as int, r.color, width, bg)
    }
}

/// The bytes of a whole frame's edit script: every run in output order,
/// starting from cursor position zero and the default style.
pub open spec fn frame_bytes<C: Colorize>(runs: Seq<Run<C>>, width: int, bg: bool) -> Seq<u8> {
    frame_bytes_from(runs, 0, 0, C::spec_default(), width, bg)
}

/// A cell renderer: consumes raw frames into its cell grid and writes each
/// frame's escape/glyph bytes to an output sink.
pub trait Renderer: Sized {
    /// Per-frame scratch state handed to `render_frame`.
    type State;

    spec fn spec_width(&self) -> u32;

    spec fn spec_height(&self) -> u32;

    spec fn wf(&self) -> bool;

    /// The bytes `render_frame` appends, as a function of the renderer and
    /// the state `render_frame` leaves behind.
    spec fn frame_output(&self, state: Self::State) -> Seq<u8>;

    /// What `render_frame` promises about the state it leaves behind.
    spec fn state_post(&self, state: Self::State) -> bool;

    fn from_dims(width: u32, height: u32) -> (r: Self)
        requires
            (width as int) * (height as int) * 16 <= usize::MAX as int,
        ensures
            r.wf(),
            r.spec_width() == width,
            r.spec_height() == height,
    ;

    fn create_state(&self) -> (s: Self::State)
        requires
            self.wf(),
    ;

    fn width(&self) -> (w: u32)
        ensures
            w == self.spec_width(),
    ;

    fn height(&self) -> (h: u32)
        ensures
            h == self.spec_height(),
    ;

    fn consume(&mut self, data: &[Pixel])
        requires
            old(self).wf(),
            data@.len() == (old(self).spec_width() as int) * (old(self).spec_height() as int),
        ensures
            final(self).wf(),
            final(self).spec_width() == old(self).spec_width(),
            final(self).spec_height() == old(self).spec_height(),
    ;

    fn render_frame(&self, output: &mut Vec<u8>, state: &mut Self::State)
        requires
            self.wf(),
        ensures
            final(output)@ == old(output)@ + self.frame_output(*final(state)),
            self.state_post(*final(state)),
    ;

    /// Checked reinterpretation of a raw frame of bytes as pixels: exactly
    /// four bytes per cell of the renderer's grid, in r, g, b, x order.
    fn verify_input(&self, data: &Vec<u8>) -> (r: Vec<Pixel>)
        requires
            self.wf(),
            data@.len() == (self.spec_width() as int) * (self.spec_height() as int) * 4,
        ensures
            r@.len() == (self.spec_width() as int) * (self.spec_height() as int),
            forall|i: int|
                0 <= i < r@.len() ==> r@[i] == (Pixel {
                    r: data@[4 * i],
                    g: data@[4 * i + 1],
                    b: data@[4 * i + 2],
                    x: data@[4 * i + 3],
                }),
    {
        let len = data.len();
        let area = len / 4;
        proof {
            assert(area as int == (self.spec_width() as int) * (self.spec_height() as int));
        }
        let mut out: Vec<Pixel> = Vec::with_capacity(area);
        let mut i: usize = 0;
        while i < area
            invariant
                out@.len() == i,
                i <= area,
                data@.len() == area * 4,
                area * 4 <= usize::MAX as int,
                forall|j: int|
                    0 <= j < i ==> out@[j] == (Pixel {
                        r: data@[4 * j],
                        g: data@[4 * j + 1],
                        b: data@[4 * j + 2],
                        x: data@[4 * j + 3],
                    }),
            decreases area - i,
        {
            let p = Pixel {
                r: data[4 * i],
                g: data[4 * i + 1],
                b: data[4 * i + 2],
                x: data[4 * i + 3],
            };
            out.push(p);
            i = i + 1;
        }
        out
    }
}

/// The glyph/colour cell renderer: a double-buffered grid of cells, diffed
/// frame against frame, written as cursor-, style- and glyph-bytes.
pub struct DefaultRenderer<C: Colorize> {
    width: u32,
    height: u32,
    color_buf: Vec<Pixel>,
    prev_buf: Vec<Pixel>,
    _strategy: core::marker::PhantomData<C>,
}

impl<C: Colorize> DefaultRenderer<C> {
    /// Grid cells about to be rendered (the most recently consumed frame).
    pub closed spec fn current_cells(&self) -> Seq<Pixel> {
        self.color_buf@
    }

    /// Grid cells of the frame rendered before it.
    pub closed spec fn prev_cells(&self) -> Seq<Pixel> {
        self.prev_buf@
    }

    pub closed spec fn area(&self) -> int {
        (self.width as int) * (self.height as int)
    }

    pub closed spec fn wf_grid(&self) -> bool {
        &&& self.color_buf@.len() == self.area()
        &&& self.prev_buf@.len() == self.area()
        &&& self.area() * 16 <= usize::MAX as int
    }

    /// A fresh renderer for a `width` by `height` cell grid; both grid
    /// buffers start as all-zero cells.
    pub fn new(width: u32, height: u32) -> (r: Self)
        requires
            (width as int) * (height as int) * 16 <= usize::MAX as int,
        ensures
            r.wf_grid(),
            r.spec_width() == width,
            r.spec_height() == height,
            r.current_cells() == Seq::new(((width as int) * (height as int)) as nat, |i: int| Pixel { r: 0, g: 0, b: 0, x: 0 }),
            r.prev_cells() == r.current_cells(),
    {
        let num_pixels = (width as usize) * (height as usize);
        let zero = Pixel { r: 0, g: 0, b: 0, x: 0 };
        let color_buf = vec![zero; num_pixels];
        let prev_buf = vec![zero; num_pixels];
        let r = DefaultRenderer {
            width,
            height,
            color_buf,
            prev_buf,
            _strategy: core::marker::PhantomData,
        };
        proof {
            assert(r.current_cells() =~= Seq::new(
                ((width as int) * (height as int)) as nat,
                |i: int| Pixel { r: 0, g: 0, b: 0, x: 0 },
            ));
            assert(r.prev_cells() =~= r.current_cells());
        }
        r
    }
}

impl<C: Colorize> Renderer for DefaultRenderer<C> {
    type State = Differ<C>;

    closed spec fn spec_width(&self) -> u32 {
        self.width
    }

    closed spec fn spec_height(&self) -> u32 {
        self.height
    }

    closed spec fn wf(&self) -> bool {
        self.wf_grid()
    }

    closed spec fn frame_output(&self, state: Differ<C>) -> Seq<u8> {
        frame_bytes(state@, self.width as int, C::spec_is_background())
    }

    closed spec fn state_post(&self, state: Differ<C>) -> bool {
        &&& diff_post(state@, self.current_cells(), self.prev_cells())
        &&& grouped(state@)
    }

    fn from_dims(width: u32, height: u32) -> Self {
        DefaultRenderer::<C>::new(width, height)
    }

    fn create_state(&self) -> (s: Differ<C>)
        ensures
            s@ == Seq::<Run<C>>::empty(),
    {
        Differ::new(self.width, self.height)
    }

    fn width(&self) -> u32 {
        self.width
    }

    fn height(&self) -> u32 {
        self.height
    }

    /// Swaps the grids, then stores each incoming pixel's cell: untouched
    /// for background strategies, ramp glyph plus gamma-corrected colour
    /// for foreground strategies.
    fn consume(&mut self, data: &[Pixel])
        ensures
            final(self).prev_cells() == old(self).current_cells(),
            final(self).current_cells().len() == data@.len(),
            forall|i: int|
                0 <= i < data@.len() ==> cell_rel(
                    data@[i],
                    final(self).current_cells()[i],
                    C::spec_is_background(),
                ),
    {
        core::mem::swap(&mut self.color_buf, &mut self.prev_buf);
        let ghost kept_prev = self.prev_buf@;
        let n = data.len();
        let bg = C::is_background();
        let mut i: usize = 0;
        while i < n
            invariant
                i <= n,
                n == data@.len(),
                self.color_buf@.len() == n,
                self.prev_buf@ == kept_prev,
                self.width == old(self).width,
                self.height == old(self).height,
                bg == C::spec_is_background(),
                forall|j: int| 0 <= j < i ==> cell_rel(data@[j], self.color_buf@[j], bg),
            decreases n - i,
        {
            let cell = if bg {
                data[i]
            } else {
                foreground_cell(data[i])
            };
            self.color_buf[i] = cell;
            i = i + 1;
        }
    }

    /// Diffs the grids, clusters the runs, and writes the edit script.
    fn render_frame(&self, output: &mut Vec<u8>, state: &mut Differ<C>) {
        state.assign_diff(self.color_buf.as_slice(), self.prev_buf.as_slice());
        let ghost runs_seq = state@;
        let ghost base = output@;
        let ghost total = frame_bytes(runs_seq, self.width as int, C::spec_is_background());
        let mut prev_end: usize = 0;
        let mut prev_color = C::default_color();
        let bg = C::is_background();
        let runs = state.data();
        let n = runs.len();
        let mut i: usize = 0;
        proof {
            assert(base + total =~= output@ + frame_bytes_from(
                runs_seq,
                0,
                0,
                C::spec_default(),
                self.width as int,
                C::spec_is_background(),
            ));
        }
        while i < n
            invariant
                i <= n,
                n == runs_seq.len(),
                runs@ == runs_seq,
                bg == C::spec_is_background(),
                self.wf_grid(),
                diff_post(runs_seq, self.current_cells(), self.prev_cells()),
                base + total =~= output@ + frame_bytes_from(
                    runs_seq,
                    i as int,
                    prev_end as int,
                    prev_color,
                    self.width as int,
                    bg,
                ),
            decreases n - i,
        {
            let r = runs[i];
            let glyph = if bg {
                32u8
            } else {
                r.glyph
            };
            proof {
                assert(crate::buffer::run_matches(
                    runs_seq[i as int],
                    self.current_cells(),
                    self.prev_cells(),
                ));
                assert(self.current_cells().len() >= 1);
                let w = self.width as int;
                let h = self.height as int;
                if w == 0 {
                    assert(w * h == 0) by (nonlinear_arith)
                        requires
                            w == 0,
                    ;
                    assert(false);
                }
            }
            render_stride(
                i,
                r.start,
                r.end,
                &r.color,
                glyph,
                &mut prev_end,
                &mut prev_color,
                output,
                self.width,
            );
            i = i + 1;
        }
        proof {
            assert(output@ =~= base + total);
        }
    }
}

/// The raw bytes of a pixel sequence: four bytes per pixel, r, g, b, x.
pub open spec fn pixel_bytes(s: Seq<Pixel>) -> Seq<u8> {
    Seq::new(
        (s.len() * 4) as nat,
        |i: int|
            {
                let p = s[i / 4];
                if i % 4 == 0 {
                    p.r
                } else if i % 4 == 1 {
                    p.g
                } else if i % 4 == 2 {
                    p.b
                } else {
                    p.x
                }
            },
    )
}

/// What `base64ct`'s standard padded Base64 alphabet encodes `s` to.
pub uninterp spec fn base64_of(s: Seq<u8>) -> Seq<u8>;

/// Relies on `base64ct::Base64::encode`: standard padded Base64, a pure
/// function of the input bytes, written to a destination holding exactly
/// four bytes for every three input bytes rounded up; with that size the
/// call cannot fail (it fails only for a short destination, or input longer
/// than `usize::MAX / 4`).
#[verifier::external_body]
fn base64_encode_into(data: &Vec<u8>, dst: &mut Vec<u8>)
    requires
        data@.len() * 4 <= usize::MAX as int,
        old(dst)@.len() == 4 * ((data@.len() + 2) / 3),
    ensures
        final(dst)@ == base64_of(data@),
        final(dst)@.len() == old(dst)@.len(),
{
    base64ct::Base64::encode(data.as_slice(), dst.as_mut_slice())
        .expect("destination sized to the encoded length");
}

/// `ESC _ G a=T,f=32,s=<w>,v=<h>,C=1,m=<m>,x=1,y=1;` — the header of one
/// block-image chunk: frame size, and `m=1` when more chunks follow.
pub open spec fn kitty_chunk_header(w: int, h: int, m: int) -> Seq<u8> {
    seq![27u8, 95u8, 71u8, 97u8, 61u8, 84u8, 44u8, 102u8, 61u8, 51u8, 50u8, 44u8, 115u8, 61u8]
        + dec_digits(w) + seq![44u8, 118u8, 61u8] + dec_digits(h) + seq![
        44u8,
        67u8,
        61u8,
        49u8,
        44u8,
        109u8,
        61u8,
    ] + dec_digits(m) + seq![44u8, 120u8, 61u8, 49u8, 44u8, 121u8, 61u8, 49u8, 59u8]
}

/// `ESC \`, ending one block-image chunk.
pub open spec fn kitty_trailer() -> Seq<u8> {
    seq![27u8, 92u8]
}

/// The encoded payload split into successive chunks of at most 4096 bytes.
pub open spec fn chunk_payloads(enc: Seq<u8>, off: int) -> Seq<Seq<u8>>
    decreases enc.len() - off,
{
    if off < 0 || off >= enc.len() {
        Seq::empty()
    } else {
        let end = if off + 4096 <= enc.len() {
            off + 4096
        } else {
            enc.len() as int
        };
        seq![enc.subrange(off, end)] + chunk_payloads(enc, end)
    }
}

/// One chunk's full escape: its header (continuation flag 1 for every chunk
/// but the last, 0 for the last), its payload, and the trailer.
pub open spec fn kitty_piece(chunks: Seq<Seq<u8>>, i: int, w: int, h: int) -> Seq<u8> {
    kitty_chunk_header(
        w,
        h,
        if i + 1 < chunks.len() {
            1
        } else {
            0
        },
    ) + chunks[i] + kitty_trailer()
}

/// The bytes of a block-image frame given its chunk payloads.
pub open spec fn kitty_from_chunks(chunks: Seq<Seq<u8>>, w: int, h: int) -> Seq<u8>
    decreases chunks.len(),
{
    if chunks.len() == 0 {
        Seq::empty()
    } else {
        kitty_chunk_header(
            w,
            h,
            if chunks.len() > 1 {
                1
            } else {
                0
            },
        ) + chunks[0] + kitty_trailer() + kitty_from_chunks(chunks.drop_first(), w, h)
    }
}

/// The full byte stream of one block-image frame for an encoded payload.
pub open spec fn kitty_bytes(enc: Seq<u8>, w: int, h: int) -> Seq<u8> {
    kitty_from_chunks(chunk_payloads(enc, 0), w, h)
}

proof fn lemma_chunk_count_from(enc: Seq<u8>, off: int)
    requires
        0 <= off <= enc.len(),
    ensures
        chunk_payloads(enc, off).len() == (enc.len() - off + 4095) / 4096,
    decreases enc.len() - off,
{
    if off >= enc.len() {
    } else if off + 4096 <= enc.len() {
        lemma_chunk_count_from(enc, off + 4096);
    } else {
        lemma_chunk_count_from(enc, enc.len() as int);
    }
}

/// A payload of encoded length `L` is sent as exactly `ceil(L / 4096)`
/// chunks.
pub proof fn lemma_chunk_count(enc: Seq<u8>)
    ensures
        chunk_payloads(enc, 0).len() == (enc.len() + 4095) / 4096,
{
    lemma_chunk_count_from(enc, 0);
}

proof fn lemma_chunks_concat_from(enc: Seq<u8>, off: int)
    requires
        0 <= off <= enc.len(),
    ensures
        chunk_payloads(enc, off).flatten() == enc.subrange(off, enc.len() as int),
    decreases enc.len() - off,
{
    if off >= enc.len() {
        assert(chunk_payloads(enc, off).flatten() =~= enc.subrange(off, enc.len() as int));
    } else {
        let end = if off + 4096 <= enc.len() {
            off + 4096
        } else {
            enc.len() as int
        };
        lemma_chunks_concat_from(enc, end);
        let chunks = chunk_payloads(enc, off);
        assert(chunks.drop_first() =~= chunk_payloads(enc, end));
        assert(chunks.first() == enc.subrange(off, end));
        assert(chunks.flatten() == enc.subrange(off, end) + chunk_payloads(enc, end).flatten());
        assert(enc.subrange(off, end) + enc.subrange(end, enc.len() as int) =~= enc.subrange(
            off,
            enc.len() as int,
        ));
    }
}

/// Concatenating the chunk payloads in order reproduces the encoded payload
/// exactly.
pub proof fn lemma_chunks_concat(enc: Seq<u8>)
    ensures
        chunk_payloads(enc, 0).flatten() == enc,
{
    lemma_chunks_concat_from(enc, 0);
    assert(enc.subrange(0, enc.len() as int) =~= enc);
}

/// The frame's byte stream is one `kitty_piece` per chunk, in order: the
/// continuation flag is 1 for every chunk but the last and 0 for the last.
pub proof fn lemma_kitty_pieces(chunks: Seq<Seq<u8>>, w: int, h: int)
    ensures
        kitty_from_chunks(chunks, w, h) == Seq::new(
            chunks.len(),
            |i: int| kitty_piece(chunks, i, w, h),
        ).flatten(),
    decreases chunks.len(),
{
    let pieces = Seq::new(chunks.len(), |i: int| kitty_piece(chunks, i, w, h));
    if chunks.len() == 0 {
        assert(kitty_from_chunks(chunks, w, h) =~= pieces.flatten());
    } else {
        lemma_kitty_pieces(chunks.drop_first(), w, h);
        let rest_pieces = Seq::new(
            chunks.drop_first().len(),
            |i: int| kitty_piece(chunks.drop_first(), i, w, h),
        );
        assert(pieces.drop_first() =~= rest_pieces);
        assert(pieces.first() =~= kitty_chunk_header(
            w,
            h,
            if chunks.len() > 1 {
                1int
            } else {
                0int
            },
        ) + chunks[0] + kitty_trailer());
        assert(pieces.flatten() == pieces.first() + pieces.drop_first().flatten());
        assert(kitty_from_chunks(chunks, w, h) =~= pieces.flatten());
    }
}

/// The block-image renderer: every frame is retransmitted whole, base64
/// encoded, as escape-framed chunks of at most 4096 bytes. No diffing: the
/// wire protocol carries whole images, so the scratch state is unit.
pub struct KittyRenderer {
    width: u32,
    height: u32,
    encoded: Vec<u8>,
}

impl KittyRenderer {
    /// The base64 payload of the most recently consumed frame.
    pub closed spec fn spec_encoded(&self) -> Seq<u8> {
        self.encoded@
    }
}

fn push_kitty_header(out: &mut Vec<u8>, w: u32, h: u32, m: u8)
    ensures
        final(out)@ == old(out)@ + kitty_chunk_header(w as int, h as int, m as int),
{
    out.push(27);
    out.push(95);
    out.push(71);
    out.push(97);
    out.push(61);
    out.push(84);
    out.push(44);
    out.push(102);
    out.push(61);
    out.push(51);
    out.push(50);
    out.push(44);
    out.push(115);
    out.push(61);
    push_decimal(out, w as u64);
    out.push(44);
    out.push(118);
    out.push(61);
    push_decimal(out, h as u64);
    out.push(44);
    out.push(67);
    out.push(61);
    out.push(49);
    out.push(44);
    out.push(109);
    out.push(61);
    push_decimal(out, m as u64);
    out.push(44);
    out.push(120);
    out.push(61);
    out.push(49);
    out.push(44);
    out.push(121);
    out.push(61);
    out.push(49);
    out.push(59);
    assert(out@ =~= old(out)@ + kitty_chunk_header(w as int, h as int, m as int));
}

impl Renderer for KittyRenderer {
    type State = ();

    closed spec fn spec_width(&self) -> u32 {
        self.width
    }

    closed spec fn spec_height(&self) -> u32 {
        self.height
    }

    closed spec fn wf(&self) -> bool {
        (self.width as int) * (self.height as int) * 16 <= usize::MAX as int
    }

    closed spec fn frame_output(&self, state: ()) -> Seq<u8> {
        kitty_bytes(self.encoded@, self.width as int, self.height as int)
    }

    closed spec fn state_post(&self, state: ()) -> bool {
        true
    }

    fn from_dims(width: u32, height: u32) -> Self {
        KittyRenderer { width, height, encoded: Vec::new() }
    }

    fn create_state(&self) -> () {
    }

    fn width(&self) -> u32 {
        self.width
    }

    fn height(&self) -> u32 {
        self.height
    }

    /// Re-encodes the whole frame: the pixels' raw bytes, base64 encoded.
    fn consume(&mut self, data: &[Pixel])
        ensures
            final(self).spec_encoded() == base64_of(pixel_bytes(data@)),
    {
        let n = data.len();
        let mut bytes: Vec<u8> = Vec::with_capacity(4 * n);
        let mut i: usize = 0;
        proof {
            assert((self.width as int) * (self.height as int) * 4 <= usize::MAX as int);
        }
        while i < n
            invariant
                i <= n,
                n == data@.len(),
                n * 4 <= usize::MAX as int,
                bytes@.len() == 4 * i,
                forall|j: int| 0 <= j < 4 * i ==> bytes@[j] == pixel_bytes(data@)[j],
            decreases n - i,
        {
            let p = data[i];
            bytes.push(p.r);
            bytes.push(p.g);
            bytes.push(p.b);
            bytes.push(p.x);
            i = i + 1;
        }
        proof {
            assert(bytes@ =~= pixel_bytes(data@));
        }
        let elen = 4 * ((bytes.len() + 2) / 3);
        let mut dst = vec![0u8; elen];
        base64_encode_into(&bytes, &mut dst);
        self.encoded = dst;
    }

    /// Splits the encoded payload into 4096-byte chunks and writes each as
    /// one block-image escape; all but the last carry continuation flag 1.
    fn render_frame(&self, output: &mut Vec<u8>, state: &mut ()) {
        let ghost enc = self.encoded@;
        let ghost base = output@;
        let ghost total = kitty_bytes(enc, self.width as int, self.height as int);
        let n = self.encoded.len();
        let mut off: usize = 0;
        while off < n
            invariant
                off <= n,
                n == enc.len(),
                enc == self.encoded@,
                base + total =~= output@ + kitty_from_chunks(
                    chunk_payloads(enc, off as int),
                    self.width as int,
                    self.height as int,
                ),
            decreases n - off,
        {
            let end = if n - off > 4096 {
                off + 4096
            } else {
                n
            };
            let m: u8 = if end < n {
                1
            } else {
                0
            };
            let ghost chunks = chunk_payloads(enc, off as int);
            proof {
                assert(chunks.drop_first() =~= chunk_payloads(enc, end as int));
                assert(chunks[0] == enc.subrange(off as int, end as int));
                assert((chunks.len() > 1) == (end < n));
            }
            push_kitty_header(output, self.width, self.height, m);
            let mut k = off;
            let ghost mid = output@;
            while k < end
                invariant
                    off <= k <= end <= n,
                    n == enc.len(),
                    enc == self.encoded@,
                    output@ =~= mid + enc.subrange(off as int, k as int),
                decreases end - k,
            {
                let byte = self.encoded[k];
                output.push(byte);
                proof {
                    assert(output@ =~= mid + enc.subrange(off as int, k as int + 1));
                }
                k = k + 1;
            }
            output.push(27);
            output.push(92);
            proof {
                assert(base + total =~= output@ + kitty_from_chunks(
                    chunk_payloads(enc, end as int),
                    self.width as int,
                    self.height as int,
                ));
            }
            off = end;
        }
        proof {
            assert(output@ =~= base + total);
        }
    }
}

} // verus!
