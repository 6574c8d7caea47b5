//! A deterministic moving colour-band pattern that also shows the low 32
//! bits of its frame number as an 8x4 grid of black and white cells.

use vstd::prelude::*;
use vstd::arithmetic::div_mod::lemma_fundamental_div_mod_converse;

use crate::protocol::{CaptureSourceInfo, CaptureSourceKind};
use crate::source::{CaptureSource, CapturedFrame};

verus! {

broadcast use vstd::string::group_string_axioms;

/// Width of one of the eight colour bands.
pub open spec fn band_width(width: int) -> int {
    if width / 8 >= 1 { width / 8 } else { 1 }
}

/// The width used as modulus when the bands wrap around.
pub open spec fn wrap_width(width: int) -> int {
    if width >= 1 { width } else { 1 }
}

/// Horizontal offset of the bands in frame `frame`: seven pixels per frame,
/// counted on the low 32 bits of the frame number.
pub open spec fn pattern_shift(width: int, frame: u64) -> int {
    ((frame as int % 0x1_0000_0000) * 7) % wrap_width(width)
}

/// Index (0 to 7) of the colour band that covers column `x`.
pub open spec fn band_at(width: int, frame: u64, x: int) -> int {
    let band = ((x + pattern_shift(width, frame)) % wrap_width(width)) / band_width(width);
    if band < 7 { band } else { 7 }
}

/// The colour of each band.
pub open spec fn band_rgb(band: int) -> (u8, u8, u8) {
    if band == 0 {
        (235, 64, 52)
    } else if band == 1 {
        (242, 153, 45)
    } else if band == 2 {
        (248, 215, 66)
    } else if band == 3 {
        (65, 176, 110)
    } else if band == 4 {
        (52, 152, 219)
    } else if band == 5 {
        (72, 85, 184)
    } else if band == 6 {
        (142, 68, 173)
    } else {
        (44, 62, 80)
    }
}

/// Side length of one cell of the frame-number grid.
pub open spec fn grid_cell(width: int, height: int) -> int {
    let shorter = if width <= height { width } else { height };
    if shorter / 24 >= 2 { shorter / 24 } else { 2 }
}

/// Top-left corner of the cell that shows bit `bit` of the frame number:
/// bits run left to right in rows of eight, cells are `cell + 2` apart and
/// the grid starts at (`cell`, `cell`).
pub open spec fn bit_cell_origin(cell: int, bit: int) -> (int, int) {
    (cell + (bit % 8) * (cell + 2), cell + (bit / 8) * (cell + 2))
}

/// The bit whose cell covers pixel (`x`, `y`), if any.
pub open spec fn grid_bit_at(cell: int, x: int, y: int) -> Option<int> {
    if x >= cell && y >= cell {
        let gx = (x - cell) / (cell + 2);
        let gy = (y - cell) / (cell + 2);
        if gx < 8 && gy < 4 && (x - cell) % (cell + 2) < cell && (y - cell) % (cell + 2) < cell {
            Some(gy * 8 + gx)
        } else {
            None
        }
    } else {
        None
    }
}

/// Whether bit `bit` of the frame number is set.
pub open spec fn frame_bit_set(frame: u64, bit: int) -> bool {
    (frame >> (bit as u64)) & 1u64 == 1u64
}

/// Red, green and blue of pixel (`x`, `y`) in frame `frame`; alpha is
/// always opaque.
pub open spec fn pattern_pixel(width: int, height: int, frame: u64, x: int, y: int) -> (u8, u8, u8) {
    match grid_bit_at(grid_cell(width, height), x, y) {
        Some(bit) => if frame_bit_set(frame, bit) { (255, 255, 255) } else { (0, 0, 0) },
        None => band_rgb(band_at(width, frame, x)),
    }
}

/// Channel `channel` (red, green, blue, alpha) of a pixel.
pub open spec fn rgba_channel(rgb: (u8, u8, u8), channel: int) -> u8 {
    if channel == 0 {
        rgb.0
    } else if channel == 1 {
        rgb.1
    } else if channel == 2 {
        rgb.2
    } else {
        255
    }
}

/// Byte `index` of the row-major RGBA image of frame `frame`.
pub open spec fn pattern_byte(width: int, height: int, frame: u64, index: int) -> u8 {
    let pixel = index / 4;
    rgba_channel(pattern_pixel(width, height, frame, pixel % width, pixel / width), index % 4)
}

/// The RGBA image of frame `frame` of a `width` x `height` pattern.
pub open spec fn test_pattern(width: int, height: int, frame: u64) -> Seq<u8> {
    Seq::new((width * height * 4) as nat, |index: int| pattern_byte(width, height, frame, index))
}

/// Whether rendering frame `frame` stays within the 32-bit arithmetic of the
/// renderer: the image size in bytes and the band offset both fit in a `u32`.
pub open spec fn renderable(width: u32, height: u32, frame: u64) -> bool {
    &&& width * height * 4 <= u32::MAX
    &&& (frame as int % 0x1_0000_0000) * 7 <= u32::MAX
}

/// A deterministic synthetic capture source.
pub struct TestPatternSource {
    width: u32,
    height: u32,
    frame_sequence: u64,
}

/// The four bytes of pixel (`x`, `y`) sit at `(y * width + x) * 4`.
proof fn lemma_pixel_bytes(width: int, height: int, frame: u64, x: int, y: int, channel: int)
    requires
        0 <= x < width,
        0 <= y < height,
        0 <= channel < 4,
    ensures
        pattern_byte(width, height, frame, (y * width + x) * 4 + channel) == rgba_channel(
            pattern_pixel(width, height, frame, x, y),
            channel,
        ),
{
    let index = (y * width + x) * 4 + channel;
    lemma_fundamental_div_mod_converse(index, 4, y * width + x, channel);
    lemma_fundamental_div_mod_converse(y * width + x, width, y, x);
}

impl TestPatternSource {
    /// Width of the pattern in pixels.
    pub closed spec fn width_spec(&self) -> u32 {
        self.width
    }

    /// Height of the pattern in pixels.
    pub closed spec fn height_spec(&self) -> u32 {
        self.height
    }

    /// Number of frames captured so far; the next frame carries this number.
    pub closed spec fn frame_number(&self) -> u64 {
        self.frame_sequence
    }

    /// A pattern of the given size that has not produced a frame yet.
    pub fn new(width: u32, height: u32) -> (source: Self)
        ensures
            source.width_spec() == width,
            source.height_spec() == height,
            source.frame_number() == 0,
    {
        TestPatternSource { width, height, frame_sequence: 0 }
    }

    /// The colour of one pixel.
    fn pixel(&self, shift: u32, band: u32, cell: u32, x: u32, y: u32) -> (rgb: (u8, u8, u8))
        requires
            renderable(self.width, self.height, self.frame_sequence),
            x < self.width,
            y < self.height,
            shift == pattern_shift(self.width as int, self.frame_sequence),
            band == band_width(self.width as int),
            cell == grid_cell(self.width as int, self.height as int),
        ensures
            rgb == pattern_pixel(
                self.width as int,
                self.height as int,
                self.frame_sequence,
                x as int,
                y as int,
            ),
    {
        let width = self.width;
        assert(width <= width * self.height) by (nonlinear_arith)
            requires
                y < self.height,
        ;
        assert(cell <= 0x1_0000_0000int / 24);
        if x >= cell && y >= cell {
            let gx = (x - cell) / (cell + 2);
            let gy = (y - cell) / (cell + 2);
            if gx < 8 && gy < 4 && (x - cell) % (cell + 2) < cell && (y - cell) % (cell + 2) < cell {
                let bit = (gy * 8 + gx) as u64;
                if (self.frame_sequence >> bit) & 1 == 1 {
                    return (255, 255, 255);
                } else {
                    return (0, 0, 0);
                }
            }
        }
        let wrap = if width >= 1 { width } else { 1 };
        let shifted = (x + shift) % wrap;
        let index = if shifted / band < 7 { shifted / band } else { 7 };
        if index == 0 {
            (235, 64, 52)
        } else if index == 1 {
            (242, 153, 45)
        } else if index == 2 {
            (248, 215, 66)
        } else if index == 3 {
            (65, 176, 110)
        } else if index == 4 {
            (52, 152, 219)
        } else if index == 5 {
            (72, 85, 184)
        } else if index == 6 {
            (142, 68, 173)
        } else {
            (44, 62, 80)
        }
    }

    /// Renders the current frame without advancing.
    pub fn render(&self) -> (rgba: Vec<u8>)
        requires
            renderable(self.width_spec(), self.height_spec(), self.frame_number()),
        ensures
            rgba@ == test_pattern(
                self.width_spec() as int,
                self.height_spec() as int,
                self.frame_number(),
            ),
    {
        let width = self.width;
        let height = self.height;
        let ghost image = test_pattern(width as int, height as int, self.frame_sequence);
        let bands = if width / 8 >= 1 { width / 8 } else { 1 };
        let wrap = if width >= 1 { width } else { 1 };
        let frame = self.frame_sequence;
        proof {
            assert(frame as u32 == frame as int % 0x1_0000_0000) by (bit_vector);
        }
        let shift = ((frame as u32) * 7) % wrap;
        let shorter = if width <= height { width } else { height };
        let cell = if shorter / 24 >= 2 { shorter / 24 } else { 2 };
        let mut rgba: Vec<u8> = Vec::with_capacity((width * height * 4) as usize);
        let mut y: u32 = 0;
        while y < height
            invariant
                renderable(self.width, self.height, self.frame_sequence),
                width == self.width,
                height == self.height,
                image == test_pattern(width as int, height as int, self.frame_sequence),
                shift == pattern_shift(width as int, self.frame_sequence),
                bands == band_width(width as int),
                cell == grid_cell(width as int, height as int),
                y <= height,
                rgba@ == image.take(y * width * 4),
            decreases height - y,
        {
            let mut x: u32 = 0;
            while x < width
                invariant
                    renderable(self.width, self.height, self.frame_sequence),
                    width == self.width,
                    height == self.height,
                    image == test_pattern(width as int, height as int, self.frame_sequence),
                    shift == pattern_shift(width as int, self.frame_sequence),
                    bands == band_width(width as int),
                    cell == grid_cell(width as int, height as int),
                    y < height,
                    x <= width,
                    rgba@ == image.take((y * width + x) * 4),
                decreases width - x,
            {
                let rgb = self.pixel(shift, bands, cell, x, y);
                let ghost start = (y * width + x) * 4;
                proof {
                    assert(start + 4 <= width * height * 4) by (nonlinear_arith)
                        requires
                            start == (y * width + x) * 4,
                            x < width,
                            y < height,
                    ;
                    lemma_pixel_bytes(width as int, height as int, self.frame_sequence, x as int, y as int, 0);
                    lemma_pixel_bytes(width as int, height as int, self.frame_sequence, x as int, y as int, 1);
                    lemma_pixel_bytes(width as int, height as int, self.frame_sequence, x as int, y as int, 2);
                    lemma_pixel_bytes(width as int, height as int, self.frame_sequence, x as int, y as int, 3);
                }
                rgba.push(rgb.0);
                rgba.push(rgb.1);
                rgba.push(rgb.2);
                rgba.push(255);
                proof {
                    assert(rgba@ =~= image.take(start + 4));
                }
                x = x + 1;
            }
            proof {
                assert((y * width + width) * 4 == (y + 1) * width * 4) by (nonlinear_arith);
            }
            y = y + 1;
        }
        proof {
            assert(image.len() == height * width * 4) by (nonlinear_arith)
                requires
                    image.len() == width * height * 4,
            ;
            assert(rgba@ =~= image);
        }
        rgba
    }
}

impl TestPatternSource {
    /// Whether the next frame can be rendered: see [`renderable`].
    pub fn can_render_next(&self) -> (ok: bool)
        ensures
            ok == renderable(self.width_spec(), self.height_spec(), self.frame_number()),
    {
        let low = self.frame_sequence as u32;
        proof {
            let frame = self.frame_sequence;
            assert(frame as u32 == frame as int % 0x1_0000_0000) by (bit_vector);
        }
        assert((self.width as u64) * (self.height as u64) <= 0xffff_ffff_ffff_ffffu64) by (nonlinear_arith);
        let size_fits = (self.width as u64) * (self.height as u64) <= (u32::MAX as u64) / 4;
        proof {
            assert(size_fits <==> self.width * self.height * 4 <= u32::MAX) by (nonlinear_arith)
                requires
                    size_fits == ((self.width as u64) * (self.height as u64) <= (u32::MAX as u64) / 4),
            ;
        }
        size_fits && (low as u64) * 7 <= u32::MAX as u64
    }

    /// Describes the pattern as a capture source.
    pub fn describe(&self) -> (info: CaptureSourceInfo)
        ensures
            info.kind == CaptureSourceKind::TestPattern,
            info.id@ == "test-pattern"@,
            info.title@ == "Deterministic test pattern"@,
            info.width == self.width_spec(),
            info.height == self.height_spec(),
            info.visible,
    {
        CaptureSourceInfo {
            kind: CaptureSourceKind::TestPattern,
            id: "test-pattern".to_string(),
            title: "Deterministic test pattern".to_string(),
            width: self.width,
            height: self.height,
            visible: true,
        }
    }

    /// Renders the current frame and advances to the next frame number.
    pub fn render_next(&mut self) -> (frame: CapturedFrame)
        requires
            renderable(old(self).width_spec(), old(self).height_spec(), old(self).frame_number()),
        ensures
            frame.width == old(self).width_spec(),
            frame.height == old(self).height_spec(),
            frame.rgba@ == test_pattern(
                old(self).width_spec() as int,
                old(self).height_spec() as int,
                old(self).frame_number(),
            ),
            final(self).width_spec() == old(self).width_spec(),
            final(self).height_spec() == old(self).height_spec(),
            final(self).frame_number() == old(self).frame_number() + 1,
    {
        let rgba = self.render();
        self.frame_sequence = self.frame_sequence + 1;
        CapturedFrame { width: self.width, height: self.height, rgba }
    }
}

impl CaptureSource for TestPatternSource {
    fn info(&self) -> (info: CaptureSourceInfo)
        ensures
            info.kind == CaptureSourceKind::TestPattern,
            info.id@ == "test-pattern"@,
            info.title@ == "Deterministic test pattern"@,
            info.width == self.width_spec(),
            info.height == self.height_spec(),
            info.visible,
    {
        self.describe()
    }

    /// Captures the next frame; a frame the renderer cannot size (see
    /// [`renderable`]) is refused.
    fn capture(&mut self) -> (result: Result<CapturedFrame, String>)
        ensures
            renderable(old(self).width_spec(), old(self).height_spec(), old(self).frame_number())
                ==> (result matches Ok(f) && f.width == old(self).width_spec() && f.height
                == old(self).height_spec() && f.rgba@ == test_pattern(
                old(self).width_spec() as int,
                old(self).height_spec() as int,
                old(self).frame_number(),
            ) && final(self).frame_number() == old(self).frame_number() + 1),
            !renderable(old(self).width_spec(), old(self).height_spec(), old(self).frame_number())
                ==> result is Err && final(self).frame_number() == old(self).frame_number(),
            final(self).width_spec() == old(self).width_spec(),
            final(self).height_spec() == old(self).height_spec(),
    {
        if self.can_render_next() {
            Ok(self.render_next())
        } else {
            Err("test pattern frame is too large to render".to_string())
        }
    }
}

/// Outside the frame-number grid a pixel shows the colour of its band, and
/// the bands, left to right, are red (235, 64, 52), orange (242, 153, 45),
/// yellow (248, 215, 66), green (65, 176, 110), blue (52, 152, 219), indigo
/// (72, 85, 184), violet (142, 68, 173) and slate (44, 62, 80). No band is
/// black or white, so no band pixel looks like a cell of the grid. In the
/// first frame, column `x` lies in band `x / (width / 8)` (bands at least
/// one pixel wide), the last band taking the remaining columns.
pub proof fn lemma_band_colours(width: int, height: int, frame: u64, x: int, y: int)
    requires
        0 <= x < width,
        0 <= y < height,
        grid_bit_at(grid_cell(width, height), x, y) is None,
    ensures
        0 <= band_at(width, frame, x) < 8,
        pattern_pixel(width, height, frame, x, y) == seq![
            (235u8, 64u8, 52u8),
            (242u8, 153u8, 45u8),
            (248u8, 215u8, 66u8),
            (65u8, 176u8, 110u8),
            (52u8, 152u8, 219u8),
            (72u8, 85u8, 184u8),
            (142u8, 68u8, 173u8),
            (44u8, 62u8, 80u8),
        ][band_at(width, frame, x)],
        band_at(width, 0, x) == if x / (if width / 8 >= 1 { width / 8 } else { 1 }) < 7 {
            x / (if width / 8 >= 1 { width / 8 } else { 1 })
        } else {
            7
        },
        pattern_pixel(width, height, frame, x, y) != (0u8, 0u8, 0u8),
        pattern_pixel(width, height, frame, x, y) != (255u8, 255u8, 255u8),
{
    let band = ((x + pattern_shift(width, frame)) % wrap_width(width)) / band_width(width);
    vstd::arithmetic::div_mod::lemma_mod_bound(x + pattern_shift(width, frame), wrap_width(width));
    vstd::arithmetic::div_mod::lemma_div_pos_is_pos(
        (x + pattern_shift(width, frame)) % wrap_width(width),
        band_width(width),
    );
    assert(band >= 0);
    assert(pattern_shift(width, 0) == 0) by {
        vstd::arithmetic::div_mod::lemma_small_mod(0, width as nat);
    }
    vstd::arithmetic::div_mod::lemma_small_mod(x as nat, width as nat);
}

/// Above the frame-number grid, the colour bands move left by seven pixels
/// per frame: pixel (`x`, `y`) of frame `frame` shows what pixel
/// (`(x + 7 * frame) % width`, `y`) of the first frame shows.
pub proof fn lemma_bands_shift(width: int, height: int, frame: u64, x: int, y: int)
    requires
        0 <= x < width,
        0 <= y < height,
        y < 2,
        frame * 7 <= u32::MAX,
    ensures
        pattern_pixel(width, height, frame, x, y) == pattern_pixel(
            width,
            height,
            0,
            (x + 7 * frame) % width,
            y,
        ),
        forall|channel: int|
            0 <= channel < 4 ==> #[trigger] test_pattern(width, height, frame)[(y * width + x) * 4
                + channel] == test_pattern(width, height, 0)[(y * width + (x + 7 * frame) % width)
                * 4 + channel],
{
    let moved = (x + 7 * frame) % width;
    vstd::arithmetic::div_mod::lemma_mod_bound(x + 7 * frame, width);
    assert(grid_cell(width, height) >= 2);
    assert(grid_bit_at(grid_cell(width, height), x, y) is None);
    assert(grid_bit_at(grid_cell(width, height), moved, y) is None);
    assert(frame as int % 0x1_0000_0000 == frame) by {
        vstd::arithmetic::div_mod::lemma_small_mod(frame as nat, 0x1_0000_0000);
    }
    assert(pattern_shift(width, frame) == (7 * frame) % width);
    assert(pattern_shift(width, 0) == 0) by {
        vstd::arithmetic::div_mod::lemma_small_mod(0, width as nat);
    }
    vstd::arithmetic::div_mod::lemma_add_mod_noop_right(x, 7 * frame, width);
    vstd::arithmetic::div_mod::lemma_small_mod(moved as nat, width as nat);
    assert((moved + pattern_shift(width, 0)) % wrap_width(width) == (x + pattern_shift(width, frame))
        % wrap_width(width));
    assert(band_at(width, frame, x) == band_at(width, 0, moved));
    assert forall|channel: int| 0 <= channel < 4 implies #[trigger] test_pattern(
        width,
        height,
        frame,
    )[(y * width + x) * 4 + channel] == test_pattern(width, height, 0)[(y * width + moved) * 4
        + channel] by {
        lemma_pixel_bytes(width, height, frame, x, y, channel);
        lemma_pixel_bytes(width, height, 0, moved, y, channel);
        assert((y * width + x) * 4 + channel < width * height * 4
            && (y * width + moved) * 4 + channel < width * height * 4) by (nonlinear_arith)
            requires
                0 <= x < width,
                0 <= moved < width,
                0 <= y < height,
                0 <= channel < 4,
        ;
        assert(0 <= (y * width + x) * 4 + channel && 0 <= (y * width + moved) * 4 + channel)
            by (nonlinear_arith)
            requires
                0 <= x,
                0 <= moved,
                0 <= y,
                0 <= channel,
                width > 0,
        ;
    }
}

/// The cell of bit `bit` covers exactly the pixels that [`grid_bit_at`]
/// attributes to `bit`: the cells of the 32 bits do not overlap.
pub proof fn lemma_grid_cells(cell: int, bit: int, x: int, y: int)
    requires
        cell >= 2,
        0 <= bit < 32,
    ensures
        grid_bit_at(cell, x, y) == Some(bit) <==> ({
            let (ox, oy) = bit_cell_origin(cell, bit);
            ox <= x < ox + cell && oy <= y < oy + cell
        }),
{
    let (ox, oy) = bit_cell_origin(cell, bit);
    let step = cell + 2;
    let col = bit % 8;
    let row = bit / 8;
    assert(0 <= col * step && 0 <= row * step) by (nonlinear_arith)
        requires
            col >= 0,
            row >= 0,
            step > 0,
    ;
    if ox <= x < ox + cell && oy <= y < oy + cell {
        lemma_fundamental_div_mod_converse(x - cell, step, col, x - ox);
        lemma_fundamental_div_mod_converse(y - cell, step, row, y - oy);
        assert(row * 8 + col == bit);
        assert(grid_bit_at(cell, x, y) == Some(bit));
    }
    if grid_bit_at(cell, x, y) == Some(bit) {
        let gx = (x - cell) / step;
        let gy = (y - cell) / step;
        assert(x >= cell && y >= cell);
        assert(gy * 8 + gx == bit);
        assert(0 <= gx < 8) by {
            vstd::arithmetic::div_mod::lemma_div_pos_is_pos(x - cell, step);
        }
        lemma_fundamental_div_mod_converse(bit, 8, gy, gx);
        vstd::arithmetic::div_mod::lemma_fundamental_div_mod(x - cell, step);
        vstd::arithmetic::div_mod::lemma_fundamental_div_mod(y - cell, step);
        assert(col == gx && row == gy);
        assert(gx * step == step * gx && gy * step == step * gy) by (nonlinear_arith);
        assert(x == ox + (x - cell) % step);
        assert(y == oy + (y - cell) % step);
    }
}

/// The cell of bit `bit` shows white when that bit of the frame number is
/// set and black otherwise, whenever the cell's corner lies in the image.
pub proof fn lemma_grid_shows_frame_bit(width: int, height: int, frame: u64, bit: int)
    requires
        0 <= bit < 32,
        bit_cell_origin(grid_cell(width, height), bit).0 < width,
        bit_cell_origin(grid_cell(width, height), bit).1 < height,
    ensures
        ({
            let (ox, oy) = bit_cell_origin(grid_cell(width, height), bit);
            pattern_pixel(width, height, frame, ox, oy) == if frame_bit_set(frame, bit) {
                (255u8, 255u8, 255u8)
            } else {
                (0u8, 0u8, 0u8)
            }
        }),
{
    let cell = grid_cell(width, height);
    let (ox, oy) = bit_cell_origin(cell, bit);
    lemma_grid_cells(cell, bit, ox, oy);
}

/// Two consecutive frames of a pattern at least 3 pixels wide and high
/// differ: the cell of bit 0 flips between black and white.
pub proof fn lemma_consecutive_frames_differ(width: u32, height: u32, frame: u64)
    requires
        width >= 3,
        height >= 3,
        renderable(width, height, frame),
    ensures
        test_pattern(width as int, height as int, frame) != test_pattern(
            width as int,
            height as int,
            (frame + 1) as u64,
        ),
{
    let w = width as int;
    let h = height as int;
    let next = (frame + 1) as u64;
    assert(frame < u64::MAX);
    let cell = grid_cell(w, h);
    assert(cell < w && cell < h) by {
        let shorter = if w <= h { w } else { h };
        assert(shorter / 24 < shorter);
    }
    lemma_grid_shows_frame_bit(w, h, frame, 0);
    lemma_grid_shows_frame_bit(w, h, next, 0);
    assert(frame_bit_set(frame, 0) != frame_bit_set(next, 0)) by {
        assert(((frame >> 0u64) & 1u64 == 1u64) != ((next >> 0u64) & 1u64 == 1u64)) by (bit_vector)
            requires
                frame < 0xffff_ffff_ffff_ffffu64,
                next == frame + 1,
        ;
    }
    lemma_pixel_bytes(w, h, frame, cell, cell, 0);
    lemma_pixel_bytes(w, h, next, cell, cell, 0);
    let index = (cell * w + cell) * 4;
    assert(cell * w <= (h - 1) * w) by (nonlinear_arith)
        requires
            cell <= h - 1,
            w >= 0,
    ;
    assert((h - 1) * w + w == h * w) by (nonlinear_arith);
    assert(index < w * h * 4) by (nonlinear_arith)
        requires
            index == (cell * w + cell) * 4,
            cell * w + cell < h * w,
    ;
    assert(test_pattern(w, h, frame)[index] != test_pattern(w, h, next)[index]);
}

} // verus!
