//! Conversions between the pixel layouts of the platform capture APIs and
//! the row-major RGBA frames the encoder consumes.

use vstd::prelude::*;
use vstd::arithmetic::div_mod::lemma_fundamental_div_mod_converse;

verus! {

/// Byte order of the pixel words in a Z-pixmap image.
#[derive(Debug, Clone, Copy, PartialEq, Eq, Structural)]
pub enum ByteOrder {
    LsbFirst,
    MsbFirst,
}

/// The bits of a pixel word that carry red, green and blue.
#[derive(Debug, Clone, Copy, PartialEq, Eq, Structural)]
pub struct ChannelMasks {
    pub red_mask: u32,
    pub green_mask: u32,
    pub blue_mask: u32,
}

/// Why a Z-pixmap buffer could not be decoded.
#[derive(Debug, Clone, Copy, PartialEq, Eq, Structural)]
pub enum DecodeError {
    /// The height is zero or the buffer is not a whole number of rows.
    InvalidLength,
    /// A row holds fewer bytes than the requested width needs.
    RowTooShort,
}

/// The channel selected by `mask`, scaled to 0..=255.
pub open spec fn component_value(pixel: u32, mask: u32) -> u8 {
    if mask == 0 {
        0
    } else {
        let shift = mask.trailing_zeros();
        let value = (pixel & mask) >> shift;
        let maximum = mask >> shift;
        ((value as int * 255) / maximum as int) as u8
    }
}

/// Extracts the channel selected by `mask` from `pixel` and scales it to
/// the range 0..=255; an empty mask gives 0.
pub fn component(pixel: u32, mask: u32) -> (value: u8)
    ensures
        value == component_value(pixel, mask),
        mask != 0 ==> value as int == (((pixel & mask) >> mask.trailing_zeros()) as int * 255) / (
        mask >> mask.trailing_zeros()) as int,
{
    if mask == 0 {
        return 0;
    }
    let shift = mask.trailing_zeros();
    proof {
        vstd::std_specs::bits::axiom_u32_trailing_zeros(mask);
    }
    let value = (pixel & mask) >> shift;
    let maximum = mask >> shift;
    proof {
        assert(maximum & 1u32 == 1u32 ==> maximum >= 1) by (bit_vector);
        assert(((pixel & mask) >> shift) <= (mask >> shift)) by (bit_vector);
        assert(value as int * 255 <= maximum as int * 255);
        vstd::arithmetic::div_mod::lemma_div_is_ordered(value as int * 255, maximum as int * 255, maximum as int);
        vstd::arithmetic::div_mod::lemma_div_multiples_vanish(255, maximum as int);
        assert(maximum as int * 255 == 255 * maximum as int) by (nonlinear_arith);
    }
    ((value as u64 * 255) / maximum as u64) as u8
}

/// The pixel word that starts at byte `at`: four bytes, or three bytes
/// completed by a zero most significant byte, in the given byte order.
pub open spec fn pixel_word(data: Seq<u8>, at: int, bytes_per_pixel: int, order: ByteOrder) -> u32 {
    if bytes_per_pixel == 4 {
        match order {
            ByteOrder::LsbFirst => (data[at] + data[at + 1] * 0x100 + data[at + 2] * 0x1_0000
                + data[at + 3] * 0x100_0000) as u32,
            ByteOrder::MsbFirst => (data[at] * 0x100_0000 + data[at + 1] * 0x1_0000 + data[at + 2]
                * 0x100 + data[at + 3]) as u32,
        }
    } else {
        match order {
            ByteOrder::LsbFirst => (data[at] + data[at + 1] * 0x100 + data[at + 2]
                * 0x1_0000) as u32,
            ByteOrder::MsbFirst => (data[at] * 0x1_0000 + data[at + 1] * 0x100 + data[at
                + 2]) as u32,
        }
    }
}

/// Bytes per row of a buffer of `len` bytes holding `height` rows.
pub open spec fn row_stride(len: int, height: int) -> int {
    len / height
}

/// Byte `index` of the RGBA image decoded from a Z-pixmap buffer.
pub open spec fn decoded_byte(
    data: Seq<u8>,
    width: int,
    height: int,
    bytes_per_pixel: int,
    order: ByteOrder,
    masks: ChannelMasks,
    index: int,
) -> u8 {
    let pixel = index / 4;
    let x = pixel % width;
    let y = pixel / width;
    let word = pixel_word(
        data,
        y * row_stride(data.len() as int, height) + x * bytes_per_pixel,
        bytes_per_pixel,
        order,
    );
    let channel = index % 4;
    if channel == 0 {
        component_value(word, masks.red_mask)
    } else if channel == 1 {
        component_value(word, masks.green_mask)
    } else if channel == 2 {
        component_value(word, masks.blue_mask)
    } else {
        255
    }
}

/// The RGBA image decoded from a Z-pixmap buffer.
pub open spec fn decoded_image(
    data: Seq<u8>,
    width: int,
    height: int,
    bytes_per_pixel: int,
    order: ByteOrder,
    masks: ChannelMasks,
) -> Seq<u8> {
    Seq::new(
        (width * height * 4) as nat,
        |index: int| decoded_byte(data, width, height, bytes_per_pixel, order, masks, index),
    )
}

/// Row `y`, column `x`, channel `channel` sits at byte `(y * width + x) * 4 + channel`.
proof fn lemma_rgba_index(width: int, x: int, y: int, channel: int)
    requires
        0 <= x < width,
        0 <= y,
        0 <= channel < 4,
    ensures
        ((y * width + x) * 4 + channel) / 4 == y * width + x,
        ((y * width + x) * 4 + channel) % 4 == channel,
        (y * width + x) % width == x,
        (y * width + x) / width == y,
{
    lemma_fundamental_div_mod_converse((y * width + x) * 4 + channel, 4, y * width + x, channel);
    lemma_fundamental_div_mod_converse(y * width + x, width, y, x);
}

/// Reads the pixel word at `at`.
fn read_word(data: &[u8], at: usize, bytes_per_pixel: usize, order: ByteOrder) -> (word: u32)
    requires
        bytes_per_pixel == 3 || bytes_per_pixel == 4,
        at + bytes_per_pixel <= data@.len(),
    ensures
        word == pixel_word(data@, at as int, bytes_per_pixel as int, order),
{
    let b0 = data[at] as u32;
    let b1 = data[at + 1] as u32;
    let b2 = data[at + 2] as u32;
    if bytes_per_pixel == 4 {
        let b3 = data[at + 3] as u32;
        match order {
            ByteOrder::LsbFirst => b0 + b1 * 0x100 + b2 * 0x1_0000 + b3 * 0x100_0000,
            ByteOrder::MsbFirst => b0 * 0x100_0000 + b1 * 0x1_0000 + b2 * 0x100 + b3,
        }
    } else {
        match order {
            ByteOrder::LsbFirst => b0 + b1 * 0x100 + b2 * 0x1_0000,
            ByteOrder::MsbFirst => b0 * 0x1_0000 + b1 * 0x100 + b2,
        }
    }
}

/// Decodes an X11 Z-pixmap image of `width` x `height` pixels, 24 or 32
/// bits each, into row-major RGBA with opaque alpha. Each row of `data`
/// holds `data.len() / height` bytes, of which the first `width` pixels are
/// read. A 24-bit image whose RGBA form would not fit in memory is not
/// admitted.
pub fn decode_z_pixmap(
    data: &[u8],
    width: u32,
    height: u32,
    bits_per_pixel: u8,
    order: ByteOrder,
    masks: &ChannelMasks,
) -> (rgba: Result<Vec<u8>, DecodeError>)
    requires
        bits_per_pixel == 24 || bits_per_pixel == 32,
        (bits_per_pixel == 24 && height != 0 && (data@.len() as int) % (height as int) == 0
            && row_stride(data@.len() as int, height as int) >= width * 3) ==> width * height * 4
            <= usize::MAX,
    ensures
        (height == 0 || (data@.len() as int) % (height as int) != 0) ==> rgba == Err::<Vec<u8>, DecodeError>(
            DecodeError::InvalidLength,
        ),
        (height != 0 && (data@.len() as int) % (height as int) == 0) ==> match rgba {
            Err(error) => error == DecodeError::RowTooShort && row_stride(
                data@.len() as int,
                height as int,
            ) < width * (bits_per_pixel / 8),
            Ok(image) => row_stride(data@.len() as int, height as int) >= width * (bits_per_pixel
                / 8) && image@ == decoded_image(
                data@,
                width as int,
                height as int,
                (bits_per_pixel / 8) as int,
                order,
                *masks,
            ),
        },
{
    let bytes_per_pixel = (bits_per_pixel / 8) as usize;
    let height_usize = height as usize;
    let width_usize = width as usize;
    if height_usize == 0 || data.len() % height_usize != 0 {
        return Err(DecodeError::InvalidLength);
    }
    let row_stride = data.len() / height_usize;
    let data_len = data.len();
    assert(data_len == data@.len());
    assert((width as u64) * (bytes_per_pixel as u64) <= 4 * 0xffff_ffff) by (nonlinear_arith)
        requires
            bytes_per_pixel <= 4,
    ;
    let row_bytes: u64 = (width as u64) * (bytes_per_pixel as u64);
    if (row_stride as u64) < row_bytes {
        return Err(DecodeError::RowTooShort);
    }
    assert(width_usize * bytes_per_pixel <= row_stride);
    proof {
        vstd::arithmetic::div_mod::lemma_fundamental_div_mod(data@.len() as int, height as int);
        if bytes_per_pixel == 4 {
            assert(width * height * 4 <= data@.len()) by (nonlinear_arith)
                requires
                    width * 4 <= row_stride,
                    data@.len() == height * (data@.len() as int / height as int) + (data@.len() as int % height as int),
                    row_stride == data@.len() as int / height as int,
                    height >= 1,
                    data@.len() as int % height as int == 0,
            ;
        }
    }
    assert(width * height * 4 <= usize::MAX);
    let ghost image = decoded_image(
        data@,
        width as int,
        height as int,
        bytes_per_pixel as int,
        order,
        *masks,
    );
    proof {
        vstd::arithmetic::div_mod::lemma_fundamental_div_mod(data@.len() as int, height as int);
        assert(data@.len() == height * row_stride);
    }
    let mut rgba: Vec<u8> = Vec::with_capacity(width_usize * height_usize * 4);
    let mut y: usize = 0;
    let mut row_start: usize = 0;
    while y < height_usize
        invariant
            width_usize == width,
            height_usize == height,
            bytes_per_pixel == 3 || bytes_per_pixel == 4,
            row_stride == (data@.len() as int) / (height as int),
            data@.len() == height * row_stride,
            row_stride >= width * bytes_per_pixel,
            image == decoded_image(
                data@,
                width as int,
                height as int,
                bytes_per_pixel as int,
                order,
                *masks,
            ),
            width * height * 4 <= usize::MAX,
            data@.len() <= usize::MAX,
            y <= height,
            row_start == y * row_stride,
            rgba@ == image.take(y * width * 4),
        decreases height - y,
    {
        assert(row_start + row_stride <= data@.len()) by (nonlinear_arith)
            requires
                row_start == y * row_stride,
                y < height,
                data@.len() == height * row_stride,
        ;
        let mut x: usize = 0;
        let mut at: usize = row_start;
        while x < width_usize
            invariant
                width_usize == width,
                height_usize == height,
                bytes_per_pixel == 3 || bytes_per_pixel == 4,
                row_stride == (data@.len() as int) / (height as int),
                data@.len() == height * row_stride,
                row_stride >= width * bytes_per_pixel,
                image == decoded_image(
                    data@,
                    width as int,
                    height as int,
                    bytes_per_pixel as int,
                    order,
                    *masks,
                ),
                width * height * 4 <= usize::MAX,
                data@.len() <= usize::MAX,
                y < height,
                row_start == y * row_stride,
                row_start + row_stride <= data@.len(),
                x <= width,
                at == row_start + x * bytes_per_pixel,
                rgba@ == image.take((y * width + x) * 4),
            decreases width - x,
        {
            assert(at + bytes_per_pixel <= row_start + row_stride) by (nonlinear_arith)
                requires
                    at == row_start + x * bytes_per_pixel,
                    x < width,
                    row_stride >= width * bytes_per_pixel,
            ;
            let word = read_word(data, at, bytes_per_pixel, order);
            let red = component(word, masks.red_mask);
            let green = component(word, masks.green_mask);
            let blue = component(word, masks.blue_mask);
            let ghost start = (y * width + x) * 4;
            proof {
                assert(start + 4 <= width * height * 4) by (nonlinear_arith)
                    requires
                        start == (y * width + x) * 4,
                        x < width,
                        y < height,
                ;
                lemma_rgba_index(width as int, x as int, y as int, 0);
                lemma_rgba_index(width as int, x as int, y as int, 1);
                lemma_rgba_index(width as int, x as int, y as int, 2);
                lemma_rgba_index(width as int, x as int, y as int, 3);
            }
            rgba.push(red);
            rgba.push(green);
            rgba.push(blue);
            rgba.push(255);
            proof {
                assert(rgba@ =~= image.take(start + 4));
            }
            x = x + 1;
            at = at + bytes_per_pixel;
        }
        proof {
            assert((y * width + width) * 4 == (y + 1) * width * 4) by (nonlinear_arith);
            assert(row_start + row_stride == (y + 1) * row_stride) by (nonlinear_arith)
                requires
                    row_start == y * row_stride,
            ;
        }
        y = y + 1;
        row_start = row_start + row_stride;
    }
    proof {
        assert(image.len() == height * width * 4) by (nonlinear_arith)
            requires
                image.len() == width * height * 4,
        ;
        assert(rgba@ =~= image);
    }
    Ok(rgba)
}

/// Whether the bytes of pixel (`x`, `y`) of `flipped` are those of the same
/// pixel of `data` in reverse order.
pub open spec fn pixel_reversed(
    data: Seq<u8>,
    flipped: Seq<u8>,
    width: int,
    height: int,
    bytes_per_pixel: int,
    x: int,
    y: int,
) -> bool {
    let at = y * row_stride(data.len() as int, height) + x * bytes_per_pixel;
    if bytes_per_pixel == 4 {
        &&& flipped[at] == data[at + 3]
        &&& flipped[at + 1] == data[at + 2]
        &&& flipped[at + 2] == data[at + 1]
        &&& flipped[at + 3] == data[at]
    } else {
        &&& flipped[at] == data[at + 2]
        &&& flipped[at + 1] == data[at + 1]
        &&& flipped[at + 2] == data[at]
    }
}

/// The byte order only says in which order the bytes of a pixel come: a
/// buffer decoded most significant byte first gives the same image as the
/// buffer with every pixel's bytes reversed decoded least significant byte
/// first.
pub proof fn lemma_byte_order_symmetry(
    data: Seq<u8>,
    flipped: Seq<u8>,
    width: int,
    height: int,
    bytes_per_pixel: int,
    masks: ChannelMasks,
)
    requires
        bytes_per_pixel == 3 || bytes_per_pixel == 4,
        width >= 0,
        height >= 0,
        flipped.len() == data.len(),
        forall|x: int, y: int|
            0 <= x < width && 0 <= y < height ==> #[trigger] pixel_reversed(
                data,
                flipped,
                width,
                height,
                bytes_per_pixel,
                x,
                y,
            ),
    ensures
        decoded_image(flipped, width, height, bytes_per_pixel, ByteOrder::MsbFirst, masks)
            == decoded_image(data, width, height, bytes_per_pixel, ByteOrder::LsbFirst, masks),
{
    let msb = decoded_image(flipped, width, height, bytes_per_pixel, ByteOrder::MsbFirst, masks);
    let lsb = decoded_image(data, width, height, bytes_per_pixel, ByteOrder::LsbFirst, masks);
    assert forall|index: int| 0 <= index < msb.len() implies msb[index] == lsb[index] by {
        if width == 0 || height == 0 {
            assert(width * height == 0) by (nonlinear_arith)
                requires
                    width == 0 || height == 0,
            ;
        }
        let pixel = index / 4;
        let x = pixel % width;
        let y = pixel / width;
        assert(0 <= pixel < width * height) by {
            vstd::arithmetic::div_mod::lemma_div_pos_is_pos(index, 4);
            vstd::arithmetic::div_mod::lemma_div_is_ordered(index, width * height * 4 - 1, 4);
            vstd::arithmetic::div_mod::lemma_fundamental_div_mod_converse(
                width * height * 4 - 1,
                4,
                width * height - 1,
                3,
            );
        }
        assert(0 <= x < width) by {
            vstd::arithmetic::div_mod::lemma_mod_bound(pixel, width);
        }
        assert(0 <= y < height) by {
            vstd::arithmetic::div_mod::lemma_div_pos_is_pos(pixel, width);
            vstd::arithmetic::div_mod::lemma_div_is_ordered(pixel, width * height - 1, width);
            assert(width * height - 1 == (height - 1) * width + (width - 1)) by (nonlinear_arith);
            vstd::arithmetic::div_mod::lemma_fundamental_div_mod_converse(
                width * height - 1,
                width,
                height - 1,
                width - 1,
            );
        }
        assert(pixel_reversed(data, flipped, width, height, bytes_per_pixel, x, y));
        let at = y * row_stride(data.len() as int, height) + x * bytes_per_pixel;
        assert(pixel_word(flipped, at, bytes_per_pixel, ByteOrder::MsbFirst) == pixel_word(
            data,
            at,
            bytes_per_pixel,
            ByteOrder::LsbFirst,
        ));
    }
    assert(msb =~= lsb);
}

/// A frame dimension rounded up to the next even number, as the H.264
/// encoder needs.
pub open spec fn even_size(value: int) -> int {
    value + value % 2
}

/// Byte `index` of a frame padded to even dimensions: pixels beyond the last
/// column repeat the last column, rows beyond the last row repeat the last
/// row.
pub open spec fn padded_byte(source: Seq<u8>, width: int, height: int, index: int) -> u8 {
    let padded_width = even_size(width);
    let pixel = index / 4;
    let x = pixel % padded_width;
    let y = pixel / padded_width;
    let sx = if x < width { x } else { width - 1 };
    let sy = if y < height { y } else { height - 1 };
    source[(sy * width + sx) * 4 + index % 4]
}

/// A `width` x `height` RGBA frame padded to even dimensions.
pub open spec fn padded_frame(source: Seq<u8>, width: int, height: int) -> Seq<u8> {
    Seq::new(
        (even_size(width) * even_size(height) * 4) as nat,
        |index: int| padded_byte(source, width, height, index),
    )
}

/// Channel `channel` of pixel (`x`, `y`) of a row-major RGBA frame that is
/// `width` pixels wide.
pub open spec fn rgba_at(frame: Seq<u8>, width: int, x: int, y: int, channel: int) -> u8 {
    frame[(y * width + x) * 4 + channel]
}

proof fn lemma_padded_pixel(source: Seq<u8>, width: int, height: int, x: int, y: int, channel: int)
    requires
        width > 0,
        height > 0,
        0 <= x < even_size(width),
        0 <= y < even_size(height),
        0 <= channel < 4,
    ensures
        rgba_at(padded_frame(source, width, height), even_size(width), x, y, channel) == rgba_at(
            source,
            width,
            if x < width { x } else { width - 1 },
            if y < height { y } else { height - 1 },
            channel,
        ),
{
    let padded_width = even_size(width);
    let padded_height = even_size(height);
    lemma_rgba_index(padded_width, x, y, channel);
    assert((y * padded_width + x) * 4 + channel < padded_width * padded_height * 4) by (nonlinear_arith)
        requires
            0 <= x < padded_width,
            0 <= y < padded_height,
            0 <= channel < 4,
    ;
    assert(0 <= (y * padded_width + x) * 4 + channel) by (nonlinear_arith)
        requires
            0 <= x,
            0 <= y,
            0 <= channel,
            padded_width > 0,
    ;
}

/// Padding to even dimensions keeps every source pixel where it was, adds a
/// row at the bottom only for an odd height and a column at the right only
/// for an odd width, and fills them by repeating: the extra row equals the
/// source's last row, and the extra column equals each row's last pixel.
pub proof fn lemma_padding_repeats_edges(
    source: Seq<u8>,
    width: int,
    height: int,
    x: int,
    y: int,
    channel: int,
)
    requires
        width > 0,
        height > 0,
        0 <= channel < 4,
    ensures
        even_size(width) == width + width % 2,
        even_size(height) == height + height % 2,
        padded_frame(source, width, height).len() == even_size(width) * even_size(height) * 4,
        0 <= x < width && 0 <= y < height ==> rgba_at(
            padded_frame(source, width, height),
            even_size(width),
            x,
            y,
            channel,
        ) == rgba_at(source, width, x, y, channel),
        height % 2 == 1 && 0 <= x < even_size(width) ==> rgba_at(
            padded_frame(source, width, height),
            even_size(width),
            x,
            height,
            channel,
        ) == rgba_at(padded_frame(source, width, height), even_size(width), x, height - 1, channel),
        width % 2 == 1 && 0 <= y < even_size(height) ==> rgba_at(
            padded_frame(source, width, height),
            even_size(width),
            width,
            y,
            channel,
        ) == rgba_at(padded_frame(source, width, height), even_size(width), width - 1, y, channel),
{
    assert(even_size(width) * even_size(height) * 4 >= 0) by (nonlinear_arith)
        requires
            width > 0,
            height > 0,
            even_size(width) >= width,
            even_size(height) >= height,
    ;
    if 0 <= x < width && 0 <= y < height {
        lemma_padded_pixel(source, width, height, x, y, channel);
    }
    if height % 2 == 1 && 0 <= x < even_size(width) {
        lemma_padded_pixel(source, width, height, x, height, channel);
        lemma_padded_pixel(source, width, height, x, height - 1, channel);
    }
    if width % 2 == 1 && 0 <= y < even_size(height) {
        lemma_padded_pixel(source, width, height, width, y, channel);
        lemma_padded_pixel(source, width, height, width - 1, y, channel);
    }
}

/// Pads a `width` x `height` RGBA frame to even dimensions by repeating its
/// last column and its last row.
pub fn pad_rgba(source: &[u8], width: u32, height: u32) -> (padded: Vec<u8>)
    requires
        width > 0,
        height > 0,
        source@.len() == width * height * 4,
        even_size(width as int) * even_size(height as int) * 4 <= usize::MAX,
    ensures
        padded@ == padded_frame(source@, width as int, height as int),
{
    let source_len = source.len();
    assert(source_len == source@.len());
    assert(even_size(width as int) * 4 <= even_size(width as int) * even_size(height as int) * 4
        && even_size(height as int) <= even_size(width as int) * even_size(height as int) * 4)
        by (nonlinear_arith)
        requires
            even_size(width as int) >= 1,
            even_size(height as int) >= 1,
    ;
    let padded_width = width as usize + (width % 2) as usize;
    let padded_height = height as usize + (height % 2) as usize;
    let source_stride = width as usize * 4;
    let ghost image = padded_frame(source@, width as int, height as int);
    assert(padded_width <= padded_width * padded_height) by (nonlinear_arith)
        requires
            padded_height >= 1,
    ;
    assert(width * 4 <= width * height * 4) by (nonlinear_arith)
        requires
            height >= 1,
    ;
    let mut padded: Vec<u8> = Vec::with_capacity(padded_width * padded_height * 4);
    let mut y: usize = 0;
    let mut row_base: usize = 0;
    assert(0 * width * 4 == 0);
    while y < padded_height
        invariant
            padded_width == even_size(width as int),
            padded_height == even_size(height as int),
            source_stride == width * 4,
            padded_width * padded_height * 4 <= usize::MAX,
            source@.len() == width * height * 4,
            width > 0,
            height > 0,
            source@.len() <= usize::MAX,
            image == padded_frame(source@, width as int, height as int),
            y <= padded_height,
            row_base == (if y < height { y as int } else { height - 1 }) * width * 4,
            padded@ == image.take(y * padded_width * 4),
        decreases padded_height - y,
    {
        let ghost sy: int = if y < height { y as int } else { height - 1 };
        assert(row_base + source_stride <= source@.len()) by (nonlinear_arith)
            requires
                row_base == sy * width * 4,
                0 <= sy < height,
                source_stride == width * 4,
                source@.len() == width * height * 4,
        ;
        let mut x: usize = 0;
        while x < padded_width
            invariant
                padded_width == even_size(width as int),
                padded_height == even_size(height as int),
                source_stride == width * 4,
                padded_width * padded_height * 4 <= usize::MAX,
                source@.len() == width * height * 4,
                width > 0,
                height > 0,
                source@.len() <= usize::MAX,
                image == padded_frame(source@, width as int, height as int),
                y < padded_height,
                sy == (if y < height { y as int } else { height - 1 }),
                row_base == sy * width * 4,
                row_base + source_stride <= source@.len(),
                x <= padded_width,
                padded@ == image.take((y * padded_width + x) * 4),
            decreases padded_width - x,
        {
            let sx: usize = if x < width as usize { x } else { width as usize - 1 };
            assert(row_base + sx * 4 + 4 <= source@.len());
            let at = row_base + sx * 4;
            let ghost start = (y * padded_width + x) * 4;
            proof {
                assert(at == (sy * width + sx) * 4) by (nonlinear_arith)
                    requires
                        row_base == sy * width * 4,
                        at == row_base + sx * 4,
                ;
                assert(start + 4 <= padded_width * padded_height * 4) by (nonlinear_arith)
                    requires
                        start == (y * padded_width + x) * 4,
                        x < padded_width,
                        y < padded_height,
                ;
                lemma_rgba_index(padded_width as int, x as int, y as int, 0);
                lemma_rgba_index(padded_width as int, x as int, y as int, 1);
                lemma_rgba_index(padded_width as int, x as int, y as int, 2);
                lemma_rgba_index(padded_width as int, x as int, y as int, 3);
            }
            padded.push(source[at]);
            padded.push(source[at + 1]);
            padded.push(source[at + 2]);
            padded.push(source[at + 3]);
            proof {
                assert(padded@ =~= image.take(start + 4));
            }
            x = x + 1;
        }
        proof {
            assert((y * padded_width + padded_width) * 4 == (y + 1) * padded_width * 4)
                by (nonlinear_arith);
        }
        if y + 1 < height as usize {
            assert(row_base + source_stride <= source@.len());
            row_base = row_base + source_stride;
            proof {
                assert(row_base == (y + 1) * width * 4) by (nonlinear_arith)
                    requires
                        row_base == y * width * 4 + width * 4,
                ;
            }
        }
        y = y + 1;
    }
    proof {
        assert(image.len() == padded_height * padded_width * 4) by (nonlinear_arith)
            requires
                image.len() == padded_width * padded_height * 4,
        ;
        assert(padded@ =~= image);
    }
    padded
}

/// Byte `index` of an RGBA frame converted from BGRA with opaque alpha.
pub open spec fn bgra_byte(bgra: Seq<u8>, index: int) -> u8 {
    let base = index - index % 4;
    let channel = index % 4;
    if channel == 3 { 255 } else { bgra[base + 2 - channel] }
}

/// Converts a BGRA buffer into RGBA, forcing every pixel opaque.
pub fn bgra_to_rgba(bgra: &[u8]) -> (rgba: Vec<u8>)
    requires
        bgra@.len() % 4 == 0,
    ensures
        rgba@ == Seq::new(bgra@.len(), |index: int| bgra_byte(bgra@, index)),
{
    let ghost image = Seq::new(bgra@.len(), |index: int| bgra_byte(bgra@, index));
    let mut rgba: Vec<u8> = Vec::with_capacity(bgra.len());
    let mut at: usize = 0;
    while at < bgra.len()
        invariant
            bgra@.len() % 4 == 0,
            at % 4 == 0,
            at <= bgra@.len(),
            image == Seq::new(bgra@.len(), |index: int| bgra_byte(bgra@, index)),
            rgba@ == image.take(at as int),
        decreases bgra@.len() - at,
    {
        rgba.push(bgra[at + 2]);
        rgba.push(bgra[at + 1]);
        rgba.push(bgra[at]);
        rgba.push(255);
        proof {
            assert(rgba@ =~= image.take(at + 4));
        }
        at = at + 4;
    }
    proof {
        assert(rgba@ =~= image);
    }
    rgba
}

} // verus!
