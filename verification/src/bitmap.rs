//! Bitmap image loader for 24-bit uncompressed BMP files.
use vstd::prelude::*;

verus! {

/// Size of the BMP file header together with the BMP info header, in bytes.
pub const HEADER_SIZE: usize = 54;

/// Create a 32-bit ARGB color value from individual red, green, blue, and alpha components.
pub open spec fn color_spec(r: u8, g: u8, b: u8, a: u8) -> u32 {
    (a as int * 0x100_0000 + r as int * 0x1_0000 + g as int * 0x100 + b as int) as u32
}

/// Create a 32-bit ARGB color value from individual red, green, blue, and alpha components.
pub fn color(r: u8, g: u8, b: u8, a: u8) -> (c: u32)
    ensures
        c == color_spec(r, g, b, a),
        c == a as int * 0x100_0000 + r as int * 0x1_0000 + g as int * 0x100 + b as int,
{
    let c = ((a as u32) << 24) | ((r as u32) << 16) | ((g as u32) << 8) | (b as u32);
    assert(c == (a as u32) * 0x100_0000 + (r as u32) * 0x1_0000 + (g as u32) * 0x100 + (b as u32)) by (bit_vector)
        requires
            c == ((a as u32) << 24) | ((r as u32) << 16) | ((g as u32) << 8) | (b as u32),
    ;
    c
}

/// The little-endian 16-bit value at offset `o`.
pub open spec fn le_u16(d: Seq<u8>, o: int) -> int {
    d[o] as int + d[o + 1] as int * 0x100
}

/// The little-endian 32-bit value at offset `o`.
pub open spec fn le_u32(d: Seq<u8>, o: int) -> int {
    d[o] as int + d[o + 1] as int * 0x100 + d[o + 2] as int * 0x1_0000 + d[o + 3] as int * 0x100_0000
}

/// The compression methods the loader accepts; both mean uncompressed pixel data.
#[derive(Clone, Copy, Debug, PartialEq, Eq)]
pub enum Compression {
    Rgb,
    BitFields,
}

/// The BMP info header.
#[derive(Clone, Copy, Debug, PartialEq, Eq)]
pub struct BitmapInfoHeader {
    pub header_size: u32,
    pub width: i32,
    pub height: i32,
    pub color_planes: u16,
    pub bits_per_pixel: u16,
    pub compression: Compression,
    pub image_size: u32,
    pub x_pixels_per_meter: i32,
    pub y_pixels_per_meter: i32,
    pub colors_used: u32,
    pub important_colors: u32,
}

/// The BMP file header.
#[derive(Clone, Copy, Debug, PartialEq, Eq)]
pub struct BitmapFileHeader {
    pub signature: (u8, u8),
    pub file_size: u32,
    pub reserved: u32,
    pub data_offset: u32,
    pub info_header: BitmapInfoHeader,
}

/// Width of the image as stored in the file.
pub open spec fn raw_width(d: Seq<u8>) -> int {
    le_u32(d, 18)
}

/// Height of the image as stored in the file.
pub open spec fn raw_height(d: Seq<u8>) -> int {
    le_u32(d, 22)
}

/// Offset of the pixel data.
pub open spec fn data_offset(d: Seq<u8>) -> int {
    le_u32(d, 10)
}

/// Bytes per row of pixels: three bytes per pixel, padded to a multiple of four.
pub open spec fn row_size(width: int) -> int {
    (width * 3 + 3) / 4 * 4
}

/// `d` holds a BMP image that the loader supports: the signature is `BM`,
/// pixels take 24 bits, the data is uncompressed, width and height are not
/// negative, and the file holds all rows of pixel data.
pub open spec fn is_supported_bmp(d: Seq<u8>) -> bool {
    &&& d.len() >= HEADER_SIZE
    &&& d[0] == 0x42u8
    &&& d[1] == 0x4Du8
    &&& le_u16(d, 28) == 24
    &&& (le_u32(d, 30) == 0 || le_u32(d, 30) == 3)
    &&& raw_width(d) < 0x8000_0000
    &&& raw_height(d) < 0x8000_0000
    &&& data_offset(d) + row_size(raw_width(d)) * raw_height(d) <= d.len()
}

/// The header stored in the first `HEADER_SIZE` bytes of a supported image.
pub open spec fn header_of(d: Seq<u8>) -> BitmapFileHeader {
    BitmapFileHeader {
        signature: (d[0], d[1]),
        file_size: le_u32(d, 2) as u32,
        reserved: le_u32(d, 6) as u32,
        data_offset: data_offset(d) as u32,
        info_header: BitmapInfoHeader {
            header_size: le_u32(d, 14) as u32,
            width: raw_width(d) as i32,
            height: raw_height(d) as i32,
            color_planes: le_u16(d, 26) as u16,
            bits_per_pixel: le_u16(d, 28) as u16,
            compression: if le_u32(d, 30) == 0 { Compression::Rgb } else { Compression::BitFields },
            image_size: le_u32(d, 34) as u32,
            x_pixels_per_meter: (le_u32(d, 38) as u32) as i32,
            y_pixels_per_meter: (le_u32(d, 42) as u32) as i32,
            colors_used: le_u32(d, 46) as u32,
            important_colors: le_u32(d, 50) as u32,
        },
    }
}

/// Pixel `x` of output row `i`: the rows are stored bottom-up, each pixel as blue, green, red.
pub open spec fn pixel_at(d: Seq<u8>, i: int, x: int) -> u32 {
    let p = data_offset(d) + (raw_height(d) - 1 - i) * row_size(raw_width(d)) + 3 * x;
    color_spec(d[p + 2], d[p + 1], d[p], 255)
}

/// Represents a bitmap image loaded from a BMP file.
/// The pixel data is stored as 32-bit color values in ARGB format, top row first.
pub struct Bitmap {
    header: BitmapFileHeader,
    pixel_data: Vec<u32>,
}

/// An error reading the file.
#[derive(Clone, Copy, Debug, PartialEq, Eq)]
pub enum FsError {
    NotFound,
    ReadFailed,
}

/// Read the little-endian 16-bit value at offset `o`.
fn read_u16(d: &[u8], o: usize) -> (r: u16)
    requires
        o + 2 <= d@.len(),
    ensures
        r == le_u16(d@, o as int),
{
    d[o] as u16 + d[o + 1] as u16 * 0x100
}

/// Read the little-endian 32-bit value at offset `o`.
fn read_u32(d: &[u8], o: usize) -> (r: u32)
    requires
        o + 4 <= d@.len(),
    ensures
        r == le_u32(d@, o as int),
{
    d[o] as u32 + d[o + 1] as u32 * 0x100 + d[o + 2] as u32 * 0x1_0000 + d[o + 3] as u32 * 0x100_0000
}

/// `b` is the image that the bytes `d` hold: its header is the file's, and
/// its pixels are the file's rows, top row first.
pub open spec fn parsed_from(b: Bitmap, d: Seq<u8>) -> bool {
    let w = raw_width(d);
    let h = raw_height(d);
    &&& b.header() == header_of(d)
    &&& b.header().info_header.width == w
    &&& b.header().info_header.height == h
    &&& b.pixels().len() == w * h
    &&& forall|i: int, x: int| 0 <= i < h && 0 <= x < w ==> b.pixels()[i * w + x] == #[trigger] pixel_at(d, i, x)
}

impl Bitmap {
    pub closed spec fn header(&self) -> BitmapFileHeader {
        self.header
    }

    pub closed spec fn pixels(&self) -> Seq<u32> {
        self.pixel_data@
    }

    /// Parse a bitmap image from the given bytes.
    /// Returns `Some(Bitmap)` if the data represents a valid and supported BMP image,
    /// `None` if it does not.
    pub fn from_bytes(data: &[u8]) -> (r: Option<Bitmap>)
        ensures
            r is Some <==> is_supported_bmp(data@),
            r matches Some(b) ==> parsed_from(b, data@),
    {
        if data.len() < HEADER_SIZE {
            return None;
        }
        if data[0] != 0x42 || data[1] != 0x4D {
            return None;
        }
        let bits_per_pixel = read_u16(data, 28);
        if bits_per_pixel != 24 {
            return None;
        }
        let compression_code = read_u32(data, 30);
        let compression = if compression_code == 0 {
            Compression::Rgb
        } else if compression_code == 3 {
            Compression::BitFields
        } else {
            return None;
        };
        let raw_w = read_u32(data, 18);
        let raw_h = read_u32(data, 22);
        if raw_w >= 0x8000_0000 || raw_h >= 0x8000_0000 {
            return None;
        }
        let data_offset = read_u32(data, 10);
        let width = raw_w as u64;
        let height = raw_h as u64;
        let unpadded = (width * 3) + 3;
        let row = unpadded & !3u64;
        assert(row == unpadded / 4 * 4) by (bit_vector)
            requires
                row == unpadded & !3u64,
        ;
        assert(row * height <= 0xC000_0000_0000_0000) by (nonlinear_arith)
            requires
                row <= 0x1_8000_0000,
                height < 0x8000_0000,
        ;
        let needed = data_offset as u64 + row * height;
        if (data.len() as u64) < needed {
            return None;
        }
        let header = BitmapFileHeader {
            signature: (data[0], data[1]),
            file_size: read_u32(data, 2),
            reserved: read_u32(data, 6),
            data_offset,
            info_header: BitmapInfoHeader {
                header_size: read_u32(data, 14),
                width: raw_w as i32,
                height: raw_h as i32,
                color_planes: read_u16(data, 26),
                bits_per_pixel,
                compression,
                image_size: read_u32(data, 34),
                x_pixels_per_meter: read_u32(data, 38) as i32,
                y_pixels_per_meter: read_u32(data, 42) as i32,
                colors_used: read_u32(data, 46),
                important_colors: read_u32(data, 50),
            },
        };
        let pixel_data = Self::read_pixels(data, data_offset as u64, row, width, height);
        Some(Bitmap { header, pixel_data })
    }

    /// Copy the pixel rows, bottom row of the file first, into ARGB values.
    fn read_pixels(data: &[u8], offset: u64, row: u64, width: u64, height: u64) -> (pixels: Vec<u32>)
        requires
            offset == data_offset(data@),
            width == raw_width(data@),
            height == raw_height(data@),
            row == row_size(width as int),
            offset + row * height <= data@.len(),
        ensures
            pixels@.len() == width * height,
            forall|i: int, x: int| 0 <= i < height && 0 <= x < width ==> pixels@[i * width + x] == #[trigger] pixel_at(data@, i, x),
    {
        let len = data.len();
        let mut pixels: Vec<u32> = Vec::new();
        let mut i: u64 = 0;
        while i < height
            invariant
                len == data@.len(),
                offset == data_offset(data@),
                width == raw_width(data@),
                height == raw_height(data@),
                row == row_size(width as int),
                offset + row * height <= len,
                i <= height,
                pixels@.len() == i * width,
                forall|ii: int, x: int| 0 <= ii < i && 0 <= x < width ==> pixels@[ii * width + x] == #[trigger] pixel_at(data@, ii, x),
            decreases height - i,
        {
            let y = height - 1 - i;
            proof {
                lemma_row_in_bounds(offset as int, row as int, width as int, height as int, y as int);
            }
            let row_start = offset + y * row;
            let mut x: u64 = 0;
            while x < width
                invariant
                    len == data@.len(),
                    offset == data_offset(data@),
                    width == raw_width(data@),
                    height == raw_height(data@),
                    row == row_size(width as int),
                    i < height,
                    y == height - 1 - i,
                    row_start == offset + y * row,
                    row_start + 3 * width <= len,
                    x <= width,
                    pixels@.len() == i * width + x,
                    forall|ii: int, xx: int| 0 <= ii < i && 0 <= xx < width ==> pixels@[ii * width + xx] == #[trigger] pixel_at(data@, ii, xx),
                    forall|xx: int| 0 <= xx < x ==> pixels@[i * width + xx] == #[trigger] pixel_at(data@, i as int, xx),
                decreases width - x,
            {
                let p = (row_start + 3 * x) as usize;
                let b = data[p];
                let g = data[p + 1];
                let r = data[p + 2];
                let c = color(r, g, b, 255);
                let ghost before = pixels@;
                pixels.push(c);
                proof {
                    assert forall|ii: int, xx: int| 0 <= ii < i && 0 <= xx < width implies pixels@[ii * width + xx] == #[trigger] pixel_at(data@, ii, xx) by {
                        lemma_row_index(ii, i as int, width as int, xx);
                        assert(pixels@[ii * width + xx] == before[ii * width + xx]);
                    }
                }
                x = x + 1;
            }
            proof {
                assert forall|ii: int, xx: int| 0 <= ii < i + 1 && 0 <= xx < width implies pixels@[ii * width + xx] == #[trigger] pixel_at(data@, ii, xx) by {
                    if ii == i {
                    }
                }
                assert(pixels@.len() == (i + 1) * width) by (nonlinear_arith)
                    requires pixels@.len() == i * width + width;
            }
            i = i + 1;
        }
        assert(pixels@.len() == width * height) by (nonlinear_arith)
            requires pixels@.len() == i * width, i == height;
        pixels
    }

    /// Get the width of the bitmap in pixels.
    pub fn width(&self) -> (w: u32)
        ensures
            w == self.header().info_header.width as u32,
    {
        self.header.info_header.width as u32
    }

    /// Get the height of the bitmap in pixels.
    pub fn height(&self) -> (h: u32)
        ensures
            h == self.header().info_header.height as u32,
    {
        self.header.info_header.height as u32
    }

    /// Get the pixel data of the bitmap, in 32-bit ARGB format, top row first.
    pub fn pixel_data(&self) -> (p: &[u32])
        ensures
            p@ == self.pixels(),
    {
        self.pixel_data.as_slice()
    }

    /// The outcome of reading a bitmap file, given what reading its bytes gave:
    /// the read error, or the parsed image (`None` if it is not a supported BMP).
    pub fn read_from_file(contents: Result<Vec<u8>, FsError>) -> (r: Result<Option<Bitmap>, FsError>)
        ensures
            match contents {
                Err(e) => r == Err::<Option<Bitmap>, FsError>(e),
                Ok(d) => r matches Ok(b) && (b is Some <==> is_supported_bmp(d@)) && (b matches Some(bm) ==> parsed_from(bm, d@)),
            },
    {
        match contents {
            Err(e) => Err(e),
            Ok(d) => Ok(Bitmap::from_bytes(d.as_slice())),
        }
    }
}

/// The row size, said without `row_size`: the only multiple of four in
/// `[3 * width, 3 * width + 4)`.
proof fn lemma_row_size_unique(width: int, row: int)
    requires
        width >= 0,
        row % 4 == 0,
        3 * width <= row < 3 * width + 4,
    ensures
        row_size(width) == row,
{
    let r = row_size(width);
    vstd::arithmetic::div_mod::lemma_fundamental_div_mod(3 * width + 3, 4);
    vstd::arithmetic::div_mod::lemma_fundamental_div_mod(row, 4);
    assert(r == (3 * width + 3) / 4 * 4);
    assert(r % 4 == 0 && 3 * width <= r < 3 * width + 4) by (nonlinear_arith)
        requires
            r == (3 * width + 3) / 4 * 4,
            3 * width + 3 == 4 * ((3 * width + 3) / 4) + (3 * width + 3) % 4,
            0 <= (3 * width + 3) % 4 < 4,
    ;
    let q1 = r / 4;
    let q2 = row / 4;
    vstd::arithmetic::div_mod::lemma_fundamental_div_mod(r, 4);
    assert(q1 == q2) by (nonlinear_arith)
        requires
            r == 4 * q1,
            row == 4 * q2,
            r - row < 4,
            row - r < 4,
    ;
}

/// Which files are supported, and what their pixels are, said with the raw
/// bytes of the file: the signature "BM", 24 bits per pixel, compression 0
/// or 3, width and height below 2^31 (not negative), the pixel data of
/// `height` rows of `row` bytes (three bytes per pixel, padded to a multiple
/// of four) inside the file; pixel `x` of row `i` from the top is the opaque
/// color of the blue, green and red bytes at row `height - 1 - i`.
pub proof fn lemma_bmp_bytes(d: Seq<u8>, row: int, i: int, x: int)
    requires
        d.len() >= 54,
        ({
            let w = d[18] + d[19] * 0x100 + d[20] * 0x1_0000 + d[21] * 0x100_0000;
            row % 4 == 0 && 3 * w <= row < 3 * w + 4
        }),
    ensures
        ({
            let w = d[18] + d[19] * 0x100 + d[20] * 0x1_0000 + d[21] * 0x100_0000;
            let h = d[22] + d[23] * 0x100 + d[24] * 0x1_0000 + d[25] * 0x100_0000;
            let off = d[10] + d[11] * 0x100 + d[12] * 0x1_0000 + d[13] * 0x100_0000;
            &&& is_supported_bmp(d) <==> {
                &&& d[0] == 0x42 && d[1] == 0x4D
                &&& d[28] == 24 && d[29] == 0
                &&& d[30] == 0 || d[30] == 3
                &&& d[31] == 0 && d[32] == 0 && d[33] == 0
                &&& d[21] < 0x80 && d[25] < 0x80
                &&& off + row * h <= d.len()
            }
            &&& is_supported_bmp(d) && 0 <= i < h && 0 <= x < w ==> {
                let p = off + (h - 1 - i) * row + 3 * x;
                &&& 0 <= p && p + 2 < d.len()
                &&& pixel_at(d, i, x) == 0xFF00_0000 + d[p + 2] * 0x1_0000 + d[p + 1] * 0x100 + d[p]
            }
        }),
{
    let w = raw_width(d);
    lemma_row_size_unique(w, row);
    if is_supported_bmp(d) && 0 <= i < raw_height(d) && 0 <= x < w {
        lemma_row_in_bounds(data_offset(d), row, w, raw_height(d), raw_height(d) - 1 - i);
    }
}

/// Row `y` of the pixel data, three bytes per pixel, lies inside the data.
proof fn lemma_row_in_bounds(offset: int, row: int, width: int, height: int, y: int)
    requires
        0 <= width,
        0 <= y < height,
        row == row_size(width),
        0 <= offset,
    ensures
        offset + y * row + 3 * width <= offset + row * height,
        0 <= y * row,
{
    assert(3 * width <= row);
    assert(y * row + row <= row * height) by (nonlinear_arith)
        requires y < height, 0 <= row;
    assert(0 <= y * row) by (nonlinear_arith)
        requires 0 <= y, 0 <= row;
}

/// Index arithmetic for row-major storage: rows before row `i` end before it starts.
proof fn lemma_row_index(ii: int, i: int, width: int, xx: int)
    requires
        0 <= ii < i,
        0 <= xx < width,
    ensures
        0 <= ii * width + xx < i * width,
{
    assert(ii * width + width <= i * width) by (nonlinear_arith)
        requires ii < i, 0 <= width;
    assert(0 <= ii * width) by (nonlinear_arith)
        requires 0 <= ii, 0 <= width;
}

} // verus!
