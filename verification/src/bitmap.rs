//! Decoding the application icon, an uncompressed 32-bit Windows bitmap.

use vstd::prelude::*;
use vstd::arithmetic::div_mod::lemma_fundamental_div_mod_converse;

verus! {

/// A decoded image: `width` by `height` pixels, row by row from the top,
/// each pixel red, green, blue and (not premultiplied) alpha.
pub struct BmpImage {
    pub width: usize,
    pub height: usize,
    pub pixels: Vec<(u8, u8, u8, u8)>,
}

pub open spec fn le_u16(d: Seq<u8>, i: int) -> int {
    d[i] + 256 * d[i + 1]
}

pub open spec fn le_u32(d: Seq<u8>, i: int) -> int {
    d[i] + 256 * d[i + 1] + 65536 * d[i + 2] + 16777216 * d[i + 3]
}

/// A little-endian two's-complement `i32`.
pub open spec fn le_i32(d: Seq<u8>, i: int) -> int {
    let u = le_u32(d, i);
    if u >= 0x8000_0000 {
        u - 0x1_0000_0000
    } else {
        u
    }
}

/// A file header naming an uncompressed 32-bit bitmap of positive width.
pub open spec fn bmp_header_ok(d: Seq<u8>) -> bool {
    &&& d.len() >= 54
    &&& d[0] == 66
    &&& d[1] == 77
    &&& le_u16(d, 28) == 32
    &&& le_u32(d, 30) == 0
    &&& le_i32(d, 18) > 0
}

/// Where the pixel data starts.
pub open spec fn bmp_offset(d: Seq<u8>) -> int {
    le_u32(d, 10)
}

pub open spec fn bmp_width(d: Seq<u8>) -> int {
    le_i32(d, 18)
}

/// The number of rows; a negative height stores them from the top.
pub open spec fn bmp_rows(d: Seq<u8>) -> int {
    let h = le_i32(d, 22);
    if h < 0 {
        -h
    } else {
        h
    }
}

pub open spec fn bmp_top_down(d: Seq<u8>) -> bool {
    le_i32(d, 22) < 0
}

/// Whether every pixel the header announces is in the data.
pub open spec fn bmp_fits(d: Seq<u8>) -> bool {
    bmp_rows(d) == 0 || bmp_offset(d) + bmp_width(d) * bmp_rows(d) * 4 <= d.len()
}

/// Whether any stored pixel has a non-zero alpha byte; if none has, the
/// image counts as opaque.
pub open spec fn bmp_has_alpha(d: Seq<u8>) -> bool {
    exists|k: int|
        0 <= k < bmp_width(d) * bmp_rows(d) && #[trigger] d[bmp_offset(d) + 4 * k + 3] != 0
}

/// The pixel at `row` (from the top) and `column`.
pub open spec fn bmp_pixel(d: Seq<u8>, row: int, column: int) -> (u8, u8, u8, u8) {
    let source = if bmp_top_down(d) {
        row
    } else {
        bmp_rows(d) - 1 - row
    };
    let i = bmp_offset(d) + (source * bmp_width(d) + column) * 4;
    (d[i + 2], d[i + 1], d[i], if bmp_has_alpha(d) {
        d[i + 3]
    } else {
        255
    })
}

/// All pixels, row by row from the top.
pub open spec fn bmp_pixels(d: Seq<u8>) -> Seq<(u8, u8, u8, u8)> {
    Seq::new(
        (bmp_width(d) * bmp_rows(d)) as nat,
        |k: int| bmp_pixel(d, k / bmp_width(d), k % bmp_width(d)),
    )
}

fn read_u16(d: &[u8], i: usize) -> (r: u32)
    requires
        i + 2 <= d@.len(),
    ensures
        r == le_u16(d@, i as int),
{
    d[i] as u32 + 256 * d[i + 1] as u32
}

fn read_u32(d: &[u8], i: usize) -> (r: u64)
    requires
        i + 4 <= d@.len(),
    ensures
        r == le_u32(d@, i as int),
{
    d[i] as u64 + 256 * d[i + 1] as u64 + 65536 * d[i + 2] as u64 + 16777216 * d[i + 3] as u64
}

proof fn lemma_index_in_image(source: int, column: int, width: int, rows: int)
    requires
        0 <= source < rows,
        0 <= column < width,
    ensures
        0 <= (source * width + column) * 4 + 3 < width * rows * 4,
        source * width + column < width * rows,
        0 <= source * width,
{
    assert(source * width + column < width * rows) by (nonlinear_arith)
        requires
            0 <= source < rows,
            0 <= column < width,
    ;
    assert(0 <= source * width) by (nonlinear_arith)
        requires
            0 <= source,
            0 <= width,
    ;
}

/// Decodes an uncompressed 32-bit bitmap. Anything else, and a bitmap
/// whose pixels run past the data, gives `None`. A bitmap whose alpha bytes
/// are all zero is read as opaque.
pub fn decode_bmp(data: &[u8]) -> (r: Option<BmpImage>)
    requires
        bmp_header_ok(data@) ==> bmp_offset(data@) <= data@.len(),
        bmp_header_ok(data@) ==> bmp_width(data@) * bmp_rows(data@) * 4 <= isize::MAX,
    ensures
        r is Some <==> bmp_header_ok(data@) && bmp_fits(data@),
        r matches Some(image) ==> image.width == bmp_width(data@) && image.height == bmp_rows(
            data@,
        ) && image.pixels@ == bmp_pixels(data@),
{
    if data.len() < 54 || data[0] != 66 || data[1] != 77 {
        return None;
    }
    let offset = read_u32(data, 10);
    let width_raw = read_u32(data, 18);
    let height_raw = read_u32(data, 22);
    let bpp = read_u16(data, 28);
    let compression = read_u32(data, 30);
    if bpp != 32 || compression != 0 || width_raw == 0 || width_raw >= 0x8000_0000 {
        return None;
    }
    let ghost d = data@;
    let top_down = height_raw >= 0x8000_0000;
    let rows_wide: u64 = if top_down {
        0x1_0000_0000 - height_raw
    } else {
        height_raw
    };
    assert(rows_wide == bmp_rows(d));
    assert(width_raw == bmp_width(d));
    assert(top_down == bmp_top_down(d));
    if rows_wide > 0 {
        assert((width_raw as int) * (rows_wide as int) * 4 <= 0x8000_0000 * 0x8000_0000 * 4)
            by (nonlinear_arith)
            requires
                width_raw < 0x8000_0000,
                rows_wide <= 0x8000_0000,
        ;
        let needed: u128 = (width_raw as u128) * (rows_wide as u128) * 4;
        if (offset as u128) + needed > data.len() as u128 {
            return None;
        }
    }
    assert(bmp_header_ok(d) && bmp_fits(d));
    let offset = offset as usize;
    let width = width_raw as usize;
    let rows = rows_wide as usize;
    proof {
        assert(width * rows * 4 <= isize::MAX);
        assert(0 <= (width as int) * (rows as int)) by (nonlinear_arith)
            requires
                0 <= width,
                0 <= rows,
        ;
    }
    let count: usize = width * rows;
    proof {
        if count > 0 {
            assert(rows > 0) by (nonlinear_arith)
                requires
                    count == width * rows,
                    count > 0,
                    rows >= 0,
            ;
        }
    }
    // Opaque unless some stored alpha byte is set.
    let mut has_alpha = false;
    let n = data.len();
    let mut k: usize = 0;
    while k < count
        invariant
            k <= count,
            count == bmp_width(d) * bmp_rows(d),
            offset == bmp_offset(d),
            d == data@,
            count > 0 ==> offset + count * 4 <= d.len(),
            n == d.len(),
            has_alpha == exists|j: int| 0 <= j < k && #[trigger] d[offset + 4 * j + 3] != 0,
        decreases count - k,
    {
        if data[offset + 4 * k + 3] != 0 {
            has_alpha = true;
        }
        k = k + 1;
    }
    assert(has_alpha == bmp_has_alpha(d));
    let mut pixels: Vec<(u8, u8, u8, u8)> = Vec::new();
    let ghost f = |k: int| bmp_pixel(d, k / bmp_width(d), k % bmp_width(d));
    let mut row: usize = 0;
    while row < rows
        invariant
            row <= rows,
            rows == bmp_rows(d),
            width == bmp_width(d),
            width > 0,
            offset == bmp_offset(d),
            top_down == bmp_top_down(d),
            has_alpha == bmp_has_alpha(d),
            d == data@,
            n == d.len(),
            rows == 0 || offset + width * rows * 4 <= d.len(),
            f == (|k: int| bmp_pixel(d, k / bmp_width(d), k % bmp_width(d))),
            pixels@ == Seq::new((row * width) as nat, f),
        decreases rows - row,
    {
        let source = if top_down {
            row
        } else {
            rows - 1 - row
        };
        proof {
            lemma_index_in_image(source as int, 0, width as int, rows as int);
            assert((source + 1) * width <= rows * width) by (nonlinear_arith)
                requires
                    0 <= source < rows,
                    0 <= width,
            ;
            assert(rows * width == width * rows) by (nonlinear_arith);
            assert((source + 1) * width == source * width + width) by (nonlinear_arith);
            assert(source * width * 4 + 4 <= width * rows * 4);
            assert(0 <= source * width * 4) by (nonlinear_arith)
                requires
                    0 <= source,
                    0 <= width,
            ;
        }
        let base = offset + source * width * 4;
        let mut column: usize = 0;
        while column < width
            invariant
                row < rows,
                column <= width,
                rows == bmp_rows(d),
                width == bmp_width(d),
                width > 0,
                offset == bmp_offset(d),
                top_down == bmp_top_down(d),
                has_alpha == bmp_has_alpha(d),
                source == (if top_down {
                    row as int
                } else {
                    rows - 1 - row
                }),
                0 <= source < rows,
                base == offset + source * width * 4,
                d == data@,
                n == d.len(),
                offset + width * rows * 4 <= d.len(),
                f == (|k: int| bmp_pixel(d, k / bmp_width(d), k % bmp_width(d))),
                pixels@ == Seq::new((row * width + column) as nat, f),
            decreases width - column,
        {
            proof {
                lemma_index_in_image(source as int, column as int, width as int, rows as int);
                assert(base + column * 4 == offset + (source * width + column) * 4) by (
                nonlinear_arith)
                    requires
                        base == offset + source * width * 4,
                ;
                assert(row * width + column < rows * width) by (nonlinear_arith)
                    requires
                        row < rows,
                        column < width,
                ;
                assert(column * 4 < width * 4);
            }
            let i = base + column * 4;
            let blue = data[i];
            let green = data[i + 1];
            let red = data[i + 2];
            let alpha = if has_alpha {
                data[i + 3]
            } else {
                255
            };
            let ghost before = pixels@;
            pixels.push((red, green, blue, alpha));
            proof {
                let k = row * width + column;
                lemma_fundamental_div_mod_converse(k as int, width as int, row as int, column as int);
                assert(f(k as int) == (red, green, blue, alpha));
                assert(pixels@ =~= Seq::new((row * width + column + 1) as nat, f));
            }
            column = column + 1;
        }
        proof {
            assert((row + 1) * width == row * width + width) by (nonlinear_arith);
        }
        row = row + 1;
    }
    proof {
        assert(rows * width == width * rows) by (nonlinear_arith);
        assert(pixels@ =~= bmp_pixels(d));
    }
    Some(BmpImage { width, height: rows, pixels })
}

} // verus!
