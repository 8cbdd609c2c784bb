//! DPI scaling between the fixed logical client area and physical pixels.

use vstd::prelude::*;

verus! {

pub const BASE_CLIENT_WIDTH: i32 = 964;

pub const BASE_CLIENT_HEIGHT: i32 = 621;

pub const DEFAULT_DPI: u32 = 96;

/// Integer division rounding toward zero, as Rust's `/` does.
pub open spec fn div_toward_zero(a: int, b: int) -> int {
    if a >= 0 {
        a / b
    } else {
        -((-a) / b)
    }
}

/// `i32::saturating_mul`.
pub open spec fn saturating_product(a: int, b: int) -> int {
    if a * b > i32::MAX {
        i32::MAX as int
    } else if a * b < i32::MIN {
        i32::MIN as int
    } else {
        a * b
    }
}

/// `value` scaled from 96 DPI to `dpi` (at least 96), rounded half up.
pub open spec fn scaled(value: int, dpi: int) -> int {
    let d = if dpi < DEFAULT_DPI {
        DEFAULT_DPI as int
    } else {
        dpi
    };
    div_toward_zero(value * d + DEFAULT_DPI / 2, DEFAULT_DPI as int)
}

/// A client coordinate mapped through `physical_extent / logical_extent`.
pub open spec fn rescaled(value: int, numerator: int, denominator: int) -> int {
    div_toward_zero(saturating_product(value, numerator), denominator)
}

fn saturating_mul_i32(a: i32, b: i32) -> (r: i32)
    ensures
        r == saturating_product(a as int, b as int),
{
    assert((a as int) * (b as int) <= 0x8000_0000 * 0x8000_0000) by (nonlinear_arith)
        requires
            -0x8000_0000 <= a <= 0x7fff_ffff,
            -0x8000_0000 <= b <= 0x7fff_ffff,
    ;
    assert((a as int) * (b as int) >= -0x8000_0000 * 0x8000_0000) by (nonlinear_arith)
        requires
            -0x8000_0000 <= a <= 0x7fff_ffff,
            -0x8000_0000 <= b <= 0x7fff_ffff,
    ;
    let p = (a as i64) * (b as i64);
    if p > i32::MAX as i64 {
        i32::MAX
    } else if p < i32::MIN as i64 {
        i32::MIN
    } else {
        p as i32
    }
}

/// Scales a logical length for `dpi`; DPIs below 96 count as 96.
pub fn scale_for_dpi(value: i32, dpi: u32) -> (r: i32)
    ensures
        r == scaled(value as int, dpi as int) as i32,
{
    let dpi = if dpi > DEFAULT_DPI {
        dpi
    } else {
        DEFAULT_DPI
    };
    assert((value as i64) * (dpi as i64) <= 0x7fff_ffff * 0xffff_ffff) by (nonlinear_arith)
        requires
            value <= 0x7fff_ffff,
            0 <= dpi <= 0xffff_ffff,
    ;
    assert((value as i64) * (dpi as i64) >= -0x8000_0000 * 0xffff_ffff) by (nonlinear_arith)
        requires
            value >= -0x8000_0000,
            0 <= dpi <= 0xffff_ffff,
    ;
    let q = ((value as i64) * (dpi as i64) + (DEFAULT_DPI / 2) as i64) / (DEFAULT_DPI as i64);
    #[verifier::truncate]
    (q as i32)
}

/// Maps a physical client point back to logical coordinates. A client area
/// without extent leaves the point unchanged.
pub fn to_logical_point(
    physical_x: i32,
    physical_y: i32,
    client_width: i32,
    client_height: i32,
) -> (r: (i32, i32))
    ensures
        client_width <= 0 || client_height <= 0 ==> r == (physical_x, physical_y),
        client_width > 0 && client_height > 0 ==> r == (
            rescaled(physical_x as int, BASE_CLIENT_WIDTH as int, client_width as int) as i32,
            rescaled(physical_y as int, BASE_CLIENT_HEIGHT as int, client_height as int) as i32,
        ),
{
    if client_width <= 0 || client_height <= 0 {
        return (physical_x, physical_y);
    }
    (
        saturating_mul_i32(physical_x, BASE_CLIENT_WIDTH) / client_width,
        saturating_mul_i32(physical_y, BASE_CLIENT_HEIGHT) / client_height,
    )
}

/// Maps a logical coordinate to the physical client extent. Extents that
/// are not positive leave the value unchanged.
pub fn scale_to_client(value: i32, logical_extent: i32, physical_extent: i32) -> (r: i32)
    ensures
        logical_extent <= 0 || physical_extent <= 0 ==> r == value,
        logical_extent > 0 && physical_extent > 0 ==> r == rescaled(
            value as int,
            physical_extent as int,
            logical_extent as int,
        ),
{
    if logical_extent <= 0 || physical_extent <= 0 {
        return value;
    }
    saturating_mul_i32(value, physical_extent) / logical_extent
}

// ---------------------------------------------------------------------------
// Laws
// ---------------------------------------------------------------------------

/// At 96 DPI (or below) every non-negative length keeps its logical size.
pub proof fn law_default_dpi_is_identity(value: i32, dpi: u32)
    requires
        value >= 0,
        dpi <= DEFAULT_DPI,
    ensures
        scaled(value as int, dpi as int) == value,
{
    let v = value as int;
    assert((v * 96 + 48) / 96 == v) by (nonlinear_arith)
        requires
            v >= 0,
    ;
}

/// A larger DPI never gives a smaller length.
pub proof fn law_scaling_is_monotone_in_dpi(value: i32, low: u32, high: u32)
    requires
        value >= 0,
        low <= high,
    ensures
        scaled(value as int, low as int) <= scaled(value as int, high as int),
{
    let v = value as int;
    let l = if low < 96 {
        96int
    } else {
        low as int
    };
    let h = if high < 96 {
        96int
    } else {
        high as int
    };
    assert(v * l <= v * h) by (nonlinear_arith)
        requires
            v >= 0,
            l <= h,
    ;
    assert(v * l + 48 >= 0) by (nonlinear_arith)
        requires
            v >= 0,
            l >= 0,
    ;
    assert((v * l + 48) / 96 <= (v * h + 48) / 96) by (nonlinear_arith)
        requires
            0 <= v * l + 48 <= v * h + 48,
    ;
}

/// A logical coordinate sent to a client at least as large as the logical
/// area, and mapped back, lands on itself or one pixel before it.
pub proof fn law_hit_testing_round_trip(x: i32, logical: i32, physical: i32)
    requires
        0 <= x,
        0 < logical <= physical,
        x as int * physical as int <= i32::MAX,
    ensures
        ({
            let there = rescaled(x as int, physical as int, logical as int);
            let back = rescaled(there, logical as int, physical as int);
            x - 1 <= back <= x
        }),
{
    let xv = x as int;
    let l = logical as int;
    let p = physical as int;
    let y = (xv * p) / l;
    assert(0 <= xv * p) by (nonlinear_arith)
        requires
            xv >= 0,
            p > 0,
    ;
    assert(0 <= y && y * l <= xv * p && xv * p < y * l + l) by (nonlinear_arith)
        requires
            y == (xv * p) / l,
            l > 0,
            xv * p >= 0,
    ;
    assert(y * l >= 0) by (nonlinear_arith)
        requires
            y >= 0,
            l > 0,
    ;
    assert(saturating_product(xv, p) == xv * p);
    assert(saturating_product(y, l) == y * l);
    let z = (y * l) / p;
    assert(z * p <= y * l && y * l < z * p + p) by (nonlinear_arith)
        requires
            z == (y * l) / p,
            p > 0,
            y * l >= 0,
    ;
    assert(z <= xv) by (nonlinear_arith)
        requires
            z * p <= y * l,
            y * l <= xv * p,
            p > 0,
    ;
    assert(z >= xv - 1) by (nonlinear_arith)
        requires
            y * l < z * p + p,
            xv * p < y * l + l,
            l <= p,
            p > 0,
    ;
}

} // verus!
