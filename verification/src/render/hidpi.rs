//! Buffer sizes for HiDPI outputs.
use vstd::prelude::*;

use crate::wayland::output::DisplayOutput;

verus! {

/// `value * scale`, saturating, then capped at `i32::MAX`.
pub open spec fn scaled_dimension(value: u32, scale: u32) -> i32 {
    let scaled = if value * scale > u32::MAX {
        u32::MAX as int
    } else {
        value * scale
    };
    if scaled > i32::MAX {
        i32::MAX
    } else {
        scaled as i32
    }
}

/// Scale a dimension: saturating multiplication, then conversion to `i32`
/// with `i32::MAX` when it does not fit.
pub fn scaled_dimension_i32(value: u32, scale: u32) -> (r: i32)
    ensures
        r == scaled_dimension(value, scale),
{
    assert((value as u64) * (scale as u64) <= u64::MAX) by (nonlinear_arith)
        requires
            value <= u32::MAX,
            scale <= u32::MAX,
    ;
    let product: u64 = (value as u64) * (scale as u64);
    let scaled: u32 = if product > 0xffff_ffff {
        0xffff_ffff
    } else {
        product as u32
    };
    if scaled <= 0x7fff_ffff {
        scaled as i32
    } else {
        0x7fff_ffffi32
    }
}

/// The scale used for buffer sizes: the output's scale, at least 1.
pub open spec fn effective_scale(scale: i32) -> u32 {
    if scale < 1 {
        1
    } else {
        scale as u32
    }
}

/// The buffer size of an output's surface in pixels: its size times its
/// scale (at least 1), as used for the damage region and the EGL window.
pub fn hidpi_buffer_size(output: &DisplayOutput) -> (r: (i32, i32))
    ensures
        r == (
            scaled_dimension(output.width, effective_scale(output.scale)),
            scaled_dimension(output.height, effective_scale(output.scale)),
        ),
{
    let scale: u32 = if output.scale < 1 {
        1
    } else {
        output.scale as u32
    };
    (scaled_dimension_i32(output.width, scale), scaled_dimension_i32(output.height, scale))
}

} // verus!
