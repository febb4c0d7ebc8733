//! Helpers of the raster output: the palette, and the run of eight pixels.

use vstd::prelude::*;

verus! {

/// The sixteen colours of the palette, as 0x00RRGGBB.
pub open spec fn palette(idx: int) -> u32 {
    if idx == 0x00 {
        0x00000000
    } else if idx == 0x01 {
        0x00FFFFFF
    } else if idx == 0x02 {
        0x00894036
    } else if idx == 0x03 {
        0x007ABFC7
    } else if idx == 0x04 {
        0x008A46AE
    } else if idx == 0x05 {
        0x0068A941
    } else if idx == 0x06 {
        0x003E31A2
    } else if idx == 0x07 {
        0x00D0DC71
    } else if idx == 0x08 {
        0x00905F25
    } else if idx == 0x09 {
        0x005C4700
    } else if idx == 0x0A {
        0x00BB776D
    } else if idx == 0x0B {
        0x00555555
    } else if idx == 0x0C {
        0x00808080
    } else if idx == 0x0D {
        0x00ACEA88
    } else if idx == 0x0E {
        0x007C70DA
    } else {
        0x00ABABAB
    }
}

/// The buffer after eight elements from `start` on are set to one value.
pub open spec fn with_run(buffer: Seq<u32>, start: int, value: u32) -> Seq<u32> {
    Seq::new(
        buffer.len(),
        |i: int|
            if start <= i < start + 8 {
                value
            } else {
                buffer[i]
            },
    )
}

/// Sets eight consecutive elements of the buffer to one value.
pub fn memset8(buffer: &mut [u32], start: usize, value: u32)
    requires
        start + 8 <= old(buffer)@.len(),
    ensures
        final(buffer)@ == with_run(old(buffer)@, start as int, value),
{
    buffer[start] = value;
    buffer[start + 1] = value;
    buffer[start + 2] = value;
    buffer[start + 3] = value;
    buffer[start + 4] = value;
    buffer[start + 5] = value;
    buffer[start + 6] = value;
    buffer[start + 7] = value;
    assert(buffer@ =~= with_run(old(buffer)@, start as int, value));
}

/// The colour of the palette that the four low bits of `idx` select.
pub fn fetch_c64_color_rgba(idx: u8) -> (rgba: u32)
    ensures
        rgba == palette(idx as int % 16),
{
    assert(idx & 0x0F == idx % 16) by (bit_vector);
    match idx & 0x0F {
        0x00 => 0x00000000,
        0x01 => 0x00FFFFFF,
        0x02 => 0x00894036,
        0x03 => 0x007ABFC7,
        0x04 => 0x008A46AE,
        0x05 => 0x0068A941,
        0x06 => 0x003E31A2,
        0x07 => 0x00D0DC71,
        0x08 => 0x00905F25,
        0x09 => 0x005C4700,
        0x0A => 0x00BB776D,
        0x0B => 0x00555555,
        0x0C => 0x00808080,
        0x0D => 0x00ACEA88,
        0x0E => 0x007C70DA,
        _ => 0x00ABABAB,
    }
}

} // verus!
