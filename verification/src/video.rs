//! The raster output: 300 by 200 bytes of memory, each painted as a run of
//! eight pixels into the window buffer.

use vstd::prelude::*;
use crate::memory::{byte_at, Memory};
use crate::utils::{fetch_c64_color_rgba, memset8, palette, with_run};

verus! {

/// Width of the window in pixels.
pub const SCREEN_WIDTH: usize = 384;

/// Height of the window in pixels.
pub const SCREEN_HEIGHT: usize = 272;

/// Address of the first byte that is painted.
pub const VIDEO_BASE: u32 = 0x10000;

/// Number of bytes that are painted.
pub const VIDEO_CELLS: usize = 60000;

/// Number of pixels that the window buffer needs for the run of the last
/// cell to fit.
pub const VIDEO_REACH: usize = 90589;

/// Where in the window buffer the run of cell `i` starts: 36 lines and 42
/// pixels in, the cells side by side, 300 to a line of the window.
pub open spec fn cell_offset(i: int) -> int {
    i + 384 * 36 + 42 + 84 * (i / 300)
}

/// The colour of cell `i`: the byte of the cell plus a hundredth of the
/// cycle count selects it from the palette.
pub open spec fn cell_color(m: Seq<u8>, cycle: u32, i: int) -> u32 {
    palette((byte_at(m, VIDEO_BASE + i) + cycle / 100) % 16)
}

/// The last of the first `n` cells whose run covers pixel `p`, or -1.
pub open spec fn last_cell_over(p: int, n: int) -> int
    decreases n,
{
    if n <= 0 {
        -1
    } else if cell_offset(n - 1) <= p < cell_offset(n - 1) + 8 {
        n - 1
    } else {
        last_cell_over(p, n - 1)
    }
}

/// The window buffer after the first `n` cells are painted: a pixel under a
/// run has the colour of the last cell that covers it.
pub open spec fn painted(buffer: Seq<u32>, m: Seq<u8>, cycle: u32, n: int) -> Seq<u32> {
    Seq::new(
        buffer.len(),
        |p: int|
            if last_cell_over(p, n) >= 0 {
                cell_color(m, cycle, last_cell_over(p, n))
            } else {
                buffer[p]
            },
    )
}

/// The window buffer, one element a pixel, line after line.
pub struct Video {
    pub window_buffer: Vec<u32>,
}

impl Video {
    /// A black window.
    pub fn new_shared() -> (video: Video)
        ensures
            video.window_buffer@ == Seq::new((SCREEN_WIDTH * SCREEN_HEIGHT) as nat, |i: int| 0u32),
    {
        let mut buffer: Vec<u32> = Vec::new();
        let mut i: usize = 0;
        while i < SCREEN_WIDTH * SCREEN_HEIGHT
            invariant
                i <= SCREEN_WIDTH * SCREEN_HEIGHT,
                buffer@.len() == i,
                forall|j: int| 0 <= j < i ==> buffer@[j] == 0u32,
            decreases SCREEN_WIDTH * SCREEN_HEIGHT - i,
        {
            buffer.push(0);
            i += 1;
        }
        assert(buffer@ =~= Seq::new((SCREEN_WIDTH * SCREEN_HEIGHT) as nat, |i: int| 0u32));
        Video { window_buffer: buffer }
    }

    /// Paints every cell into the window buffer. Always returns `false`.
    pub fn update(&mut self, mem: &Memory, c64_cycle_cnt: u32) -> (done: bool)
        requires
            old(self).window_buffer@.len() >= VIDEO_REACH,
        ensures
            !done,
            final(self).window_buffer@ == painted(
                old(self).window_buffer@,
                mem@,
                c64_cycle_cnt,
                VIDEO_CELLS as int,
            ),
    {
        let shift: u8 = ((c64_cycle_cnt / 100) % 256) as u8;
        let mut i: usize = 0;
        assert(self.window_buffer@ =~= painted(old(self).window_buffer@, mem@, c64_cycle_cnt, 0));
        while i < VIDEO_CELLS
            invariant
                i <= VIDEO_CELLS,
                shift == (c64_cycle_cnt / 100) % 256,
                self.window_buffer@.len() == old(self).window_buffer@.len() >= VIDEO_REACH,
                self.window_buffer@ == painted(
                    old(self).window_buffer@,
                    mem@,
                    c64_cycle_cnt,
                    i as int,
                ),
            decreases VIDEO_CELLS - i,
        {
            let dst_color = mem.read_byte(VIDEO_BASE + i as u32);
            let color_rgba = fetch_c64_color_rgba(dst_color.wrapping_add(shift));
            assert(color_rgba == cell_color(mem@, c64_cycle_cnt, i as int));
            let start = i + (384 * 36) + 42 + (84 * (i / 300));
            let ghost before = self.window_buffer@;
            memset8(self.window_buffer.as_mut_slice(), start, color_rgba);
            assert(self.window_buffer@ =~= painted(
                old(self).window_buffer@,
                mem@,
                c64_cycle_cnt,
                i + 1,
            )) by {
                assert(self.window_buffer@ == with_run(before, start as int, color_rgba));
            }
            i += 1;
        }
        false
    }
}

} // verus!
