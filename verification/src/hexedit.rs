//! The cursor with which memory is edited in place: over the two digits of
//! each byte in the hexadecimal half of the memory view, or over the
//! characters in its text half.

use vstd::prelude::*;
use crate::cpu::wrap32;
use crate::memory::{byte_at, set_byte, Memory};

verus! {

/// Column of the first digit in the hexadecimal half.
pub const HEX_BEGIN: i32 = 13;

/// Least number of cells, a quarter of the width of the memory view, with
/// which a row holds a byte.
pub const MIN_CELLS: i32 = 5;

/// Most cells, and most rows, that a cursor is made for.
pub const MAX_CELLS: i32 = 0x10000;

/// Where the cursor stands in the memory view. `cells` is a quarter of the
/// width of the view, `h` its number of rows. Rows count from 1.
#[derive(Clone, Copy, Debug, PartialEq, Eq, Structural)]
pub struct HexCursor {
    pub hex: bool,
    pub cells: i32,
    pub col: i32,
    pub row: i32,
    pub h: i32,
}

/// What a key does to the memory view.
#[derive(Clone, Copy, Debug, PartialEq, Eq, Structural)]
pub enum HexKey {
    Left,
    Right,
    Up,
    Down,
    Tab,
    Typed(i32),
}

/// The low eight bits of a key code.
pub open spec fn low_bits(ch: i32) -> u8 {
    (ch & 0xff) as u8
}

/// A byte that is a hexadecimal digit of either case.
pub open spec fn hex_digit_byte(b: u8) -> bool {
    (0x30 <= b <= 0x39) || (0x41 <= b <= 0x46) || (0x61 <= b <= 0x66)
}

/// What a typed key counts for as a digit: the upper-case and lower-case
/// letters from A to F count 10 to 15, any other key its code less 48.
pub open spec fn digit_count(ch: i32) -> int {
    if 65 <= ch <= 70 {
        ch - 55
    } else if 97 <= ch <= 102 {
        ch - 87
    } else {
        ch - 48
    }
}

/// The byte after a digit is typed over its high or its low half.
pub open spec fn typed_over(byte: u8, ch: i32, high: bool) -> u8 {
    if high {
        ((digit_count(ch) * 16 + byte % 16) % 256) as u8
    } else {
        ((byte - byte % 16 + digit_count(ch)) % 256) as u8
    }
}

impl HexCursor {
    /// Column where the half of the view that the cursor is in begins.
    pub open spec fn begin(self) -> int {
        if self.hex {
            HEX_BEGIN as int
        } else {
            self.cells * 3 + 3
        }
    }

    /// Last column of the half of the view that the cursor is in.
    pub open spec fn end(self) -> int {
        if self.hex {
            self.cells * 3 - 1
        } else {
            self.cells * 4 - 2
        }
    }

    /// Number of bytes in a row.
    pub open spec fn per_row(self) -> int {
        self.cells - 4
    }

    /// The cursor stands inside its half of the view, and in the
    /// hexadecimal half on a digit, not on the blank between two bytes.
    pub open spec fn wf(self) -> bool {
        &&& MIN_CELLS <= self.cells <= MAX_CELLS
        &&& 1 <= self.row <= self.h <= MAX_CELLS
        &&& self.begin() <= self.col <= self.end()
        &&& self.hex ==> self.col % 3 != 0
    }

    /// Number of the byte under the cursor, counted from the start of the
    /// view.
    pub open spec fn index(self) -> int {
        (self.row - 1) * self.per_row() + if self.hex {
            (self.col - HEX_BEGIN) / 3
        } else {
            self.col - self.begin()
        }
    }

    /// The cursor one step on in its row, past the blank between two bytes.
    pub open spec fn stepped_right(self) -> HexCursor {
        let col: int = if self.col < self.end() {
            self.col + 1
        } else {
            self.begin()
        };
        let row: int = if self.col >= self.end() && self.row < self.h {
            self.row + 1
        } else {
            self.row as int
        };
        let past: int = if self.hex && col % 3 == 0 {
            col + 1
        } else {
            col
        };
        HexCursor { col: past as i32, row: row as i32, ..self }
    }

    /// Whether a step on leaves the last row, so that the view scrolls.
    pub open spec fn scrolls_right(self) -> bool {
        self.col >= self.end() && self.row >= self.h
    }

    /// Cursor and start of the view after a key that moves the cursor.
    /// Left and right go over the digits or characters of a row, then to
    /// the row before or after; up and down change the row. At the edge of
    /// the view the view scrolls by a row: back as far as address 0, where
    /// a start above 2^31 - 1 counts as below 0, onwards modulo 2^32. Tab
    /// changes between the halves, to the same byte.
    pub open spec fn moved(self, key: HexKey, offset: u32) -> (HexCursor, u32) {
        match key {
            HexKey::Left => {
                if self.col > self.begin() {
                    let col: int = self.col - 1;
                    let past: int = if self.hex && col % 3 == 0 {
                        col - 1
                    } else {
                        col
                    };
                    (HexCursor { col: past as i32, ..self }, offset)
                } else if self.row > 1 {
                    (HexCursor { col: self.end() as i32, row: (self.row - 1) as i32, ..self }, offset)
                } else if offset <= i32::MAX && offset >= self.per_row() {
                    (HexCursor { col: self.end() as i32, ..self }, (offset - self.per_row()) as u32)
                } else {
                    (self, 0)
                }
            },
            HexKey::Right => (
                self.stepped_right(),
                if self.scrolls_right() {
                    wrap32(offset + self.per_row())
                } else {
                    offset
                },
            ),
            HexKey::Up => {
                if self.row > 1 {
                    (HexCursor { row: (self.row - 1) as i32, ..self }, offset)
                } else if offset <= i32::MAX && offset >= self.per_row() {
                    (self, (offset - self.per_row()) as u32)
                } else {
                    (self, 0)
                }
            },
            HexKey::Down => {
                if self.row < self.h {
                    (HexCursor { row: (self.row + 1) as i32, ..self }, offset)
                } else {
                    (self, wrap32(offset + self.per_row()))
                }
            },
            HexKey::Tab => {
                if self.hex {
                    (
                        HexCursor {
                            hex: false,
                            col: (self.cells * 3 + 3 + (self.col - HEX_BEGIN) / 3) as i32,
                            ..self
                        },
                        offset,
                    )
                } else {
                    (
                        HexCursor {
                            hex: true,
                            col: (HEX_BEGIN + (self.col - self.begin()) * 3) as i32,
                            ..self
                        },
                        offset,
                    )
                }
            },
            HexKey::Typed(_) => (self, offset),
        }
    }

    /// Whether the half of the view that the cursor is in takes a typed
    /// key: an ASCII character in the text half, a hexadecimal digit in
    /// the other, both judged by the low eight bits of the key.
    pub open spec fn takes(self, ch: i32) -> bool {
        if self.hex {
            hex_digit_byte(low_bits(ch))
        } else {
            low_bits(ch) < 0x80
        }
    }

    /// The byte that a typed key leaves where `byte` stood.
    pub open spec fn typed(self, byte: u8, ch: i32) -> u8 {
        if self.hex {
            typed_over(byte, ch, self.col % 3 == 1)
        } else {
            low_bits(ch)
        }
    }

    /// Whether the cursor stands where `wf` says.
    pub fn is_well_formed(&self) -> (ok: bool)
        ensures
            ok == self.wf(),
    {
        if !(MIN_CELLS <= self.cells && self.cells <= MAX_CELLS) {
            return false;
        }
        let begin = if self.hex {
            HEX_BEGIN
        } else {
            self.cells * 3 + 3
        };
        let end = if self.hex {
            self.cells * 3 - 1
        } else {
            self.cells * 4 - 2
        };
        1 <= self.row && self.row <= self.h && self.h <= MAX_CELLS && begin <= self.col && self.col
            <= end && (!self.hex || self.col % 3 != 0)
    }

    /// A cursor on the first digit of the first byte.
    pub fn new(cells: i32, h: i32) -> (cursor: HexCursor)
        requires
            MIN_CELLS <= cells <= MAX_CELLS,
            1 <= h <= MAX_CELLS,
        ensures
            cursor == (HexCursor { hex: true, cells, col: HEX_BEGIN, row: 1, h }),
            cursor.wf(),
    {
        HexCursor { hex: true, cells, col: HEX_BEGIN, row: 1, h }
    }

    fn first(&self) -> (col: i32)
        requires
            self.wf(),
        ensures
            col == self.begin(),
    {
        if self.hex {
            HEX_BEGIN
        } else {
            self.cells * 3 + 3
        }
    }

    fn last(&self) -> (col: i32)
        requires
            self.wf(),
        ensures
            col == self.end(),
    {
        if self.hex {
            self.cells * 3 - 1
        } else {
            self.cells * 4 - 2
        }
    }

    /// The address of the byte under the cursor, modulo 2^32.
    pub fn address(&self, offset: u32) -> (addr: u32)
        requires
            self.wf(),
        ensures
            addr == wrap32(offset + self.index()),
    {
        let within: i32 = if self.hex {
            (self.col - HEX_BEGIN) / 3
        } else {
            self.col - self.first()
        };
        assert(0 <= (self.row - 1) * (self.cells - 4) <= 0x10000 * 0x10000) by (nonlinear_arith)
            requires
                0 <= self.row - 1 <= 0x10000,
                0 <= self.cells - 4 <= 0x10000,
        ;
        let index: u64 = (self.row as u64 - 1) * (self.cells as u64 - 4) + within as u64;
        ((offset as u64 + index) % 0x1_0000_0000) as u32
    }

    fn step_right(&mut self, offset: u32) -> (scrolled: u32)
        requires
            old(self).wf(),
        ensures
            (*final(self), scrolled) == old(self).moved(HexKey::Right, offset),
            final(self).wf(),
    {
        let end = self.last();
        let mut scrolled = offset;
        if self.col < end {
            self.col += 1;
        } else {
            self.col = self.first();
            if self.row < self.h {
                self.row += 1;
            } else {
                scrolled = offset.wrapping_add((self.cells - 4) as u32);
            }
        }
        if self.hex && self.col % 3 == 0 {
            self.col += 1;
        }
        scrolled
    }

    /// Moves the cursor for a key and returns where the view then starts.
    /// A typed key moves nothing.
    pub fn step(&mut self, key: HexKey, offset: u32) -> (scrolled: u32)
        requires
            old(self).wf(),
        ensures
            (*final(self), scrolled) == old(self).moved(key, offset),
            final(self).wf(),
    {
        let per_row: u32 = (self.cells - 4) as u32;
        match key {
            HexKey::Left => {
                if self.col > self.first() {
                    self.col -= 1;
                    if self.hex && self.col % 3 == 0 {
                        self.col -= 1;
                    }
                    offset
                } else if self.row > 1 {
                    self.col = self.last();
                    self.row -= 1;
                    offset
                } else if offset <= i32::MAX as u32 && offset >= per_row {
                    self.col = self.last();
                    offset - per_row
                } else {
                    0
                }
            },
            HexKey::Right => self.step_right(offset),
            HexKey::Up => {
                if self.row > 1 {
                    self.row -= 1;
                    offset
                } else if offset <= i32::MAX as u32 && offset >= per_row {
                    offset - per_row
                } else {
                    0
                }
            },
            HexKey::Down => {
                if self.row < self.h {
                    self.row += 1;
                    offset
                } else {
                    offset.wrapping_add(per_row)
                }
            },
            HexKey::Tab => {
                if self.hex {
                    let within = (self.col - HEX_BEGIN) / 3;
                    self.hex = false;
                    self.col = self.cells * 3 + 3 + within;
                } else {
                    let within = self.col - self.first();
                    self.hex = true;
                    self.col = HEX_BEGIN + within * 3;
                }
                offset
            },
            HexKey::Typed(_) => offset,
        }
    }

    /// Types a key over the byte under the cursor, where the half of the
    /// view takes the key, and moves the cursor on. Returns whether the key
    /// was taken, and where the view then starts.
    pub fn type_key(&mut self, mem: &mut Memory, ch: i32, offset: u32) -> (result: (bool, u32))
        requires
            old(self).wf(),
        ensures
            result.0 == old(self).takes(ch),
            !result.0 ==> *final(self) == *old(self) && final(mem)@ == old(mem)@ && result.1
                == offset,
            result.0 ==> (*final(self), result.1) == old(self).moved(HexKey::Right, offset),
            result.0 ==> final(mem)@ == set_byte(
                old(mem)@,
                wrap32(offset + old(self).index()) as int,
                old(self).typed(byte_at(old(mem)@, wrap32(offset + old(self).index()) as int), ch),
            ),
            final(self).wf(),
    {
        let low: u8 = (ch & 0xff) as u8;
        let taken = if self.hex {
            (0x30 <= low && low <= 0x39) || (0x41 <= low && low <= 0x46) || (0x61 <= low && low
                <= 0x66)
        } else {
            low < 0x80
        };
        if !taken {
            return (false, offset);
        }
        let addr = self.address(offset);
        if self.hex {
            let val = mem.read_byte(addr);
            let count: i64 = if 65 <= ch && ch <= 70 {
                ch as i64 - 55
            } else if 97 <= ch && ch <= 102 {
                ch as i64 - 87
            } else {
                ch as i64 - 48
            };
            let sum: i64 = if self.col % 3 == 1 {
                count * 16 + (val % 16) as i64
            } else {
                (val - val % 16) as i64 + count
            };
            let kept: i64 = ((sum % 256) + 256) % 256;
            assert(kept == sum as int % 256);
            mem.write_byte(addr, kept as u8);
        } else {
            mem.write_byte(addr, low);
        }
        let scrolled = self.step_right(offset);
        (true, scrolled)
    }
}

} // verus!
