//! A small software CPU: a bit-packed instruction set executed against a flat
//! memory, together with the disassembler, the label table and the staged
//! editing of single instructions.
//!
//! The machine is in `memory`, `opcodes` and `cpu`; what it does is said, as
//! functions on values, in `semantics`, and what holds of it across its
//! operations in `laws` and `roundtrip`. `symbols` and `labels` hold the two
//! tables of names, `disasm` reads instructions and `edit` writes them.
//! `menus`, `editor`, `listing` and `hexedit` are what an editor of the
//! machine decides between two keys, `text` writes numbers, and `utils` and
//! `video` make the raster output.

pub mod cpu;
pub mod disasm;
pub mod edit;
pub mod editor;
pub mod hexedit;
pub mod labels;
pub mod laws;
pub mod listing;
pub mod memory;
pub mod menus;
pub mod opcodes;
pub mod roundtrip;
pub mod semantics;
pub mod symbols;
pub mod text;
pub mod utils;
pub mod video;
