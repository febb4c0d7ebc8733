//! The processor: its registers, the program counter in both of its forms,
//! and the three phases of one instruction.

use vstd::prelude::*;
use crate::memory::{byte_at, set_byte, set_u32, u32_at, Memory};
use crate::opcodes::{
    fetch_operand_addr, get_instruction, pull_operand_addr, run, Instruction, InstructionView,
};

verus! {

/// Address of the four bytes from which `reset` loads the program counter.
pub const RESET_VECTOR: u32 = 0x00000000;

/// First address of the code.
pub const CODE: u32 = 0x00000001;

/// First address of the static data.
pub const BSS: u32 = 0x0000E000;

/// First address of the registers that live in memory.
pub const REGISTERS: u32 = 0x0000F000;

/// First address of the heap.
pub const MEMORY: u32 = 0x00010000;

/// First address of the stack, which is also the first address past the RAM.
pub const STACK: u32 = 0x00080000;

/// Address of the register that `STR` and `LDR` use as the stack pointer.
pub const STACK_REG: u32 = 0xF004;

/// The value of `x` as a 32-bit register holds it: `x` modulo 2^32.
pub open spec fn wrap32(x: int) -> u32 {
    (x % 0x1_0000_0000) as u32
}

/// The flags of the status register `p`.
#[derive(Clone, Copy, Debug, PartialEq, Eq, Structural)]
pub enum StatusFlag {
    Carry,
    Zero,
    Unused,
    Overflow,
    Negative,
}

/// The bit of the status register that holds a flag.
pub open spec fn flag_mask(flag: StatusFlag) -> u8 {
    match flag {
        StatusFlag::Carry => 0x01,
        StatusFlag::Zero => 0x02,
        StatusFlag::Unused => 0x20,
        StatusFlag::Overflow => 0x40,
        StatusFlag::Negative => 0x80,
    }
}

/// Whether a flag is set in the status register `p`.
pub open spec fn flag_set(p: u8, flag: StatusFlag) -> bool {
    p & flag_mask(flag) != 0
}

/// The status register after one flag is set or cleared.
pub open spec fn with_flag(p: u8, flag: StatusFlag, value: bool) -> u8 {
    if value {
        p | flag_mask(flag)
    } else {
        p & !flag_mask(flag)
    }
}

/// The status register after Zero and Negative are set from a result.
pub open spec fn with_zn(p: u8, zero: bool, negative: bool) -> u8 {
    with_flag(with_flag(p, StatusFlag::Zero, zero), StatusFlag::Negative, negative)
}

/// A flag that was written holds what was written, and every other flag
/// holds what it held.
pub proof fn lemma_flag_written(p: u8, flag: StatusFlag, value: bool, other: StatusFlag)
    ensures
        flag_set(with_flag(p, flag, value), flag) == value,
        other != flag ==> flag_set(with_flag(p, flag, value), other) == flag_set(p, other),
{
    let m = flag_mask(flag);
    let o = flag_mask(other);
    assert(m == 0x01 || m == 0x02 || m == 0x20 || m == 0x40 || m == 0x80);
    assert((m == 0x01 || m == 0x02 || m == 0x20 || m == 0x40 || m == 0x80) ==> ((p | m) & m != 0)
        && ((p & !m) & m == 0)) by (bit_vector);
    if other != flag {
        assert(o != m);
        assert((m == 0x01 || m == 0x02 || m == 0x20 || m == 0x40 || m == 0x80) && (o == 0x01 || o
            == 0x02 || o == 0x20 || o == 0x40 || o == 0x80) && o != m ==> ((p | m) & o == p & o)
            && ((p & !m) & o == p & o)) by (bit_vector);
    }
}

/// The phase that the next call of `update` performs.
#[derive(Clone, Copy, Debug, PartialEq, Eq, Structural)]
pub enum CPUState {
    FetchOp,
    FetchOperandAddr,
    ExecuteOp,
}

/// One entry of the list of symbols: a name, a description and the value
/// that the name stands for.
pub struct Items {
    pub name: String,
    pub description: String,
    pub value: u32,
}

/// A name for an address, with the number of bytes that it covers.
#[derive(Debug, Eq, Ord, PartialEq, PartialOrd)]
pub struct Label {
    pub address: u32,
    pub size: u32,
    pub tag: String,
}

/// The processor. Memory is not part of it: every operation that reads or
/// writes memory is handed the memory for the length of the call.
pub struct CPU {
    /// The status register.
    pub p: u8,
    /// The instruction that was fetched or loaded last.
    pub instruction: Instruction,
    /// The encoding byte of `instruction`.
    pub instruction_u8: u8,
    /// The phase that `update` performs next.
    pub state: CPUState,
    /// Address of the encoding byte of `instruction`.
    pub prev_pc: u32,
    /// The list of symbols.
    pub data: Vec<Items>,
    /// The label table.
    pub labels: Vec<Label>,
    /// Where the program counter lives: 0 for the field `pc`, any other
    /// value for the four bytes of memory at that address.
    pub pc_reg: u32,
    /// The program counter, when `pc_reg` is 0.
    pub pc: u32,
}

/// A symbol as a value.
pub struct ItemView {
    pub name: Seq<char>,
    pub description: Seq<char>,
    pub value: u32,
}

impl View for Items {
    type V = ItemView;

    open spec fn view(&self) -> ItemView {
        ItemView { name: self.name@, description: self.description@, value: self.value }
    }
}

/// A label as a value.
pub struct LabelView {
    pub address: u32,
    pub size: u32,
    pub tag: Seq<char>,
}

impl View for Label {
    type V = LabelView;

    open spec fn view(&self) -> LabelView {
        LabelView { address: self.address, size: self.size, tag: self.tag@ }
    }
}

/// A list of symbols as a sequence of values.
pub open spec fn items_view(items: Seq<Items>) -> Seq<ItemView> {
    Seq::new(items.len(), |i: int| items[i]@)
}

/// A label table as a sequence of values.
pub open spec fn labels_view(labels: Seq<Label>) -> Seq<LabelView> {
    Seq::new(labels.len(), |i: int| labels[i]@)
}

/// The processor as a value.
#[verifier::ext_equal]
pub struct CpuView {
    pub p: u8,
    pub instruction: InstructionView,
    pub instruction_u8: u8,
    pub state: CPUState,
    pub prev_pc: u32,
    pub data: Seq<ItemView>,
    pub labels: Seq<LabelView>,
    pub pc_reg: u32,
    pub pc: u32,
}

impl View for CPU {
    type V = CpuView;

    open spec fn view(&self) -> CpuView {
        CpuView {
            p: self.p,
            instruction: self.instruction@,
            instruction_u8: self.instruction_u8,
            state: self.state,
            prev_pc: self.prev_pc,
            data: items_view(self.data@),
            labels: labels_view(self.labels@),
            pc_reg: self.pc_reg,
            pc: self.pc,
        }
    }
}

impl CpuView {
    /// The program counter of a processor whose memory holds `m`.
    pub open spec fn pc_in(self, m: Seq<u8>) -> u32 {
        if self.pc_reg == 0 {
            self.pc
        } else {
            u32_at(m, self.pc_reg as int)
        }
    }

    /// Processor and memory after the program counter is set to `v`.
    pub open spec fn with_pc(self, m: Seq<u8>, v: u32) -> (CpuView, Seq<u8>) {
        if self.pc_reg == 0 {
            (CpuView { pc: v, ..self }, m)
        } else {
            (self, set_u32(m, self.pc_reg as int, v))
        }
    }

    /// Processor, memory and the byte read when one byte is taken from the
    /// instruction stream: the byte at the program counter, which then
    /// advances by one.
    pub open spec fn after_next_byte(self, m: Seq<u8>) -> (CpuView, Seq<u8>, u8) {
        let pc = self.pc_in(m);
        let (c, m2) = self.with_pc(m, wrap32(pc + 1));
        (c, m2, byte_at(m, pc as int))
    }

    /// The same for a little-endian 32-bit value: the program counter
    /// advances by four.
    pub open spec fn after_next_int(self, m: Seq<u8>) -> (CpuView, Seq<u8>, u32) {
        let pc = self.pc_in(m);
        let (c, m2) = self.with_pc(m, wrap32(pc + 4));
        (c, m2, u32_at(m, pc as int))
    }
}

fn flag_bit(flag: StatusFlag) -> (mask: u8)
    ensures
        mask == flag_mask(flag),
{
    match flag {
        StatusFlag::Carry => 0x01,
        StatusFlag::Zero => 0x02,
        StatusFlag::Unused => 0x20,
        StatusFlag::Overflow => 0x40,
        StatusFlag::Negative => 0x80,
    }
}

impl CPU {
    /// Sets the program counter, in the field or in memory.
    pub fn set_pc(&mut self, mem: &mut Memory, lpc: u32)
        ensures
            (final(self)@, final(mem)@) == old(self)@.with_pc(old(mem)@, lpc),
    {
        if self.pc_reg == 0 {
            self.pc = lpc;
        } else {
            mem.write_int_le(self.pc_reg, lpc);
        }
    }

    /// The program counter, from the field or from memory.
    pub fn get_pc(&self, mem: &Memory) -> (pc: u32)
        ensures
            pc == self@.pc_in(mem@),
    {
        if self.pc_reg == 0 {
            self.pc
        } else {
            mem.read_int_le(self.pc_reg)
        }
    }

    /// Sets or clears one flag of the status register.
    pub fn set_status_flag(&mut self, flag: StatusFlag, value: bool)
        ensures
            final(self)@ == (CpuView { p: with_flag(old(self).p, flag, value), ..old(self)@ }),
    {
        let mask = flag_bit(flag);
        if value {
            self.p = self.p | mask;
        } else {
            self.p = self.p & !mask;
        }
    }

    /// Whether a flag of the status register is set.
    pub fn get_status_flag(&self, flag: StatusFlag) -> (set: bool)
        ensures
            set == flag_set(self.p, flag),
    {
        self.p & flag_bit(flag) != 0x00
    }

    /// Sets Zero and Negative from an 8-bit result.
    pub fn set_zn_flags(&mut self, value: u8)
        ensures
            final(self)@ == (CpuView { p: with_zn(old(self).p, value == 0, value >= 0x80), ..old(self)@ }),
    {
        self.set_status_flag(StatusFlag::Zero, value == 0x00);
        self.set_status_flag(StatusFlag::Negative, value >= 0x80);
    }

    /// Sets Zero and Negative from a 32-bit result.
    pub fn set_zn_flags_int(&mut self, value: u32)
        ensures
            final(self)@ == (CpuView {
                p: with_zn(old(self).p, value == 0, value >= 0x8000_0000),
                ..old(self)@
            }),
    {
        self.set_status_flag(StatusFlag::Zero, value == 0x00);
        self.set_status_flag(StatusFlag::Negative, value >= 0x8000_0000);
    }

    /// Loads the program counter from the reset vector and clears the unused flag.
    pub fn reset(&mut self, mem: &mut Memory)
        ensures
            (final(self)@, final(mem)@) == (CpuView {
                p: with_flag(old(self).p, StatusFlag::Unused, false),
                ..old(self)@
            }).with_pc(old(mem)@, u32_at(old(mem)@, RESET_VECTOR as int)),
    {
        let pc = self.read_int_le(mem, RESET_VECTOR);
        self.set_status_flag(StatusFlag::Unused, false);
        self.set_pc(mem, pc);
    }

    /// Stores one byte in memory. Always returns `true`.
    pub fn write_byte(&self, mem: &mut Memory, addr: u32, value: u8) -> (done: bool)
        ensures
            done,
            final(mem)@ == set_byte(old(mem)@, addr as int, value),
    {
        mem.write_byte(addr, value)
    }

    /// Reads one byte of memory.
    pub fn read_byte(&self, mem: &Memory, addr: u32) -> (value: u8)
        ensures
            value == byte_at(mem@, addr as int),
    {
        mem.read_byte(addr)
    }

    /// Reads a little-endian 32-bit value from memory.
    pub fn read_int_le(&self, mem: &Memory, addr: u32) -> (value: u32)
        ensures
            value == u32_at(mem@, addr as int),
    {
        mem.read_int_le(addr)
    }

    /// Stores a little-endian 32-bit value in memory. Always returns `true`.
    pub fn write_int_le(&self, mem: &mut Memory, addr: u32, value: u32) -> (done: bool)
        ensures
            done,
            final(mem)@ == set_u32(old(mem)@, addr as int, value),
    {
        mem.write_int_le(addr, value)
    }

    /// Takes one byte from the instruction stream.
    pub fn next_byte(&mut self, mem: &mut Memory) -> (op: u8)
        ensures
            (final(self)@, final(mem)@, op) == old(self)@.after_next_byte(old(mem)@),
    {
        let pc = self.get_pc(mem);
        let op = self.read_byte(mem, pc);
        self.set_pc(mem, pc.wrapping_add(1));
        op
    }

    /// Takes a little-endian 32-bit value from the instruction stream.
    pub fn next_int(&mut self, mem: &mut Memory) -> (op: u32)
        ensures
            (final(self)@, final(mem)@, op) == old(self)@.after_next_int(old(mem)@),
    {
        let pc = self.get_pc(mem);
        let op = self.read_int_le(mem, pc);
        self.set_pc(mem, pc.wrapping_add(4));
        op
    }

    pub(crate) fn set_decoded(&mut self, byte: u8)
        ensures
            final(self)@ == old(self)@.with_decoded(byte),
            final(self)@.instruction.wf(),
            final(self)@.matches_encoding(),
    {
        match get_instruction(byte) {
            Some((opcode, size, arguments, addr_type)) => {
                self.instruction.opcode = opcode;
                self.instruction.size = size;
                self.instruction.args = arguments;
                self.instruction.addressing_type = addr_type;
                self.instruction_u8 = byte;
            },
            None => {
                // every byte decodes
                assert(false);
            },
        }
    }

    /// Performs one phase of an instruction and moves on to the next phase.
    pub fn update(&mut self, mem: &mut Memory)
        requires
            old(self).state is FetchOperandAddr ==> old(self)@.instruction.wf(),
        ensures
            (final(self)@, final(mem)@) == old(self)@.after_update(old(mem)@),
            final(self).state is FetchOperandAddr ==> final(self)@.instruction.wf(),
            old(self)@.instruction.wf() ==> final(self)@.instruction.wf(),
            old(self).state is FetchOp || old(self)@.matches_encoding()
                ==> final(self)@.matches_encoding(),
    {
        match self.state {
            CPUState::FetchOp => {
                self.prev_pc = self.get_pc(mem);
                let next_op = self.next_byte(mem);
                self.set_decoded(next_op);
                self.state = CPUState::FetchOperandAddr;
            },
            CPUState::FetchOperandAddr => {
                if fetch_operand_addr(self, mem) {
                    self.state = CPUState::ExecuteOp;
                }
            },
            CPUState::ExecuteOp => {
                if run(self, mem) {
                    self.state = CPUState::FetchOp;
                }
            },
        }
    }

    /// Loads the instruction at `address` without executing it.
    pub fn load_opcode_data(&mut self, mem: &mut Memory, address: u32)
        ensures
            (final(self)@, final(mem)@) == old(self)@.after_load_opcode(old(mem)@, address),
            final(self)@.instruction.wf(),
            final(self)@.matches_encoding(),
            final(self)@.data == old(self)@.data,
            final(self)@.labels == old(self)@.labels,
    {
        self.set_pc(mem, address);
        self.prev_pc = self.get_pc(mem);
        let next_op = self.next_byte(mem);
        self.set_decoded(next_op);
        pull_operand_addr(self, mem);
    }
}

} // verus!
