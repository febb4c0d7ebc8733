//! The instruction format: one encoding byte, followed by the operands.

use vstd::prelude::*;
use vstd::string::StringExecFns;
use crate::cpu::{wrap32, CpuView, StatusFlag, CPU};
use crate::memory::Memory;
use crate::semantics::{alu, load_w, store_w};

verus! {

/// The width of an instruction's operands.
#[derive(Clone, Copy, Debug, PartialEq, Eq, Structural)]
pub enum ArgumentSize {
    Byte,
    Int,
}

/// The sixteen opcodes.
#[derive(Clone, Copy, Debug, PartialEq, Eq, Structural)]
pub enum Op {
    LDR,
    STR,
    AND,
    OR,
    XOR,
    NOT,
    ADD,
    SUB,
    MUL,
    RR,
    RL,
    BSL,
    BSR,
    JMP,
    CLL,
    CMP,
}

/// One decoded instruction: what the encoding byte says, the operands read
/// after it, and for each operand its place in the list of symbols.
pub struct Instruction {
    /// What the instruction does.
    pub opcode: Op,
    /// Number of operands: fixed by the opcode.
    pub size: u8,
    /// Addressing mask: bit 2 set when operand 0 is indirect, bit 1 for
    /// operand 1, bit 0 for operand 2.
    pub args: u8,
    /// Width of the operands.
    pub addressing_type: ArgumentSize,
    /// The operands: as they stand in the stream after a load, resolved
    /// after a fetch.
    pub arg: [u32; 3],
    /// For each operand, the place of its symbol in the list of symbols.
    pub arg_index: [u32; 3],
}

/// An instruction as a value: the operands and their places in the list of
/// symbols are sequences of length three.
#[verifier::ext_equal]
pub struct InstructionView {
    pub opcode: Op,
    pub size: u8,
    pub args: u8,
    pub addressing_type: ArgumentSize,
    pub arg: Seq<u32>,
    pub arg_index: Seq<u32>,
}

impl View for Instruction {
    type V = InstructionView;

    open spec fn view(&self) -> InstructionView {
        InstructionView {
            opcode: self.opcode,
            size: self.size,
            args: self.args,
            addressing_type: self.addressing_type,
            arg: self.arg@,
            arg_index: self.arg_index@,
        }
    }
}

impl InstructionView {
    /// An instruction has at most three operands, and room for three.
    pub open spec fn wf(self) -> bool {
        &&& self.size <= 3
        &&& self.arg.len() == 3
        &&& self.arg_index.len() == 3
    }

    /// The instruction with what an encoding byte says in place of its
    /// opcode, number of operands, addressing mask and width.
    pub open spec fn with_decoded(self, byte: u8) -> InstructionView {
        InstructionView {
            opcode: decode(byte).0,
            size: decode(byte).1,
            args: decode(byte).2,
            addressing_type: decode(byte).3,
            ..self
        }
    }

    /// The encoding byte of the instruction.
    pub open spec fn encoding(self) -> u8 {
        encode(self.opcode, self.args, self.addressing_type)
    }
}

impl Instruction {
    /// `CMP` at 32-bit width, without operands.
    pub fn new() -> (instruction: Instruction)
        ensures
            instruction@ == (InstructionView {
                opcode: Op::CMP,
                size: 0,
                args: 0,
                addressing_type: ArgumentSize::Int,
                arg: seq![0u32, 0u32, 0u32],
                arg_index: seq![0u32, 0u32, 0u32],
            }),
            instruction@.wf(),
    {
        let instruction = Instruction {
            opcode: Op::CMP,
            size: 0,
            args: 0,
            addressing_type: ArgumentSize::Int,
            arg: [0, 0, 0],
            arg_index: [0, 0, 0],
        };
        assert(instruction.arg@ =~= seq![0u32, 0u32, 0u32]);
        assert(instruction.arg_index@ =~= seq![0u32, 0u32, 0u32]);
        instruction
    }
}

/// The three letters (two for `OR`, `RR` and `RL`) that name an opcode.
pub open spec fn mnemonic(op: Op) -> Seq<char> {
    match op {
        Op::LDR => "LDR"@,
        Op::STR => "STR"@,
        Op::AND => "AND"@,
        Op::OR => "OR"@,
        Op::XOR => "XOR"@,
        Op::NOT => "NOT"@,
        Op::ADD => "ADD"@,
        Op::SUB => "SUB"@,
        Op::MUL => "MUL"@,
        Op::RR => "RR"@,
        Op::RL => "RL"@,
        Op::BSL => "BSL"@,
        Op::BSR => "BSR"@,
        Op::JMP => "JMP"@,
        Op::CLL => "CLL"@,
        Op::CMP => "CMP"@,
    }
}

/// The letters that name an opcode.
pub fn mnemonic_str(op: Op) -> (s: &'static str)
    ensures
        s@ == mnemonic(op),
{
    match op {
        Op::LDR => "LDR",
        Op::STR => "STR",
        Op::AND => "AND",
        Op::OR => "OR",
        Op::XOR => "XOR",
        Op::NOT => "NOT",
        Op::ADD => "ADD",
        Op::SUB => "SUB",
        Op::MUL => "MUL",
        Op::RR => "RR",
        Op::RL => "RL",
        Op::BSL => "BSL",
        Op::BSR => "BSR",
        Op::JMP => "JMP",
        Op::CLL => "CLL",
        Op::CMP => "CMP",
    }
}

impl Instruction {
    /// The letters that name the opcode of the instruction.
    pub fn to_string(&self) -> (name: String)
        ensures
            name@ == mnemonic(self.opcode),
    {
        String::from_str(mnemonic_str(self.opcode))
    }
}

/// The opcode that the high four bits of an encoding byte select.
pub open spec fn opcode_of(nibble: u8) -> Op {
    if nibble == 0x0 {
        Op::JMP
    } else if nibble == 0x1 {
        Op::CLL
    } else if nibble == 0x2 {
        Op::ADD
    } else if nibble == 0x3 {
        Op::SUB
    } else if nibble == 0x4 {
        Op::BSL
    } else if nibble == 0x5 {
        Op::BSR
    } else if nibble == 0x6 {
        Op::RR
    } else if nibble == 0x7 {
        Op::RL
    } else if nibble == 0x8 {
        Op::AND
    } else if nibble == 0x9 {
        Op::OR
    } else if nibble == 0xA {
        Op::XOR
    } else if nibble == 0xB {
        Op::MUL
    } else if nibble == 0xC {
        Op::STR
    } else if nibble == 0xD {
        Op::LDR
    } else if nibble == 0xE {
        Op::NOT
    } else {
        Op::CMP
    }
}

/// The four bits that select an opcode: the inverse of `opcode_of`.
pub open spec fn nibble_of(op: Op) -> u8 {
    match op {
        Op::JMP => 0x0,
        Op::CLL => 0x1,
        Op::ADD => 0x2,
        Op::SUB => 0x3,
        Op::BSL => 0x4,
        Op::BSR => 0x5,
        Op::RR => 0x6,
        Op::RL => 0x7,
        Op::AND => 0x8,
        Op::OR => 0x9,
        Op::XOR => 0xA,
        Op::MUL => 0xB,
        Op::STR => 0xC,
        Op::LDR => 0xD,
        Op::NOT => 0xE,
        Op::CMP => 0xF,
    }
}

/// How many operands follow the encoding byte.
pub open spec fn operand_count(op: Op) -> u8 {
    match op {
        Op::JMP | Op::NOT | Op::CMP => 2,
        _ => 3,
    }
}

/// The width that bit 3 of an encoding byte selects.
pub open spec fn width_of(byte: u8) -> ArgumentSize {
    if byte & 0x08 != 0 {
        ArgumentSize::Int
    } else {
        ArgumentSize::Byte
    }
}

/// Number of bytes that one operand occupies in memory.
pub open spec fn width_bytes(width: ArgumentSize) -> int {
    match width {
        ArgumentSize::Byte => 1,
        ArgumentSize::Int => 4,
    }
}

/// What an encoding byte says: opcode, number of operands, addressing mask
/// and width. Every byte decodes.
pub open spec fn decode(byte: u8) -> (Op, u8, u8, ArgumentSize) {
    (opcode_of(byte >> 4), operand_count(opcode_of(byte >> 4)), byte & 0x07, width_of(byte))
}

/// The encoding byte for an opcode, an addressing mask and a width.
pub open spec fn encode(op: Op, mask: u8, width: ArgumentSize) -> u8 {
    (nibble_of(op) << 4) | (if width is Int { 0x08u8 } else { 0x00u8 }) | (mask & 0x07)
}

/// Whether the addressing mask marks operand `slot` as indirect.
pub open spec fn is_indirect(mask: u8, slot: int) -> bool {
    if slot == 0 {
        mask & 0x04 != 0
    } else if slot == 1 {
        mask & 0x02 != 0
    } else if slot == 2 {
        mask & 0x01 != 0
    } else {
        false
    }
}

/// Number of bytes that the instruction with this encoding byte occupies.
pub open spec fn instruction_len(byte: u8) -> int {
    1 + operand_count(opcode_of(byte >> 4)) * width_bytes(width_of(byte))
}

/// Decodes an encoding byte. The result is never `None`.
pub fn get_instruction(opcode: u8) -> (decoded: Option<(Op, u8, u8, ArgumentSize)>)
    ensures
        decoded == Some(decode(opcode)),
{
    let args: u8 = opcode & 0x07;
    let addr_type = if opcode & 0x08 > 0 {
        ArgumentSize::Int
    } else {
        ArgumentSize::Byte
    };
    let nibble: u8 = opcode >> 4;
    assert(opcode >> 4 < 16) by (bit_vector);
    Some(
        match nibble {
            0x0 => (Op::JMP, 2, args, addr_type),
            0x1 => (Op::CLL, 3, args, addr_type),
            0x2 => (Op::ADD, 3, args, addr_type),
            0x3 => (Op::SUB, 3, args, addr_type),
            0x4 => (Op::BSL, 3, args, addr_type),
            0x5 => (Op::BSR, 3, args, addr_type),
            0x6 => (Op::RR, 3, args, addr_type),
            0x7 => (Op::RL, 3, args, addr_type),
            0x8 => (Op::AND, 3, args, addr_type),
            0x9 => (Op::OR, 3, args, addr_type),
            0xA => (Op::XOR, 3, args, addr_type),
            0xB => (Op::MUL, 3, args, addr_type),
            0xC => (Op::STR, 3, args, addr_type),
            0xD => (Op::LDR, 3, args, addr_type),
            0xE => (Op::NOT, 2, args, addr_type),
            0xF => (Op::CMP, 2, args, addr_type),
            _ => return None,
        },
    )
}

/// Encodes what `decode` gives for a byte: the byte itself comes back.
pub proof fn lemma_encode_decode(byte: u8)
    ensures
        encode(decode(byte).0, decode(byte).2, decode(byte).3) == byte,
{
    let n: u8 = byte >> 4;
    assert(byte >> 4 < 16) by (bit_vector);
    assert(nibble_of(opcode_of(n)) == n);
    assert(((byte >> 4) << 4) | (if byte & 0x08 != 0 { 0x08u8 } else { 0x00u8 }) | ((byte & 0x07) & 0x07)
        == byte) by (bit_vector);
}

/// Decodes what `encode` gives: opcode and width come back, and the mask's
/// three low bits.
pub proof fn lemma_decode_encode(op: Op, mask: u8, width: ArgumentSize)
    ensures
        decode(encode(op, mask, width)) == (op, operand_count(op), mask & 0x07, width),
{
    let n: u8 = nibble_of(op);
    let w: u8 = if width is Int { 0x08u8 } else { 0x00u8 };
    assert(n < 16 && (w == 0x08 || w == 0x00) ==> (((n << 4) | w | (mask & 0x07)) >> 4 == n && (((n << 4)
        | w | (mask & 0x07)) & 0x07) == mask & 0x07 && (((n << 4) | w | (mask & 0x07)) & 0x08) == w))
        by (bit_vector);
    assert(opcode_of(n) == op);
}

/// The encoding byte of the processor's current instruction.
pub fn get_opcode(cpu: &CPU) -> (byte: u8)
    ensures
        byte == cpu@.instruction.encoding(),
{
    let mut op_val: u8 = match cpu.instruction.opcode {
        Op::JMP => 0x00,
        Op::CLL => 0x10,
        Op::ADD => 0x20,
        Op::SUB => 0x30,
        Op::BSL => 0x40,
        Op::BSR => 0x50,
        Op::RR => 0x60,
        Op::RL => 0x70,
        Op::AND => 0x80,
        Op::OR => 0x90,
        Op::XOR => 0xA0,
        Op::MUL => 0xB0,
        Op::STR => 0xC0,
        Op::LDR => 0xD0,
        Op::NOT => 0xE0,
        Op::CMP => 0xF0,
    };
    proof {
        let n = nibble_of(cpu.instruction.opcode);
        assert(n < 16 ==> (n << 4) == n * 16) by (bit_vector);
    }
    match cpu.instruction.addressing_type {
        ArgumentSize::Int => {
            op_val |= 0x08
        },
        ArgumentSize::Byte => {
            let ghost before = op_val;
            assert(before | 0x00u8 == before) by (bit_vector);
        },
    }
    op_val |= cpu.instruction.args & 0x07;
    op_val
}

fn operand_is_indirect(mask: u8, slot: u8) -> (indirect: bool)
    ensures
        indirect == is_indirect(mask, slot as int),
{
    match slot {
        0 => mask & 0x04 != 0,
        1 => mask & 0x02 != 0,
        2 => mask & 0x01 != 0,
        _ => false,
    }
}

fn operand_width(cpu: &CPU) -> (step: u32)
    ensures
        step == width_bytes(cpu.instruction.addressing_type),
{
    match cpu.instruction.addressing_type {
        ArgumentSize::Byte => 1,
        ArgumentSize::Int => 4,
    }
}

fn next_literal(cpu: &mut CPU, mem: &mut Memory) -> (literal: u32)
    ensures
        (final(cpu)@, final(mem)@, literal) == old(cpu)@.after_next_literal(old(mem)@),
{
    match cpu.instruction.addressing_type {
        ArgumentSize::Byte => cpu.next_byte(mem) as u32,
        ArgumentSize::Int => cpu.next_int(mem),
    }
}

fn load_value(cpu: &CPU, mem: &Memory, addr: u32) -> (value: u32)
    ensures
        value == load_w(mem@, cpu.instruction.addressing_type, addr),
{
    match cpu.instruction.addressing_type {
        ArgumentSize::Byte => cpu.read_byte(mem, addr) as u32,
        ArgumentSize::Int => cpu.read_int_le(mem, addr),
    }
}

fn store_value(cpu: &CPU, mem: &mut Memory, addr: u32, value: u32)
    ensures
        final(mem)@ == store_w(old(mem)@, cpu.instruction.addressing_type, addr, value),
{
    match cpu.instruction.addressing_type {
        ArgumentSize::Byte => {
            cpu.write_byte(mem, addr, (value & 0xff) as u8);
        },
        ArgumentSize::Int => {
            cpu.write_int_le(mem, addr, value);
        },
    }
}

/// Resolves the operands of the current instruction, in order. Always
/// returns `true`.
pub fn fetch_operand_addr(cpu: &mut CPU, mem: &mut Memory) -> (done: bool)
    requires
        old(cpu)@.instruction.wf(),
    ensures
        done,
        (final(cpu)@, final(mem)@) == old(cpu)@.after_fetch(
            old(mem)@,
            old(cpu).instruction.size as nat,
        ),
        final(cpu)@.instruction.wf(),
        final(cpu)@.matches_encoding() == old(cpu)@.matches_encoding(),
{
    let mut arg_i: u8 = 0;
    while arg_i < cpu.instruction.size
        invariant
            arg_i <= cpu.instruction.size <= 3,
            cpu.instruction.size == old(cpu).instruction.size,
            (cpu@, mem@) == old(cpu)@.after_fetch(old(mem)@, arg_i as nat),
            cpu@.matches_encoding() == old(cpu)@.matches_encoding(),
        decreases cpu.instruction.size - arg_i,
    {
        let indirect = operand_is_indirect(cpu.instruction.args, arg_i);
        let literal = next_literal(cpu, mem);
        let value = if indirect {
            load_value(cpu, mem, literal)
        } else {
            literal
        };
        cpu.instruction.arg[arg_i as usize] = value;
        arg_i += 1;
    }
    true
}

/// Reads the operands of the current instruction as they stand in the
/// stream. Always returns `true`.
pub fn pull_operand_addr(cpu: &mut CPU, mem: &mut Memory) -> (done: bool)
    requires
        old(cpu)@.instruction.wf(),
    ensures
        done,
        (final(cpu)@, final(mem)@) == old(cpu)@.after_pull(
            old(mem)@,
            old(cpu).instruction.size as nat,
        ),
        final(cpu)@.instruction.wf(),
        final(cpu)@.matches_encoding() == old(cpu)@.matches_encoding(),
        final(cpu)@.data == old(cpu)@.data,
        final(cpu)@.labels == old(cpu)@.labels,
{
    let mut arg_i: u8 = 0;
    while arg_i < cpu.instruction.size
        invariant
            arg_i <= cpu.instruction.size <= 3,
            cpu.instruction.size == old(cpu).instruction.size,
            (cpu@, mem@) == old(cpu)@.after_pull(old(mem)@, arg_i as nat),
            cpu@.matches_encoding() == old(cpu)@.matches_encoding(),
            cpu@.data == old(cpu)@.data,
            cpu@.labels == old(cpu)@.labels,
        decreases cpu.instruction.size - arg_i,
    {
        let literal = next_literal(cpu, mem);
        cpu.instruction.arg[arg_i as usize] = literal;
        arg_i += 1;
    }
    true
}

/// Writes the operands of the current instruction to the stream at the
/// program counter. Always returns `true`.
pub fn push_operand_addr(cpu: &mut CPU, mem: &mut Memory) -> (done: bool)
    requires
        old(cpu)@.instruction.wf(),
    ensures
        done,
        (final(cpu)@, final(mem)@) == old(cpu)@.after_push(
            old(mem)@,
            old(cpu).instruction.size as nat,
        ),
        final(cpu)@.instruction == old(cpu)@.instruction,
        final(cpu).instruction_u8 == old(cpu).instruction_u8,
{
    let mut arg_i: u8 = 0;
    while arg_i < cpu.instruction.size
        invariant
            arg_i <= cpu.instruction.size <= 3,
            cpu.instruction.size == old(cpu).instruction.size,
            (cpu@, mem@) == old(cpu)@.after_push(old(mem)@, arg_i as nat),
            cpu@.instruction == old(cpu)@.instruction,
            cpu.instruction_u8 == old(cpu).instruction_u8,
        decreases cpu.instruction.size - arg_i,
    {
        let pc = cpu.get_pc(mem);
        store_value(cpu, mem, pc, cpu.instruction.arg[arg_i as usize]);
        let step = operand_width(cpu);
        cpu.set_pc(mem, pc.wrapping_add(step));
        arg_i += 1;
    }
    true
}

fn add32(a: u32, b: u32) -> (sum: u32)
    ensures
        sum == wrap32(a + b),
{
    a.wrapping_add(b)
}

fn sub32(a: u32, b: u32) -> (difference: u32)
    ensures
        difference == wrap32(a - b),
{
    a.wrapping_sub(b)
}

fn jump(cpu: &mut CPU, mem: &mut Memory)
    ensures
        (final(cpu)@, final(mem)@) == old(cpu)@.after_jmp(old(mem)@),
{
    let target = cpu.instruction.arg[0];
    let code = cpu.instruction.arg[1];
    if 1 <= code && code <= 16 {
        let flag = match (code - 1) % 4 {
            0 => StatusFlag::Carry,
            1 => StatusFlag::Zero,
            2 => StatusFlag::Overflow,
            _ => StatusFlag::Negative,
        };
        let wanted = code <= 4 || (9 <= code && code <= 12);
        if cpu.get_status_flag(flag) == wanted {
            if code >= 9 {
                cpu.set_pc(mem, add32(cpu.prev_pc, target));
            } else {
                cpu.set_pc(mem, target);
            }
        }
    } else if code == 17 {
        let pc = cpu.get_pc(mem);
        cpu.set_pc(mem, add32(pc, target));
    } else {
        cpu.set_pc(mem, target);
    }
}

fn call(cpu: &mut CPU, mem: &mut Memory)
    ensures
        (final(cpu)@, final(mem)@) == old(cpu)@.after_call(old(mem)@),
{
    let pos = cpu.get_pc(mem);
    let target = add32(cpu.instruction.arg[0], cpu.instruction.arg[1]);
    cpu.write_int_le(mem, cpu.instruction.arg[2], pos);
    cpu.set_pc(mem, target);
}

fn adjust_pointer(cpu: &CPU, mem: &mut Memory, reg: u32, up: bool)
    ensures
        final(mem)@ == cpu@.adjusted(old(mem)@, reg, up),
{
    let pointer = cpu.read_int_le(mem, reg);
    let step = operand_width(cpu);
    if up {
        cpu.write_int_le(mem, reg, add32(pointer, step));
    } else {
        cpu.write_int_le(mem, reg, sub32(pointer, step));
    }
}

fn store(cpu: &CPU, mem: &mut Memory)
    ensures
        final(mem)@ == cpu@.after_store(old(mem)@),
{
    let value = cpu.instruction.arg[0];
    let base = cpu.instruction.arg[1];
    let third = cpu.instruction.arg[2];
    let third_direct = !operand_is_indirect(cpu.instruction.args, 2);
    if operand_is_indirect(cpu.instruction.args, 1) {
        store_value(cpu, mem, base, value);
        if third_direct {
            adjust_pointer(cpu, mem, third, false);
        }
    } else if third == 0 {
        store_value(cpu, mem, add32(base, cpu.prev_pc), value);
    } else if third_direct {
        let pointer = cpu.read_int_le(mem, third);
        store_value(cpu, mem, add32(base, pointer), value);
        cpu.write_int_le(mem, third, sub32(pointer, operand_width(cpu)));
    } else {
        store_value(cpu, mem, add32(base, third), value);
    }
}

fn load(cpu: &CPU, mem: &mut Memory)
    ensures
        final(mem)@ == cpu@.after_load(old(mem)@),
{
    let dest = cpu.instruction.arg[0];
    let base = cpu.instruction.arg[1];
    let third = cpu.instruction.arg[2];
    let third_direct = !operand_is_indirect(cpu.instruction.args, 2);
    if operand_is_indirect(cpu.instruction.args, 1) {
        store_value(cpu, mem, dest, base);
        if third_direct {
            adjust_pointer(cpu, mem, third, true);
        }
    } else if third == 0 {
        let value = load_value(cpu, mem, add32(base, cpu.prev_pc));
        store_value(cpu, mem, dest, value);
    } else if third_direct {
        let pointer = cpu.read_int_le(mem, third);
        let value = load_value(cpu, mem, add32(base, pointer));
        store_value(cpu, mem, dest, value);
        cpu.write_int_le(mem, third, add32(pointer, operand_width(cpu)));
    } else {
        let value = load_value(cpu, mem, add32(base, third));
        store_value(cpu, mem, dest, value);
    }
}

fn compare(cpu: &mut CPU)
    ensures
        final(cpu)@ == (CpuView { p: old(cpu)@.after_compare(), ..old(cpu)@ }),
{
    match cpu.instruction.addressing_type {
        ArgumentSize::Byte => {
            let subtrahend = (cpu.instruction.arg[0] & 0xff) as u8;
            let minuend = (cpu.instruction.arg[1] & 0xff) as u8;
            cpu.set_status_flag(StatusFlag::Carry, minuend >= subtrahend);
            cpu.set_zn_flags(minuend.wrapping_sub(subtrahend));
        },
        ArgumentSize::Int => {
            let subtrahend = cpu.instruction.arg[0];
            let minuend = cpu.instruction.arg[1];
            cpu.set_status_flag(StatusFlag::Carry, minuend >= subtrahend);
            cpu.set_zn_flags_int(sub32(minuend, subtrahend));
        },
    }
}

fn rotate(cpu: &mut CPU, mem: &mut Memory, left: bool)
    ensures
        (final(cpu)@, final(mem)@) == old(cpu)@.after_rotate(old(mem)@, left),
{
    let carry = cpu.get_status_flag(StatusFlag::Carry);
    match cpu.instruction.addressing_type {
        ArgumentSize::Byte => {
            let v = (cpu.instruction.arg[1] & 0xff) as u8;
            let res = if left {
                cpu.set_status_flag(StatusFlag::Carry, (v & 0x80) != 0);
                (v << 1) | (if carry { 1u8 } else { 0u8 })
            } else {
                cpu.set_status_flag(StatusFlag::Carry, (v & 0x01) != 0);
                (v >> 1) | (if carry { 0x80u8 } else { 0u8 })
            };
            cpu.write_byte(mem, cpu.instruction.arg[0], res);
            cpu.set_zn_flags(res);
        },
        ArgumentSize::Int => {
            let v = cpu.instruction.arg[1];
            let res = if left {
                cpu.set_status_flag(StatusFlag::Carry, (v & 0x8000_0000) != 0);
                (v << 1) | (if carry { 1u32 } else { 0u32 })
            } else {
                cpu.set_status_flag(StatusFlag::Carry, (v & 0x01) != 0);
                (v >> 1) | (if carry { 0x8000_0000u32 } else { 0u32 })
            };
            cpu.write_int_le(mem, cpu.instruction.arg[0], res);
            cpu.set_zn_flags_int(res);
        },
    }
}

fn compute(op: Op, a: u32, b: u32) -> (result: u32)
    ensures
        result == alu(op, a, b),
{
    match op {
        Op::ADD => add32(a, b),
        Op::SUB => sub32(a, b),
        Op::MUL => a.wrapping_mul(b),
        Op::AND => a & b,
        Op::OR => a | b,
        Op::XOR => a ^ b,
        Op::BSL => a.wrapping_shl(b),
        Op::BSR => a.wrapping_shr(b),
        _ => a,
    }
}

/// Executes the current instruction on its resolved operands. Always
/// returns `true`.
pub fn run(cpu: &mut CPU, mem: &mut Memory) -> (done: bool)
    ensures
        done,
        (final(cpu)@, final(mem)@) == old(cpu)@.after_execute(old(mem)@),
        final(cpu)@.instruction == old(cpu)@.instruction,
        final(cpu).instruction_u8 == old(cpu).instruction_u8,
{
    match cpu.instruction.opcode {
        Op::JMP => jump(cpu, mem),
        Op::CLL => call(cpu, mem),
        Op::STR => store(cpu, mem),
        Op::LDR => load(cpu, mem),
        Op::CMP => compare(cpu),
        Op::RR => rotate(cpu, mem, false),
        Op::RL => rotate(cpu, mem, true),
        Op::NOT => {
            store_value(cpu, mem, cpu.instruction.arg[0], cpu.instruction.arg[1]);
        },
        op => {
            let result = compute(op, cpu.instruction.arg[1], cpu.instruction.arg[2]);
            store_value(cpu, mem, cpu.instruction.arg[0], result);
        },
    }
    true
}

} // verus!
