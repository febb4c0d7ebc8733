//! What the processor does, as functions on values: the three phases of an
//! instruction, and the effect of each opcode on flags, program counter and
//! memory.

use vstd::prelude::*;
use crate::cpu::{flag_set, with_flag, with_zn, wrap32, CPUState, CpuView, StatusFlag};
use crate::memory::{byte_at, set_byte, set_u32, u32_at};
use crate::opcodes::{decode, is_indirect, width_bytes, ArgumentSize, InstructionView, Op};

verus! {

/// The low eight bits of a value.
pub open spec fn low_byte(v: u32) -> u8 {
    (v & 0xff) as u8
}

/// The value read at `addr` at the given width.
pub open spec fn load_w(m: Seq<u8>, width: ArgumentSize, addr: u32) -> u32 {
    match width {
        ArgumentSize::Byte => byte_at(m, addr as int) as u32,
        ArgumentSize::Int => u32_at(m, addr as int),
    }
}

/// The memory after `v` is stored at `addr` at the given width: its low
/// byte, or all four bytes.
pub open spec fn store_w(m: Seq<u8>, width: ArgumentSize, addr: u32, v: u32) -> Seq<u8> {
    match width {
        ArgumentSize::Byte => set_byte(m, addr as int, low_byte(v)),
        ArgumentSize::Int => set_u32(m, addr as int, v),
    }
}

/// The flag that a condition code of `JMP` tests: codes 1 to 16 go through
/// Carry, Zero, Overflow, Negative four times.
pub open spec fn jmp_flag(code: u32) -> StatusFlag {
    if (code - 1) % 4 == 0 {
        StatusFlag::Carry
    } else if (code - 1) % 4 == 1 {
        StatusFlag::Zero
    } else if (code - 1) % 4 == 2 {
        StatusFlag::Overflow
    } else {
        StatusFlag::Negative
    }
}

/// Whether `JMP` with this condition code jumps when the status register
/// holds `p`. Codes 1 to 4 and 9 to 12 ask for a set flag, 5 to 8 and 13 to 16
/// for a clear one; every other code always jumps.
pub open spec fn jmp_taken(code: u32, p: u8) -> bool {
    if 1 <= code <= 4 || 9 <= code <= 12 {
        flag_set(p, jmp_flag(code))
    } else if 5 <= code <= 8 || 13 <= code <= 16 {
        !flag_set(p, jmp_flag(code))
    } else {
        true
    }
}

/// Where `JMP` with this condition code goes. Codes 9 to 16 add the operand
/// to the address of the instruction, code 17 adds it to the program counter
/// as it stands after the operands, every other code takes it as the address.
pub open spec fn jmp_target(code: u32, operand: u32, prev_pc: u32, pc: u32) -> u32 {
    if 9 <= code <= 16 {
        wrap32(prev_pc + operand)
    } else if code == 17 {
        wrap32(pc + operand)
    } else {
        operand
    }
}

/// What the two-operand arithmetic of an opcode gives. Sums, differences and
/// products wrap at 32 bits; a shift takes its distance modulo 32.
pub open spec fn alu(op: Op, a: u32, b: u32) -> u32 {
    match op {
        Op::ADD => wrap32(a + b),
        Op::SUB => wrap32(a - b),
        Op::MUL => wrap32(a * b),
        Op::AND => a & b,
        Op::OR => a | b,
        Op::XOR => a ^ b,
        Op::BSL => a << (b % 32),
        Op::BSR => a >> (b % 32),
        _ => a,
    }
}

/// The 32-bit value rotated right by one bit through the carry.
pub open spec fn rotate_right_int(v: u32, carry: bool) -> u32 {
    (v >> 1) | (if carry { 0x8000_0000u32 } else { 0u32 })
}

/// The 32-bit value rotated left by one bit through the carry.
pub open spec fn rotate_left_int(v: u32, carry: bool) -> u32 {
    (v << 1) | (if carry { 1u32 } else { 0u32 })
}

/// The byte rotated right by one bit through the carry.
pub open spec fn rotate_right_byte(v: u8, carry: bool) -> u8 {
    (v >> 1) | (if carry { 0x80u8 } else { 0u8 })
}

/// The byte rotated left by one bit through the carry.
pub open spec fn rotate_left_byte(v: u8, carry: bool) -> u8 {
    (v << 1) | (if carry { 1u8 } else { 0u8 })
}

impl CpuView {
    /// Operand number `slot` of the current instruction.
    pub open spec fn arg(self, slot: int) -> u32 {
        self.instruction.arg[slot]
    }

    /// The width of the current instruction.
    pub open spec fn width(self) -> ArgumentSize {
        self.instruction.addressing_type
    }

    /// The processor with `v` as operand number `slot`.
    pub open spec fn with_arg(self, slot: int, v: u32) -> CpuView {
        CpuView {
            instruction: InstructionView {
                arg: self.instruction.arg.update(slot, v),
                ..self.instruction
            },
            ..self
        }
    }

    /// The processor with `index` as the place of operand `slot` in the list
    /// of symbols.
    pub open spec fn with_arg_index(self, slot: int, index: u32) -> CpuView {
        CpuView {
            instruction: InstructionView {
                arg_index: self.instruction.arg_index.update(slot, index),
                ..self.instruction
            },
            ..self
        }
    }

    /// Opcode, number of operands, addressing mask and width of the
    /// instruction are what its encoding byte says.
    pub open spec fn matches_encoding(self) -> bool {
        (
            self.instruction.opcode,
            self.instruction.size,
            self.instruction.args,
            self.instruction.addressing_type,
        ) == decode(self.instruction_u8)
    }

    /// The processor with what an encoding byte says as its instruction.
    pub open spec fn with_decoded(self, byte: u8) -> CpuView {
        CpuView { instruction: self.instruction.with_decoded(byte), instruction_u8: byte, ..self }
    }

    /// Processor, memory and the literal read when one operand is taken from
    /// the instruction stream at the instruction's width.
    pub open spec fn after_next_literal(self, m: Seq<u8>) -> (CpuView, Seq<u8>, u32) {
        match self.width() {
            ArgumentSize::Byte => {
                let (c, m2, b) = self.after_next_byte(m);
                (c, m2, b as u32)
            },
            ArgumentSize::Int => self.after_next_int(m),
        }
    }

    /// After operand `slot` is read as it stands in the stream.
    pub open spec fn after_pull_slot(self, m: Seq<u8>, slot: int) -> (CpuView, Seq<u8>) {
        let (c, m2, literal) = self.after_next_literal(m);
        (c.with_arg(slot, literal), m2)
    }

    /// After the first `n` operands are read as they stand in the stream.
    pub open spec fn after_pull(self, m: Seq<u8>, n: nat) -> (CpuView, Seq<u8>)
        decreases n,
    {
        if n == 0 {
            (self, m)
        } else {
            let (c, m2) = self.after_pull(m, (n - 1) as nat);
            c.after_pull_slot(m2, n - 1)
        }
    }

    /// After operand `slot` is resolved: the literal of a direct operand is
    /// its value; that of an indirect operand is the address where its value
    /// is read, at the instruction's width.
    pub open spec fn after_fetch_slot(self, m: Seq<u8>, slot: int) -> (CpuView, Seq<u8>) {
        let (c, m2, literal) = self.after_next_literal(m);
        let value = if is_indirect(self.instruction.args, slot) {
            load_w(m2, self.width(), literal)
        } else {
            literal
        };
        (c.with_arg(slot, value), m2)
    }

    /// After the first `n` operands are resolved, in order.
    pub open spec fn after_fetch(self, m: Seq<u8>, n: nat) -> (CpuView, Seq<u8>)
        decreases n,
    {
        if n == 0 {
            (self, m)
        } else {
            let (c, m2) = self.after_fetch(m, (n - 1) as nat);
            c.after_fetch_slot(m2, n - 1)
        }
    }

    /// After operand `slot` is written to the stream at the program counter,
    /// which advances by the instruction's width.
    pub open spec fn after_push_slot(self, m: Seq<u8>, slot: int) -> (CpuView, Seq<u8>) {
        let pc = self.pc_in(m);
        let m2 = store_w(m, self.width(), pc, self.arg(slot));
        self.with_pc(m2, wrap32(pc + width_bytes(self.width())))
    }

    /// After the first `n` operands are written to the stream.
    pub open spec fn after_push(self, m: Seq<u8>, n: nat) -> (CpuView, Seq<u8>)
        decreases n,
    {
        if n == 0 {
            (self, m)
        } else {
            let (c, m2) = self.after_push(m, (n - 1) as nat);
            c.after_push_slot(m2, n - 1)
        }
    }

    /// `JMP`: operand 0 is the target, operand 1 the condition code.
    pub open spec fn after_jmp(self, m: Seq<u8>) -> (CpuView, Seq<u8>) {
        if jmp_taken(self.arg(1), self.p) {
            self.with_pc(m, jmp_target(self.arg(1), self.arg(0), self.prev_pc, self.pc_in(m)))
        } else {
            (self, m)
        }
    }

    /// `CLL`: the program counter is stored, as four bytes, at the address
    /// that operand 2 gives, and then set to the sum of operands 0 and 1.
    pub open spec fn after_call(self, m: Seq<u8>) -> (CpuView, Seq<u8>) {
        let m2 = set_u32(m, self.arg(2) as int, self.pc_in(m));
        self.with_pc(m2, wrap32(self.arg(0) + self.arg(1)))
    }

    /// The memory after the 32-bit value at `reg` has gone up or down by the
    /// instruction's width.
    pub open spec fn adjusted(self, m: Seq<u8>, reg: u32, up: bool) -> Seq<u8> {
        let old_value = u32_at(m, reg as int);
        let step = width_bytes(self.width());
        set_u32(m, reg as int, wrap32(if up { old_value + step } else { old_value - step }))
    }

    /// `STR`: operand 0 is the value. With operand 1 indirect it is stored at
    /// operand 1, and the value at operand 2 goes down by the width unless
    /// operand 2 is indirect. With operand 1 direct: where operand 2 is 0 the
    /// value is stored at operand 1 plus the address of the instruction;
    /// where operand 2 is direct it names a pointer, the value is stored at
    /// operand 1 plus the pointer's value and the pointer goes down by the
    /// width; else the value is stored at operand 1 plus operand 2.
    pub open spec fn after_store(self, m: Seq<u8>) -> Seq<u8> {
        let w = self.width();
        let mask = self.instruction.args;
        if is_indirect(mask, 1) {
            let m2 = store_w(m, w, self.arg(1), self.arg(0));
            if is_indirect(mask, 2) {
                m2
            } else {
                self.adjusted(m2, self.arg(2), false)
            }
        } else if self.arg(2) == 0 {
            store_w(m, w, wrap32(self.arg(1) + self.prev_pc), self.arg(0))
        } else if !is_indirect(mask, 2) {
            let pointer = u32_at(m, self.arg(2) as int);
            let m2 = store_w(m, w, wrap32(self.arg(1) + pointer), self.arg(0));
            set_u32(m2, self.arg(2) as int, wrap32(pointer - width_bytes(w)))
        } else {
            store_w(m, w, wrap32(self.arg(1) + self.arg(2)), self.arg(0))
        }
    }

    /// `LDR`: operand 0 is the address that receives the value. The value is
    /// operand 1 itself where operand 1 is indirect; else it is read where
    /// `STR` would store, and a pointer goes up by the width, not down.
    pub open spec fn after_load(self, m: Seq<u8>) -> Seq<u8> {
        let w = self.width();
        let mask = self.instruction.args;
        if is_indirect(mask, 1) {
            let m2 = store_w(m, w, self.arg(0), self.arg(1));
            if is_indirect(mask, 2) {
                m2
            } else {
                self.adjusted(m2, self.arg(2), true)
            }
        } else if self.arg(2) == 0 {
            store_w(m, w, self.arg(0), load_w(m, w, wrap32(self.arg(1) + self.prev_pc)))
        } else if !is_indirect(mask, 2) {
            let pointer = u32_at(m, self.arg(2) as int);
            let m2 = store_w(m, w, self.arg(0), load_w(m, w, wrap32(self.arg(1) + pointer)));
            set_u32(m2, self.arg(2) as int, wrap32(pointer + width_bytes(w)))
        } else {
            store_w(m, w, self.arg(0), load_w(m, w, wrap32(self.arg(1) + self.arg(2))))
        }
    }

    /// The status register after `CMP`, which takes operand 0 from operand 1
    /// at the instruction's width: Carry says that the difference is not
    /// negative, Zero and Negative describe the difference as the width
    /// holds it.
    pub open spec fn after_compare(self) -> u8 {
        match self.width() {
            ArgumentSize::Byte => {
                let difference = low_byte(self.arg(1)) - low_byte(self.arg(0));
                let held = (difference % 0x100) as u8;
                with_zn(with_flag(self.p, StatusFlag::Carry, difference >= 0), held == 0, held >= 0x80)
            },
            ArgumentSize::Int => {
                let difference = self.arg(1) - self.arg(0);
                let held = wrap32(difference);
                with_zn(
                    with_flag(self.p, StatusFlag::Carry, difference >= 0),
                    held == 0,
                    held >= 0x8000_0000,
                )
            },
        }
    }

    /// `RR` and `RL`: operand 1 turns by one bit through the Carry flag and
    /// is stored at operand 0; Carry takes the bit that left, Zero and
    /// Negative describe the result.
    pub open spec fn after_rotate(self, m: Seq<u8>, left: bool) -> (CpuView, Seq<u8>) {
        let carry = flag_set(self.p, StatusFlag::Carry);
        match self.width() {
            ArgumentSize::Byte => {
                let v = low_byte(self.arg(1));
                let out = if left { v & 0x80 != 0 } else { v & 0x01 != 0 };
                let res = if left { rotate_left_byte(v, carry) } else { rotate_right_byte(v, carry) };
                (
                    CpuView {
                        p: with_zn(with_flag(self.p, StatusFlag::Carry, out), res == 0, res >= 0x80),
                        ..self
                    },
                    set_byte(m, self.arg(0) as int, res),
                )
            },
            ArgumentSize::Int => {
                let v = self.arg(1);
                let out = if left { v & 0x8000_0000 != 0 } else { v & 0x01 != 0 };
                let res = if left { rotate_left_int(v, carry) } else { rotate_right_int(v, carry) };
                (
                    CpuView {
                        p: with_zn(
                            with_flag(self.p, StatusFlag::Carry, out),
                            res == 0,
                            res >= 0x8000_0000,
                        ),
                        ..self
                    },
                    set_u32(m, self.arg(0) as int, res),
                )
            },
        }
    }

    /// Processor and memory after the current instruction is executed on its
    /// resolved operands.
    pub open spec fn after_execute(self, m: Seq<u8>) -> (CpuView, Seq<u8>) {
        match self.instruction.opcode {
            Op::JMP => self.after_jmp(m),
            Op::CLL => self.after_call(m),
            Op::STR => (self, self.after_store(m)),
            Op::LDR => (self, self.after_load(m)),
            Op::CMP => (CpuView { p: self.after_compare(), ..self }, m),
            Op::RR => self.after_rotate(m, false),
            Op::RL => self.after_rotate(m, true),
            Op::NOT => (self, store_w(m, self.width(), self.arg(0), self.arg(1))),
            op => (self, store_w(m, self.width(), self.arg(0), alu(op, self.arg(1), self.arg(2)))),
        }
    }

    /// Processor and memory after one call of `update`, which performs the
    /// phase that `state` names: it takes the encoding byte and notes where
    /// it stood, or resolves the operands, or executes.
    pub open spec fn after_update(self, m: Seq<u8>) -> (CpuView, Seq<u8>) {
        match self.state {
            CPUState::FetchOp => {
                let (c, m2, byte) = self.after_next_byte(m);
                (
                    CpuView {
                        prev_pc: self.pc_in(m),
                        state: CPUState::FetchOperandAddr,
                        ..c.with_decoded(byte)
                    },
                    m2,
                )
            },
            CPUState::FetchOperandAddr => {
                let (c, m2) = self.after_fetch(m, self.instruction.size as nat);
                (CpuView { state: CPUState::ExecuteOp, ..c }, m2)
            },
            CPUState::ExecuteOp => {
                let (c, m2) = self.after_execute(m);
                (CpuView { state: CPUState::FetchOp, ..c }, m2)
            },
        }
    }

    /// Processor and memory after the instruction at `address` is loaded
    /// without being executed: the program counter is set to `address`, the
    /// encoding byte is taken and decoded, and the operands are read as they
    /// stand in the stream.
    pub open spec fn after_load_opcode(self, m: Seq<u8>, address: u32) -> (CpuView, Seq<u8>) {
        let (c1, m1) = self.with_pc(m, address);
        let c2 = CpuView { prev_pc: c1.pc_in(m1), ..c1 };
        let (c3, m3, byte) = c2.after_next_byte(m1);
        let c4 = c3.with_decoded(byte);
        c4.after_pull(m3, c4.instruction.size as nat)
    }
}

} // verus!
