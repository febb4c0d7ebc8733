//! The disassembler: it loads one instruction, names its operands in the
//! list of symbols, and renders it as a line of text.

use vstd::prelude::*;
use vstd::string::StringExecFns;
use crate::cpu::{wrap32, CpuView, ItemView, BSS, CODE, CPU, STACK_REG};
use crate::labels::{code_label, lookup_label, mem_label};
use crate::memory::{byte_of_u32, u32_at, Memory};
use crate::opcodes::{is_indirect, mnemonic, mnemonic_str, ArgumentSize, Op};
use crate::semantics::{jmp_target, low_byte};
use crate::symbols::{item_index, with_item};
use crate::text::{dec_digits, hex_padded, push_dec, push_hex};

verus! {

/// A prefix followed by the eight hexadecimal digits of an address.
pub open spec fn tagged(prefix: Seq<char>, adr: u32) -> Seq<char> {
    prefix + hex_padded(adr as nat, 8)
}

impl CpuView {
    /// The processor after a symbol with this name and value is put in the
    /// list, with the description of one blank, and its index is noted for
    /// operand `slot`.
    pub open spec fn with_symbol(self, slot: int, name: Seq<char>, value: u32) -> CpuView {
        let item = ItemView { name, description: " "@, value };
        (CpuView { data: with_item(self.data, item), ..self }).with_arg_index(
            slot,
            item_index(self.data, item) as u32,
        )
    }

    /// The name for the place that `STR` or `LDR` with a direct operand 1
    /// reaches: `LABEL_` where operand 2 is 0 and the place is relative to
    /// the instruction; where operand 2 names a pointer, `LOCALVAR_` for the
    /// stack pointer, `VAR_` for a pointer above the static data, `CONST_`
    /// for any other; `LOCALVAR_` where operand 2 is indirect.
    pub open spec fn transfer_symbol(self, m: Seq<u8>) -> Seq<char> {
        if self.arg(2) == 0 {
            tagged("LABEL_"@, wrap32(self.arg(1) + self.prev_pc))
        } else if !is_indirect(self.instruction.args, 2) {
            let place = wrap32(self.arg(1) + u32_at(m, self.arg(2) as int));
            if self.arg(2) == STACK_REG {
                tagged("LOCALVAR_"@, place)
            } else if self.arg(2) > BSS {
                tagged("VAR_"@, place)
            } else {
                tagged("CONST_"@, place)
            }
        } else {
            tagged("LOCALVAR_"@, wrap32(self.arg(1) + self.arg(2)))
        }
    }

    /// Symbols of `STR` and `LDR`. With operand 1 direct, the place reached
    /// is named, with operand 1 as its value, and noted for operand 2. An
    /// indirect operand 0 or 1 notes index 0, and so does, beside an
    /// indirect operand 1, a direct operand 2 above `CODE`.
    pub open spec fn after_transfer_symbols(self, m: Seq<u8>) -> CpuView {
        let mask = self.instruction.args;
        let c0 = if is_indirect(mask, 0) {
            self.with_arg_index(0, 0)
        } else {
            self
        };
        if is_indirect(mask, 1) {
            let c1 = c0.with_arg_index(1, 0);
            if !is_indirect(mask, 2) && self.arg(2) > CODE {
                c1.with_arg_index(2, 0)
            } else {
                c1
            }
        } else {
            c0.with_symbol(2, self.transfer_symbol(m), self.arg(1))
        }
    }

    /// Symbols of `CLL`: with operands 0 and 1 direct, the target is named
    /// by its label, or `LABEL_` and its address, and noted for operand 0.
    pub open spec fn after_call_symbols(self) -> CpuView {
        let mask = self.instruction.args;
        if !is_indirect(mask, 0) && !is_indirect(mask, 1) {
            let target = wrap32(self.arg(0) + self.arg(1));
            let name = match lookup_label(self.labels, target) {
                Some(label) => label.tag,
                None => tagged("LABEL_"@, target),
            };
            self.with_symbol(0, name, self.arg(0))
        } else {
            self
        }
    }

    /// The name of the target of `JMP` with a direct operand 0: the name of
    /// the address that the jump goes to, followed, where the condition code
    /// makes the operand an offset, by the offset.
    pub open spec fn jump_symbol(self, m: Seq<u8>) -> Seq<char> {
        let code = self.arg(1);
        let target = jmp_target(code, self.arg(0), self.prev_pc, self.pc_in(m));
        if 9 <= code <= 17 {
            mem_label(self.labels, target) + " (pc+"@ + dec_digits(self.arg(0) as nat) + ")"@
        } else {
            mem_label(self.labels, target)
        }
    }

    /// Symbols of `JMP`: the condition code as `CONST_` or, indirect, `REF_`
    /// for operand 1; then the target for operand 0, an indirect one as
    /// `REF_[` address `]`.
    pub open spec fn after_jump_symbols(self, m: Seq<u8>) -> CpuView {
        let mask = self.instruction.args;
        let code_name = if is_indirect(mask, 1) {
            tagged("REF_"@, self.arg(1))
        } else {
            tagged("CONST_"@, self.arg(1))
        };
        let c1 = self.with_symbol(1, code_name, self.arg(1));
        let target_name = if is_indirect(mask, 0) {
            "REF_["@ + hex_padded(self.arg(0) as nat, 8) + "]"@
        } else {
            self.jump_symbol(m)
        };
        c1.with_symbol(0, target_name, self.arg(0))
    }

    /// The name of operand `slot` of any other opcode: the name of the
    /// address for operand 0 and for an indirect operand, `CONST_` and the
    /// value for a direct one.
    pub open spec fn operand_symbol(self, slot: int) -> Seq<char> {
        if slot == 0 || is_indirect(self.instruction.args, slot) {
            mem_label(self.labels, self.arg(slot))
        } else {
            tagged("CONST_"@, self.arg(slot))
        }
    }

    /// Symbols of the first `n` operands of any other opcode.
    pub open spec fn after_operand_symbols(self, n: nat) -> CpuView
        decreases n,
    {
        if n == 0 {
            self
        } else {
            let c = self.after_operand_symbols((n - 1) as nat);
            c.with_symbol(n - 1, c.operand_symbol(n - 1), c.arg(n - 1))
        }
    }

    /// The processor after the operands of the loaded instruction are named
    /// in the list of symbols.
    pub open spec fn after_symbols(self, m: Seq<u8>) -> CpuView {
        match self.instruction.opcode {
            Op::STR | Op::LDR => self.after_transfer_symbols(m),
            Op::CLL => self.after_call_symbols(),
            Op::JMP => self.after_jump_symbols(m),
            _ => self.after_operand_symbols(self.instruction.size as nat),
        }
    }

    /// Processor and memory after the instruction at `address` is
    /// disassembled.
    pub open spec fn after_disassemble(self, m: Seq<u8>, address: u32) -> (CpuView, Seq<u8>) {
        let (c, m2) = self.after_load_opcode(m, address);
        (c.after_symbols(m2), m2)
    }

    /// Operand `slot` as the line of text shows it: an indirect operand as
    /// the name of its address in brackets, a direct one in decimal; at byte
    /// width, the low byte of the operand only.
    pub open spec fn operand_text(self, slot: int) -> Seq<char> {
        let shown = match self.width() {
            ArgumentSize::Int => self.arg(slot),
            ArgumentSize::Byte => low_byte(self.arg(slot)) as u32,
        };
        if is_indirect(self.instruction.args, slot) {
            " ["@ + mem_label(self.labels, shown) + "]"@
        } else {
            " "@ + dec_digits(shown as nat)
        }
    }

    /// The first `n` operands as the line of text shows them.
    pub open spec fn operands_text(self, n: nat) -> Seq<char>
        decreases n,
    {
        if n == 0 {
            Seq::empty()
        } else {
            self.operands_text((n - 1) as nat) + self.operand_text(n - 1)
        }
    }

    /// The bytes of operand `slot` as they stand in memory, two hexadecimal
    /// digits each, after a blank.
    pub open spec fn operand_bytes_text(self, slot: int) -> Seq<char> {
        let v = self.arg(slot);
        match self.width() {
            ArgumentSize::Int => " "@ + hex_padded(byte_of_u32(v, 0) as nat, 2) + hex_padded(
                byte_of_u32(v, 1) as nat,
                2,
            ) + hex_padded(byte_of_u32(v, 2) as nat, 2) + hex_padded(byte_of_u32(v, 3) as nat, 2),
            ArgumentSize::Byte => " "@ + hex_padded(low_byte(v) as nat, 2),
        }
    }

    /// The bytes of the first `n` operands.
    pub open spec fn bytes_text(self, n: nat) -> Seq<char>
        decreases n,
    {
        if n == 0 {
            Seq::empty()
        } else {
            self.bytes_text((n - 1) as nat) + self.operand_bytes_text(n - 1)
        }
    }

    /// The first half of the line: `$`, the address of the instruction in at
    /// least four hexadecimal digits, a colon, the label column, a blank,
    /// the letter of the width, the mnemonic and a comma.
    pub open spec fn text_head(self) -> Seq<char> {
        "$"@ + hex_padded(self.prev_pc as nat, 4) + ":"@ + code_label(self.labels, self.prev_pc) + (
        match self.width() {
            ArgumentSize::Int => " i"@,
            ArgumentSize::Byte => " b"@,
        }) + mnemonic(self.instruction.opcode) + ","@
    }

    /// The operands of the line: for `JMP` the name of operand 0, a comma
    /// and operand 1 in decimal; else each operand in turn.
    pub open spec fn text_operands(self) -> Seq<char> {
        if self.instruction.opcode == Op::JMP {
            " "@ + mem_label(self.labels, self.arg(0)) + ","@ + dec_digits(self.arg(1) as nat)
        } else {
            self.operands_text(self.instruction.size as nat)
        }
    }

    /// The line of text for the loaded instruction: head, operands, a tab,
    /// then the encoding byte and the bytes of each operand in hexadecimal,
    /// and a line feed.
    pub open spec fn text(self) -> Seq<char> {
        self.text_head() + self.text_operands() + "\t"@ + " "@ + hex_padded(
            self.instruction_u8 as nat,
            2,
        ) + self.bytes_text(self.instruction.size as nat) + "\n"@
    }
}

fn byte_of(v: u32, k: u8) -> (b: u8)
    ensures
        b == byte_of_u32(v, k as int),
{
    if k == 0 {
        (v & 0xff) as u8
    } else if k == 1 {
        ((v >> 8) & 0xff) as u8
    } else if k == 2 {
        ((v >> 16) & 0xff) as u8
    } else {
        ((v >> 24) & 0xff) as u8
    }
}

fn tagged_name(prefix: &str, adr: u32) -> (name: String)
    ensures
        name@ == tagged(prefix@, adr),
{
    let mut s = String::from_str(prefix);
    push_hex(&mut s, adr, 8);
    s
}

impl CPU {
    fn add_symbol(&mut self, slot: usize, name: String, value: u32)
        requires
            slot < 3,
            old(self)@.data.len() < u32::MAX,
        ensures
            final(self)@ == old(self)@.with_symbol(slot as int, name@, value),
            final(self)@.data.len() <= old(self)@.data.len() + 1,
    {
        let item = CPU::new_item(name, String::from_str(" "), value);
        let index = CPU::add_new_item(&mut self.data, item);
        self.instruction.arg_index[slot] = index;
    }

    fn transfer_symbols(&mut self, mem: &Memory)
        requires
            old(self)@.data.len() < u32::MAX,
        ensures
            final(self)@ == old(self)@.after_transfer_symbols(mem@),
            final(self)@.matches_encoding() == old(self)@.matches_encoding(),
            old(self)@.instruction.wf() ==> final(self)@.instruction.wf(),
            final(self)@.data.len() <= old(self)@.data.len() + 1,
    {
        let mask = self.instruction.args;
        let first = self.instruction.arg[1];
        let second = self.instruction.arg[2];
        if mask & 0x04 != 0 {
            self.instruction.arg_index[0] = 0;
        }
        if mask & 0x02 != 0 {
            self.instruction.arg_index[1] = 0;
            if mask & 0x01 == 0 && second > CODE {
                self.instruction.arg_index[2] = 0;
            }
        } else {
            let name = if second == 0 {
                tagged_name("LABEL_", first.wrapping_add(self.prev_pc))
            } else if mask & 0x01 == 0 {
                let place = first.wrapping_add(self.read_int_le(mem, second));
                if second == STACK_REG {
                    tagged_name("LOCALVAR_", place)
                } else if second > BSS {
                    tagged_name("VAR_", place)
                } else {
                    tagged_name("CONST_", place)
                }
            } else {
                tagged_name("LOCALVAR_", first.wrapping_add(second))
            };
            self.add_symbol(2, name, first);
        }
    }

    fn call_symbols(&mut self)
        requires
            old(self)@.data.len() < u32::MAX,
        ensures
            final(self)@ == old(self)@.after_call_symbols(),
            final(self)@.matches_encoding() == old(self)@.matches_encoding(),
            old(self)@.instruction.wf() ==> final(self)@.instruction.wf(),
            final(self)@.data.len() <= old(self)@.data.len() + 1,
    {
        let mask = self.instruction.args;
        if mask & 0x04 == 0 && mask & 0x02 == 0 {
            let target = self.instruction.arg[0].wrapping_add(self.instruction.arg[1]);
            let name = match self.get_label(target) {
                Some(label) => label.tag,
                None => tagged_name("LABEL_", target),
            };
            self.add_symbol(0, name, self.instruction.arg[0]);
        }
    }

    fn jump_symbols(&mut self, mem: &Memory)
        requires
            old(self)@.data.len() + 1 < u32::MAX,
        ensures
            final(self)@ == old(self)@.after_jump_symbols(mem@),
            final(self)@.matches_encoding() == old(self)@.matches_encoding(),
            old(self)@.instruction.wf() ==> final(self)@.instruction.wf(),
            final(self)@.data.len() <= old(self)@.data.len() + 2,
    {
        let mask = self.instruction.args;
        let target = self.instruction.arg[0];
        let code = self.instruction.arg[1];
        let code_name = if mask & 0x02 != 0 {
            tagged_name("REF_", code)
        } else {
            tagged_name("CONST_", code)
        };
        let target_name = if mask & 0x04 != 0 {
            let mut s = String::from_str("REF_[");
            push_hex(&mut s, target, 8);
            s.append("]");
            s
        } else if 9 <= code && code <= 17 {
            let base = if code == 17 {
                self.get_pc(mem)
            } else {
                self.prev_pc
            };
            let mut s = self.get_mem_label(base.wrapping_add(target));
            s.append(" (pc+");
            push_dec(&mut s, target);
            s.append(")");
            s
        } else {
            self.get_mem_label(target)
        };
        self.add_symbol(1, code_name, code);
        self.add_symbol(0, target_name, target);
    }

    fn operand_symbols(&mut self)
        requires
            old(self)@.instruction.wf(),
            old(self)@.data.len() + 2 < u32::MAX,
        ensures
            final(self)@ == old(self)@.after_operand_symbols(old(self).instruction.size as nat),
            final(self)@.matches_encoding() == old(self)@.matches_encoding(),
            old(self)@.instruction.wf() ==> final(self)@.instruction.wf(),
            final(self)@.data.len() <= old(self)@.data.len() + 3,
    {
        let size = self.instruction.size;
        let mut i: u8 = 0;
        while i < size
            invariant
                i <= size <= 3,
                size == self.instruction.size,
                self@.data.len() <= old(self)@.data.len() + i,
                old(self)@.data.len() + 2 < u32::MAX,
                self@ == old(self)@.after_operand_symbols(i as nat),
                self@.instruction.wf(),
                self@.matches_encoding() == old(self)@.matches_encoding(),
            decreases size - i,
        {
            let value = self.instruction.arg[i as usize];
            let indirect = match i {
                0 => true,
                1 => self.instruction.args & 0x02 != 0,
                _ => self.instruction.args & 0x01 != 0,
            };
            let name = if indirect {
                self.get_mem_label(value)
            } else {
                tagged_name("CONST_", value)
            };
            self.add_symbol(i as usize, name, value);
            i += 1;
        }
    }

    /// Loads the instruction at `address`, names its operands in the list of
    /// symbols, and returns the address of the instruction that follows.
    pub fn disassemble(&mut self, mem: &mut Memory, address: u32) -> (next: u32)
        requires
            old(self)@.data.len() + 2 < u32::MAX,
        ensures
            (final(self)@, final(mem)@) == old(self)@.after_disassemble(old(mem)@, address),
            next == final(self)@.pc_in(final(mem)@),
            final(self)@.instruction.wf(),
            final(self)@.matches_encoding(),
            final(self)@.data.len() <= old(self)@.data.len() + 3,
    {
        self.load_opcode_data(mem, address);
        match self.instruction.opcode {
            Op::STR | Op::LDR => self.transfer_symbols(mem),
            Op::CLL => self.call_symbols(),
            Op::JMP => self.jump_symbols(mem),
            _ => self.operand_symbols(),
        }
        self.get_pc(mem)
    }

    fn push_operand_text(&self, s: &mut String, slot: u8)
        requires
            slot < 3,
        ensures
            final(s)@ == old(s)@ + self@.operand_text(slot as int),
    {
        let shown = match self.instruction.addressing_type {
            ArgumentSize::Int => self.instruction.arg[slot as usize],
            ArgumentSize::Byte => byte_of(self.instruction.arg[slot as usize], 0) as u32,
        };
        let indirect = match slot {
            0 => self.instruction.args & 0x04 != 0,
            1 => self.instruction.args & 0x02 != 0,
            _ => self.instruction.args & 0x01 != 0,
        };
        if indirect {
            s.append(" [");
            let name = self.get_mem_label(shown);
            s.append(name.as_str());
            s.append("]");
        } else {
            s.append(" ");
            push_dec(s, shown);
        }
        assert(s@ =~= old(s)@ + self@.operand_text(slot as int));
    }

    fn push_operand_bytes(&self, s: &mut String, slot: u8)
        requires
            slot < 3,
        ensures
            final(s)@ == old(s)@ + self@.operand_bytes_text(slot as int),
    {
        let v = self.instruction.arg[slot as usize];
        s.append(" ");
        match self.instruction.addressing_type {
            ArgumentSize::Int => {
                push_hex(s, byte_of(v, 0) as u32, 2);
                push_hex(s, byte_of(v, 1) as u32, 2);
                push_hex(s, byte_of(v, 2) as u32, 2);
                push_hex(s, byte_of(v, 3) as u32, 2);
            },
            ArgumentSize::Byte => {
                push_hex(s, byte_of(v, 0) as u32, 2);
            },
        }
        assert(s@ =~= old(s)@ + self@.operand_bytes_text(slot as int));
    }

    fn text_head(&self) -> (s: String)
        ensures
            s@ == self@.text_head(),
    {
        let mut s = String::from_str("$");
        push_hex(&mut s, self.prev_pc, 4);
        s.append(":");
        let label = self.get_code_label(self.prev_pc);
        s.append(label.as_str());
        match self.instruction.addressing_type {
            ArgumentSize::Int => s.append(" i"),
            ArgumentSize::Byte => s.append(" b"),
        }
        s.append(mnemonic_str(self.instruction.opcode));
        s.append(",");
        assert(s@ =~= self@.text_head());
        s
    }

    /// The loaded instruction as a line of text.
    pub fn instruction_to_text(&self) -> (line: String)
        requires
            self@.instruction.wf(),
        ensures
            line@ == self@.text(),
    {
        let mut s = self.text_head();
        let ghost head = s@;
        let size = self.instruction.size;
        match self.instruction.opcode {
            Op::JMP => {
                s.append(" ");
                let name = self.get_mem_label(self.instruction.arg[0]);
                s.append(name.as_str());
                s.append(",");
                push_dec(&mut s, self.instruction.arg[1]);
            },
            _ => {
                let mut i: u8 = 0;
                while i < size
                    invariant
                        i <= size <= 3,
                        s@ == head + self@.operands_text(i as nat),
                    decreases size - i,
                {
                    self.push_operand_text(&mut s, i);
                    i += 1;
                    assert(s@ =~= head + self@.operands_text(i as nat));
                }
            },
        }
        assert(s@ =~= head + self@.text_operands());
        s.append("\t");
        s.append(" ");
        push_hex(&mut s, self.instruction_u8 as u32, 2);
        let ghost front = s@;
        let mut i: u8 = 0;
        while i < size
            invariant
                i <= size <= 3,
                s@ == front + self@.bytes_text(i as nat),
            decreases size - i,
        {
            self.push_operand_bytes(&mut s, i);
            i += 1;
            assert(s@ =~= front + self@.bytes_text(i as nat));
        }
        s.append("\n");
        assert(s@ =~= self@.text());
        s
    }
}

} // verus!
