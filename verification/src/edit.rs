//! The assembler and the staged editing of one instruction: choices of
//! opcode, addressing modes and operand values are held back until they are
//! committed together.

use vstd::prelude::*;
use crate::cpu::{wrap32, CpuView, ItemView, CPU};
use crate::memory::{set_byte, Memory};
use crate::opcodes::{get_opcode, lemma_encode_decode, push_operand_addr};
use crate::symbols::BUILTIN_ITEMS;

verus! {

/// The mode bit of one operand after a choice: kept as it is without a
/// choice, set for indirect, clear for direct.
pub open spec fn mode_bits(args: u8, choice: Option<bool>, bit: u8) -> u8 {
    match choice {
        None => args & bit,
        Some(true) => bit,
        Some(false) => 0,
    }
}

/// The addressing mask after a choice for each operand.
pub open spec fn merged_mask(
    args: u8,
    first: Option<bool>,
    second: Option<bool>,
    third: Option<bool>,
) -> u8 {
    mode_bits(args, first, 0x04) | mode_bits(args, second, 0x02) | mode_bits(args, third, 0x01)
}

/// What a number chooses as an addressing mode: -1 nothing, 1 indirect,
/// any other number direct.
pub open spec fn mode_choice(choice: i32) -> Option<bool> {
    if choice == -1 {
        None
    } else {
        Some(choice == 1)
    }
}

/// Opcode and width bits of an encoding byte after a choice of command.
/// Without a choice (-1) the five high bits of the current byte stay; else
/// the four low bits of the command select the opcode, and its bit 4 the
/// 32-bit width.
pub open spec fn command_bits(current: u8, cmd: i32) -> u8 {
    if cmd == -1 {
        current & 0xF8
    } else {
        ((((cmd & 0x0F) << 4) & 0xF0) as u8) | (if cmd & 0x10 > 0 { 0x08u8 } else { 0x00u8 })
    }
}

/// The operand after a choice from the list of symbols: the value of the
/// symbol at `choice` where that is a symbol past the built-in entries,
/// else the operand as it is.
pub open spec fn chosen_value(data: Seq<ItemView>, current: u32, choice: i32) -> u32 {
    if BUILTIN_ITEMS <= choice < data.len() {
        data[choice as int].value
    } else {
        current
    }
}

impl CpuView {
    /// The processor after `set_opcode`.
    pub open spec fn after_set_opcode(self, cmd: i32, mod1: i32, mod2: i32, mod3: i32) -> CpuView {
        self.with_decoded(
            command_bits(self.instruction_u8, cmd) | merged_mask(
                self.instruction.args,
                mode_choice(mod1),
                mode_choice(mod2),
                mode_choice(mod3),
            ),
        )
    }

    /// The processor after `parse_args`.
    pub open spec fn after_parse_args(self, arg1: i32, arg2: i32, arg3: i32) -> CpuView {
        self.with_arg(0, chosen_value(self.data, self.arg(0), arg1)).with_arg(
            1,
            chosen_value(self.data, self.arg(1), arg2),
        ).with_arg(2, chosen_value(self.data, self.arg(2), arg3))
    }

    /// Processor and memory after `assemble`: the instruction is encoded,
    /// the encoding byte is written at the program counter and the operands
    /// after it, and the program counter is left behind the last of them.
    pub open spec fn after_assemble(self, m: Seq<u8>) -> (CpuView, Seq<u8>) {
        let byte = self.instruction.encoding();
        let c1 = CpuView { instruction_u8: byte, ..self };
        let pc = c1.pc_in(m);
        let (c2, m2) = c1.with_pc(set_byte(m, pc as int, byte), wrap32(pc + 1));
        c2.after_push(m2, self.instruction.size as nat)
    }
}

fn mode_of(choice: i32) -> (mode: Option<bool>)
    ensures
        mode == mode_choice(choice),
{
    if choice == -1 {
        None
    } else {
        Some(choice == 1)
    }
}

fn merge_mask(args: u8, first: Option<bool>, second: Option<bool>, third: Option<bool>) -> (mask: u8)
    ensures
        mask == merged_mask(args, first, second, third),
{
    let b0: u8 = match first {
        None => args & 0x04,
        Some(true) => 0x04,
        Some(false) => 0,
    };
    let b1: u8 = match second {
        None => args & 0x02,
        Some(true) => 0x02,
        Some(false) => 0,
    };
    let b2: u8 = match third {
        None => args & 0x01,
        Some(true) => 0x01,
        Some(false) => 0,
    };
    b0 | b1 | b2
}

impl CPU {
    /// Changes the opcode, the width and the addressing modes of the loaded
    /// instruction. -1 leaves a part as it is.
    pub fn set_opcode(&mut self, cmd: i32, mod1: i32, mod2: i32, mod3: i32)
        ensures
            final(self)@ == old(self)@.after_set_opcode(cmd, mod1, mod2, mod3),
            final(self)@.instruction.wf(),
            final(self)@.matches_encoding(),
    {
        let high: u8 = if cmd == -1 {
            self.instruction_u8 & 0xF8
        } else {
            let nibble: u8 = (((cmd & 0x0F) << 4) & 0xF0) as u8;
            if cmd & 0x10 > 0 {
                nibble | 0x08
            } else {
                nibble | 0x00
            }
        };
        let mask = merge_mask(self.instruction.args, mode_of(mod1), mode_of(mod2), mode_of(mod3));
        self.set_decoded(high | mask);
    }

    /// Takes the operands chosen from the list of symbols. A choice that is
    /// no symbol past the built-in entries leaves its operand as it is.
    pub fn parse_args(&mut self, arg1: i32, arg2: i32, arg3: i32)
        ensures
            final(self)@ == old(self)@.after_parse_args(arg1, arg2, arg3),
    {
        self.take_value(0, arg1);
        self.take_value(1, arg2);
        self.take_value(2, arg3);
    }

    fn take_value(&mut self, slot: usize, choice: i32)
        requires
            slot < 3,
        ensures
            final(self)@ == old(self)@.with_arg(
                slot as int,
                chosen_value(old(self)@.data, old(self)@.arg(slot as int), choice),
            ),
    {
        if choice > 4 && (choice as usize) < self.data.len() {
            self.instruction.arg[slot] = self.data[choice as usize].value;
        }
        assert(self@.instruction.arg =~= old(self)@.with_arg(
            slot as int,
            chosen_value(old(self)@.data, old(self)@.arg(slot as int), choice),
        ).instruction.arg);
    }

    /// Encodes the loaded instruction and writes it to memory at the program
    /// counter.
    pub fn assemble(&mut self, mem: &mut Memory)
        requires
            old(self)@.instruction.wf(),
        ensures
            (final(self)@, final(mem)@) == old(self)@.after_assemble(old(mem)@),
            final(self)@.instruction == old(self)@.instruction,
            old(self)@.matches_encoding() ==> final(self)@.matches_encoding()
                && final(self).instruction_u8 == old(self).instruction_u8,
    {
        proof {
            lemma_encode_decode(self.instruction_u8);
        }
        let op = get_opcode(self);
        self.instruction_u8 = op;
        let pc = self.get_pc(mem);
        self.write_byte(mem, pc, op);
        self.set_pc(mem, pc.wrapping_add(1));
        push_operand_addr(self, mem);
    }
}

/// Number of built-in entries of the list of symbols that ask for a new
/// value: a register, a constant, a label or variable, static data.
pub const NEW_VALUE_ENTRIES: u32 = 4;

/// The choices made for one instruction and not yet committed: a command
/// (the index of an opcode with its width), and for each operand an
/// addressing mode (1 for indirect, any other number for direct) and the
/// index of a symbol.
pub struct StagedEdit {
    pub opcode: Option<u32>,
    pub modes: [Option<u32>; 3],
    pub values: [Option<u32>; 3],
}

/// The staged choices as a value.
#[verifier::ext_equal]
pub struct EditView {
    pub opcode: Option<u32>,
    pub modes: Seq<Option<u32>>,
    pub values: Seq<Option<u32>>,
}

impl View for StagedEdit {
    type V = EditView;

    open spec fn view(&self) -> EditView {
        EditView { opcode: self.opcode, modes: self.modes@, values: self.values@ }
    }
}

/// No choice at all.
pub open spec fn no_edit() -> EditView {
    EditView {
        opcode: None,
        modes: seq![None, None, None],
        values: seq![None, None, None],
    }
}

/// Why a commit was refused.
#[derive(Clone, Copy, Debug, PartialEq, Eq, Structural)]
pub enum CommitError {
    /// The symbol chosen for operand `slot` is the built-in entry at place
    /// `entry`, which asks for a new value to be made first.
    NeedsValue { slot: u8, entry: u32 },
    /// The index chosen for operand `slot` is the heading of the list or
    /// lies past its end.
    NotAValue { slot: u8, index: u32 },
}

/// What is wrong with the symbol chosen for one operand, if anything.
pub open spec fn value_fault(len: nat, slot: u8, choice: Option<u32>) -> Option<CommitError> {
    match choice {
        None => None,
        Some(index) => if index < NEW_VALUE_ENTRIES {
            Some(CommitError::NeedsValue { slot, entry: index })
        } else if index < BUILTIN_ITEMS || index >= len {
            Some(CommitError::NotAValue { slot, index })
        } else {
            None
        },
    }
}

/// The fault of the first operand that has one.
pub open spec fn first_fault(len: nat, values: Seq<Option<u32>>) -> Option<CommitError> {
    if value_fault(len, 0, values[0]) is Some {
        value_fault(len, 0, values[0])
    } else if value_fault(len, 1, values[1]) is Some {
        value_fault(len, 1, values[1])
    } else {
        value_fault(len, 2, values[2])
    }
}

/// Opcode and width bits of an encoding byte after a staged choice of
/// command: the four low bits of the command select the opcode, its bit 4
/// the 32-bit width.
pub open spec fn staged_command_bits(current: u8, choice: Option<u32>) -> u8 {
    match choice {
        None => current & 0xF8,
        Some(cmd) => ((((cmd & 0x0F) << 4) & 0xF0) as u8) | (if cmd & 0x10 > 0 {
            0x08u8
        } else {
            0x00u8
        }),
    }
}

/// What a staged number chooses as an addressing mode.
pub open spec fn staged_mode(choice: Option<u32>) -> Option<bool> {
    match choice {
        None => None,
        Some(mode) => Some(mode == 1),
    }
}

/// The operand after a staged choice that has no fault.
pub open spec fn staged_value(data: Seq<ItemView>, current: u32, choice: Option<u32>) -> u32 {
    match choice {
        None => current,
        Some(index) => data[index as int].value,
    }
}

impl CpuView {
    /// The encoding byte that a commit of these choices writes.
    pub open spec fn staged_byte(self, edit: EditView) -> u8 {
        staged_command_bits(self.instruction_u8, edit.opcode) | merged_mask(
            self.instruction.args,
            staged_mode(edit.modes[0]),
            staged_mode(edit.modes[1]),
            staged_mode(edit.modes[2]),
        )
    }

    /// The processor with the staged choices taken into the loaded
    /// instruction: every part without a choice stays as it was decoded.
    pub open spec fn with_edit(self, edit: EditView) -> CpuView {
        self.with_decoded(self.staged_byte(edit)).with_arg(
            0,
            staged_value(self.data, self.arg(0), edit.values[0]),
        ).with_arg(1, staged_value(self.data, self.arg(1), edit.values[1])).with_arg(
            2,
            staged_value(self.data, self.arg(2), edit.values[2]),
        )
    }

    /// Processor and memory after a commit without fault: the choices are
    /// taken, and the whole instruction is written at its address.
    pub open spec fn after_commit(self, m: Seq<u8>, edit: EditView) -> (CpuView, Seq<u8>) {
        let c = self.with_edit(edit);
        let (c2, m2) = c.with_pc(m, c.prev_pc);
        c2.after_assemble(m2)
    }
}

fn value_check(len: usize, slot: u8, choice: Option<u32>) -> (fault: Option<CommitError>)
    ensures
        fault == value_fault(len as nat, slot, choice),
{
    match choice {
        None => None,
        Some(index) => if index < NEW_VALUE_ENTRIES {
            Some(CommitError::NeedsValue { slot, entry: index })
        } else if index < BUILTIN_ITEMS || index as usize >= len {
            Some(CommitError::NotAValue { slot, index })
        } else {
            None
        },
    }
}

fn mode_of_staged(choice: Option<u32>) -> (mode: Option<bool>)
    ensures
        mode == staged_mode(choice),
{
    match choice {
        None => None,
        Some(mode) => Some(mode == 1),
    }
}

impl StagedEdit {
    /// No choice at all.
    pub fn new() -> (edit: StagedEdit)
        ensures
            edit@ == no_edit(),
    {
        let edit = StagedEdit { opcode: None, modes: [None, None, None], values: [None, None, None] };
        assert(edit@.modes =~= no_edit().modes);
        assert(edit@.values =~= no_edit().values);
        edit
    }

    /// Stages a command: the index of an opcode with its width.
    pub fn set_pending_opcode(&mut self, idx: u32)
        ensures
            final(self)@ == (EditView { opcode: Some(idx), ..old(self)@ }),
    {
        self.opcode = Some(idx);
    }

    /// Stages the addressing mode of one operand: 1 for indirect, any other
    /// number for direct.
    pub fn set_pending_addressing(&mut self, slot: usize, mode: u32)
        requires
            slot < 3,
        ensures
            final(self)@ == (EditView {
                modes: old(self)@.modes.update(slot as int, Some(mode)),
                ..old(self)@
            }),
    {
        self.modes[slot] = Some(mode);
    }

    /// Stages the symbol of one operand, by its index in the list.
    pub fn set_pending_value(&mut self, slot: usize, index: u32)
        requires
            slot < 3,
        ensures
            final(self)@ == (EditView {
                values: old(self)@.values.update(slot as int, Some(index)),
                ..old(self)@
            }),
    {
        self.values[slot] = Some(index);
    }

    /// Drops every choice.
    pub fn reset(&mut self)
        ensures
            final(self)@ == no_edit(),
    {
        self.opcode = None;
        self.modes = [None, None, None];
        self.values = [None, None, None];
        assert(self@.modes =~= no_edit().modes);
        assert(self@.values =~= no_edit().values);
    }
}

impl CPU {
    fn take_staged(&mut self, slot: usize, choice: Option<u32>)
        requires
            slot < 3,
            choice is Some ==> choice->0 < old(self)@.data.len(),
        ensures
            final(self)@ == old(self)@.with_arg(
                slot as int,
                staged_value(old(self)@.data, old(self)@.arg(slot as int), choice),
            ),
    {
        match choice {
            Some(index) => {
                self.instruction.arg[slot] = self.data[index as usize].value;
            },
            None => {},
        }
        assert(self@.instruction.arg =~= old(self)@.with_arg(
            slot as int,
            staged_value(old(self)@.data, old(self)@.arg(slot as int), choice),
        ).instruction.arg);
    }

    /// Commits the staged choices to the loaded instruction and writes the
    /// whole instruction to memory at its address; the choices are then
    /// dropped. Where the symbol chosen for an operand is a built-in entry
    /// or no entry at all, nothing is changed and the fault is returned.
    pub fn commit(&mut self, mem: &mut Memory, edit: &mut StagedEdit) -> (result: Result<
        (),
        CommitError,
    >)
        ensures
            match result {
                Ok(_) => {
                    &&& first_fault(old(self)@.data.len(), old(edit)@.values) is None
                    &&& (final(self)@, final(mem)@) == old(self)@.after_commit(old(mem)@, old(edit)@)
                    &&& final(edit)@ == no_edit()
                    &&& final(self)@.matches_encoding()
                },
                Err(fault) => {
                    &&& first_fault(old(self)@.data.len(), old(edit)@.values) == Some(fault)
                    &&& final(self)@ == old(self)@
                    &&& final(mem)@ == old(mem)@
                    &&& final(edit)@ == old(edit)@
                },
            },
    {
        let len = self.data.len();
        match value_check(len, 0, edit.values[0]) {
            Some(fault) => {
                return Err(fault);
            },
            None => {},
        }
        match value_check(len, 1, edit.values[1]) {
            Some(fault) => {
                return Err(fault);
            },
            None => {},
        }
        match value_check(len, 2, edit.values[2]) {
            Some(fault) => {
                return Err(fault);
            },
            None => {},
        }
        let high: u8 = match edit.opcode {
            None => self.instruction_u8 & 0xF8,
            Some(cmd) => {
                let nibble: u8 = (((cmd & 0x0F) << 4) & 0xF0) as u8;
                if cmd & 0x10 > 0 {
                    nibble | 0x08
                } else {
                    nibble | 0x00
                }
            },
        };
        let mask = merge_mask(
            self.instruction.args,
            mode_of_staged(edit.modes[0]),
            mode_of_staged(edit.modes[1]),
            mode_of_staged(edit.modes[2]),
        );
        self.set_decoded(high | mask);
        self.take_staged(0, edit.values[0]);
        self.take_staged(1, edit.values[1]);
        self.take_staged(2, edit.values[2]);
        self.set_pc(mem, self.prev_pc);
        self.assemble(mem);
        edit.reset();
        Ok(())
    }
}

} // verus!
